use rollup_kernels::counter::{
    parse_inbox_kind, process_counter, process_payload, Counter, CounterError, InboxMessageKind,
    PayloadError,
};

#[test]
fn counter_counts() {
    let mut counter = Counter::new(5);
    assert_eq!(counter.get_num(), 5);
    assert_eq!(counter.increment(), 6);
    counter.decrement();
    assert_eq!(counter.get_num(), 5);
    counter.reset();
    assert_eq!(counter.get_num(), 0);
}

#[test]
fn negative_counter_converts_in_twos_complement() {
    let mut counter = Counter::new(-1);
    assert_eq!(counter.convert(), u64::MAX);
    assert_eq!(counter.get_num(), -1);
    let mut counter = Counter::new(-3);
    assert_eq!(counter.increment(), u64::MAX - 1);
}

#[test]
fn counter_storage() {
    assert_eq!(Counter::from_stored(None).unwrap().get_num(), 0);
    assert_eq!(Counter::from_stored(Some(vec![7])).unwrap().get_num(), 7);
    assert_eq!(Counter::from_stored(Some(vec![0xff])).unwrap().get_num(), -1);
    assert_eq!(Counter::from_stored(Some(vec![])).unwrap_err(), CounterError::NotAByte);
    assert_eq!(Counter::from_stored(Some(vec![1, 2])).unwrap_err(), CounterError::NotAByte);
    assert_eq!(Counter::new(-2).to_stored(), vec![0xfe]);
    for v in [i8::MIN, -1, 0, 1, i8::MAX] {
        let stored = Counter::new(v).to_stored();
        assert_eq!(Counter::from_stored(Some(stored)).unwrap().get_num(), v);
    }
}

#[test]
fn only_user_messages_and_transfers_count() {
    let mut counter = Counter::new(0);
    process_counter(&mut counter, InboxMessageKind::External);
    process_counter(&mut counter, InboxMessageKind::Transfer);
    process_counter(&mut counter, InboxMessageKind::StartOfLevel);
    process_counter(&mut counter, InboxMessageKind::EndOfLevel);
    process_counter(&mut counter, InboxMessageKind::OtherInternal);
    assert_eq!(counter.get_num(), 2);
}

#[test]
fn payloads_are_counted_by_kind() {
    // An external message: tag 1 then the bytes of the message.
    assert_eq!(parse_inbox_kind(&[1, 42, 43]), Some(InboxMessageKind::External));
    // Start and end of level: internal messages (tag 0) with their own tags.
    assert_eq!(parse_inbox_kind(&[0, 1]), Some(InboxMessageKind::StartOfLevel));
    assert_eq!(parse_inbox_kind(&[0, 2]), Some(InboxMessageKind::EndOfLevel));
    assert_eq!(parse_inbox_kind(&[7]), None);
    assert_eq!(parse_inbox_kind(&[]), None);

    let mut counter = Counter::new(0);
    assert_eq!(process_payload(&mut counter, &[1, 42]), Ok(()));
    assert_eq!(counter.get_num(), 1);
    assert_eq!(process_payload(&mut counter, &[0, 1]), Ok(()));
    assert_eq!(counter.get_num(), 1);
    assert_eq!(process_payload(&mut counter, &[9]), Err(PayloadError::NotAnInboxMessage));
    assert_eq!(counter.get_num(), 1);
    let mut full = Counter::new(i8::MAX);
    assert_eq!(process_payload(&mut full, &[1]), Err(PayloadError::Overflow));
    assert_eq!(full.get_num(), i8::MAX);
    assert_eq!(process_payload(&mut full, &[0, 2]), Ok(()));
}
