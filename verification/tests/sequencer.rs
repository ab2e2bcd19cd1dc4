use rollup_kernels::sequencer::Sequencer;

#[test]
fn operations_become_consecutive_messages() {
    let mut sequencer = Sequencer::new();
    let first = sequencer.on_operation(vec![1, 2, 3]);
    let second = sequencer.on_operation(vec![4]);
    assert_eq!(first.level, 0);
    assert_eq!(first.id, 0);
    assert_eq!(first.as_ref(), &[1u8, 2, 3][..]);
    assert_eq!(second.level, 0);
    assert_eq!(second.id, 1);
    assert_eq!(second.as_ref(), &[4u8][..]);
}

#[test]
fn message_ids_count_from_zero() {
    let mut sequencer = Sequencer::new();
    for j in 0..10u32 {
        let message = sequencer.on_operation(vec![j as u8; j as usize]);
        assert_eq!(message.level, 0);
        assert_eq!(message.id, j);
        assert_eq!(message.as_ref(), &vec![j as u8; j as usize][..]);
    }
}
