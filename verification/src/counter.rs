use vstd::prelude::*;

use tezos_smart_rollup::inbox::{InboxMessage, InternalInboxMessage};
use tezos_smart_rollup::michelson::MichelsonBytes;

verus! {

/// A counter held in one signed byte.
#[derive(Debug, Clone, Copy)]
pub struct Counter {
    val: i8,
}

/// The kind of an inbox message, as far as the counter kernel cares.
#[derive(Debug, Clone, Copy, PartialEq, Eq, Structural)]
pub enum InboxMessageKind {
    /// A message posted by a user to the rollup.
    External,
    /// A transfer from a layer 1 contract to the rollup.
    Transfer,
    /// The marker of the start of an inbox level.
    StartOfLevel,
    /// The marker of the end of an inbox level.
    EndOfLevel,
    /// Any other internal message of the protocol.
    OtherInternal,
}

/// Why the stored counter could not be read back.
#[derive(Debug, Clone, Copy, PartialEq, Eq, Structural)]
pub enum CounterError {
    /// The stored value is not exactly one byte long.
    NotAByte,
}

/// `v` read as an unsigned 64-bit number (two's complement for negative values).
pub open spec fn as_unsigned(v: i8) -> int {
    if v >= 0 {
        v as int
    } else {
        v + 0x1_0000_0000_0000_0000
    }
}

/// The byte `b` read as a signed number (two's complement).
pub open spec fn as_signed(b: u8) -> int {
    if b < 128 {
        b as int
    } else {
        b - 256
    }
}

/// The byte that stores `v` (two's complement).
pub open spec fn as_byte(v: i8) -> int {
    if v >= 0 {
        v as int
    } else {
        v + 256
    }
}

fn to_unsigned(v: i8) -> (u: u64)
    ensures
        u == as_unsigned(v),
{
    let u = v as u64;
    proof {
        assert(v >= 0 ==> u == (v as u64)) by (bit_vector)
            requires
                u == v as u64,
        ;
        assert(v < 0 ==> u == 0xffff_ffff_ffff_ffffu64 - ((-1 - v) as u64)) by (bit_vector)
            requires
                u == v as u64,
        ;
    }
    u
}

/// Whether a message of this kind counts: user messages and transfers do.
pub open spec fn counts(kind: InboxMessageKind) -> bool {
    kind == InboxMessageKind::External || kind == InboxMessageKind::Transfer
}

impl View for Counter {
    type V = i8;

    closed spec fn view(&self) -> i8 {
        self.val
    }
}

impl Counter {
    /// A counter holding `val`.
    pub fn new(val: i8) -> (counter: Counter)
        ensures
            counter@ == val,
    {
        Counter { val }
    }

    /// The value of the counter.
    pub fn get_num(&self) -> (num: i8)
        ensures
            num == self@,
    {
        self.val
    }

    /// Adds one and returns the new value as a `u64` (two's complement for
    /// negative values).
    pub fn increment(&mut self) -> (num: u64)
        requires
            old(self)@ < i8::MAX,
        ensures
            final(self)@ == old(self)@ + 1,
            num == as_unsigned(final(self)@),
    {
        self.val = self.val + 1;
        to_unsigned(self.val)
    }

    /// Subtracts one.
    pub fn decrement(&mut self)
        requires
            old(self)@ > i8::MIN,
        ensures
            final(self)@ == old(self)@ - 1,
    {
        self.val = self.val - 1;
    }

    /// Sets the counter back to 0.
    pub fn reset(&mut self)
        ensures
            final(self)@ == 0,
    {
        self.val = 0;
    }

    /// The value as a `u64` (two's complement for negative values).
    pub fn convert(&mut self) -> (num: u64)
        ensures
            final(self)@ == old(self)@,
            num == as_unsigned(old(self)@),
    {
        to_unsigned(self.val)
    }

    /// The counter read back from storage: nothing stored (or a failed read)
    /// counts as 0, one byte is the counter, anything else is an error.
    pub fn from_stored(stored: Option<Vec<u8>>) -> (counter: Result<Counter, CounterError>)
        ensures
            stored is None ==> (counter matches Ok(c) && c@ == 0),
            stored matches Some(bytes) ==> {
                &&& bytes@.len() == 1 ==> (counter matches Ok(c) && c@ == as_signed(bytes@[0]))
                &&& bytes@.len() != 1 ==> counter == Err::<Counter, CounterError>(
                    CounterError::NotAByte,
                )
            },
    {
        let bytes = match stored {
            Some(bytes) => bytes,
            None => vec![0u8],
        };
        if bytes.len() != 1 {
            return Err(CounterError::NotAByte);
        }
        let b = bytes[0];
        let val = b as i8;
        proof {
            assert(b < 128 ==> val == b) by (bit_vector)
                requires
                    val == b as i8,
            ;
            assert(b >= 128 ==> val == b - 256) by (bit_vector)
                requires
                    val == b as i8,
            ;
        }
        Ok(Counter { val })
    }

    /// The byte that stores the counter (its little-endian encoding).
    pub fn to_stored(&self) -> (bytes: Vec<u8>)
        ensures
            bytes@.len() == 1,
            bytes@[0] == as_byte(self@),
    {
        let v = self.val;
        let b = v as u8;
        proof {
            assert(v >= 0 ==> b == v) by (bit_vector)
                requires
                    b == v as u8,
            ;
            assert(v < 0 ==> b == v + 256) by (bit_vector)
                requires
                    b == v as u8,
            ;
        }
        vec![b]
    }
}

/// Counts one more message if `message` is a user message or a transfer.
pub fn process_counter(counter: &mut Counter, message: InboxMessageKind)
    requires
        counts(message) ==> old(counter)@ < i8::MAX,
    ensures
        counts(message) ==> final(counter)@ == old(counter)@ + 1,
        !counts(message) ==> final(counter)@ == old(counter)@,
        message is External || message is Transfer ==> final(counter)@ == old(counter)@ + 1,
        message is StartOfLevel || message is EndOfLevel || message is OtherInternal
            ==> final(counter)@ == old(counter)@,
{
    match message {
        InboxMessageKind::External => {
            counter.increment();
        },
        InboxMessageKind::Transfer => {
            counter.increment();
        },
        InboxMessageKind::StartOfLevel => {},
        InboxMessageKind::EndOfLevel => {},
        InboxMessageKind::OtherInternal => {},
    }
}

/// The kind of the inbox message that `payload` holds, if it holds one.
pub uninterp spec fn inbox_kind(payload: Seq<u8>) -> Option<InboxMessageKind>;

/// `InboxMessage::parse` of the rollup crate, keeping only the kind of message:
/// `None` when the payload is not an inbox message.
#[verifier::external_body]
pub fn parse_inbox_kind(payload: &[u8]) -> (kind: Option<InboxMessageKind>)
    ensures
        kind == inbox_kind(payload@),
{
    match InboxMessage::<MichelsonBytes>::parse(payload) {
        Ok((_, InboxMessage::External(_))) => Some(InboxMessageKind::External),
        Ok((_, InboxMessage::Internal(InternalInboxMessage::Transfer(_)))) => Some(
            InboxMessageKind::Transfer,
        ),
        Ok((_, InboxMessage::Internal(InternalInboxMessage::StartOfLevel))) => Some(
            InboxMessageKind::StartOfLevel,
        ),
        Ok((_, InboxMessage::Internal(InternalInboxMessage::EndOfLevel))) => Some(
            InboxMessageKind::EndOfLevel,
        ),
        Ok((_, InboxMessage::Internal(_))) => Some(InboxMessageKind::OtherInternal),
        Err(_) => None,
    }
}

/// Why a payload could not be counted.
#[derive(Debug, Clone, Copy, PartialEq, Eq, Structural)]
pub enum PayloadError {
    /// The payload is not an inbox message.
    NotAnInboxMessage,
    /// The payload counts but the counter is already at its largest value.
    Overflow,
}

/// Counts the inbox message that `payload` holds: a user message or a transfer
/// adds one, any other message leaves the counter as it is. The counter is left
/// unchanged when the payload is no inbox message, or when it would count past
/// `i8::MAX`.
pub fn process_payload(counter: &mut Counter, payload: &[u8]) -> (result: Result<(), PayloadError>)
    ensures
        inbox_kind(payload@) is None ==> result == Err::<(), PayloadError>(
            PayloadError::NotAnInboxMessage,
        ) && final(counter)@ == old(counter)@,
        inbox_kind(payload@) matches Some(kind) ==> {
            &&& counts(kind) && old(counter)@ == i8::MAX ==> result == Err::<(), PayloadError>(
                PayloadError::Overflow,
            ) && final(counter)@ == old(counter)@
            &&& counts(kind) && old(counter)@ < i8::MAX ==> result == Ok::<(), PayloadError>(())
                && final(counter)@ == old(counter)@ + 1
            &&& !counts(kind) ==> result == Ok::<(), PayloadError>(()) && final(counter)@ == old(
                counter,
            )@
        },
{
    let kind = match parse_inbox_kind(payload) {
        Some(kind) => kind,
        None => {
            return Err(PayloadError::NotAnInboxMessage);
        },
    };
    let counted = match kind {
        InboxMessageKind::External => true,
        InboxMessageKind::Transfer => true,
        _ => false,
    };
    if counted && counter.get_num() == i8::MAX {
        return Err(PayloadError::Overflow);
    }
    process_counter(counter, kind);
    Ok(())
}

/// A decrement undoes an increment.
pub proof fn decrement_undoes_increment(before: i8, incremented: i8, after: i8)
    requires
        before < i8::MAX,
        incremented == before + 1,
        after == incremented - 1,
    ensures
        after == before,
{
}

/// An increment undoes a decrement.
pub proof fn increment_undoes_decrement(before: i8, decremented: i8, after: i8)
    requires
        before > i8::MIN,
        decremented == before - 1,
        after == decremented + 1,
    ensures
        after == before,
{
}

/// Storing a counter and reading it back gives the same counter.
pub proof fn stored_counter_reads_back(counter: Counter, byte: u8)
    requires
        byte == as_byte(counter@),
    ensures
        as_signed(byte) == counter@,
{
}

} // verus!
