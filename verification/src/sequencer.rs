use vstd::prelude::*;

use tezos_smart_rollup_host::input::Message;

verus! {

#[verifier::external_type_specification]
#[verifier::external_body]
pub struct ExMessage(Message);

/// What a rollup inbox message holds: its inbox level, its index in the inbox
/// and its payload.
pub uninterp spec fn message_contents(message: Message) -> (u32, u32, Seq<u8>);

/// `Message::new` of the rollup host crate: the message holds the level, the
/// index and the payload it was built from.
#[verifier::external_body]
fn new_message(level: u32, id: u32, payload: Vec<u8>) -> (message: Message)
    ensures
        message_contents(message) == (level, id, payload@),
{
    Message::new(level, id, payload)
}

/// The sequencer: the operations received at the current layer 1 level.
#[derive(Debug)]
pub struct Sequencer {
    tezos_level: u32,
    batch: Vec<Vec<u8>>,
}

impl Sequencer {
    /// The layer 1 level of the current batch.
    pub closed spec fn level(&self) -> u32 {
        self.tezos_level
    }

    /// The payloads of the current batch, in the order they came.
    pub closed spec fn batch(&self) -> Seq<Seq<u8>> {
        self.batch@.map_values(|payload: Vec<u8>| payload@)
    }

    /// A sequencer at level 0 with an empty batch.
    pub fn new() -> (sequencer: Sequencer)
        ensures
            sequencer.level() == 0,
            sequencer.batch() == Seq::<Seq<u8>>::empty(),
    {
        let sequencer = Sequencer { tezos_level: 0, batch: Vec::new() };
        proof {
            assert(sequencer.batch() =~= Seq::<Seq<u8>>::empty());
        }
        sequencer
    }

    /// Adds `payload` to the batch and returns it as the inbox message at the
    /// next index of the current level.
    pub fn on_operation(&mut self, payload: Vec<u8>) -> (message: Message)
        requires
            old(self).batch().len() <= u32::MAX,
        ensures
            final(self).level() == old(self).level(),
            final(self).batch() == old(self).batch().push(payload@),
            message_contents(message) == (
                old(self).level(),
                old(self).batch().len() as u32,
                payload@,
            ),
    {
        let index = self.batch.len() as u32;
        let copy = payload.clone();
        proof {
            assert(copy@ =~= payload@);
        }
        let msg = new_message(self.tezos_level, index, copy);
        self.batch.push(payload);
        proof {
            assert(self.batch() =~= old(self).batch().push(payload@));
        }
        msg
    }
}

/// Two operations in a row become consecutive messages of the same level,
/// and the batch keeps both payloads in order.
pub proof fn operations_get_consecutive_indices(
    before: Sequencer,
    middle: Sequencer,
    after: Sequencer,
    first: Message,
    second: Message,
    first_payload: Seq<u8>,
    second_payload: Seq<u8>,
)
    requires
        middle.level() == before.level(),
        middle.batch() == before.batch().push(first_payload),
        message_contents(first) == (before.level(), before.batch().len() as u32, first_payload),
        after.level() == middle.level(),
        after.batch() == middle.batch().push(second_payload),
        message_contents(second) == (middle.level(), middle.batch().len() as u32, second_payload),
        before.batch().len() < u32::MAX,
    ensures
        message_contents(second).0 == message_contents(first).0,
        message_contents(second).1 == message_contents(first).1 + 1,
        after.batch() == before.batch().push(first_payload).push(second_payload),
{
}

/// `states[j + 1]` and `messages[j]` are what the `j`-th call of `on_operation`,
/// with `payloads[j]`, makes of `states[j]`.
pub open spec fn operation_steps(
    states: Seq<Sequencer>,
    messages: Seq<Message>,
    payloads: Seq<Seq<u8>>,
) -> bool {
    &&& states.len() == payloads.len() + 1
    &&& messages.len() == payloads.len()
    &&& forall|j: int|
        #![trigger payloads[j]]
        0 <= j < payloads.len() ==> operation_step(
            states[j],
            states[j + 1],
            messages[j],
            payloads[j],
        )
}

/// `after` and `message` are what `on_operation` with `payload` makes of `before`.
pub open spec fn operation_step(
    before: Sequencer,
    after: Sequencer,
    message: Message,
    payload: Seq<u8>,
) -> bool {
    &&& after.level() == before.level()
    &&& after.batch() == before.batch().push(payload)
    &&& message_contents(message) == (before.level(), before.batch().len() as u32, payload)
}

/// From a new sequencer, the operations become the messages of level 0 with
/// indices 0, 1, 2, ... in turn, and the batch holds their payloads in order.
pub proof fn operations_count_from_zero(
    states: Seq<Sequencer>,
    messages: Seq<Message>,
    payloads: Seq<Seq<u8>>,
)
    requires
        states.len() >= 1,
        states[0].level() == 0,
        states[0].batch() == Seq::<Seq<u8>>::empty(),
        operation_steps(states, messages, payloads),
    ensures
        states.last().batch() == payloads,
        forall|j: int|
            0 <= j < payloads.len() ==> #[trigger] message_contents(messages[j]) == (
                0u32,
                j as u32,
                payloads[j],
            ),
    decreases payloads.len(),
{
    if payloads.len() > 0 {
        let n = payloads.len() - 1;
        let s0 = states.drop_last();
        let m0 = messages.drop_last();
        let p0 = payloads.drop_last();
        assert forall|j: int| #![trigger p0[j]] 0 <= j < p0.len() implies operation_step(
            s0[j],
            s0[j + 1],
            m0[j],
            p0[j],
        ) by {
            assert(p0[j] == payloads[j]);
            assert(s0[j] == states[j] && s0[j + 1] == states[j + 1] && m0[j] == messages[j]);
        }
        assert(s0.len() == p0.len() + 1);
        assert(m0.len() == p0.len());
        assert(operation_steps(s0, m0, p0));
        operations_count_from_zero(s0, m0, p0);
        assert(payloads[n] == payloads[n]);
        assert(forall|j: int| 0 <= j <= n ==> #[trigger] states[j].level() == 0) by {
            assert forall|j: int| 0 <= j <= n implies #[trigger] states[j].level() == 0 by {
                lemma_levels_stay(states, messages, payloads, j);
            }
        }
        assert(states.last().batch() =~= payloads);
        assert forall|j: int| 0 <= j < payloads.len() implies #[trigger] message_contents(
            messages[j],
        ) == (0u32, j as u32, payloads[j]) by {
            if j < n {
                assert(message_contents(m0[j]) == (0u32, j as u32, p0[j]));
            } else {
                lemma_levels_stay(states, messages, payloads, j);
                assert(payloads[j] == payloads[j]);
                assert(states[j].batch() == s0.last().batch());
            }
        }
    }
}

proof fn lemma_levels_stay(
    states: Seq<Sequencer>,
    messages: Seq<Message>,
    payloads: Seq<Seq<u8>>,
    j: int,
)
    requires
        states.len() >= 1,
        states[0].level() == 0,
        operation_steps(states, messages, payloads),
        0 <= j < states.len(),
    ensures
        states[j].level() == 0,
    decreases j,
{
    if j > 0 {
        lemma_levels_stay(states, messages, payloads, j - 1);
        assert(payloads[j - 1] == payloads[j - 1]);
    }
}

} // verus!
