//! Watching the door switch.
//!
//! The switch pulls its pin to ground while the door is open. The watcher
//! turns the levels that the caller reads from the pin into messages to
//! publish: one for the level at start, and one whenever a reading shows
//! another door state than the last one it recognized. A reading that failed
//! changes nothing.

use vstd::prelude::*;

verus! {

/// Whether a pin level means that the door is open.
pub open spec fn level_is_open(level: u32) -> bool {
    level == 0
}

/// Tells whether a pin level means that the door is open.
pub fn door_is_open(level: u32) -> (open: bool)
    ensures
        open == level_is_open(level),
{
    level == 0
}

/// What one sample does to a watcher that last recognized `last`: the door
/// state it recognizes afterwards, and the message to publish, if any.
/// `None` as a sample is a reading that failed.
pub open spec fn step(last: bool, sample: Option<u32>) -> (bool, Option<bool>) {
    match sample {
        Some(level) => if level_is_open(level) != last {
            (level_is_open(level), Some(level_is_open(level)))
        } else {
            (last, None)
        },
        None => (last, None),
    }
}

/// The door state that a watcher recognizes which started at level `first`
/// and then took `samples`.
pub open spec fn state_after(first: u32, samples: Seq<Option<u32>>) -> bool
    decreases samples.len(),
{
    if samples.len() == 0 {
        level_is_open(first)
    } else {
        step(state_after(first, samples.drop_last()), samples.last()).0
    }
}

/// All messages that such a watcher asked to publish, in order.
pub open spec fn published(first: u32, samples: Seq<Option<u32>>) -> Seq<bool>
    decreases samples.len(),
{
    if samples.len() == 0 {
        seq![level_is_open(first)]
    } else {
        let before = published(first, samples.drop_last());
        match step(state_after(first, samples.drop_last()), samples.last()).1 {
            Some(message) => before.push(message),
            None => before,
        }
    }
}

/// The door states that were read: the one at start, then one for each
/// sample that did not fail.
pub open spec fn readings(first: u32, samples: Seq<Option<u32>>) -> Seq<bool>
    decreases samples.len(),
{
    if samples.len() == 0 {
        seq![level_is_open(first)]
    } else {
        let before = readings(first, samples.drop_last());
        match samples.last() {
            Some(level) => before.push(level_is_open(level)),
            None => before,
        }
    }
}

/// How often a door state differs from the one read before it.
pub open spec fn changes(states: Seq<bool>) -> nat
    decreases states.len(),
{
    if states.len() <= 1 {
        0
    } else if states.last() != states[states.len() - 2] {
        changes(states.drop_last()) + 1
    } else {
        changes(states.drop_last())
    }
}

/// The watcher of the door switch. It remembers the door state that it last
/// recognized.
pub struct SensorWatcher {
    last: bool,
}

impl View for SensorWatcher {
    type V = bool;

    closed spec fn view(&self) -> bool {
        self.last
    }
}

impl SensorWatcher {
    /// Starts watching with the level read at start. The door state that it
    /// shows is always to be published.
    pub fn start(level: u32) -> (begun: (SensorWatcher, bool))
        ensures
            begun.0@ == level_is_open(level),
            begun.1 == level_is_open(level),
    {
        let open = door_is_open(level);
        (SensorWatcher { last: open }, open)
    }

    /// Takes one sample, `None` for a reading that failed, and says which
    /// door state to publish, if any.
    pub fn observe(&mut self, sample: Option<u32>) -> (message: Option<bool>)
        ensures
            (final(self)@, message) == step(old(self)@, sample),
    {
        match sample {
            Some(level) => {
                let open = door_is_open(level);
                if open != self.last {
                    self.last = open;
                    Some(open)
                } else {
                    None
                }
            },
            None => None,
        }
    }
}

/// The watcher always recognizes the door state that was read last, and its
/// last message said so.
pub proof fn lemma_last_message_is_state(first: u32, samples: Seq<Option<u32>>)
    ensures
        published(first, samples).len() >= 1,
        published(first, samples).last() == state_after(first, samples),
        readings(first, samples).len() >= 1,
        readings(first, samples).last() == state_after(first, samples),
    decreases samples.len(),
{
    if samples.len() > 0 {
        lemma_last_message_is_state(first, samples.drop_last());
    }
}

/// No message repeats the one before it: two messages in a row never carry
/// the same door state.
pub proof fn lemma_no_repeated_message(first: u32, samples: Seq<Option<u32>>)
    ensures
        forall|i: int|
            0 <= i < published(first, samples).len() - 1 ==> published(first, samples)[i]
                != #[trigger] published(first, samples)[i + 1],
    decreases samples.len(),
{
    if samples.len() > 0 {
        lemma_no_repeated_message(first, samples.drop_last());
        lemma_last_message_is_state(first, samples.drop_last());
    }
}

/// The watcher publishes one message for the state at start and exactly one
/// for each change among the door states read.
pub proof fn lemma_one_message_per_change(first: u32, samples: Seq<Option<u32>>)
    ensures
        published(first, samples).len() == 1 + changes(readings(first, samples)),
    decreases samples.len(),
{
    if samples.len() > 0 {
        let front = samples.drop_last();
        lemma_one_message_per_change(first, front);
        lemma_last_message_is_state(first, front);
        match samples.last() {
            Some(level) => {
                let all = readings(first, samples);
                assert(all == readings(first, front).push(level_is_open(level)));
                assert(all.drop_last() =~= readings(first, front));
                assert(all[all.len() - 2] == readings(first, front).last());
            },
            None => {},
        }
    }
}

/// A sample that shows the door state already recognized publishes nothing
/// and changes nothing.
pub proof fn lemma_same_state_is_silent(last: bool, level: u32)
    requires
        level_is_open(level) == last,
    ensures
        step(last, Some(level)) == (last, None::<bool>),
{
}

} // verus!
