use crate::rng::{thread_rng, thread_rng_between};
use rand::rngs::ThreadRng;
use vstd::prelude::*;

verus! {

/// The value that tells a consumer to stop.
pub const TERMINATION_SIGNAL: i32 = -1;

/// Number of items all producers make together.
pub const ITEM_COUNT: usize = 20;

/// Number of producer threads.
pub const PRODUCER_COUNT: usize = 2;

/// Number of consumer threads.
pub const CONSUMER_COUNT: usize = 3;

/// Smallest item a producer makes.
pub const LOWEST_ITEM: i32 = 1;

/// Largest item a producer makes.
pub const HIGHEST_ITEM: i32 = 100;

/// A producer's source of items: the thread-local random generator.
pub struct ItemSource {
    rng: ThreadRng,
}

impl ItemSource {
    /// A source drawing from this thread's generator.
    pub fn new() -> ItemSource {
        ItemSource { rng: thread_rng() }
    }

    /// The next item, a random number from 1 to 100; never the termination
    /// signal.
    pub fn next_item(&mut self) -> (num: i32)
        ensures
            LOWEST_ITEM <= num <= HIGHEST_ITEM,
            num != TERMINATION_SIGNAL,
    {
        thread_rng_between(&mut self.rng, LOWEST_ITEM, HIGHEST_ITEM + 1)
    }
}

/// What a consumer does with a received value.
#[derive(Clone, Copy, Debug, PartialEq, Eq, Structural)]
pub enum ConsumerAction {
    /// The termination signal came: leave the loop.
    Stop,
    /// Process this item.
    Consume(i32),
}

/// The action for `value`: stop on the termination signal, consume anything else.
pub open spec fn action_for(value: i32) -> ConsumerAction {
    if value == TERMINATION_SIGNAL {
        ConsumerAction::Stop
    } else {
        ConsumerAction::Consume(value)
    }
}

/// Decides what a consumer does with a value it received.
pub fn consumer_step(value: i32) -> (a: ConsumerAction)
    ensures
        a == action_for(value),
{
    if value == TERMINATION_SIGNAL {
        ConsumerAction::Stop
    } else {
        ConsumerAction::Consume(value)
    }
}

/// Items of producers never stop a consumer: every value a source yields is
/// consumed, and only the signal stops.
pub proof fn lemma_items_are_consumed(num: i32)
    requires
        LOWEST_ITEM <= num <= HIGHEST_ITEM,
    ensures
        action_for(num) == ConsumerAction::Consume(num),
        action_for(TERMINATION_SIGNAL) == ConsumerAction::Stop,
{
}

} // verus!
