//! The consumer's side of the protocol.
//!
//! Whoever drives the consumer acquires the lock on the shared queue, calls
//! [`consume`] once, releases the lock and only then waits for as long as the
//! outcome asks. The consumer has no state of its own and never finishes.

use vstd::prelude::*;
use crate::queue::{Queue, QueueErr, QueueState};

verus! {

/// Milliseconds a consumer spends on a value it has taken.
pub const CONSUMER_PROCESS_DELAY_MS: u64 = 500;

/// Milliseconds a consumer waits before it retries on an empty queue.
pub const CONSUMER_BACKOFF_MS: u64 = 50;

/// What one attempt of the consumer did.
#[derive(Clone, Copy, Debug, PartialEq, Eq, Structural)]
pub enum ConsumerStep {
    /// The oldest pending value was taken from the queue.
    Consumed(i32),
    /// The queue was empty: nothing was taken.
    Backoff,
}

/// What a consumer does on a queue in state `queue`.
pub open spec fn consumer_outcome(queue: QueueState<i32>) -> ConsumerStep {
    if queue.is_empty() {
        ConsumerStep::Backoff
    } else {
        ConsumerStep::Consumed(queue.head())
    }
}

impl ConsumerStep {
    /// The wait that follows this outcome, in milliseconds.
    pub open spec fn delay(self) -> u64 {
        match self {
            ConsumerStep::Consumed(_) => CONSUMER_PROCESS_DELAY_MS,
            ConsumerStep::Backoff => CONSUMER_BACKOFF_MS,
        }
    }

    /// The wait that follows this outcome, in milliseconds.
    pub fn delay_ms(&self) -> (delay: u64)
        ensures
            delay == self.delay(),
    {
        match self {
            ConsumerStep::Consumed(_) => CONSUMER_PROCESS_DELAY_MS,
            ConsumerStep::Backoff => CONSUMER_BACKOFF_MS,
        }
    }
}

/// One attempt under the lock: takes the oldest pending value unless the queue
/// is empty. An empty queue is left exactly as it was.
pub fn consume(queue: &mut Queue<i32>) -> (outcome: ConsumerStep)
    ensures
        outcome == consumer_outcome(old(queue)@),
        final(queue)@.wf(),
        final(queue)@ == old(queue)@.dequeue(),
        outcome == ConsumerStep::Backoff ==> *final(queue) == *old(queue),
{
    let mut value: i32 = 0;
    match queue.dequeue(&mut value) {
        QueueErr::Success => ConsumerStep::Consumed(value),
        _ => ConsumerStep::Backoff,
    }
}

} // verus!
