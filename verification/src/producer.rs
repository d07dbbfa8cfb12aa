//! The producer's side of the protocol.
//!
//! A producer delivers the values `1..=ITEM_COUNT` in order, each exactly once.
//! Whoever drives it acquires the lock on the shared queue, calls
//! [`Producer::step`] once, releases the lock and only then waits for as long
//! as the outcome asks.

use vstd::prelude::*;
use crate::queue::{Queue, QueueState};

verus! {

/// How many values a producer delivers.
pub const ITEM_COUNT: i32 = 10;

/// Milliseconds a producer waits after a value was enqueued.
pub const PRODUCER_ITEM_DELAY_MS: u64 = 100;

/// Milliseconds a producer waits before it retries on a full queue.
pub const PRODUCER_BACKOFF_MS: u64 = 50;

/// What one attempt of the producer did.
#[derive(Clone, Copy, Debug, PartialEq, Eq, Structural)]
pub enum ProducerStep {
    /// The value was enqueued; the producer has moved on to the next one.
    Produced(i32),
    /// The queue was full: nothing was enqueued and the same value is due again.
    Backoff,
    /// Every value had been delivered before: nothing was done.
    Finished,
}

/// What a producer whose next value is `next` does on a queue in state `queue`.
pub open spec fn producer_outcome(next: int, queue: QueueState<i32>) -> ProducerStep {
    if next > ITEM_COUNT {
        ProducerStep::Finished
    } else if queue.is_full() {
        ProducerStep::Backoff
    } else {
        ProducerStep::Produced(next as i32)
    }
}

impl ProducerStep {
    /// The wait that follows this outcome, in milliseconds; none once the
    /// producer has finished.
    pub open spec fn delay(self) -> Option<u64> {
        match self {
            ProducerStep::Produced(_) => Some(PRODUCER_ITEM_DELAY_MS),
            ProducerStep::Backoff => Some(PRODUCER_BACKOFF_MS),
            ProducerStep::Finished => None,
        }
    }

    /// The wait that follows this outcome, in milliseconds; `None` once the
    /// producer has finished.
    pub fn delay_ms(&self) -> (delay: Option<u64>)
        ensures
            delay == self.delay(),
    {
        match self {
            ProducerStep::Produced(_) => Some(PRODUCER_ITEM_DELAY_MS),
            ProducerStep::Backoff => Some(PRODUCER_BACKOFF_MS),
            ProducerStep::Finished => None,
        }
    }
}

/// The producer's progress: the value it delivers next.
pub struct Producer {
    next: i32,
}

impl Producer {
    #[verifier::type_invariant]
    spec fn inv(self) -> bool {
        1 <= self.next <= ITEM_COUNT + 1
    }

    /// The value that is delivered next; `ITEM_COUNT + 1` once all are delivered.
    pub closed spec fn next_value(&self) -> int {
        self.next as int
    }

    /// A producer that has delivered nothing yet.
    pub fn new() -> (producer: Self)
        ensures
            producer.next_value() == 1,
    {
        Producer { next: 1 }
    }

    /// Whether every value has been delivered.
    pub fn is_finished(&self) -> (finished: bool)
        ensures
            finished == (self.next_value() > ITEM_COUNT),
            1 <= self.next_value() <= ITEM_COUNT + 1,
    {
        proof {
            use_type_invariant(self);
        }
        self.next > ITEM_COUNT
    }

    /// One attempt under the lock: enqueues the value that is due unless the
    /// queue is full or nothing is left to deliver. Only a successful enqueue
    /// changes anything.
    pub fn step(&mut self, queue: &mut Queue<i32>) -> (outcome: ProducerStep)
        ensures
            outcome == producer_outcome(old(self).next_value(), old(queue)@),
            1 <= final(self).next_value() <= ITEM_COUNT + 1,
            final(queue)@.wf(),
            match outcome {
                ProducerStep::Produced(value) => {
                    &&& value == old(self).next_value()
                    &&& final(self).next_value() == old(self).next_value() + 1
                    &&& final(queue)@ == old(queue)@.enqueue(value)
                },
                ProducerStep::Backoff | ProducerStep::Finished => {
                    &&& *final(self) == *old(self)
                    &&& *final(queue) == *old(queue)
                },
            },
    {
        proof {
            use_type_invariant(&*self);
            use_type_invariant(&*queue);
        }
        if self.next > ITEM_COUNT {
            return ProducerStep::Finished;
        }
        if queue.is_full() {
            return ProducerStep::Backoff;
        }
        let value: i32 = self.next;
        queue.enqueue(value);
        self.next = value + 1;
        ProducerStep::Produced(value)
    }
}

} // verus!
