//! The fixed-capacity queue.
//!
//! The queue keeps its items in a flat array and does not wrap around: `rear`
//! only moves forward until the queue has been drained completely, at which
//! point both indices go back to the start of the array.

use vstd::prelude::*;

verus! {

/// Number of slots of every queue.
pub const QUEUE_CAPACITY: usize = 6;

/// Outcome of an enqueue or dequeue attempt.
#[derive(Clone, Copy, Debug, PartialEq, Eq, Structural)]
pub enum QueueErr {
    /// The operation took effect.
    Success,
    /// Nothing was enqueued: the write position has reached the capacity.
    Full,
    /// Nothing was dequeued: the queue holds no item.
    Empty,
}

/// The value of a queue: its slots and its two indices.
#[verifier::ext_equal]
pub struct QueueState<T> {
    /// Content of every slot, occupied or not.
    pub slots: Seq<T>,
    /// Index of the next slot to read.
    pub front: nat,
    /// Index of the next slot to write.
    pub rear: nat,
}

impl<T> QueueState<T> {
    /// The indices are ordered and within the capacity, and an occupied queue
    /// always has an unread item: the indices meet only at the start.
    pub open spec fn wf(self) -> bool {
        &&& self.slots.len() == QUEUE_CAPACITY
        &&& self.front <= self.rear <= QUEUE_CAPACITY
        &&& (self.rear > 0 ==> self.front < self.rear)
    }

    /// The items that were enqueued and not yet dequeued, oldest first.
    pub open spec fn pending(self) -> Seq<T> {
        self.slots.subrange(self.front as int, self.rear as int)
    }

    /// The empty queue whose slots all hold `value`.
    pub open spec fn fresh(value: T) -> Self {
        QueueState { slots: Seq::new(QUEUE_CAPACITY as nat, |i: int| value), front: 0, rear: 0 }
    }

    /// No slot is left to write: the write position has reached the capacity.
    pub open spec fn is_full(self) -> bool {
        self.rear == QUEUE_CAPACITY
    }

    /// No item is pending.
    pub open spec fn is_empty(self) -> bool {
        self.rear == 0
    }

    /// The oldest pending item, meaningful when the queue is not empty.
    pub open spec fn head(self) -> T {
        self.slots[self.front as int]
    }

    /// The queue after an attempt to enqueue `item`: a full queue stays as it
    /// is, any other stores `item` at `rear` and advances `rear`.
    pub open spec fn enqueue(self, item: T) -> Self {
        if self.is_full() {
            self
        } else {
            QueueState {
                slots: self.slots.update(self.rear as int, item),
                front: self.front,
                rear: self.rear + 1,
            }
        }
    }

    /// The queue after an attempt to dequeue: an empty queue stays as it is,
    /// any other advances `front`, and when that consumes the last pending
    /// item both indices return to zero. No slot is rewritten.
    pub open spec fn dequeue(self) -> Self {
        if self.is_empty() {
            self
        } else if self.front + 1 == self.rear {
            QueueState { slots: self.slots, front: 0, rear: 0 }
        } else {
            QueueState { slots: self.slots, front: self.front + 1, rear: self.rear }
        }
    }
}

/// `value` is a value that `T::default()` may return.
pub open spec fn is_default<T: Default>(value: T) -> bool {
    call_ensures(T::default, (), value)
}

/// A fixed-capacity FIFO queue of `QUEUE_CAPACITY` slots.
pub struct Queue<T: Copy + Default> {
    data: [T; QUEUE_CAPACITY],
    front: usize,
    rear: usize,
}

impl<T: Copy + Default> View for Queue<T> {
    type V = QueueState<T>;

    closed spec fn view(&self) -> QueueState<T> {
        QueueState { slots: self.data@, front: self.front as nat, rear: self.rear as nat }
    }
}

impl<T: Copy + Default> Queue<T> {
    /// Every queue is well-formed at all times.
    #[verifier::type_invariant]
    pub open spec fn inv(self) -> bool {
        self@.wf()
    }

    /// An empty queue whose slots all hold the default value of `T`.
    pub fn new() -> (queue: Self)
        ensures
            queue@.wf(),
            queue@ == QueueState::fresh(queue@.slots[0]),
            is_default(queue@.slots[0]),
    {
        Queue { data: [T::default(); QUEUE_CAPACITY], front: 0, rear: 0 }
    }

    /// Whether the write position has reached the capacity.
    pub fn is_full(&self) -> (full: bool)
        ensures
            full == self@.is_full(),
    {
        self.rear == QUEUE_CAPACITY
    }

    /// Whether no item is pending.
    pub fn is_empty(&self) -> (empty: bool)
        ensures
            empty == self@.is_empty(),
    {
        self.rear == 0
    }

    /// Index of the next slot to read.
    pub fn front(&self) -> (index: usize)
        ensures
            index == self@.front,
            index <= self@.rear,
    {
        proof {
            use_type_invariant(self);
        }
        self.front
    }

    /// Index of the next slot to write.
    pub fn rear(&self) -> (index: usize)
        ensures
            index == self@.rear,
            index <= QUEUE_CAPACITY,
    {
        proof {
            use_type_invariant(self);
        }
        self.rear
    }

    /// Appends `item` unless the queue is full. A full queue is left exactly
    /// as it was.
    pub fn enqueue(&mut self, item: T) -> (status: QueueErr)
        ensures
            final(self)@.wf(),
            final(self)@ == old(self)@.enqueue(item),
            old(self)@.is_full() ==> {
                &&& status == QueueErr::Full
                &&& *final(self) == *old(self)
            },
            !old(self)@.is_full() ==> {
                &&& status == QueueErr::Success
                &&& final(self)@.pending() == old(self)@.pending().push(item)
            },
    {
        proof {
            use_type_invariant(&*self);
        }
        if self.is_full() {
            return QueueErr::Full;
        }
        self.data[self.rear] = item;
        self.rear += 1;
        QueueErr::Success
    }

    /// Removes the oldest pending item into `value`. On an empty queue `value`
    /// receives the default value of `T` and the queue is left exactly as it
    /// was. Taking the last pending item resets both indices to zero.
    pub fn dequeue(&mut self, value: &mut T) -> (status: QueueErr)
        ensures
            final(self)@.wf(),
            final(self)@ == old(self)@.dequeue(),
            old(self)@.is_empty() ==> {
                &&& status == QueueErr::Empty
                &&& is_default(*final(value))
                &&& *final(self) == *old(self)
            },
            !old(self)@.is_empty() ==> {
                &&& status == QueueErr::Success
                &&& *final(value) == old(self)@.head()
                &&& old(self)@.pending() == seq![*final(value)] + final(self)@.pending()
            },
    {
        proof {
            use_type_invariant(&*self);
        }
        if self.is_empty() {
            *value = T::default();
            return QueueErr::Empty;
        }
        *value = self.data[self.front];
        let next: usize = self.front + 1;
        if next == self.rear {
            self.front = 0;
            self.rear = 0;
        } else {
            self.front = next;
        }
        QueueErr::Success
    }
}

} // verus!
