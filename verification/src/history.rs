//! Queues under sequences of calls.
//!
//! The functions here extend the one-call model of `queue` to whole sequences
//! of calls, and the proofs state what holds of every such sequence: the
//! indices never leave their bounds, values come out in the order in which
//! they went in, and a queue that has been drained starts over at slot zero.

use vstd::prelude::*;
use crate::queue::{Queue, QueueState, QUEUE_CAPACITY};

verus! {

/// One call that changes a queue.
pub enum QueueOp<T> {
    /// An attempt to enqueue the value.
    Enqueue(T),
    /// An attempt to dequeue.
    Dequeue,
}

impl<T> QueueState<T> {
    /// The queue after one call.
    pub open spec fn apply(self, op: QueueOp<T>) -> Self {
        match op {
            QueueOp::Enqueue(item) => self.enqueue(item),
            QueueOp::Dequeue => self.dequeue(),
        }
    }

    /// The queue after the calls `ops`, made in order.
    pub open spec fn apply_all(self, ops: Seq<QueueOp<T>>) -> Self
        decreases ops.len(),
    {
        if ops.len() == 0 {
            self
        } else {
            self.apply_all(ops.drop_last()).apply(ops.last())
        }
    }

    /// The values that the calls `ops` put into the queue, in order: those of
    /// the enqueues that found the queue not full.
    pub open spec fn accepted(self, ops: Seq<QueueOp<T>>) -> Seq<T>
        decreases ops.len(),
    {
        if ops.len() == 0 {
            Seq::empty()
        } else {
            let earlier = self.accepted(ops.drop_last());
            match ops.last() {
                QueueOp::Enqueue(item) => if self.apply_all(ops.drop_last()).is_full() {
                    earlier
                } else {
                    earlier.push(item)
                },
                QueueOp::Dequeue => earlier,
            }
        }
    }

    /// The values that the calls `ops` took out of the queue, in order: those
    /// returned by the dequeues that found the queue not empty.
    pub open spec fn returned(self, ops: Seq<QueueOp<T>>) -> Seq<T>
        decreases ops.len(),
    {
        if ops.len() == 0 {
            Seq::empty()
        } else {
            let earlier = self.returned(ops.drop_last());
            match ops.last() {
                QueueOp::Enqueue(_) => earlier,
                QueueOp::Dequeue => if self.apply_all(ops.drop_last()).is_empty() {
                    earlier
                } else {
                    earlier.push(self.apply_all(ops.drop_last()).head())
                },
            }
        }
    }

    /// The queue after an attempt to enqueue each of `items`, in order.
    pub open spec fn enqueue_all(self, items: Seq<T>) -> Self
        decreases items.len(),
    {
        if items.len() == 0 {
            self
        } else {
            self.enqueue_all(items.drop_last()).enqueue(items.last())
        }
    }

    /// The queue after `n` attempts to dequeue.
    pub open spec fn dequeue_times(self, n: nat) -> Self
        decreases n,
    {
        if n == 0 {
            self
        } else {
            self.dequeue_times((n - 1) as nat).dequeue()
        }
    }
}

/// A call on a well-formed queue leaves a well-formed queue: the indices stay
/// ordered and within the capacity.
pub proof fn lemma_apply_preserves_wf<T>(s: QueueState<T>, op: QueueOp<T>)
    requires
        s.wf(),
    ensures
        s.apply(op).wf(),
        0 <= s.apply(op).front <= s.apply(op).rear <= QUEUE_CAPACITY,
{
}

/// Whatever calls are made on a well-formed queue, and in whatever order, the
/// queue is well-formed after each of them: after the first `k` calls of
/// `ops`, for every `k`, the indices are ordered and within the capacity.
pub proof fn lemma_history_preserves_wf<T>(s: QueueState<T>, ops: Seq<QueueOp<T>>, k: int)
    requires
        s.wf(),
        0 <= k <= ops.len(),
    ensures
        s.apply_all(ops.take(k)).wf(),
        0 <= s.apply_all(ops.take(k)).front <= s.apply_all(ops.take(k)).rear <= QUEUE_CAPACITY,
    decreases k,
{
    if k > 0 {
        lemma_history_preserves_wf(s, ops, k - 1);
        assert(ops.take(k).drop_last() == ops.take(k - 1));
        lemma_apply_preserves_wf(s.apply_all(ops.take(k - 1)), ops[k - 1]);
    }
}

/// First in, first out, for every sequence of calls. The values that were
/// pending at the start followed by the values put in are the values taken
/// out followed by the values pending at the end: values leave in the order
/// in which they entered, none is lost and none comes out twice.
pub proof fn lemma_history_fifo<T>(s: QueueState<T>, ops: Seq<QueueOp<T>>)
    requires
        s.wf(),
    ensures
        s.pending() + s.accepted(ops) == s.returned(ops) + s.apply_all(ops).pending(),
    decreases ops.len(),
{
    if ops.len() > 0 {
        let init = ops.drop_last();
        lemma_history_fifo(s, init);
        lemma_history_preserves_wf(s, ops, ops.len() - 1);
        let before = s.apply_all(init);
        let got = s.returned(init);
        match ops.last() {
            QueueOp::Enqueue(item) => {
                assert(got + before.pending().push(item)
                    == (got + before.pending()).push(item));
            },
            QueueOp::Dequeue => {},
        }
    }
}

/// Enqueueing values that all fit: every attempt finds the queue not full, the
/// read position stays, the write position advances by their number, and the
/// values are appended to the pending ones in their order.
pub proof fn lemma_enqueue_all<T>(s: QueueState<T>, items: Seq<T>)
    requires
        s.wf(),
        s.rear + items.len() <= QUEUE_CAPACITY,
    ensures
        s.enqueue_all(items).wf(),
        s.enqueue_all(items).front == s.front,
        s.enqueue_all(items).rear == s.rear + items.len(),
        s.enqueue_all(items).pending() == s.pending() + items,
        forall|i: int|
            0 <= i < items.len() ==> !(#[trigger] s.enqueue_all(items.take(i))).is_full(),
    decreases items.len(),
{
    if items.len() > 0 {
        let init = items.drop_last();
        lemma_enqueue_all(s, init);
        assert(s.pending() + items == (s.pending() + init).push(items.last()));
        assert forall|i: int| 0 <= i < items.len() implies !(#[trigger] s.enqueue_all(
            items.take(i),
        )).is_full() by {
            if i < init.len() {
                assert(items.take(i) == init.take(i));
            }
        }
    }
}

/// Dequeueing no more often than values are pending: every attempt finds the
/// queue not empty and its oldest value is the next of the values that were
/// pending at the start; what stays pending is the rest of them. Taking the
/// last pending value puts both indices back to zero; until then only the read
/// position moves.
pub proof fn lemma_dequeue_times<T>(s: QueueState<T>, n: nat)
    requires
        s.wf(),
        n <= s.pending().len(),
    ensures
        forall|i: nat|
            i < n ==> {
                &&& !(#[trigger] s.dequeue_times(i)).is_empty()
                &&& s.dequeue_times(i).head() == s.pending()[i as int]
            },
        s.dequeue_times(n).wf(),
        s.dequeue_times(n).slots == s.slots,
        s.dequeue_times(n).pending() == s.pending().skip(n as int),
        n == s.pending().len() ==> {
            &&& s.dequeue_times(n).front == 0
            &&& s.dequeue_times(n).rear == 0
        },
        n < s.pending().len() ==> {
            &&& s.dequeue_times(n).front == s.front + n
            &&& s.dequeue_times(n).rear == s.rear
        },
    decreases n,
{
    if n > 0 {
        lemma_dequeue_times(s, (n - 1) as nat);
    }
}

/// First in, first out. After values that all fit have been enqueued, the
/// dequeues that follow return the values in the order in which they were
/// enqueued: first those that were pending before, then the new ones. For a
/// queue that was empty the `i`-th dequeue returns the `i`-th value enqueued.
pub proof fn lemma_fifo_order<T>(s: QueueState<T>, items: Seq<T>, n: nat)
    requires
        s.wf(),
        s.rear + items.len() <= QUEUE_CAPACITY,
        n <= s.pending().len() + items.len(),
    ensures
        forall|i: int|
            0 <= i < items.len() ==> !(#[trigger] s.enqueue_all(items.take(i))).is_full(),
        forall|i: nat|
            i < n ==> {
                &&& !(#[trigger] s.enqueue_all(items).dequeue_times(i)).is_empty()
                &&& s.enqueue_all(items).dequeue_times(i).head() == (s.pending() + items)[i as int]
            },
        s.is_empty() ==> forall|i: nat|
            i < n ==> (#[trigger] s.enqueue_all(items).dequeue_times(i)).head() == items[i as int],
        s.enqueue_all(items).dequeue_times(n).pending() == (s.pending() + items).skip(n as int),
{
    lemma_enqueue_all(s, items);
    lemma_dequeue_times(s.enqueue_all(items), n);
}

/// A drained queue starts over. After values that all fit have been enqueued
/// and as many values dequeued as were pending, both indices are zero; in
/// particular after `k` values went into an empty queue and `k` came out.
pub proof fn lemma_drain_resets<T>(s: QueueState<T>, items: Seq<T>)
    requires
        s.wf(),
        s.rear + items.len() <= QUEUE_CAPACITY,
    ensures
        s.enqueue_all(items).dequeue_times(s.pending().len() + items.len()).front == 0,
        s.enqueue_all(items).dequeue_times(s.pending().len() + items.len()).rear == 0,
        s.is_empty() ==> {
            &&& s.enqueue_all(items).dequeue_times(items.len()).front == 0
            &&& s.enqueue_all(items).dequeue_times(items.len()).rear == 0
        },
{
    lemma_enqueue_all(s, items);
    lemma_dequeue_times(s.enqueue_all(items), s.pending().len() + items.len());
}

/// No wrapping around. A queue whose write position has reached the capacity
/// stays full while a value is pending, however many values were taken from
/// it: room is only made by taking the last one.
pub proof fn lemma_full_until_drained<T>(s: QueueState<T>, n: nat)
    requires
        s.wf(),
        s.is_full(),
        n < s.pending().len(),
    ensures
        s.dequeue_times(n).is_full(),
        forall|item: T| s.dequeue_times(n).enqueue(item) == s.dequeue_times(n),
{
    lemma_dequeue_times(s, n);
}

/// The observers answer from the queue's value alone: two calls of `is_full`
/// on the same queue give the same answer, and so do two calls of `is_empty`.
pub proof fn lemma_observers_repeat<T: Copy + Default>(
    queue: Queue<T>,
    first: bool,
    second: bool,
)
    ensures
        call_ensures(Queue::<T>::is_full, (&queue,), first)
            && call_ensures(Queue::<T>::is_full, (&queue,), second) ==> first == second,
        call_ensures(Queue::<T>::is_empty, (&queue,), first)
            && call_ensures(Queue::<T>::is_empty, (&queue,), second) ==> first == second,
{
}

} // verus!
