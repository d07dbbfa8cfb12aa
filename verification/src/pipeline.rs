//! The producer and the consumer on one shared queue.
//!
//! The lock makes every attempt of either side atomic, so a run of the two
//! sides is a sequence of turns, each taken by one of them. [`Pipeline`] is
//! the state such a run passes through, and the proofs state what holds of
//! every run: the consumer sees the values `1, 2, 3, ...` in this order, each
//! once and none skipped, and if both sides keep getting turns every value is
//! consumed.

use vstd::prelude::*;
use crate::consumer::{consume, consumer_outcome, ConsumerStep};
use crate::producer::{producer_outcome, Producer, ProducerStep, ITEM_COUNT};
use crate::queue::{Queue, QueueState};

verus! {

/// The side that makes an attempt.
#[derive(Clone, Copy, Debug, PartialEq, Eq, Structural)]
pub enum Turn {
    /// The producer makes one attempt.
    Producer,
    /// The consumer makes one attempt.
    Consumer,
}

/// The values `1, 2, ..., count`, ascending.
pub open spec fn first_values(count: nat) -> Seq<i32> {
    Seq::new(count, |i: int| (i + 1) as i32)
}

/// The shared queue together with what each side has done so far.
#[verifier::ext_equal]
pub struct Pipeline {
    /// The shared queue.
    pub queue: QueueState<i32>,
    /// The value that the producer delivers next.
    pub next: int,
    /// The values that the consumer has taken, in the order in which it took
    /// them.
    pub consumed: Seq<i32>,
}

impl Pipeline {
    /// The state made of a producer, a queue and the values consumed so far.
    pub open spec fn of(producer: Producer, queue: Queue<i32>, consumed: Seq<i32>) -> Self {
        Pipeline { queue: queue@, next: producer.next_value(), consumed }
    }

    /// The state before either side has made an attempt.
    pub open spec fn start(queue: QueueState<i32>) -> Self {
        Pipeline { queue, next: 1, consumed: Seq::empty() }
    }

    /// Nothing is lost, duplicated or reordered: the values consumed, followed
    /// by the values pending in the queue, are the values produced so far.
    pub open spec fn wf(self) -> bool {
        &&& self.queue.wf()
        &&& 1 <= self.next <= ITEM_COUNT + 1
        &&& self.consumed + self.queue.pending() == first_values((self.next - 1) as nat)
    }

    /// Whether an attempt of `turn` changes anything: the producer has a value
    /// left and finds room, the consumer finds a value.
    pub open spec fn productive(self, turn: Turn) -> bool {
        match turn {
            Turn::Producer => producer_outcome(self.next, self.queue) is Produced,
            Turn::Consumer => consumer_outcome(self.queue) is Consumed,
        }
    }

    /// The state after one attempt of `turn`.
    pub open spec fn step(self, turn: Turn) -> Self {
        match turn {
            Turn::Producer => match producer_outcome(self.next, self.queue) {
                ProducerStep::Produced(value) => Pipeline {
                    queue: self.queue.enqueue(value),
                    next: self.next + 1,
                    consumed: self.consumed,
                },
                _ => self,
            },
            Turn::Consumer => match consumer_outcome(self.queue) {
                ConsumerStep::Consumed(value) => Pipeline {
                    queue: self.queue.dequeue(),
                    next: self.next,
                    consumed: self.consumed.push(value),
                },
                ConsumerStep::Backoff => self,
            },
        }
    }

    /// The state after the attempts of `schedule`, made in order.
    pub open spec fn run(self, schedule: Seq<Turn>) -> Self
        decreases schedule.len(),
    {
        if schedule.len() == 0 {
            self
        } else {
            self.run(schedule.drop_last()).step(schedule.last())
        }
    }

    /// The number of attempts that changed something: values produced plus
    /// values consumed.
    pub open spec fn progress(self) -> int {
        (self.next - 1) + self.consumed.len()
    }

    /// Every value has been consumed.
    pub open spec fn complete(self) -> bool {
        self.consumed == first_values(ITEM_COUNT as nat)
    }
}

/// Makes the attempts of `schedule` in order, without any waiting, and returns
/// the values that the consumer took, in the order in which it took them.
pub fn run_schedule(
    producer: &mut Producer,
    queue: &mut Queue<i32>,
    schedule: &[Turn],
) -> (taken: Vec<i32>)
    ensures
        Pipeline::of(*final(producer), *final(queue), taken@) == Pipeline::of(
            *old(producer),
            *old(queue),
            Seq::empty(),
        ).run(schedule@),
{
    let ghost start = Pipeline::of(*producer, *queue, Seq::empty());
    let mut taken: Vec<i32> = Vec::new();
    let mut i: usize = 0;
    while i < schedule.len()
        invariant
            i <= schedule.len(),
            Pipeline::of(*producer, *queue, taken@) == start.run(schedule@.take(i as int)),
        decreases schedule.len() - i,
    {
        match schedule[i] {
            Turn::Producer => {
                producer.step(queue);
            },
            Turn::Consumer => {
                match consume(queue) {
                    ConsumerStep::Consumed(value) => {
                        taken.push(value);
                    },
                    ConsumerStep::Backoff => {},
                }
            },
        }
        proof {
            assert(schedule@.take(i + 1).drop_last() == schedule@.take(i as int));
        }
        i += 1;
    }
    proof {
        assert(schedule@.take(i as int) == schedule@);
    }
    taken
}

/// A schedule in which each side makes at least one attempt.
pub open spec fn fair(round: Seq<Turn>) -> bool {
    round.contains(Turn::Producer) && round.contains(Turn::Consumer)
}

/// An empty queue and a producer that has delivered nothing are a consistent
/// start.
pub proof fn lemma_start_wf(queue: QueueState<i32>)
    requires
        queue.wf(),
        queue.is_empty(),
    ensures
        Pipeline::start(queue).wf(),
        Pipeline::start(queue).progress() == 0,
{
    assert(Pipeline::start(queue).consumed + queue.pending() == first_values(0));
}

/// One attempt of either side keeps the state consistent. It either changes
/// nothing or counts as one more successful attempt.
pub proof fn lemma_step(s: Pipeline, turn: Turn)
    requires
        s.wf(),
    ensures
        s.step(turn).wf(),
        s.productive(turn) ==> s.step(turn).progress() == s.progress() + 1,
        !s.productive(turn) ==> s.step(turn) == s,
{
    match turn {
        Turn::Producer => {
            if s.productive(turn) {
                let value = s.next as i32;
                assert(s.queue.enqueue(value).pending() == s.queue.pending().push(value));
                assert(first_values(s.next as nat)
                    == first_values((s.next - 1) as nat).push(value));
            }
        },
        Turn::Consumer => {
            if s.productive(turn) {
                let value = s.queue.head();
                assert(s.queue.pending() == seq![value] + s.queue.dequeue().pending());
                assert(s.consumed.push(value) + s.queue.dequeue().pending()
                    == s.consumed + (seq![value] + s.queue.dequeue().pending()));
            }
        },
    }
}

/// Whatever the order of the attempts, the state stays consistent and the
/// count of successful attempts never falls.
pub proof fn lemma_run(s: Pipeline, schedule: Seq<Turn>)
    requires
        s.wf(),
    ensures
        s.run(schedule).wf(),
        s.run(schedule).progress() >= s.progress(),
    decreases schedule.len(),
{
    if schedule.len() > 0 {
        lemma_run(s, schedule.drop_last());
        lemma_step(s.run(schedule.drop_last()), schedule.last());
    }
}

/// In order, exactly once, nothing lost. Whatever the order of the attempts,
/// the values consumed so far are `1, 2, ..., n` for some `n`: ascending,
/// without gap or repetition. No value is consumed before it was produced,
/// and no more than `ITEM_COUNT` values are ever produced.
pub proof fn lemma_consumed_in_order(queue: QueueState<i32>, schedule: Seq<Turn>)
    requires
        queue.wf(),
        queue.is_empty(),
    ensures
        ({
            let s = Pipeline::start(queue).run(schedule);
            &&& s.consumed == first_values(s.consumed.len())
            &&& s.consumed.len() + s.queue.pending().len() == s.next - 1
            &&& s.next - 1 <= ITEM_COUNT
            &&& forall|i: int| 0 <= i < s.consumed.len() ==> s.consumed[i] == i + 1
        }),
{
    lemma_start_wf(queue);
    lemma_run(Pipeline::start(queue), schedule);
    let s = Pipeline::start(queue).run(schedule);
    let produced = first_values((s.next - 1) as nat);
    assert(produced.len() == s.consumed.len() + s.queue.pending().len());
    assert forall|i: int| 0 <= i < s.consumed.len() implies s.consumed[i] == i + 1 by {
        assert(s.consumed[i] == (s.consumed + s.queue.pending())[i]);
    }
}

/// No deadlock: as long as a value is left to consume, at least one side can
/// make a successful attempt.
pub proof fn lemma_some_side_productive(s: Pipeline)
    requires
        s.wf(),
        !s.complete(),
    ensures
        s.productive(Turn::Producer) || s.productive(Turn::Consumer),
{
}

/// A side that can make a successful attempt can still do so after any number
/// of attempts of the other side.
pub proof fn lemma_stays_productive(s: Pipeline, turn: Turn, others: Seq<Turn>)
    requires
        s.wf(),
        s.productive(turn),
        !others.contains(turn),
    ensures
        s.run(others).productive(turn),
    decreases others.len(),
{
    if others.len() > 0 {
        let init = others.drop_last();
        assert(!init.contains(turn));
        lemma_stays_productive(s, turn, init);
        lemma_run(s, init);
    }
}

/// A side that can make a successful attempt makes one in every schedule that
/// gives it a turn.
pub proof fn lemma_turn_makes_progress(s: Pipeline, turn: Turn, round: Seq<Turn>)
    requires
        s.wf(),
        s.productive(turn),
        round.contains(turn),
    ensures
        s.run(round).progress() > s.progress(),
    decreases round.len(),
{
    let init = round.drop_last();
    lemma_run(s, init);
    lemma_step(s.run(init), round.last());
    if init.contains(turn) {
        lemma_turn_makes_progress(s, turn, init);
    } else {
        let i = choose|i: int| 0 <= i < round.len() && round[i] == turn;
        if i < init.len() {
            assert(init[i] == turn);
        }
        lemma_stays_productive(s, turn, init);
    }
}

/// Progress under fairness: as long as a value is left to consume, every
/// schedule in which each side makes at least one attempt contains a
/// successful attempt.
pub proof fn lemma_fair_round_makes_progress(s: Pipeline, round: Seq<Turn>)
    requires
        s.wf(),
        !s.complete(),
        fair(round),
    ensures
        s.run(round).wf(),
        s.run(round).progress() > s.progress(),
{
    lemma_run(s, round);
    lemma_some_side_productive(s);
    if s.productive(Turn::Producer) {
        lemma_turn_makes_progress(s, Turn::Producer, round);
    } else {
        lemma_turn_makes_progress(s, Turn::Consumer, round);
    }
}

/// Each value is produced once and consumed once, so there are at most
/// `2 * ITEM_COUNT` successful attempts, and after that many every value has
/// been consumed.
pub proof fn lemma_progress_bound(s: Pipeline)
    requires
        s.wf(),
    ensures
        0 <= s.progress() <= 2 * ITEM_COUNT,
        s.progress() == 2 * ITEM_COUNT <==> s.complete(),
{
    let produced = first_values((s.next - 1) as nat);
    assert(produced.len() == s.consumed.len() + s.queue.pending().len());
}

/// Making the attempts of one schedule and then those of another is making
/// the attempts of the two joined.
pub proof fn lemma_run_concat(s: Pipeline, first: Seq<Turn>, second: Seq<Turn>)
    ensures
        s.run(first + second) == s.run(first).run(second),
    decreases second.len(),
{
    if second.len() > 0 {
        lemma_run_concat(s, first, second.drop_last());
        assert((first + second).drop_last() == first + second.drop_last());
    }
}

/// Every value is consumed at last. Start from an empty queue and let the two
/// sides take turns in any order such that the schedule can be cut into
/// `2 * ITEM_COUNT` or more pieces in each of which both sides make an
/// attempt. Then the consumer has taken exactly `1, 2, ..., ITEM_COUNT`, in
/// this order.
pub proof fn lemma_fair_schedule_completes(queue: QueueState<i32>, rounds: Seq<Seq<Turn>>)
    requires
        queue.wf(),
        queue.is_empty(),
        rounds.len() >= 2 * ITEM_COUNT,
        forall|i: int| 0 <= i < rounds.len() ==> fair(#[trigger] rounds[i]),
    ensures
        Pipeline::start(queue).run(rounds.flatten()).complete(),
        Pipeline::start(queue).run(rounds.flatten()).consumed == first_values(ITEM_COUNT as nat),
{
    lemma_start_wf(queue);
    lemma_fair_rounds(Pipeline::start(queue), rounds);
    let end = Pipeline::start(queue).run(rounds.flatten());
    lemma_progress_bound(end);
}

/// After `n` fair rounds the count of successful attempts has grown by `n`,
/// unless every value has been consumed before.
proof fn lemma_fair_rounds(s: Pipeline, rounds: Seq<Seq<Turn>>)
    requires
        s.wf(),
        forall|i: int| 0 <= i < rounds.len() ==> fair(#[trigger] rounds[i]),
    ensures
        s.run(rounds.flatten()).wf(),
        s.run(rounds.flatten()).complete() || s.run(rounds.flatten()).progress() >= s.progress()
            + rounds.len(),
    decreases rounds.len(),
{
    rounds.lemma_flatten_and_flatten_alt_are_equivalent();
    if rounds.len() > 0 {
        let init = rounds.drop_last();
        init.lemma_flatten_and_flatten_alt_are_equivalent();
        lemma_fair_rounds(s, init);
        lemma_run_concat(s, init.flatten(), rounds.last());
        let before = s.run(init.flatten());
        lemma_run(before, rounds.last());
        if before.complete() {
            lemma_progress_bound(before);
            lemma_progress_bound(before.run(rounds.last()));
        } else {
            lemma_fair_round_makes_progress(before, rounds.last());
        }
    }
}

} // verus!
