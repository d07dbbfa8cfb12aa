use bounded_queue::consumer::{
    consume, ConsumerStep, CONSUMER_BACKOFF_MS, CONSUMER_PROCESS_DELAY_MS,
};
use bounded_queue::pipeline::{run_schedule, Turn};
use bounded_queue::producer::{
    Producer, ProducerStep, ITEM_COUNT, PRODUCER_BACKOFF_MS, PRODUCER_ITEM_DELAY_MS,
};
use bounded_queue::queue::{Queue, QueueErr};
use std::sync::Arc;
use std::time::Duration;

#[test]
fn item_count_and_delay_constants() {
    assert_eq!(ITEM_COUNT, 10);
    assert_eq!(PRODUCER_ITEM_DELAY_MS, 100);
    assert_eq!(PRODUCER_BACKOFF_MS, 50);
    assert_eq!(CONSUMER_PROCESS_DELAY_MS, 500);
    assert_eq!(CONSUMER_BACKOFF_MS, 50);
}

#[test]
fn producer_delays() {
    assert_eq!(ProducerStep::Produced(3).delay_ms(), Some(100));
    assert_eq!(ProducerStep::Backoff.delay_ms(), Some(50));
    assert_eq!(ProducerStep::Finished.delay_ms(), None);
}

#[test]
fn consumer_delays() {
    assert_eq!(ConsumerStep::Consumed(3).delay_ms(), 500);
    assert_eq!(ConsumerStep::Backoff.delay_ms(), 50);
}

#[test]
fn producer_delivers_ascending_values_until_the_queue_is_full() {
    let mut queue = Queue::<i32>::new();
    let mut producer = Producer::new();
    for value in 1..=6 {
        assert!(!producer.is_finished());
        assert_eq!(producer.step(&mut queue), ProducerStep::Produced(value));
        assert_eq!(queue.rear(), value as usize);
    }
    assert!(queue.is_full());
    assert_eq!(producer.step(&mut queue), ProducerStep::Backoff);
}

#[test]
fn producer_backoff_changes_nothing_and_retries_the_same_value() {
    let mut queue = Queue::<i32>::new();
    let mut producer = Producer::new();
    for _ in 0..6 {
        producer.step(&mut queue);
    }
    for _ in 0..3 {
        assert_eq!(producer.step(&mut queue), ProducerStep::Backoff);
        assert_eq!(queue.front(), 0);
        assert_eq!(queue.rear(), 6);
        assert!(!producer.is_finished());
    }
    for value in 1..=6 {
        assert_eq!(consume(&mut queue), ConsumerStep::Consumed(value));
    }
    assert_eq!(producer.step(&mut queue), ProducerStep::Produced(7));
}

#[test]
fn producer_finishes_after_the_last_value() {
    let mut queue = Queue::<i32>::new();
    let mut producer = Producer::new();
    for value in 1..=10 {
        assert!(!producer.is_finished());
        assert_eq!(producer.step(&mut queue), ProducerStep::Produced(value));
        assert_eq!(consume(&mut queue), ConsumerStep::Consumed(value));
    }
    assert!(producer.is_finished());
    assert_eq!(producer.step(&mut queue), ProducerStep::Finished);
    assert_eq!(producer.step(&mut queue), ProducerStep::Finished);
    assert!(queue.is_empty());
    assert_eq!(consume(&mut queue), ConsumerStep::Backoff);
}

#[test]
fn consumer_backs_off_on_an_empty_queue_and_changes_nothing() {
    let mut queue = Queue::<i32>::new();
    assert_eq!(consume(&mut queue), ConsumerStep::Backoff);
    assert!(queue.is_empty());
    assert_eq!(queue.front(), 0);
    assert_eq!(queue.rear(), 0);
    assert_eq!(queue.enqueue(5), QueueErr::Success);
    assert_eq!(consume(&mut queue), ConsumerStep::Consumed(5));
    assert_eq!(consume(&mut queue), ConsumerStep::Backoff);
}

#[test]
fn consumer_takes_the_oldest_value() {
    let mut queue = Queue::<i32>::new();
    for item in [30, 10, 20] {
        queue.enqueue(item);
    }
    assert_eq!(consume(&mut queue), ConsumerStep::Consumed(30));
    assert_eq!(consume(&mut queue), ConsumerStep::Consumed(10));
    assert_eq!(consume(&mut queue), ConsumerStep::Consumed(20));
}

#[test]
fn alternating_turns_consume_every_value_in_order() {
    let mut schedule = Vec::new();
    for _ in 0..20 {
        schedule.push(Turn::Producer);
        schedule.push(Turn::Consumer);
    }
    let mut queue = Queue::<i32>::new();
    let mut producer = Producer::new();
    let taken = run_schedule(&mut producer, &mut queue, &schedule);
    assert_eq!(taken, vec![1, 2, 3, 4, 5, 6, 7, 8, 9, 10]);
    assert!(producer.is_finished());
    assert!(queue.is_empty());
}

#[test]
fn a_fast_producer_is_held_back_by_the_full_queue() {
    // Five attempts of the producer for each attempt of the consumer.
    let mut schedule = Vec::new();
    for _ in 0..20 {
        for _ in 0..5 {
            schedule.push(Turn::Producer);
        }
        schedule.push(Turn::Consumer);
    }
    let mut queue = Queue::<i32>::new();
    let mut producer = Producer::new();
    let taken = run_schedule(&mut producer, &mut queue, &schedule);
    assert_eq!(taken, vec![1, 2, 3, 4, 5, 6, 7, 8, 9, 10]);
    assert!(producer.is_finished());
    assert!(queue.is_empty());
}

#[test]
fn a_schedule_cut_short_consumes_a_prefix() {
    let schedule = [
        Turn::Consumer,
        Turn::Producer,
        Turn::Producer,
        Turn::Producer,
        Turn::Consumer,
        Turn::Consumer,
    ];
    let mut queue = Queue::<i32>::new();
    let mut producer = Producer::new();
    let taken = run_schedule(&mut producer, &mut queue, &schedule);
    assert_eq!(taken, vec![1, 2]);
    assert!(!producer.is_finished());
    assert_eq!(queue.front(), 2);
    assert_eq!(queue.rear(), 3);
    assert_eq!(consume(&mut queue), ConsumerStep::Consumed(3));
    assert_eq!(producer.step(&mut queue), ProducerStep::Produced(4));
}

#[test]
fn an_empty_schedule_does_nothing() {
    let mut queue = Queue::<i32>::new();
    let mut producer = Producer::new();
    let taken = run_schedule(&mut producer, &mut queue, &[]);
    assert_eq!(taken, Vec::<i32>::new());
    assert!(queue.is_empty());
    assert_eq!(producer.step(&mut queue), ProducerStep::Produced(1));
}

#[test]
fn a_consumer_alone_never_gets_a_value() {
    let schedule = [Turn::Consumer; 30];
    let mut queue = Queue::<i32>::new();
    let mut producer = Producer::new();
    let taken = run_schedule(&mut producer, &mut queue, &schedule);
    assert!(taken.is_empty());
}

#[test]
fn a_producer_alone_stops_at_the_capacity() {
    let schedule = [Turn::Producer; 30];
    let mut queue = Queue::<i32>::new();
    let mut producer = Producer::new();
    let taken = run_schedule(&mut producer, &mut queue, &schedule);
    assert!(taken.is_empty());
    assert!(queue.is_full());
    assert_eq!(producer.step(&mut queue), ProducerStep::Backoff);
    assert_eq!(consume(&mut queue), ConsumerStep::Consumed(1));
}

#[test]
fn two_tasks_on_a_paused_clock_deliver_every_value() {
    let runtime = tokio::runtime::Builder::new_current_thread()
        .enable_time()
        .start_paused(true)
        .build()
        .unwrap();
    let (taken, backoffs, millis) = runtime.block_on(async {
        let started = tokio::time::Instant::now();
        let queue = Arc::new(tokio::sync::Mutex::new(Queue::<i32>::new()));
        let producer_queue = queue.clone();
        let consumer_queue = queue.clone();

        let producer = tokio::spawn(async move {
            let mut producer = Producer::new();
            let mut backoffs = 0u32;
            while !producer.is_finished() {
                let outcome = {
                    let mut queue = producer_queue.lock().await;
                    producer.step(&mut *queue)
                };
                if outcome == ProducerStep::Backoff {
                    backoffs += 1;
                }
                if let Some(ms) = outcome.delay_ms() {
                    tokio::time::sleep(Duration::from_millis(ms)).await;
                }
            }
            backoffs
        });

        let consumer = tokio::spawn(async move {
            let mut taken = Vec::new();
            while taken.len() < ITEM_COUNT as usize {
                let outcome = {
                    let mut queue = consumer_queue.lock().await;
                    consume(&mut *queue)
                };
                if let ConsumerStep::Consumed(value) = outcome {
                    taken.push(value);
                }
                tokio::time::sleep(Duration::from_millis(outcome.delay_ms())).await;
            }
            taken
        });

        let backoffs = producer.await.unwrap();
        let taken = consumer.await.unwrap();
        (taken, backoffs, started.elapsed().as_millis())
    });
    assert_eq!(taken, vec![1, 2, 3, 4, 5, 6, 7, 8, 9, 10]);
    // The consumer is the slower side: the queue fills up and the producer
    // has to retry.
    assert!(backoffs > 0);
    // Ten values, and after each the consumer is busy for half a second.
    assert!(millis >= 5000);
    assert!(millis < 6000);
}
