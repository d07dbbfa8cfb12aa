//! A bounded buffer shared by one producer and one consumer.
//!
//! `queue` holds the fixed-capacity FIFO container and its mathematical model.
//! `history` states what holds of a queue under every sequence of calls.
//! `producer` and `consumer` hold the decisions each side takes while it has
//! the queue to itself; acquiring the lock and waiting between attempts are
//! left to the caller. `pipeline` states what holds of the two sides together
//! under every interleaving of their attempts.

pub mod consumer;
pub mod history;
pub mod pipeline;
pub mod producer;
pub mod queue;
