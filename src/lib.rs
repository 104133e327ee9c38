//! A capacity-bounded queue with two removal orders, first-in-first-out and
//! last-in-first-out, behind one shared contract, together with a few small
//! verified helpers on integers and strings.
pub mod arith;
pub mod fifo;
pub mod laws;
pub mod lifo;
pub mod queue;
pub mod strings;

pub use fifo::Fifo;
pub use lifo::Lifo;
pub use queue::{Error, Queue};
