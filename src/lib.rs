//! Concurrent data structures over software transactional memory: a FIFO
//! queue, a capacity-bounded queue, a stack and a counting semaphore, all
//! kept in transactional cells as persistent, structurally shared lists.
pub mod arclist;
pub mod bounded_queue;
mod cells;
pub mod queue;
pub mod semaphore;
pub mod stack;

pub use arclist::ArcList;
pub use bounded_queue::BoundedQueue;
pub use queue::{Queue, TQueue};
pub use semaphore::{Semaphore, TSem};
pub use stack::Stack;
