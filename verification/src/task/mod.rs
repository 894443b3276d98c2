//! Task control blocks and the ready queue.
pub mod manager;
pub mod task;
