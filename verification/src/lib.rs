//! Verified core of a small teaching kernel: task bookkeeping, a FIFO
//! ready queue, a page-granular address-space model, and the bookkeeping behind
//! the process, memory and synchronisation system calls.
pub mod config;
pub mod fs;
pub mod sync;
pub mod mm;
pub mod syscall;
pub mod task;
