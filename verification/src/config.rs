//! Kernel-wide constants.
use vstd::prelude::*;

verus! {

/// Size of a virtual-memory page in bytes.
pub const PAGE_SIZE: usize = 4096;

/// Number of system-call ids whose invocations are counted per task.
pub const MAX_SYSCALL_NUM: usize = 500;

/// System-call id of `exit`.
pub const SYSCALL_EXIT: usize = 93;

/// System-call id of `yield`.
pub const SYSCALL_YIELD: usize = 124;

/// System-call id of `get_time`.
pub const SYSCALL_GET_TIME: usize = 169;

/// System-call id of `sbrk`.
pub const SYSCALL_SBRK: usize = 214;

/// System-call id of `munmap`.
pub const SYSCALL_MUNMAP: usize = 215;

/// System-call id of `mmap`.
pub const SYSCALL_MMAP: usize = 222;

/// System-call id of `trace`.
pub const SYSCALL_TRACE: usize = 410;

} // verus!
