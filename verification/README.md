# rcore_os

Verified bookkeeping of a small RISC-V teaching kernel.

- `src/task`: task control blocks (status, context, per-call counters), the
  heap break, and the FIFO ready queue (fetch advances the stride of the task it hands out).
- `src/mm`: a page-granular address space (page number to entry flags).
- `src/sync`: per-process mutex/semaphore/condvar tables and the resource
  accounting used for deadlock detection, with its conservation laws.
- `src/syscall`: the process, memory and synchronisation system calls; each
  returns what the kernel must do next (block, load, store, lock, ...).
- `src/fs`: the `File` trait, user buffers and inode status.
- `app/`: the global ready queue and the calls that print or touch it.
