//! Types related to task management.
use vstd::prelude::*;

use crate::config::MAX_SYSCALL_NUM;

verus! {

/// Saved registers of a task that is not running: return address, stack
/// pointer and the callee-saved registers `s0..s11`.
#[derive(Copy, Clone)]
pub struct TaskContext {
    /// Return address.
    pub ra: usize,
    /// Kernel stack pointer.
    pub sp: usize,
    /// Callee-saved registers.
    pub s: [usize; 12],
}

impl TaskContext {
    /// A context whose registers are all zero.
    pub fn zero_init() -> (cx: Self)
        ensures
            cx.ra == 0,
            cx.sp == 0,
            forall|i: int| 0 <= i < 12 ==> #[trigger] cx.s[i] == 0,
    {
        TaskContext { ra: 0, sp: 0, s: [0; 12] }
    }
}

/// The status of a task.
#[derive(Copy, Clone, PartialEq, Eq, Structural)]
pub enum TaskStatus {
    /// uninitialized
    UnInit,
    /// ready to run
    Ready,
    /// running
    Running,
    /// exited
    Exited,
}

/// The task control block (TCB) of a task.
#[derive(Copy, Clone)]
pub struct TaskControlBlock {
    /// The task status in its lifecycle.
    pub task_status: TaskStatus,
    /// The task context.
    pub task_cx: TaskContext,
    /// How many times the task has invoked each system call, indexed by id.
    pub system_call_times: [u32; 500],
}

impl TaskControlBlock {
    /// The number of counted invocations of system call `id`.
    pub open spec fn times(self, id: int) -> u32 {
        self.system_call_times@[id]
    }

    /// Whether system call `id` can be counted once more without overflow.
    pub open spec fn can_count(self, id: usize) -> bool {
        id < MAX_SYSCALL_NUM && self.times(id as int) < u32::MAX
    }

    /// `new` is `old` with the counter of system call `id` raised by one and
    /// every other field unchanged.
    pub open spec fn counted(old: Self, new: Self, id: usize) -> bool {
        &&& new.task_status == old.task_status
        &&& new.task_cx == old.task_cx
        &&& new.system_call_times@ == old.system_call_times@.update(id as int, (old.times(id as int) + 1) as u32)
    }

    /// A fresh, uninitialised task with all counters at zero.
    pub fn new(task_cx: TaskContext) -> (tcb: Self)
        ensures
            tcb.task_status == TaskStatus::UnInit,
            tcb.task_cx == task_cx,
            forall|i: int| 0 <= i < MAX_SYSCALL_NUM ==> #[trigger] tcb.times(i) == 0,
    {
        TaskControlBlock { task_status: TaskStatus::UnInit, task_cx, system_call_times: [0; 500] }
    }

    /// Adds one to the counter of system call `_id`.
    pub fn syscall_times_updata(&mut self, _id: usize)
        requires
            old(self).can_count(_id),
        ensures
            Self::counted(*old(self), *final(self), _id),
    {
        self.system_call_times[_id] = self.system_call_times[_id] + 1;
    }

    /// The number of counted invocations of system call `_id`.
    pub fn read_syscall_times(&mut self, _id: usize) -> (times: isize)
        requires
            _id < MAX_SYSCALL_NUM,
        ensures
            times == old(self).times(_id as int) as isize,
            *final(self) == *old(self),
    {
        self.system_call_times[_id] as isize
    }
}

/// The heap of a task: its bottom and the current program break.
#[derive(Copy, Clone)]
pub struct ProgramBrk {
    /// Lowest address of the heap.
    pub heap_bottom: usize,
    /// Current end of the heap.
    pub program_brk: usize,
}

impl ProgramBrk {
    /// The break moved by `size` bytes, with the break read as a signed
    /// address.
    pub open spec fn moved(self, size: i32) -> int {
        self.program_brk as isize + size
    }

    /// Moving the break by `size` stays within `isize`.
    pub open spec fn move_fits(self, size: i32) -> bool {
        isize::MIN <= self.moved(size) <= isize::MAX
    }

    /// The moved break is not below the heap bottom (both read as signed
    /// addresses).
    pub open spec fn move_ok(self, size: i32) -> bool {
        self.moved(size) >= self.heap_bottom as isize
    }

    /// Moves the program break by `size` bytes and returns the old break;
    /// fails, changing nothing, when the new break would fall below the
    /// heap bottom.
    pub fn change_program_brk(&mut self, size: i32) -> (old_brk: Option<usize>)
        requires
            old(self).move_fits(size),
        ensures
            !old(self).move_ok(size) ==> {
                &&& old_brk is None
                &&& *final(self) == *old(self)
            },
            old(self).move_ok(size) ==> {
                &&& old_brk == Some(old(self).program_brk)
                &&& final(self).program_brk == old(self).moved(size) as usize
                &&& final(self).heap_bottom == old(self).heap_bottom
            },
            old(self).program_brk as isize + size >= old(self).heap_bottom as isize ==> {
                &&& old_brk == Some(old(self).program_brk)
                &&& final(self).program_brk == (old(self).program_brk as isize + size) as usize
            },
            old(self).program_brk as isize + size < old(self).heap_bottom as isize ==> old_brk is None,
    {
        let old_break = self.program_brk;
        let new_brk = self.program_brk as isize + size as isize;
        if new_brk < self.heap_bottom as isize {
            return None;
        }
        self.program_brk = new_brk as usize;
        Some(old_break)
    }
}

/// A move of the break succeeds exactly when the moved break, read as a
/// signed address, is not below the heap bottom; so growing a heap whose
/// break is not below its bottom always succeeds, whatever the amount.
pub proof fn lemma_brk_move(h: ProgramBrk, size: i32)
    ensures
        h.moved(size) == h.program_brk as isize + size,
        h.move_ok(size) <==> h.program_brk as isize + size >= h.heap_bottom as isize,
        h.heap_bottom as isize <= h.program_brk as isize && size >= 0 ==> h.move_ok(size),
        h.program_brk as isize + size < h.heap_bottom as isize ==> !h.move_ok(size),
{
}

/// Counting a call and then reading that call's counter gives the old count
/// plus one; the counters of the other calls are untouched.
pub proof fn lemma_count_then_read(old: TaskControlBlock, new: TaskControlBlock, id: usize, other: usize)
    requires
        old.can_count(id),
        TaskControlBlock::counted(old, new, id),
        other < MAX_SYSCALL_NUM,
        other != id,
    ensures
        new.times(id as int) == old.times(id as int) + 1,
        new.times(other as int) == old.times(other as int),
{
}

} // verus!
