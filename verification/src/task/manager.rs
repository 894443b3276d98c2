//! The ready queue of the scheduler.
use vstd::prelude::*;
use std::collections::VecDeque;

use crate::mm::{area_map, vpn_ceil, vpn_floor, MemorySet, PTE_V};

verus! {

/// Stride-scheduling state of a task: its current stride and the pass added
/// to the stride each time the task is scheduled.
#[derive(Copy, Clone)]
pub struct SchedulePriority {
    /// Current stride.
    pub stride: u64,
    /// Amount added to the stride per scheduling.
    pub pass: u64,
}

/// `stride + pass`, wrapping around at 2^64.
pub open spec fn stride_after_pass(stride: u64, pass: u64) -> u64 {
    if stride + pass > u64::MAX {
        (stride + pass - 0x1_0000_0000_0000_0000) as u64
    } else {
        (stride + pass) as u64
    }
}

/// Advancing a stride adds the pass modulo 2^64: the plain sum whenever it
/// fits in a `u64`, and the sum less 2^64 when it does not.
pub proof fn lemma_stride_after_pass(stride: u64, pass: u64)
    ensures
        stride_after_pass(stride, pass) as int == (stride as int + pass as int) % 0x1_0000_0000_0000_0000,
        stride + pass <= u64::MAX ==> stride_after_pass(stride, pass) == stride + pass,
        stride + pass > u64::MAX ==> stride_after_pass(stride, pass) < stride,
{
    let s = stride as int + pass as int;
    assert(s % 0x1_0000_0000_0000_0000 == if s > u64::MAX { s - 0x1_0000_0000_0000_0000 } else { s }) by (nonlinear_arith)
        requires
            0 <= s < 2 * 0x1_0000_0000_0000_0000,
    ;
}

impl SchedulePriority {
    /// Advances the stride by the pass, wrapping around at 2^64.
    pub fn tcb_pass_strde(&mut self)
        ensures
            final(self).stride == stride_after_pass(old(self).stride, old(self).pass),
            final(self).stride as int == (old(self).stride as int + old(self).pass as int) % 0x1_0000_0000_0000_0000,
            final(self).pass == old(self).pass,
    {
        proof {
            lemma_stride_after_pass(self.stride, self.pass);
        }
        self.stride = self.stride.wrapping_add(self.pass);
    }
}

/// A task waiting in the ready queue: its process id, its scheduling state
/// and its address space.
pub struct ReadyTask {
    /// Process id.
    pub pid: usize,
    /// Stride-scheduling state.
    pub schedule_priority: SchedulePriority,
    /// Address space of the task.
    pub memory_set: MemorySet,
}

/// Tasks leave a FIFO queue in the order they were added: adding `t` to a
/// non-empty queue does not change which task leaves next, and `t` takes
/// its place behind the tasks that remain.
pub proof fn lemma_fifo_order(q: Seq<ReadyTask>, t: ReadyTask)
    ensures
        q.len() > 0 ==> q.push(t)[0] == q[0],
        q.len() > 0 ==> q.push(t).subrange(1, q.len() + 1int) == q.subrange(1, q.len() as int).push(t),
        q.len() == 0 ==> q.push(t)[0] == t && q.push(t).subrange(1, 1) == q,
{
    if q.len() > 0 {
        assert(q.push(t).subrange(1, q.len() + 1int) =~= q.subrange(1, q.len() as int).push(t));
    } else {
        assert(q.push(t).subrange(1, 1) =~= q);
    }
}

/// A simple FIFO scheduler: tasks are fetched in the order they were added.
pub struct TaskManager {
    ready_queue: VecDeque<ReadyTask>,
}

impl View for TaskManager {
    type V = Seq<ReadyTask>;

    /// The queued tasks, front first.
    closed spec fn view(&self) -> Seq<ReadyTask> {
        self.ready_queue@
    }
}

impl TaskManager {
    /// Creates an empty TaskManager.
    pub fn new() -> (tm: Self)
        ensures
            tm@ == Seq::<ReadyTask>::empty(),
    {
        Self { ready_queue: VecDeque::new() }
    }

    /// Adds a task at the back of the ready queue.
    pub fn add(&mut self, task: ReadyTask)
        ensures
            final(self)@ == old(self)@.push(task),
    {
        self.ready_queue.push_back(task);
    }

    /// Takes the task at the front of the ready queue out of it. Its
    /// stride is advanced by its pass before it is handed out.
    pub fn fetch(&mut self) -> (task: Option<ReadyTask>)
        ensures
            old(self)@.len() == 0 ==> task is None && final(self)@ == old(self)@,
            old(self)@.len() > 0 ==> {
                let t = old(self)@[0];
                &&& task is Some
                &&& final(self)@ == old(self)@.subrange(1, old(self)@.len() as int)
                &&& task->0.pid == t.pid
                &&& task->0.schedule_priority.stride == stride_after_pass(
                    t.schedule_priority.stride,
                    t.schedule_priority.pass,
                )
                &&& task->0.schedule_priority.stride as int == (t.schedule_priority.stride as int
                    + t.schedule_priority.pass as int) % 0x1_0000_0000_0000_0000
                &&& task->0.schedule_priority.pass == t.schedule_priority.pass
                &&& task->0.memory_set == t.memory_set
            },
    {
        if let Some(mut fetch_task) = self.ready_queue.pop_front() {
            proof {
                lemma_stride_after_pass(fetch_task.schedule_priority.stride, fetch_task.schedule_priority.pass);
            }
            fetch_task.schedule_priority.tcb_pass_strde();
            Some(fetch_task)
        } else {
            None
        }
    }

    /// Process ids of the queued tasks, front first.
    pub fn ready_list(&self) -> (pids: Vec<usize>)
        ensures
            pids@.len() == self@.len(),
            forall|j: int| 0 <= j < self@.len() ==> #[trigger] pids@[j] == self@[j].pid,
    {
        let mut pids: Vec<usize> = Vec::new();
        let mut i: usize = 0;
        while i < self.ready_queue.len()
            invariant
                0 <= i <= self@.len(),
                pids@.len() == i,
                forall|j: int| 0 <= j < i ==> #[trigger] pids@[j] == self@[j].pid,
            decreases self@.len() - i,
        {
            pids.push(self.ready_queue[i].pid);
            i = i + 1;
        }
        pids
    }

    /// Maps the pages that cover `start_va..end_va`, with permission `perm`,
    /// into the address space of the queued task at position `pid` (the
    /// queue is indexed by the caller's process id).
    pub fn creat_new_map_area(&mut self, pid: usize, start_va: usize, end_va: usize, perm: u8)
        requires
            pid < old(self)@.len(),
        ensures
            final(self)@.len() == old(self)@.len(),
            forall|j: int|
                0 <= j < old(self)@.len() && j != pid ==> #[trigger] final(self)@[j] == old(self)@[j],
            final(self)@[pid as int].pid == old(self)@[pid as int].pid,
            final(self)@[pid as int].schedule_priority == old(self)@[pid as int].schedule_priority,
            final(self)@[pid as int].memory_set@ == old(self)@[pid as int].memory_set@.union_prefer_right(
                area_map(vpn_floor(start_va as int), vpn_ceil(end_va as int), perm | PTE_V),
            ),
    {
        if let Some(mut task) = self.ready_queue.remove(pid) {
            task.memory_set.insert_framed_area(start_va, end_va, perm);
            self.ready_queue.insert(pid, task);
            assert(forall|j: int|
                0 <= j < old(self)@.len() && j != pid ==> #[trigger] self@[j] == old(self)@[j]);
        }
    }
}

} // verus!
