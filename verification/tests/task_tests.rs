use rcore_os::config::{MAX_SYSCALL_NUM, SYSCALL_EXIT, SYSCALL_TRACE};
use rcore_os::mm::MemorySet;
use rcore_os::task::manager::{ReadyTask, SchedulePriority, TaskManager};
use rcore_os::task::task::{ProgramBrk, TaskContext, TaskControlBlock, TaskStatus};

fn task(pid: usize, stride: u64, pass: u64) -> ReadyTask {
    ReadyTask {
        pid,
        schedule_priority: SchedulePriority { stride, pass },
        memory_set: MemorySet::new_bare(),
    }
}

#[test]
fn new_tcb_counts_nothing() {
    let mut tcb = TaskControlBlock::new(TaskContext::zero_init());
    assert!(tcb.task_status == TaskStatus::UnInit);
    for id in 0..MAX_SYSCALL_NUM {
        assert_eq!(tcb.read_syscall_times(id), 0);
    }
}

#[test]
fn count_then_read_gives_one_more() {
    let mut tcb = TaskControlBlock::new(TaskContext::zero_init());
    tcb.syscall_times_updata(SYSCALL_TRACE);
    tcb.syscall_times_updata(SYSCALL_TRACE);
    tcb.syscall_times_updata(SYSCALL_EXIT);
    assert_eq!(tcb.read_syscall_times(SYSCALL_TRACE), 2);
    assert_eq!(tcb.read_syscall_times(SYSCALL_EXIT), 1);
    assert_eq!(tcb.read_syscall_times(0), 0);
    assert_eq!(tcb.read_syscall_times(MAX_SYSCALL_NUM - 1), 0);
}

#[test]
fn fetch_from_empty_queue_is_none() {
    let mut tm = TaskManager::new();
    assert!(tm.fetch().is_none());
    assert!(tm.ready_list().is_empty());
}

#[test]
fn fetch_single_task_advances_its_stride() {
    let mut tm = TaskManager::new();
    tm.add(task(7, 5, 10));
    let t = tm.fetch().unwrap();
    assert_eq!(t.pid, 7);
    assert_eq!(t.schedule_priority.stride, 15);
    assert_eq!(t.schedule_priority.pass, 10);
    assert!(tm.fetch().is_none());
}

#[test]
fn fetch_is_first_in_first_out() {
    let mut tm = TaskManager::new();
    tm.add(task(1, 5, 1));
    tm.add(task(2, 0, 4));
    tm.add(task(3, 9, 1));
    let t = tm.fetch().unwrap();
    assert_eq!(t.pid, 1);
    assert_eq!(t.schedule_priority.stride, 6);
    assert_eq!(tm.ready_list(), vec![2, 3]);
    tm.add(task(4, 0, 6));
    let t = tm.fetch().unwrap();
    assert_eq!(t.pid, 2);
    assert_eq!(t.schedule_priority.stride, 4);
    assert_eq!(tm.ready_list(), vec![3, 4]);
    assert_eq!(tm.fetch().unwrap().pid, 3);
    assert_eq!(tm.fetch().unwrap().pid, 4);
    assert!(tm.fetch().is_none());
}

#[test]
fn stride_wraps_around() {
    let mut p = SchedulePriority { stride: u64::MAX - 1, pass: 5 };
    p.tcb_pass_strde();
    assert_eq!(p.stride, 3);
    assert_eq!(p.pass, 5);
}

#[test]
fn map_area_leaves_other_tasks_alone() {
    let mut tm = TaskManager::new();
    tm.add(task(0, 0, 1));
    tm.add(task(1, 0, 1));
    tm.creat_new_map_area(1, 0x1000, 0x3000, 0b10110);
    let t0 = tm.fetch().unwrap();
    assert_eq!(t0.pid, 0);
    assert_eq!(t0.memory_set.find_pte(1), None);
}

#[test]
fn map_area_reaches_indexed_task() {
    let mut tm = TaskManager::new();
    tm.add(task(0, 1, 1));
    tm.add(task(1, 1, 1));
    tm.creat_new_map_area(1, 0x1000, 0x3000, 0b10110);
    let _t0 = tm.fetch().unwrap();
    let t1 = tm.fetch().unwrap();
    assert_eq!(t1.pid, 1);
    assert_eq!(t1.memory_set.find_pte(1), Some(0b10111));
    assert_eq!(t1.memory_set.find_pte(2), Some(0b10111));
    assert_eq!(t1.memory_set.find_pte(3), None);
    assert_eq!(t1.memory_set.find_pte(0), None);
}

#[test]
fn change_brk_moves_and_refuses_below_bottom() {
    let mut h = ProgramBrk { heap_bottom: 0x10000, program_brk: 0x10000 };
    assert_eq!(h.change_program_brk(0x100), Some(0x10000));
    assert_eq!(h.program_brk, 0x10100);
    assert_eq!(h.change_program_brk(-0x200), None);
    assert_eq!(h.program_brk, 0x10100);
    assert_eq!(h.change_program_brk(-0x100), Some(0x10100));
    assert_eq!(h.program_brk, 0x10000);
}

#[test]
fn change_brk_reads_the_break_as_signed() {
    let mut h = ProgramBrk { heap_bottom: 0, program_brk: usize::MAX - 10 };
    assert_eq!(h.change_program_brk(5), None);
    assert_eq!(h.program_brk, usize::MAX - 10);
    let mut h = ProgramBrk { heap_bottom: usize::MAX - 20, program_brk: usize::MAX - 10 };
    assert_eq!(h.change_program_brk(5), Some(usize::MAX - 10));
    assert_eq!(h.program_brk, usize::MAX - 5);
}
