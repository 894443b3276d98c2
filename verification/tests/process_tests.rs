use rcore_os::config::{
    SYSCALL_EXIT, SYSCALL_GET_TIME, SYSCALL_MMAP, SYSCALL_MUNMAP, SYSCALL_SBRK, SYSCALL_TRACE,
    SYSCALL_YIELD,
};
use rcore_os::mm::{MemorySet, PTE_R, PTE_U, PTE_V, PTE_W};
use rcore_os::syscall::process::{
    map_permission, sys_exit, sys_get_time, sys_mmap, sys_munmap, sys_sbrk, sys_trace, sys_yield,
    TraceAction,
};
use rcore_os::task::task::{ProgramBrk, TaskContext, TaskControlBlock, TaskStatus};

fn tcb() -> TaskControlBlock {
    TaskControlBlock::new(TaskContext::zero_init())
}

#[test]
fn exit_marks_exited_and_counts() {
    let mut t = tcb();
    sys_exit(&mut t, 3);
    assert!(t.task_status == TaskStatus::Exited);
    assert_eq!(t.read_syscall_times(SYSCALL_EXIT), 1);
}

#[test]
fn yield_marks_ready_and_counts() {
    let mut t = tcb();
    assert_eq!(sys_yield(&mut t), 0);
    assert!(t.task_status == TaskStatus::Ready);
    assert_eq!(t.read_syscall_times(SYSCALL_YIELD), 1);
}

#[test]
fn get_time_splits_microseconds() {
    let mut t = tcb();
    let tv = sys_get_time(&mut t, 12_345_678);
    assert_eq!(tv.sec, 12);
    assert_eq!(tv.usec, 345_678);
    let tv = sys_get_time(&mut t, 999_999);
    assert_eq!(tv.sec, 0);
    assert_eq!(tv.usec, 999_999);
    assert_eq!(t.read_syscall_times(SYSCALL_GET_TIME), 2);
}

#[test]
fn trace_on_unmapped_address_fails_uncounted() {
    let mut t = tcb();
    let ms = MemorySet::new_bare();
    assert!(sys_trace(&mut t, &ms, 2, SYSCALL_TRACE, 0) == TraceAction::Return(-1));
    assert_eq!(t.read_syscall_times(SYSCALL_TRACE), 0);
}

#[test]
fn trace_requests() {
    let mut t = tcb();
    let mut ms = MemorySet::new_bare();
    // page 0 readable only, page 1 writable only
    ms.insert_framed_area(0, 0x1000, PTE_R | PTE_U);
    ms.insert_framed_area(0x1000, 0x2000, PTE_W | PTE_U);
    assert!(sys_trace(&mut t, &ms, 0, 0x10, 0) == TraceAction::Load);
    assert!(sys_trace(&mut t, &ms, 1, 0x10, 5) == TraceAction::Return(-1));
    assert!(sys_trace(&mut t, &ms, 1, 0x1010, 5) == TraceAction::Store(5));
    assert!(sys_trace(&mut t, &ms, 0, 0x1010, 0) == TraceAction::Return(-1));
    assert!(sys_trace(&mut t, &ms, 7, 0x10, 0) == TraceAction::Return(-1));
    // the request itself is counted before the count is read
    assert!(sys_trace(&mut t, &ms, 2, SYSCALL_TRACE, 0) == TraceAction::Return(6));
    assert!(sys_trace(&mut t, &ms, 2, SYSCALL_EXIT, 0) == TraceAction::Return(0));
}

#[test]
fn map_permission_bits() {
    assert_eq!(map_permission(1), PTE_R | PTE_U);
    assert_eq!(map_permission(3), PTE_R | PTE_W | PTE_U);
    assert_eq!(map_permission(7) | PTE_V, 0b11111);
}

#[test]
fn mmap_rejects_bad_arguments() {
    let mut t = tcb();
    let mut ms = MemorySet::new_bare();
    assert_eq!(sys_mmap(&mut t, &mut ms, 0x1001, 0x1000, 1), -1);
    assert_eq!(sys_mmap(&mut t, &mut ms, 0x1000, 0x1000, 0), -1);
    assert_eq!(sys_mmap(&mut t, &mut ms, 0x1000, 0x1000, 8), -1);
    assert_eq!(sys_mmap(&mut t, &mut ms, 0x1000, 0x1000, 9), -1);
    assert_eq!(ms.find_pte(1), None);
    assert_eq!(t.read_syscall_times(SYSCALL_MMAP), 4);
}

#[test]
fn mmap_maps_and_refuses_overlap() {
    let mut t = tcb();
    let mut ms = MemorySet::new_bare();
    assert_eq!(sys_mmap(&mut t, &mut ms, 0x10000, 0x1800, 3), 0);
    assert_eq!(ms.find_pte(0x10), Some(0b10111));
    assert_eq!(ms.find_pte(0x11), Some(0b10111));
    assert_eq!(ms.find_pte(0x12), None);
    assert_eq!(sys_mmap(&mut t, &mut ms, 0x11000, 0x2000, 1), -1);
    assert_eq!(ms.find_pte(0x12), None);
    assert_eq!(sys_mmap(&mut t, &mut ms, 0x12000, 0x1000, 4), 0);
    assert_eq!(ms.find_pte(0x12), Some(0b11001));
}

#[test]
fn munmap_undoes_mmap() {
    let mut t = tcb();
    let mut ms = MemorySet::new_bare();
    assert_eq!(sys_mmap(&mut t, &mut ms, 0x4000, 0x2000, 2), 0);
    assert_eq!(sys_munmap(&mut t, &mut ms, 0x4001, 0x1000), -1);
    assert_eq!(sys_munmap(&mut t, &mut ms, 0x4000, 0x3000), -1);
    assert_eq!(ms.find_pte(4), Some(0b10101));
    assert_eq!(sys_munmap(&mut t, &mut ms, 0x4000, 0x2000), 0);
    assert_eq!(ms.find_pte(4), None);
    assert_eq!(ms.find_pte(5), None);
    assert_eq!(sys_munmap(&mut t, &mut ms, 0x4000, 0x1000), -1);
    assert_eq!(t.read_syscall_times(SYSCALL_MUNMAP), 4);
}

#[test]
fn sbrk_grows_shrinks_and_refuses() {
    let mut t = tcb();
    let mut h = ProgramBrk { heap_bottom: 0x8000, program_brk: 0x8000 };
    assert_eq!(sys_sbrk(&mut t, &mut h, 0x2000), 0x8000);
    assert_eq!(sys_sbrk(&mut t, &mut h, -0x2000), 0xa000);
    assert_eq!(h.program_brk, 0x8000);
    assert_eq!(sys_sbrk(&mut t, &mut h, -1), -1);
    assert_eq!(h.program_brk, 0x8000);
    assert_eq!(t.read_syscall_times(SYSCALL_SBRK), 3);
}

#[test]
fn bad_arguments_fail_before_the_length_is_added() {
    let mut t = tcb();
    let mut ms = MemorySet::new_bare();
    assert_eq!(sys_mmap(&mut t, &mut ms, 0x1001, usize::MAX, 1), -1);
    assert_eq!(sys_mmap(&mut t, &mut ms, 0x1000, usize::MAX, 0), -1);
    assert_eq!(sys_munmap(&mut t, &mut ms, 0x1001, usize::MAX), -1);
    assert_eq!(t.read_syscall_times(SYSCALL_MMAP), 2);
    assert_eq!(t.read_syscall_times(SYSCALL_MUNMAP), 1);
}
