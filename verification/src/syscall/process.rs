//! Process-management system calls.
//!
//! Each call counts itself in the calling task's control block and works on
//! that task's state: its address space, its heap. Reading and writing user
//! memory, the clock and the switch to another task belong to the kernel:
//! a call here returns what the kernel must do or hand back.
use vstd::prelude::*;

use crate::config::{
    MAX_SYSCALL_NUM, PAGE_SIZE, SYSCALL_EXIT, SYSCALL_GET_TIME, SYSCALL_MMAP, SYSCALL_MUNMAP, SYSCALL_SBRK,
    SYSCALL_TRACE, SYSCALL_YIELD,
};
use crate::mm::{
    PTE_X, lemma_page_in_range, area_map, ceil_vpn, floor_vpn, valid_in, vpn_ceil, vpn_floor, vpn_set, MemorySet, PTE_R, PTE_U,
    PTE_V, PTE_W,
};
use crate::task::task::{ProgramBrk, TaskControlBlock, TaskStatus};

verus! {

/// A point in time: whole seconds and the microseconds past them.
#[derive(Copy, Clone)]
pub struct TimeVal {
    /// Seconds.
    pub sec: usize,
    /// Microseconds.
    pub usec: usize,
}

/// The counters of `new` are those of `old` with system call `id` counted
/// once more.
pub open spec fn counted_times(old: TaskControlBlock, new: TaskControlBlock, id: usize) -> bool {
    new.system_call_times@ == old.system_call_times@.update(id as int, (old.times(id as int) + 1) as u32)
}

/// Task exits with an exit code: it is marked exited, and the kernel runs
/// the next task.
pub fn sys_exit(tcb: &mut TaskControlBlock, _exit_code: i32)
    requires
        old(tcb).can_count(SYSCALL_EXIT),
    ensures
        counted_times(*old(tcb), *final(tcb), SYSCALL_EXIT),
        final(tcb).task_cx == old(tcb).task_cx,
        final(tcb).task_status == TaskStatus::Exited,
{
    tcb.syscall_times_updata(SYSCALL_EXIT);
    tcb.task_status = TaskStatus::Exited;
}

/// Current task gives up the processor: it is marked ready, and the kernel
/// runs the next task.
pub fn sys_yield(tcb: &mut TaskControlBlock) -> (r: isize)
    requires
        old(tcb).can_count(SYSCALL_YIELD),
    ensures
        r == 0,
        counted_times(*old(tcb), *final(tcb), SYSCALL_YIELD),
        final(tcb).task_cx == old(tcb).task_cx,
        final(tcb).task_status == TaskStatus::Ready,
{
    tcb.syscall_times_updata(SYSCALL_YIELD);
    tcb.task_status = TaskStatus::Ready;
    0
}

/// Get time: the time `now_us` (microseconds) split into seconds and
/// microseconds, which the kernel writes to the caller's buffer.
pub fn sys_get_time(tcb: &mut TaskControlBlock, now_us: usize) -> (tv: TimeVal)
    requires
        old(tcb).can_count(SYSCALL_GET_TIME),
    ensures
        TaskControlBlock::counted(*old(tcb), *final(tcb), SYSCALL_GET_TIME),
        tv.sec == now_us / 1000000,
        tv.usec == now_us % 1000000,
{
    tcb.syscall_times_updata(SYSCALL_GET_TIME);
    TimeVal { sec: now_us / 1000000, usec: now_us % 1000000 }
}

/// What the kernel does to finish a trace request.
#[derive(Copy, Clone, PartialEq, Eq, Structural)]
pub enum TraceAction {
    /// Return this value.
    Return(isize),
    /// Return the word stored at the traced address.
    Load,
    /// Store this word at the traced address and return 0.
    Store(usize),
}

/// Trace. `_id` must lie in a page with a valid entry, else -1 and nothing
/// is counted. Then the call is counted and: request 0 loads the word at
/// `_id` if its page is readable; request 1 stores `_data` there if it is
/// writable; request 2 returns how often system call `_id` has been made;
/// anything else gives -1.
pub fn sys_trace(
    tcb: &mut TaskControlBlock,
    ms: &MemorySet,
    _trace_request: usize,
    _id: usize,
    _data: usize,
) -> (action: TraceAction)
    requires
        valid_in(ms@, vpn_floor(_id as int) as usize) ==> {
            &&& old(tcb).can_count(SYSCALL_TRACE)
            &&& _trace_request == 2 ==> _id < MAX_SYSCALL_NUM
        },
    ensures
        !valid_in(ms@, vpn_floor(_id as int) as usize) ==> {
            &&& action == TraceAction::Return(-1isize)
            &&& *final(tcb) == *old(tcb)
        },
        valid_in(ms@, vpn_floor(_id as int) as usize) ==> {
            let flags = ms@[vpn_floor(_id as int) as usize];
            &&& TaskControlBlock::counted(*old(tcb), *final(tcb), SYSCALL_TRACE)
            &&& action == (if _trace_request == 0 {
                if flags & PTE_R == PTE_R {
                    TraceAction::Load
                } else {
                    TraceAction::Return(-1isize)
                }
            } else if _trace_request == 1 {
                if flags & PTE_W == PTE_W {
                    TraceAction::Store(_data)
                } else {
                    TraceAction::Return(-1isize)
                }
            } else if _trace_request == 2 {
                TraceAction::Return(final(tcb).times(_id as int) as isize)
            } else {
                TraceAction::Return(-1isize)
            })
        },
{
    let vpn = floor_vpn(_id);
    let mapped = match ms.find_pte(vpn) {
        Some(pte) => pte & PTE_V != 0,
        None => false,
    };
    if !mapped {
        return TraceAction::Return(-1);
    }
    tcb.syscall_times_updata(SYSCALL_TRACE);
    match _trace_request {
        0 => match ms.find_pte(vpn) {
            None => TraceAction::Return(-1),
            Some(pte) => {
                if pte & PTE_R == PTE_R {
                    TraceAction::Load
                } else {
                    TraceAction::Return(-1)
                }
            },
        },
        1 => match ms.find_pte(vpn) {
            None => TraceAction::Return(-1),
            Some(pte) => {
                if pte & PTE_W == PTE_W {
                    TraceAction::Store(_data)
                } else {
                    TraceAction::Return(-1)
                }
            },
        },
        2 => TraceAction::Return(tcb.read_syscall_times(_id)),
        _ => TraceAction::Return(-1),
    }
}

/// The arguments of an mmap request are acceptable: page-aligned start and
/// a protection that is nonzero and uses only the read, write and execute
/// bits.
pub open spec fn mmap_args_ok(start: usize, port: usize) -> bool {
    start % PAGE_SIZE == 0 && 1 <= port <= 7
}

/// Page-table-entry flags of the pages that mmap maps for protection
/// `port`: the protection bits shifted into place, plus user and valid.
pub open spec fn mmap_flags(port: usize) -> u8 {
    (port * 2 + 17) as u8
}

/// Map permission for protection `port` (bit 0 read, bit 1 write, bit 2
/// execute): those bits shifted into place, plus the user bit.
pub fn map_permission(port: usize) -> (perm: u8)
    requires
        1 <= port <= 7,
    ensures
        perm | PTE_V == mmap_flags(port),
{
    let perm = ((port << 1) as u8 & 0x1e) | PTE_U;
    assert(((((port << 1) as u8 & 0x1e) | 16u8) | 1u8) == (port * 2 + 17) as u8) by (bit_vector)
        requires
            1 <= port <= 7,
    ;
    perm
}

/// Mmap: maps the pages covering `_start.._start + _len` with protection
/// `_port`. Fails with -1, mapping nothing, when the arguments are not
/// acceptable or one of those pages already has a valid entry.
pub fn sys_mmap(tcb: &mut TaskControlBlock, ms: &mut MemorySet, _start: usize, _len: usize, _port: usize) -> (r: isize)
    requires
        old(tcb).can_count(SYSCALL_MMAP),
        mmap_args_ok(_start, _port) ==> _start + _len <= usize::MAX,
    ensures
        TaskControlBlock::counted(*old(tcb), *final(tcb), SYSCALL_MMAP),
        r == 0 || r == -1,
        r == 0 <==> mmap_args_ok(_start, _port) && forall|vpn: usize|
            vpn_floor(_start as int) <= vpn < vpn_ceil(_start + _len) ==> !valid_in(old(ms)@, vpn),
        r == 0 ==> final(ms)@ == old(ms)@.union_prefer_right(
            area_map(vpn_floor(_start as int), vpn_ceil(_start + _len), mmap_flags(_port)),
        ),
        _start % 4096 == 0 && 1 <= _port <= 7 && (forall|vpn: usize|
            (vpn + 1) * PAGE_SIZE > _start && vpn * PAGE_SIZE < _start + _len ==> !valid_in(
                old(ms)@,
                vpn,
            )) ==> r == 0,
        r == 0 ==> forall|vpn: usize|
            (vpn + 1) * PAGE_SIZE > _start && vpn * PAGE_SIZE < _start + _len ==> #[trigger] final(ms)@.contains_key(vpn)
                && final(ms)@[vpn] == ((_port << 1usize) | 17usize) as u8,
        r == 0 ==> forall|vpn: usize|
            !((vpn + 1) * PAGE_SIZE > _start && vpn * PAGE_SIZE < _start + _len) ==> (#[trigger] final(ms)@.contains_key(vpn)
                == old(ms)@.contains_key(vpn) && (old(ms)@.contains_key(vpn) ==> final(ms)@[vpn]
                == old(ms)@[vpn])),
        r == -1 ==> final(ms)@ == old(ms)@,
{
    proof {
        lemma_mmap_args(_start, _port);
        assert forall|vpn: usize|
            #![trigger valid_in(old(ms)@, vpn)]
            (vpn_floor(_start as int) <= vpn < vpn_ceil(_start + _len)) <==> ((vpn + 1) * PAGE_SIZE > _start
                && vpn * PAGE_SIZE < _start + _len) by {
            if _start + _len <= usize::MAX {
                lemma_page_in_range(_start, (_start + _len) as usize, vpn);
            }
        }
    }
    tcb.syscall_times_updata(SYSCALL_MMAP);
    assert((_port & !0x7usize) != 0 <==> !(_port < 8)) by (bit_vector);
    assert(_port < 8 ==> ((_port & 0x7usize) == 0 <==> _port == 0)) by (bit_vector);
    if (_start % PAGE_SIZE != 0) || _port & !0x7 != 0 || _port & 0x7 == 0 {
        return -1;
    }
    let end = _start + _len;
    let start_vpn = floor_vpn(_start);
    let end_vpn = ceil_vpn(end);
    let mut vpn = start_vpn;
    while vpn < end_vpn
        invariant
            start_vpn <= vpn,
            vpn <= end_vpn || vpn == start_vpn,
            start_vpn == vpn_floor(_start as int),
            end_vpn == vpn_ceil(end as int),
            end == _start + _len,
            forall|v: usize| start_vpn <= v < vpn ==> !valid_in(ms@, v),
            ms@ == old(ms)@,
            TaskControlBlock::counted(*old(tcb), *tcb, SYSCALL_MMAP),
        decreases end_vpn - vpn,
    {
        if let Some(pte) = ms.find_pte(vpn) {
            if pte & PTE_V != 0 {
                assert(valid_in(old(ms)@, vpn));
                return -1;
            }
        }
        vpn = vpn + 1;
    }
    let perm = map_permission(_port);
    ms.insert_framed_area(_start, end, perm);
    proof {
        lemma_mmap_flags_bits(_port);
    }
    0
}

/// Munmap: unmaps the pages covering `_start.._start + _len`. Fails with
/// -1, unmapping nothing, when `_start` is not page-aligned or one of those
/// pages has no valid entry.
pub fn sys_munmap(tcb: &mut TaskControlBlock, ms: &mut MemorySet, _start: usize, _len: usize) -> (r: isize)
    requires
        old(tcb).can_count(SYSCALL_MUNMAP),
        _start % PAGE_SIZE == 0 ==> _start + _len <= usize::MAX,
    ensures
        TaskControlBlock::counted(*old(tcb), *final(tcb), SYSCALL_MUNMAP),
        r == 0 || r == -1,
        r == 0 <==> _start % PAGE_SIZE == 0 && forall|vpn: usize|
            vpn_floor(_start as int) <= vpn < vpn_ceil(_start + _len) ==> valid_in(old(ms)@, vpn),
        r == 0 ==> final(ms)@ == old(ms)@.remove_keys(
            vpn_set(vpn_floor(_start as int), vpn_ceil(_start + _len)),
        ),
        _start % 4096 == 0 && (forall|vpn: usize|
            (vpn + 1) * PAGE_SIZE > _start && vpn * PAGE_SIZE < _start + _len ==> valid_in(
                old(ms)@,
                vpn,
            )) ==> r == 0,
        r == 0 ==> forall|vpn: usize|
            (vpn + 1) * PAGE_SIZE > _start && vpn * PAGE_SIZE < _start + _len ==> !#[trigger] final(ms)@.contains_key(vpn),
        r == 0 ==> forall|vpn: usize|
            !((vpn + 1) * PAGE_SIZE > _start && vpn * PAGE_SIZE < _start + _len) ==> (#[trigger] final(ms)@.contains_key(vpn)
                == old(ms)@.contains_key(vpn) && (old(ms)@.contains_key(vpn) ==> final(ms)@[vpn]
                == old(ms)@[vpn])),
        r == -1 ==> final(ms)@ == old(ms)@,
{
    proof {
        assert forall|vpn: usize|
            #![trigger valid_in(old(ms)@, vpn)]
            (vpn_floor(_start as int) <= vpn < vpn_ceil(_start + _len)) <==> ((vpn + 1) * PAGE_SIZE > _start
                && vpn * PAGE_SIZE < _start + _len) by {
            if _start + _len <= usize::MAX {
                lemma_page_in_range(_start, (_start + _len) as usize, vpn);
            }
        }
    }
    tcb.syscall_times_updata(SYSCALL_MUNMAP);
    if _start % PAGE_SIZE != 0 {
        return -1;
    }
    if ms.umap_memoryset(_start, _start + _len) == -1 {
        return -1;
    }
    0
}

/// Sbrk: moves the program break by `size` bytes and returns the old
/// break, or -1 when the break would fall below the heap bottom.
pub fn sys_sbrk(tcb: &mut TaskControlBlock, heap: &mut ProgramBrk, size: i32) -> (r: isize)
    requires
        old(tcb).can_count(SYSCALL_SBRK),
        old(heap).move_fits(size),
    ensures
        TaskControlBlock::counted(*old(tcb), *final(tcb), SYSCALL_SBRK),
        !old(heap).move_ok(size) ==> {
            &&& r == -1
            &&& *final(heap) == *old(heap)
        },
        old(heap).program_brk as isize + size >= old(heap).heap_bottom as isize ==> {
            &&& r == old(heap).program_brk as isize
            &&& final(heap).program_brk == (old(heap).program_brk as isize + size) as usize
        },
        old(heap).program_brk as isize + size < old(heap).heap_bottom as isize ==> r == -1,
        old(heap).move_ok(size) ==> {
            &&& r == old(heap).program_brk as isize
            &&& final(heap).program_brk == old(heap).moved(size) as usize
            &&& final(heap).heap_bottom == old(heap).heap_bottom
        },
{
    tcb.syscall_times_updata(SYSCALL_SBRK);
    if let Some(old_brk) = heap.change_program_brk(size) {
        old_brk as isize
    } else {
        -1
    }
}

/// The time handed back by get_time is the clock reading split exactly:
/// seconds times a million plus microseconds gives the reading back, and
/// the microseconds stay below a million.
pub proof fn lemma_time_val_exact(now_us: usize, tv: TimeVal)
    requires
        tv.sec == now_us / 1000000,
        tv.usec == now_us % 1000000,
    ensures
        tv.sec * 1000000 + tv.usec == now_us,
        tv.usec < 1000000,
{
    vstd::arithmetic::div_mod::lemma_fundamental_div_mod(now_us as int, 1000000);
}

/// Unmapping the range that a successful mmap just mapped succeeds, and
/// leaves every page outside that range as it was before the mmap.
pub proof fn lemma_munmap_undoes_mmap(m0: Map<usize, u8>, start: usize, len: usize, port: usize)
    requires
        1 <= port <= 7,
        start + len <= usize::MAX,
    ensures
        ({
            let lo = vpn_floor(start as int);
            let hi = vpn_ceil(start + len);
            let m1 = m0.union_prefer_right(area_map(lo, hi, mmap_flags(port)));
            &&& forall|vpn: usize| lo <= vpn < hi ==> valid_in(m1, vpn)
            &&& m1.remove_keys(vpn_set(lo, hi)) == m0.remove_keys(vpn_set(lo, hi))
        }),
{
    let lo = vpn_floor(start as int);
    let hi = vpn_ceil(start + len);
    let m1 = m0.union_prefer_right(area_map(lo, hi, mmap_flags(port)));
    assert(mmap_flags(port) & PTE_V != 0) by (bit_vector)
        requires
            1 <= port <= 7,
    ;
    assert(m1.remove_keys(vpn_set(lo, hi)) =~= m0.remove_keys(vpn_set(lo, hi)));
}

/// Moving the break by `n` and then by `-n` brings it back: the second
/// move always succeeds on a heap whose break is not below its bottom.
pub proof fn lemma_sbrk_undo(h0: ProgramBrk, h1: ProgramBrk, n: i32)
    requires
        n > i32::MIN,
        h0.heap_bottom as isize <= h0.program_brk as isize,
        h0.move_fits(n),
        h0.move_ok(n),
        h1.program_brk == h0.moved(n) as usize,
        h1.heap_bottom == h0.heap_bottom,
    ensures
        h1.move_fits(-n as i32),
        h1.move_ok(-n as i32),
        h1.moved(-n as i32) as usize == h0.program_brk,
{
    let x: isize = h0.moved(n) as isize;
    let b: usize = h0.program_brk;
    assert(x as usize as isize == x) by (bit_vector);
    assert(b as isize as usize == b) by (bit_vector);
}

/// mmap accepts exactly the arguments that pass the check on them: a
/// page-aligned start and a protection with no bit above the low three and
/// at least one of them set. In particular every protection from 1 to 7 is
/// accepted on an aligned start, and 0 and 8 are not.
pub proof fn lemma_mmap_args(start: usize, port: usize)
    ensures
        mmap_args_ok(start, port) <==> (start % 4096 == 0 && port & !0x7usize == 0 && port & 0x7usize
            != 0),
        start % 4096 == 0 && 1 <= port <= 7 ==> mmap_args_ok(start, port),
        port == 0 || port >= 8 ==> !mmap_args_ok(start, port),
{
    assert((port & !0x7usize) == 0 <==> port < 8) by (bit_vector);
    assert(port < 8 ==> ((port & 0x7usize) == 0 <==> port == 0)) by (bit_vector);
}

/// The entry flags that mmap gives a page carry the protection bit by bit:
/// read (bit 0 of the protection) becomes the entry's read bit, write (bit 1)
/// its write bit, execute (bit 2) its execute bit; the page is always valid
/// and user-accessible, and no other bit is set.
pub proof fn lemma_mmap_flags_bits(port: usize)
    requires
        1 <= port <= 7,
    ensures
        mmap_flags(port) & PTE_V == PTE_V,
        mmap_flags(port) & PTE_U == PTE_U,
        (mmap_flags(port) & PTE_R == PTE_R) <==> (port & 1 == 1),
        (mmap_flags(port) & PTE_W == PTE_W) <==> (port & 2 == 2),
        (mmap_flags(port) & PTE_X == PTE_X) <==> (port & 4 == 4),
        mmap_flags(port) < 32,
        mmap_flags(port) == ((port << 1usize) | 17usize) as u8,
{
    let f = mmap_flags(port);
    assert(f == (port * 2 + 17) as u8);
    assert(f & 1u8 == 1u8) by (bit_vector)
        requires
            f == (port * 2 + 17) as u8,
            1 <= port <= 7,
    ;
    assert(f & 16u8 == 16u8) by (bit_vector)
        requires
            f == (port * 2 + 17) as u8,
            1 <= port <= 7,
    ;
    assert((f & 2u8 == 2u8) <==> (port & 1 == 1)) by (bit_vector)
        requires
            f == (port * 2 + 17) as u8,
            1 <= port <= 7,
    ;
    assert((f & 4u8 == 4u8) <==> (port & 2 == 2)) by (bit_vector)
        requires
            f == (port * 2 + 17) as u8,
            1 <= port <= 7,
    ;
    assert((f & 8u8 == 8u8) <==> (port & 4 == 4)) by (bit_vector)
        requires
            f == (port * 2 + 17) as u8,
            1 <= port <= 7,
    ;
    assert(f < 32 && f == ((port << 1usize) | 17usize) as u8) by (bit_vector)
        requires
            f == (port * 2 + 17) as u8,
            1 <= port <= 7,
    ;
}

} // verus!
