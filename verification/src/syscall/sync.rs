//! Synchronisation system calls: sleep, mutexes, semaphores, condition
//! variables and deadlock detection.
//!
//! Each call works on the calling process's `ProcessInner` and on the id of
//! the calling thread. Blocking, waking and the primitives' own queues belong
//! to the scheduler: a call here returns what the kernel must do next.
use vstd::prelude::*;

use crate::sync::{find_free_slot, first_free, lemma_first_free, ProcessInner, SyncOutcome};

verus! {

/// Kind of mutex a `mutex_create` request asks for.
#[derive(Copy, Clone, PartialEq, Eq, Structural)]
pub enum MutexKind {
    /// A mutex that spins (yielding) until it is free.
    Spin,
    /// A mutex that puts waiting threads to sleep.
    Blocking,
}

/// Which mutex `mutex_create(blocking)` builds.
pub fn mutex_kind(blocking: bool) -> (kind: MutexKind)
    ensures
        kind == (if blocking { MutexKind::Blocking } else { MutexKind::Spin }),
{
    if !blocking {
        MutexKind::Spin
    } else {
        MutexKind::Blocking
    }
}

/// Sleep: the time, in milliseconds, at which the caller is to be woken.
pub fn sys_sleep(now_ms: usize, ms: usize) -> (expire_ms: usize)
    requires
        now_ms + ms <= usize::MAX,
    ensures
        expire_ms == now_ms + ms,
{
    now_ms + ms
}

/// Mutex create: stores `mutex` in the first free slot of the mutex table,
/// or appends it and counts one more mutex unit as available, and returns
/// the slot's id.
pub fn sys_mutex_create<M, S, C>(p: &mut ProcessInner<M, S, C>, mutex: M) -> (id: isize)
    requires
        old(p).mutex_list@.len() < isize::MAX,
        first_free(old(p).mutex_list@) == old(p).mutex_list@.len() ==> {
            &&& old(p).available@.len() > 0
            &&& old(p).avail(0) < isize::MAX
        },
    ensures
        id as int == first_free(old(p).mutex_list@),
        id < old(p).mutex_list@.len() ==> {
            &&& final(p).mutex_list@ == old(p).mutex_list@.update(id as int, Some(mutex))
            &&& final(p).available@ == old(p).available@
        },
        id == old(p).mutex_list@.len() ==> {
            &&& final(p).mutex_list@ == old(p).mutex_list@.push(Some(mutex))
            &&& final(p).available@ == old(p).available@.update(0, (old(p).avail(0) + 1) as isize)
        },
        final(p).semaphore_list@ == old(p).semaphore_list@,
        final(p).condvar_list@ == old(p).condvar_list@,
        final(p).dead_lock_check == old(p).dead_lock_check,
        final(p).alloc_table() == old(p).alloc_table(),
        final(p).need_table() == old(p).need_table(),
{
    proof {
        lemma_first_free(p.mutex_list@);
    }
    if let Some(id) = find_free_slot(&p.mutex_list) {
        p.mutex_list[id] = Some(mutex);
        id as isize
    } else {
        p.mutex_list.push(Some(mutex));
        p.available[0] = p.available[0] + 1;
        (p.mutex_list.len() - 1) as isize
    }
}

/// Mutex lock. With deadlock detection on, the request of one mutex unit is
/// granted (and booked) when the thread's need after it, less what it
/// holds, does not exceed the free units; otherwise it is refused. With
/// detection off nothing is booked. On `Proceed` the kernel locks mutex
/// `mutex_id`.
pub fn sys_mutex_lock<M, S, C>(p: &mut ProcessInner<M, S, C>, tid: usize, mutex_id: usize) -> (out:
    SyncOutcome)
    requires
        old(p).mutex_ok(mutex_id as int),
        old(p).dead_lock_check ==> {
            &&& old(p).cell_ok(tid as int, 0)
            &&& old(p).request_fits(tid as int, 0)
        },
    ensures
        !old(p).dead_lock_check ==> {
            &&& out == SyncOutcome::Proceed
            &&& ProcessInner::unchanged(old(p), final(p))
        },
        old(p).dead_lock_check && old(p).needs(tid as int, 0) == old(p).held(tid as int, 0)
            && old(p).avail(0) >= 1 ==> out == SyncOutcome::Proceed,
        old(p).dead_lock_check && old(p).grantable(tid as int, 0) ==> {
            &&& out == SyncOutcome::Proceed
            &&& ProcessInner::acquired(old(p), final(p), tid as int, 0)
        },
        old(p).dead_lock_check && !old(p).grantable(tid as int, 0) ==> {
            &&& out == SyncOutcome::Deadlock
            &&& ProcessInner::unchanged(old(p), final(p))
        },
{
    if p.dead_lock_check {
        let work = p.available[0];
        let need = p.need[tid][0] + 1;
        if need - p.allocation[tid][0] <= work {
            p.acquire(tid, 0);
        } else {
            return SyncOutcome::Deadlock;
        }
    }
    SyncOutcome::Proceed
}

/// Mutex unlock: the thread gives back one mutex unit, which it no longer
/// needs. The kernel unlocks
/// mutex `mutex_id`.
pub fn sys_mutex_unlock<M, S, C>(p: &mut ProcessInner<M, S, C>, tid: usize, mutex_id: usize) -> (r:
    isize)
    requires
        old(p).mutex_ok(mutex_id as int),
        old(p).cell_ok(tid as int, 0),
        old(p).release_fits(tid as int, 0),
    ensures
        r == 0,
        ProcessInner::released(old(p), final(p), tid as int, 0),
{
    p.release(tid, 0);
    0
}

/// Semaphore create: stores `semaphore` in the first free slot of the
/// semaphore table, or appends it, sets `res_count` free units of the
/// semaphore's resource, and returns the slot's id.
pub fn sys_semaphore_create<M, S, C>(p: &mut ProcessInner<M, S, C>, semaphore: S, res_count: usize) -> (id: isize)
    requires
        old(p).semaphore_list@.len() < isize::MAX,
        first_free(old(p).semaphore_list@) + 1 < old(p).available@.len(),
    ensures
        id as int == first_free(old(p).semaphore_list@),
        id < old(p).semaphore_list@.len() ==> final(p).semaphore_list@ == old(
            p,
        ).semaphore_list@.update(id as int, Some(semaphore)),
        id == old(p).semaphore_list@.len() ==> final(p).semaphore_list@ == old(
            p,
        ).semaphore_list@.push(Some(semaphore)),
        final(p).available@ == old(p).available@.update(id + 1, res_count as isize),
        final(p).mutex_list@ == old(p).mutex_list@,
        final(p).condvar_list@ == old(p).condvar_list@,
        final(p).dead_lock_check == old(p).dead_lock_check,
        final(p).alloc_table() == old(p).alloc_table(),
        final(p).need_table() == old(p).need_table(),
{
    proof {
        lemma_first_free(p.semaphore_list@);
    }
    let id = if let Some(id) = find_free_slot(&p.semaphore_list) {
        p.semaphore_list[id] = Some(semaphore);
        p.available[id + 1] = res_count as isize;
        id
    } else {
        p.semaphore_list.push(Some(semaphore));
        let id = p.semaphore_list.len() - 1;
        p.available[id + 1] = res_count as isize;
        id
    };
    id as isize
}

/// Semaphore up: the thread gives back, and no longer needs, one unit of the
/// semaphore's resource. The kernel ups semaphore `sem_id`.
pub fn sys_semaphore_up<M, S, C>(p: &mut ProcessInner<M, S, C>, tid: usize, sem_id: usize) -> (r: isize)
    requires
        old(p).semaphore_ok(sem_id as int),
        old(p).cell_ok(tid as int, sem_id + 1),
        old(p).release_fits(tid as int, sem_id + 1),
    ensures
        r == 0,
        ProcessInner::released(old(p), final(p), tid as int, sem_id + 1),
{
    assert(sem_id < p.semaphore_list.len());
    p.release(tid, sem_id + 1);
    0
}

/// Semaphore down. With deadlock detection off the kernel downs semaphore
/// `sem_id` and nothing is booked. With it on, a grantable request of one
/// unit is booked and the kernel downs the semaphore; a request that is not
/// grantable is refused when no entry of `ready_queue` is nonzero, and
/// otherwise the kernel downs the semaphore without booking anything.
pub fn sys_semaphore_down<M, S, C>(
    p: &mut ProcessInner<M, S, C>,
    tid: usize,
    sem_id: usize,
    ready_queue: &Vec<usize>,
) -> (out: SyncOutcome)
    requires
        old(p).semaphore_ok(sem_id as int),
        old(p).dead_lock_check ==> {
            &&& old(p).cell_ok(tid as int, sem_id + 1)
            &&& old(p).request_fits(tid as int, sem_id + 1)
        },
    ensures
        !old(p).dead_lock_check ==> {
            &&& out == SyncOutcome::Proceed
            &&& ProcessInner::unchanged(old(p), final(p))
        },
        old(p).dead_lock_check && old(p).needs(tid as int, sem_id + 1) == old(p).held(
            tid as int,
            sem_id + 1,
        ) && old(p).avail(sem_id + 1) >= 1 ==> out == SyncOutcome::Proceed,
        old(p).dead_lock_check && old(p).grantable(tid as int, sem_id + 1) ==> {
            &&& out == SyncOutcome::Proceed
            &&& ProcessInner::acquired(old(p), final(p), tid as int, sem_id + 1)
        },
        old(p).dead_lock_check && !old(p).grantable(tid as int, sem_id + 1) ==> {
            &&& out == (if forall|i: int| 0 <= i < ready_queue@.len() ==> ready_queue@[i] == 0 {
                SyncOutcome::Deadlock
            } else {
                SyncOutcome::Proceed
            })
            &&& ProcessInner::unchanged(old(p), final(p))
        },
{
    if p.dead_lock_check {
        assert(sem_id < p.semaphore_list.len());
        let r = sem_id + 1;
        let work = p.available[r];
        let need = p.need[tid][r] + 1;
        if need - p.allocation[tid][r] <= work {
            p.acquire(tid, r);
        } else if !any_nonzero(ready_queue) {
            return SyncOutcome::Deadlock;
        }
    }
    SyncOutcome::Proceed
}

/// Whether some entry of `v` is nonzero.
fn any_nonzero(v: &Vec<usize>) -> (b: bool)
    ensures
        b <==> exists|i: int| 0 <= i < v@.len() && v@[i] != 0,
{
    let mut i: usize = 0;
    while i < v.len()
        invariant
            0 <= i <= v@.len(),
            forall|j: int| 0 <= j < i ==> v@[j] == 0,
        decreases v@.len() - i,
    {
        if v[i] != 0 {
            return true;
        }
        i = i + 1;
    }
    false
}

/// Condition-variable create: stores `condvar` in the first free slot of the
/// table, or appends it, and returns the slot's id.
pub fn sys_condvar_create<M, S, C>(p: &mut ProcessInner<M, S, C>, condvar: C) -> (id: isize)
    requires
        old(p).condvar_list@.len() < isize::MAX,
    ensures
        id as int == first_free(old(p).condvar_list@),
        id < old(p).condvar_list@.len() ==> final(p).condvar_list@ == old(p).condvar_list@.update(
            id as int,
            Some(condvar),
        ),
        id == old(p).condvar_list@.len() ==> final(p).condvar_list@ == old(p).condvar_list@.push(
            Some(condvar),
        ),
        final(p).mutex_list@ == old(p).mutex_list@,
        final(p).semaphore_list@ == old(p).semaphore_list@,
        final(p).dead_lock_check == old(p).dead_lock_check,
        final(p).same_accounts(old(p)),
{
    proof {
        lemma_first_free(p.condvar_list@);
    }
    let id = if let Some(id) = find_free_slot(&p.condvar_list) {
        p.condvar_list[id] = Some(condvar);
        id
    } else {
        p.condvar_list.push(Some(condvar));
        p.condvar_list.len() - 1
    };
    id as isize
}

/// Condition-variable signal: the condition variable the kernel signals.
pub fn sys_condvar_signal<M, S, C>(p: &ProcessInner<M, S, C>, condvar_id: usize) -> (condvar: &C)
    requires
        p.condvar_ok(condvar_id as int),
    ensures
        p.condvar_list@[condvar_id as int] == Some(*condvar),
{
    p.condvar_list[condvar_id].as_ref().unwrap()
}

/// Condition-variable wait: the condition variable the caller waits on and
/// the mutex it releases while waiting and takes again on waking.
pub fn sys_condvar_wait<M, S, C>(p: &ProcessInner<M, S, C>, condvar_id: usize, mutex_id: usize) -> (r: (&C, &M))
    requires
        p.condvar_ok(condvar_id as int),
        p.mutex_ok(mutex_id as int),
    ensures
        p.condvar_list@[condvar_id as int] == Some(*r.0),
        p.mutex_list@[mutex_id as int] == Some(*r.1),
{
    let condvar = p.condvar_list[condvar_id].as_ref().unwrap();
    let mutex = p.mutex_list[mutex_id].as_ref().unwrap();
    (condvar, mutex)
}

/// Enable deadlock detection: from now on lock and down requests of the
/// process are checked. Detection is switched on whatever `_enabled` is.
pub fn sys_enable_deadlock_detect<M, S, C>(p: &mut ProcessInner<M, S, C>, _enabled: usize) -> (r: isize)
    ensures
        r == 0,
        final(p).dead_lock_check,
        final(p).mutex_list@ == old(p).mutex_list@,
        final(p).semaphore_list@ == old(p).semaphore_list@,
        final(p).condvar_list@ == old(p).condvar_list@,
        final(p).same_accounts(old(p)),
{
    p.dead_lock_check = true;
    0
}

} // verus!
