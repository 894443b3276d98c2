//! Per-process synchronisation state: the tables of mutexes, semaphores and
//! condition variables, and the resource accounting used for deadlock
//! detection (available units per resource, units allocated to and needed by
//! each thread).
//!
//! Resource 0 stands for the process's mutexes taken together; resource
//! `id + 1` stands for semaphore `id`.
use vstd::prelude::*;

verus! {

/// Value returned by a system call that was refused because granting it
/// could deadlock the process.
pub const DEADLOCK: isize = -0xDEAD;

/// What a blocking synchronisation call decided.
#[derive(Copy, Clone, PartialEq, Eq, Structural)]
pub enum SyncOutcome {
    /// Go on and operate on the primitive (lock the mutex, down the semaphore).
    Proceed,
    /// Refuse the request: granting it could deadlock.
    Deadlock,
}

impl SyncOutcome {
    /// The value the system call returns to user space.
    pub fn code(&self) -> (r: isize)
        ensures
            *self == SyncOutcome::Deadlock ==> r == DEADLOCK,
            *self != SyncOutcome::Deadlock ==> r == 0,
    {
        match self {
            SyncOutcome::Deadlock => DEADLOCK,
            SyncOutcome::Proceed => 0,
        }
    }
}

/// Index of the first empty slot of a table, or its length if it is full.
pub open spec fn first_free<T>(s: Seq<Option<T>>) -> int {
    first_free_from(s, 0)
}

/// Index of the first empty slot of `s` at or after `i`, or `s.len()`.
pub open spec fn first_free_from<T>(s: Seq<Option<T>>, i: int) -> int
    decreases s.len() - i,
{
    if i >= s.len() {
        s.len() as int
    } else if s[i] is None {
        i
    } else {
        first_free_from(s, i + 1)
    }
}

/// `first_free` is the least empty slot, or the length when there is none.
pub proof fn lemma_first_free_from<T>(s: Seq<Option<T>>, i: int)
    requires
        0 <= i <= s.len(),
    ensures
        i <= first_free_from(s, i) <= s.len(),
        forall|j: int| i <= j < first_free_from(s, i) ==> s[j] is Some,
        first_free_from(s, i) < s.len() ==> s[first_free_from(s, i)] is None,
    decreases s.len() - i,
{
    if i < s.len() && s[i] is Some {
        lemma_first_free_from(s, i + 1);
    }
}

/// The least empty slot of a table, or the table's length when it is full.
pub proof fn lemma_first_free<T>(s: Seq<Option<T>>)
    ensures
        0 <= first_free(s) <= s.len(),
        forall|j: int| 0 <= j < first_free(s) ==> s[j] is Some,
        first_free(s) < s.len() ==> s[first_free(s)] is None,
{
    lemma_first_free_from(s, 0);
}

/// Finds the first empty slot of a table.
pub fn find_free_slot<T>(list: &Vec<Option<T>>) -> (r: Option<usize>)
    ensures
        r is Some <==> first_free(list@) < list@.len(),
        r is Some ==> r->0 == first_free(list@),
{
    proof {
        lemma_first_free(list@);
    }
    let mut i: usize = 0;
    while i < list.len()
        invariant
            0 <= i <= list@.len(),
            first_free(list@) == first_free_from(list@, i as int),
        decreases list@.len() - i,
    {
        if list[i].is_none() {
            return Some(i);
        }
        i = i + 1;
    }
    None
}

/// `m` with entry `(t, r)` raised by `d`.
pub open spec fn bump(m: Seq<Seq<isize>>, t: int, r: int, d: int) -> Seq<Seq<isize>> {
    m.update(t, m[t].update(r, (m[t][r] + d) as isize))
}

/// A table whose row `t` changed only in entry `r`, by `d`, is the old
/// table bumped at `(t, r)`.
pub proof fn lemma_bump_rows(old: Vec<Vec<isize>>, new: Vec<Vec<isize>>, t: int, r: int, d: int)
    requires
        0 <= t < old@.len(),
        0 <= r < old@[t]@.len(),
        new@.len() == old@.len(),
        forall|i: int| 0 <= i < old@.len() && i != t ==> #[trigger] new@[i]@ == old@[i]@,
        new@[t]@ == old@[t]@.update(r, (old@[t]@[r] + d) as isize),
    ensures
        new.deep_view() == bump(old.deep_view(), t, r, d),
{
    let b = bump(old.deep_view(), t, r, d);
    assert forall|i: int| 0 <= i < old@.len() implies #[trigger] new.deep_view()[i] == b[i] by {
        assert(new.deep_view()[i] =~= b[i]);
    }
    assert(new.deep_view() =~= b);
}

/// Bumping entry `(t, r)` by `d` adds `d` to that entry and to no other,
/// and keeps the table's shape.
pub proof fn lemma_bump_entries(m: Seq<Seq<isize>>, t: int, r: int, d: int)
    requires
        0 <= t < m.len(),
        0 <= r < m[t].len(),
        isize::MIN <= m[t][r] + d <= isize::MAX,
    ensures
        bump(m, t, r, d).len() == m.len(),
        forall|i: int| 0 <= i < m.len() ==> #[trigger] bump(m, t, r, d)[i].len() == m[i].len(),
        forall|i: int, j: int|
            0 <= i < m.len() && 0 <= j < m[i].len() ==> #[trigger] bump(m, t, r, d)[i][j] == m[i][j] + (
            if i == t && j == r {
                d
            } else {
                0
            }),
{
}

/// Sum of column `r` over the first `n` rows of `m`.
pub open spec fn column_sum(m: Seq<Seq<isize>>, r: int, n: int) -> int
    decreases n,
{
    if n <= 0 {
        0
    } else {
        column_sum(m, r, n - 1) + m[n - 1][r]
    }
}

/// The synchronisation state of a process. `M`, `S` and `C` are the kernel's
/// mutex, semaphore and condition-variable objects.
pub struct ProcessInner<M, S, C> {
    /// Mutex table; `None` marks a free slot.
    pub mutex_list: Vec<Option<M>>,
    /// Semaphore table; `None` marks a free slot.
    pub semaphore_list: Vec<Option<S>>,
    /// Condition-variable table; `None` marks a free slot.
    pub condvar_list: Vec<Option<C>>,
    /// Units of each resource that are free.
    pub available: Vec<isize>,
    /// `allocation[tid][r]`: units of resource `r` held by thread `tid`.
    pub allocation: Vec<Vec<isize>>,
    /// `need[tid][r]`: units of resource `r` requested by thread `tid` and
    /// not given back; it exceeds `allocation[tid][r]` by the requests still
    /// outstanding.
    pub need: Vec<Vec<isize>>,
    /// Whether lock and down requests are checked for deadlock.
    pub dead_lock_check: bool,
}

impl<M, S, C> ProcessInner<M, S, C> {
    /// Allocation table as a sequence of rows.
    pub open spec fn alloc_table(&self) -> Seq<Seq<isize>> {
        self.allocation.deep_view()
    }

    /// Need table as a sequence of rows.
    pub open spec fn need_table(&self) -> Seq<Seq<isize>> {
        self.need.deep_view()
    }

    /// Free units of resource `r`.
    pub open spec fn avail(&self, r: int) -> isize {
        self.available@[r]
    }

    /// Units of resource `r` held by thread `t`.
    pub open spec fn held(&self, t: int, r: int) -> isize {
        self.alloc_table()[t][r]
    }

    /// Units of resource `r` requested by thread `t`.
    pub open spec fn needs(&self, t: int, r: int) -> isize {
        self.need_table()[t][r]
    }

    /// Thread `t` and resource `r` index all three accounting tables.
    pub open spec fn cell_ok(&self, t: int, r: int) -> bool {
        &&& 0 <= t < self.alloc_table().len()
        &&& 0 <= r < self.alloc_table()[t].len()
        &&& 0 <= t < self.need_table().len()
        &&& 0 <= r < self.need_table()[t].len()
        &&& 0 <= r < self.available@.len()
    }

    /// The accounting tables of `new` have the shape of those of `old`: as
    /// many resources, threads, and entries per thread.
    pub open spec fn same_shape(old: &Self, new: &Self) -> bool {
        &&& new.available@.len() == old.available@.len()
        &&& new.alloc_table().len() == old.alloc_table().len()
        &&& new.need_table().len() == old.need_table().len()
        &&& forall|i: int|
            0 <= i < old.alloc_table().len() ==> #[trigger] new.alloc_table()[i].len()
                == old.alloc_table()[i].len()
        &&& forall|i: int|
            0 <= i < old.need_table().len() ==> #[trigger] new.need_table()[i].len()
                == old.need_table()[i].len()
    }

    /// One more unit of `r` for `t` passes the check: the thread's need after
    /// the request, less what it holds, does not exceed what is free.
    pub open spec fn grantable(&self, t: int, r: int) -> bool {
        (self.needs(t, r) + 1) - self.held(t, r) <= self.avail(r)
    }

    /// The check on a request of `r` by `t`, and its grant, stay within `isize`.
    pub open spec fn request_fits(&self, t: int, r: int) -> bool {
        &&& self.needs(t, r) < isize::MAX
        &&& isize::MIN <= (self.needs(t, r) + 1) - self.held(t, r) <= isize::MAX
        &&& self.grantable(t, r) ==> (self.avail(r) > isize::MIN && self.held(t, r) < isize::MAX)
    }

    /// Returning a unit of `r` held by `t` stays within `isize`.
    pub open spec fn release_fits(&self, t: int, r: int) -> bool {
        &&& self.avail(r) < isize::MAX
        &&& self.held(t, r) > isize::MIN
        &&& self.needs(t, r) > isize::MIN
    }

    /// Slot `id` of the mutex table holds a mutex.
    pub open spec fn mutex_ok(&self, id: int) -> bool {
        0 <= id < self.mutex_list@.len() && self.mutex_list@[id] is Some
    }

    /// Slot `id` of the semaphore table holds a semaphore.
    pub open spec fn semaphore_ok(&self, id: int) -> bool {
        0 <= id < self.semaphore_list@.len() && self.semaphore_list@[id] is Some
    }

    /// Slot `id` of the condition-variable table holds one.
    pub open spec fn condvar_ok(&self, id: int) -> bool {
        0 <= id < self.condvar_list@.len() && self.condvar_list@[id] is Some
    }

    /// The three object tables and the check flag agree.
    pub open spec fn same_objects(&self, other: &Self) -> bool {
        &&& self.mutex_list@ == other.mutex_list@
        &&& self.semaphore_list@ == other.semaphore_list@
        &&& self.condvar_list@ == other.condvar_list@
        &&& self.dead_lock_check == other.dead_lock_check
    }

    /// The accounting tables agree.
    pub open spec fn same_accounts(&self, other: &Self) -> bool {
        &&& self.available@ == other.available@
        &&& self.alloc_table() == other.alloc_table()
        &&& self.need_table() == other.need_table()
    }

    /// Nothing the system calls track has changed.
    pub open spec fn unchanged(old: &Self, new: &Self) -> bool {
        new.same_objects(old) && new.same_accounts(old)
    }

    /// `new` is `old` after granting one unit of `r` to `t`: the need and the
    /// allocation of `t` grow by one and one unit fewer is free.
    pub open spec fn acquired(old: &Self, new: &Self, t: int, r: int) -> bool {
        &&& new.same_objects(old)
        &&& Self::same_shape(old, new)
        &&& new.available@ == old.available@.update(r, (old.avail(r) - 1) as isize)
        &&& new.alloc_table() == bump(old.alloc_table(), t, r, 1)
        &&& new.need_table() == bump(old.need_table(), t, r, 1)
    }

    /// `new` is `old` after `t` gives back one unit of `r`: its allocation
    /// and its need shrink by one and one unit more is free.
    pub open spec fn released(old: &Self, new: &Self, t: int, r: int) -> bool {
        &&& new.same_objects(old)
        &&& Self::same_shape(old, new)
        &&& new.available@ == old.available@.update(r, (old.avail(r) + 1) as isize)
        &&& new.alloc_table() == bump(old.alloc_table(), t, r, -1)
        &&& new.need_table() == bump(old.need_table(), t, r, -1)
    }

    /// Grants one unit of resource `r` to thread `t`.
    pub fn acquire(&mut self, t: usize, r: usize)
        requires
            old(self).cell_ok(t as int, r as int),
            old(self).request_fits(t as int, r as int),
            old(self).grantable(t as int, r as int),
        ensures
            Self::acquired(old(self), final(self), t as int, r as int),
    {
        self.need[t][r] = self.need[t][r] + 1;
        self.available[r] = self.available[r] - 1;
        self.allocation[t][r] = self.allocation[t][r] + 1;
        proof {
            lemma_bump_rows(old(self).need, self.need, t as int, r as int, 1);
            lemma_bump_rows(old(self).allocation, self.allocation, t as int, r as int, 1);
        }
    }

    /// Takes back one unit of resource `r` from thread `t`.
    pub fn release(&mut self, t: usize, r: usize)
        requires
            old(self).cell_ok(t as int, r as int),
            old(self).release_fits(t as int, r as int),
        ensures
            Self::released(old(self), final(self), t as int, r as int),
    {
        self.available[r] = self.available[r] + 1;
        self.allocation[t][r] = self.allocation[t][r] - 1;
        self.need[t][r] = self.need[t][r] - 1;
        proof {
            lemma_bump_rows(old(self).allocation, self.allocation, t as int, r as int, -1);
            lemma_bump_rows(old(self).need, self.need, t as int, r as int, -1);
        }
    }
}

/// Bumping entry `(t, r)` by `d` changes the sum of column `r2` over the
/// first `n` rows by `d` exactly when `r2 == r` and row `t` is counted.
pub proof fn lemma_column_sum_bump(m: Seq<Seq<isize>>, t: int, r: int, d: int, r2: int, n: int)
    requires
        0 <= t < m.len(),
        0 <= r < m[t].len(),
        0 <= r2 < m[t].len(),
        0 <= n <= m.len(),
        isize::MIN <= m[t][r] + d <= isize::MAX,
    ensures
        column_sum(bump(m, t, r, d), r2, n) == column_sum(m, r2, n) + (if r2 == r && t < n {
            d
        } else {
            0
        }),
    decreases n,
{
    if n > 0 {
        lemma_column_sum_bump(m, t, r, d, r2, n - 1);
    }
}

/// Granting a unit and then taking it back leaves all three accounting
/// tables as they were.
pub proof fn lemma_release_undoes_acquire<M, S, C>(
    a: ProcessInner<M, S, C>,
    b: ProcessInner<M, S, C>,
    c: ProcessInner<M, S, C>,
    t: int,
    r: int,
)
    requires
        a.cell_ok(t, r),
        a.request_fits(t, r),
        a.grantable(t, r),
        ProcessInner::acquired(&a, &b, t, r),
        ProcessInner::released(&b, &c, t, r),
    ensures
        c.same_objects(&a),
        c.available@ == a.available@,
        c.alloc_table() == a.alloc_table(),
        c.need_table() == a.need_table(),
{
    assert(c.available@ =~= a.available@);
    assert(c.alloc_table()[t] =~= a.alloc_table()[t]);
    assert(c.alloc_table() =~= a.alloc_table());
    assert(c.need_table()[t] =~= a.need_table()[t]);
    assert(c.need_table() =~= a.need_table());
}

/// A thread's outstanding need (units asked for but not held) is unchanged
/// when it is granted a unit or gives one back, so a thread that starts with
/// none never has any.
pub proof fn lemma_outstanding_need_unchanged<M, S, C>(
    a: ProcessInner<M, S, C>,
    b: ProcessInner<M, S, C>,
    t: int,
    r: int,
)
    requires
        ({
            ||| a.cell_ok(t, r) && a.request_fits(t, r) && a.grantable(t, r) && ProcessInner::acquired(&a, &b, t, r)
            ||| a.cell_ok(t, r) && a.release_fits(t, r) && ProcessInner::released(&a, &b, t, r)
        }),
    ensures
        b.needs(t, r) - b.held(t, r) == a.needs(t, r) - a.held(t, r),
{
}

/// For each resource, the free units plus the units held by all threads do
/// not change when a unit is granted or given back.
pub proof fn lemma_accounting_conserved<M, S, C>(
    a: ProcessInner<M, S, C>,
    b: ProcessInner<M, S, C>,
    t: int,
    r: int,
    r2: int,
)
    requires
        ({
            ||| a.cell_ok(t, r) && a.request_fits(t, r) && a.grantable(t, r) && ProcessInner::acquired(&a, &b, t, r)
            ||| a.cell_ok(t, r) && a.release_fits(t, r) && ProcessInner::released(&a, &b, t, r)
        }),
        0 <= r2 < a.available@.len(),
        forall|i: int| 0 <= i < a.alloc_table().len() ==> r2 < #[trigger] a.alloc_table()[i].len(),
    ensures
        b.avail(r2) + column_sum(b.alloc_table(), r2, b.alloc_table().len() as int) == a.avail(r2)
            + column_sum(a.alloc_table(), r2, a.alloc_table().len() as int),
{
    let n = a.alloc_table().len() as int;
    if a.cell_ok(t, r) && a.request_fits(t, r) && a.grantable(t, r) && ProcessInner::acquired(&a, &b, t, r) {
        lemma_column_sum_bump(a.alloc_table(), t, r, 1, r2, n);
    } else {
        lemma_column_sum_bump(a.alloc_table(), t, r, -1, r2, n);
    }
}

} // verus!
