//! Page-granular model of an address space: which virtual pages are mapped
//! and with which page-table-entry flags.
use vstd::prelude::*;
use std::collections::HashMap;

use crate::config::PAGE_SIZE;

verus! {

broadcast use vstd::std_specs::hash::group_hash_axioms;

/// Page-table-entry flag: the entry is valid.
pub const PTE_V: u8 = 1;

/// Page-table-entry flag: the page is readable.
pub const PTE_R: u8 = 2;

/// Page-table-entry flag: the page is writable.
pub const PTE_W: u8 = 4;

/// Page-table-entry flag: the page is executable.
pub const PTE_X: u8 = 8;

/// Page-table-entry flag: the page is accessible from user mode.
pub const PTE_U: u8 = 16;

/// Page number of the page that holds byte `va`.
pub open spec fn vpn_floor(va: int) -> int {
    va / PAGE_SIZE as int
}

/// Number of the first page that starts at or after `va`.
pub open spec fn vpn_ceil(va: int) -> int {
    (va + PAGE_SIZE - 1) / PAGE_SIZE as int
}

/// The pages `lo..hi`, each with entry flags `flags`.
pub open spec fn area_map(lo: int, hi: int, flags: u8) -> Map<usize, u8> {
    Map::new(|vpn: usize| lo <= vpn < hi, |vpn: usize| flags)
}

/// The page numbers `lo..hi`.
pub open spec fn vpn_set(lo: int, hi: int) -> Set<usize> {
    Set::new(|vpn: usize| lo <= vpn < hi)
}

/// Page `vpn` has an entry and that entry is valid.
pub open spec fn valid_in(m: Map<usize, u8>, vpn: usize) -> bool {
    m.contains_key(vpn) && m[vpn] & PTE_V != 0
}

/// Page number of the page that holds byte `va` (rounding down).
pub fn floor_vpn(va: usize) -> (vpn: usize)
    ensures
        vpn == vpn_floor(va as int),
{
    va / PAGE_SIZE
}

/// Number of the first page that starts at or after `va` (rounding up).
pub fn ceil_vpn(va: usize) -> (vpn: usize)
    ensures
        vpn == vpn_ceil(va as int),
{
    let q = va / PAGE_SIZE;
    let r = va % PAGE_SIZE;
    assert(vpn_ceil(va as int) == q + (if r == 0 { 0int } else { 1int })) by (nonlinear_arith)
        requires
            q == va / 4096,
            r == va % 4096,
            PAGE_SIZE == 4096,
    ;
    if r == 0 {
        q
    } else {
        q + 1
    }
}

/// The mapped pages of one address space.
pub struct MemorySet {
    page_table: HashMap<usize, u8>,
}

impl View for MemorySet {
    type V = Map<usize, u8>;

    /// Page number to page-table-entry flags, for each page with an entry.
    closed spec fn view(&self) -> Map<usize, u8> {
        self.page_table@
    }
}

impl MemorySet {
    /// An address space with no pages.
    pub fn new_bare() -> (ms: Self)
        ensures
            ms@ == Map::<usize, u8>::empty(),
    {
        MemorySet { page_table: HashMap::new() }
    }

    /// The entry flags of page `vpn`, if it has an entry.
    pub fn find_pte(&self, vpn: usize) -> (pte: Option<u8>)
        ensures
            pte == (if self@.contains_key(vpn) {
                Some(self@[vpn])
            } else {
                None::<u8>
            }),
    {
        match self.page_table.get(&vpn) {
            Some(f) => Some(*f),
            None => None,
        }
    }

    /// Maps the pages that cover `start_va..end_va` with permission `perm`;
    /// each gets a valid entry with flags `perm | PTE_V`.
    pub fn insert_framed_area(&mut self, start_va: usize, end_va: usize, perm: u8)
        ensures
            final(self)@ == old(self)@.union_prefer_right(
                area_map(vpn_floor(start_va as int), vpn_ceil(end_va as int), perm | PTE_V),
            ),
            forall|vpn: usize|
                (vpn + 1) * PAGE_SIZE > start_va && vpn * PAGE_SIZE < end_va ==> #[trigger] final(self)@.contains_key(vpn) && final(self)@[vpn] == perm | PTE_V,
            forall|vpn: usize|
                !((vpn + 1) * PAGE_SIZE > start_va && vpn * PAGE_SIZE < end_va) ==> (#[trigger] final(self)@.contains_key(vpn) == old(self)@.contains_key(vpn) && (old(self)@.contains_key(vpn)
                    ==> final(self)@[vpn] == old(self)@[vpn])),
    {
        let lo = floor_vpn(start_va);
        let hi = ceil_vpn(end_va);
        let flags = perm | PTE_V;
        let mut vpn = lo;
        while vpn < hi
            invariant
                lo <= vpn,
                vpn <= hi || vpn == lo,
                lo == vpn_floor(start_va as int),
                hi == vpn_ceil(end_va as int),
                self@ == old(self)@.union_prefer_right(area_map(lo as int, vpn as int, flags)),
            decreases hi - vpn,
        {
            self.page_table.insert(vpn, flags);
            vpn = vpn + 1;
            assert(self@ =~= old(self)@.union_prefer_right(area_map(lo as int, vpn as int, flags)));
        }
        if lo >= hi {
            assert(area_map(lo as int, hi as int, flags) =~= area_map(lo as int, vpn as int, flags));
        }
        proof {
            lemma_area_maps_only_covered(old(self)@, self@, start_va, end_va, flags);
        }
    }

    /// Unmaps the pages that cover `start_va..end_va`. Fails with -1, and
    /// changes nothing, unless each of them has a valid entry.
    pub fn umap_memoryset(&mut self, start_va: usize, end_va: usize) -> (r: isize)
        ensures
            r == 0 || r == -1,
            r == 0 <==> forall|vpn: usize|
                vpn_floor(start_va as int) <= vpn < vpn_ceil(end_va as int) ==> valid_in(
                    old(self)@,
                    vpn,
                ),
            r == 0 ==> final(self)@ == old(self)@.remove_keys(
                vpn_set(vpn_floor(start_va as int), vpn_ceil(end_va as int)),
            ),
            r == 0 ==> forall|vpn: usize|
                (vpn + 1) * PAGE_SIZE > start_va && vpn * PAGE_SIZE < end_va ==> !#[trigger] final(self)@.contains_key(vpn),
            r == 0 ==> forall|vpn: usize|
                !((vpn + 1) * PAGE_SIZE > start_va && vpn * PAGE_SIZE < end_va) ==> (#[trigger] final(self)@.contains_key(vpn) == old(self)@.contains_key(vpn) && (old(self)@.contains_key(vpn)
                    ==> final(self)@[vpn] == old(self)@[vpn])),
            r == -1 ==> final(self)@ == old(self)@,
    {
        let lo = floor_vpn(start_va);
        let hi = ceil_vpn(end_va);
        let mut vpn = lo;
        while vpn < hi
            invariant
                lo <= vpn,
                vpn <= hi || vpn == lo,
                lo == vpn_floor(start_va as int),
                hi == vpn_ceil(end_va as int),
                self@ == old(self)@,
                forall|v: usize| lo <= v < vpn ==> valid_in(self@, v),
            decreases hi - vpn,
        {
            match self.find_pte(vpn) {
                Some(pte) => {
                    if pte & PTE_V == 0 {
                        assert(!valid_in(old(self)@, vpn));
                        return -1;
                    }
                },
                None => {
                    assert(!valid_in(old(self)@, vpn));
                    return -1;
                },
            }
            vpn = vpn + 1;
        }
        let mut vpn = lo;
        while vpn < hi
            invariant
                lo <= vpn,
                vpn <= hi || vpn == lo,
                lo == vpn_floor(start_va as int),
                hi == vpn_ceil(end_va as int),
                self@ == old(self)@.remove_keys(vpn_set(lo as int, vpn as int)),
            decreases hi - vpn,
        {
            self.page_table.remove(&vpn);
            vpn = vpn + 1;
            assert(self@ =~= old(self)@.remove_keys(vpn_set(lo as int, vpn as int)));
        }
        if lo >= hi {
            assert(vpn_set(lo as int, hi as int) =~= vpn_set(lo as int, vpn as int));
        }
        proof {
            lemma_unmap_only_covered(old(self)@, self@, start_va, end_va);
        }
        0
    }
}

/// Page `vpn` lies in the page range that covers bytes `start..end` exactly
/// when the page ends after `start` and begins before `end`.
pub proof fn lemma_page_in_range(start: usize, end: usize, vpn: usize)
    ensures
        (vpn_floor(start as int) <= vpn < vpn_ceil(end as int)) <==> ((vpn + 1) * PAGE_SIZE > start
            && vpn * PAGE_SIZE < end),
        vpn_set(vpn_floor(start as int), vpn_ceil(end as int)).contains(vpn) <==> ((vpn + 1)
            * PAGE_SIZE > start && vpn * PAGE_SIZE < end),
{
    let f = vpn_floor(start as int);
    let c = vpn_ceil(end as int);
    assert(f <= vpn <==> (vpn + 1) * 4096 > start) by (nonlinear_arith)
        requires
            f == start / 4096,
            vpn >= 0,
            start >= 0,
    ;
    assert(vpn < c <==> vpn * 4096 < end) by (nonlinear_arith)
        requires
            c == (end + 4096 - 1) / 4096,
            vpn >= 0,
            end >= 0,
    ;
}

/// Mapping an area over bytes `start..end` gives exactly the pages that
/// overlap those bytes an entry with the given flags; every other page keeps
/// its entry, or its absence.
pub proof fn lemma_area_maps_only_covered(old: Map<usize, u8>, new: Map<usize, u8>, start: usize, end: usize, flags: u8)
    requires
        new == old.union_prefer_right(area_map(vpn_floor(start as int), vpn_ceil(end as int), flags)),
    ensures
        forall|vpn: usize|
            (vpn + 1) * PAGE_SIZE > start && vpn * PAGE_SIZE < end ==> #[trigger] new.contains_key(vpn)
                && new[vpn] == flags,
        forall|vpn: usize|
            !((vpn + 1) * PAGE_SIZE > start && vpn * PAGE_SIZE < end) ==> (#[trigger] new.contains_key(vpn)
                == old.contains_key(vpn) && (old.contains_key(vpn) ==> new[vpn] == old[vpn])),
{
    assert forall|vpn: usize| #[trigger] new.contains_key(vpn) || !new.contains_key(vpn) implies {
        &&& (vpn + 1) * PAGE_SIZE > start && vpn * PAGE_SIZE < end ==> new.contains_key(vpn) && new[vpn] == flags
        &&& !((vpn + 1) * PAGE_SIZE > start && vpn * PAGE_SIZE < end) ==> (new.contains_key(vpn)
            == old.contains_key(vpn) && (old.contains_key(vpn) ==> new[vpn] == old[vpn]))
    } by {
        lemma_page_in_range(start, end, vpn);
    }
}

/// Unmapping the pages over bytes `start..end` removes exactly the pages that
/// overlap those bytes; every other page keeps its entry, or its absence.
pub proof fn lemma_unmap_only_covered(old: Map<usize, u8>, new: Map<usize, u8>, start: usize, end: usize)
    requires
        new == old.remove_keys(vpn_set(vpn_floor(start as int), vpn_ceil(end as int))),
    ensures
        forall|vpn: usize|
            (vpn + 1) * PAGE_SIZE > start && vpn * PAGE_SIZE < end ==> !#[trigger] new.contains_key(vpn),
        forall|vpn: usize|
            !((vpn + 1) * PAGE_SIZE > start && vpn * PAGE_SIZE < end) ==> (#[trigger] new.contains_key(vpn)
                == old.contains_key(vpn) && (old.contains_key(vpn) ==> new[vpn] == old[vpn])),
{
    assert forall|vpn: usize| #[trigger] new.contains_key(vpn) || !new.contains_key(vpn) implies {
        &&& (vpn + 1) * PAGE_SIZE > start && vpn * PAGE_SIZE < end ==> !new.contains_key(vpn)
        &&& !((vpn + 1) * PAGE_SIZE > start && vpn * PAGE_SIZE < end) ==> (new.contains_key(vpn)
            == old.contains_key(vpn) && (old.contains_key(vpn) ==> new[vpn] == old[vpn]))
    } by {
        lemma_page_in_range(start, end, vpn);
    }
}

} // verus!
