//! Model of a thread's address space at the granularity the mmap/munmap
//! validation contract reads: which virtual page numbers are mapped, and with
//! which permission bits.  The page-table internals stay outside this model;
//! only presence and permissions are tracked.

use vstd::prelude::*;
use vstd::assert_maps_equal;
use vstd::map::*;

verus! {

/// Bytes per virtual page.
pub const PAGE_SIZE: usize = 4096;

/// A thread's address space: a finite table from virtual page number to the
/// permission bits the page was mapped with.
pub struct AddressSpace {
    entries: Vec<(usize, u8)>,
}

/// No virtual page number occurs twice.
spec fn distinct_keys(s: Seq<(usize, u8)>) -> bool {
    forall|a: int, b: int|
        0 <= a < b < s.len() ==> (#[trigger] s[a]).0 != (#[trigger] s[b]).0
}

/// The table a sequence of entries denotes.
spec fn entries_map(s: Seq<(usize, u8)>) -> Map<int, u8>
    decreases s.len(),
{
    if s.len() == 0 {
        Map::empty()
    } else {
        entries_map(s.drop_last()).insert(s.last().0 as int, s.last().1)
    }
}

/// With distinct keys, the denoted table contains exactly the listed pages,
/// each at its listed permission.
proof fn lemma_entries_map_char(s: Seq<(usize, u8)>)
    requires
        distinct_keys(s),
    ensures
        forall|v: int|
            #[trigger] entries_map(s).dom().contains(v) ==> exists|i: int|
                0 <= i < s.len() && (#[trigger] s[i]).0 as int == v,
        forall|i: int|
            0 <= i < s.len() ==> entries_map(s).dom().contains((#[trigger] s[i]).0 as int)
                && entries_map(s)[s[i].0 as int] == s[i].1,
    decreases s.len(),
{
    if s.len() > 0 {
        let s0 = s.drop_last();
        assert(forall|i: int| 0 <= i < s0.len() ==> s0[i] == s[i]);
        lemma_entries_map_char(s0);
        assert forall|i: int| 0 <= i < s.len() implies entries_map(s).dom().contains(
            (#[trigger] s[i]).0 as int,
        ) && entries_map(s)[s[i].0 as int] == s[i].1 by {
            if i < s.len() - 1 {
                assert(s[i].0 != s.last().0);
            }
        }
        assert forall|v: int| #[trigger] entries_map(s).dom().contains(v) implies exists|i: int|
            0 <= i < s.len() && (#[trigger] s[i]).0 as int == v by {
            if v == s.last().0 as int {
                assert(s[s.len() - 1].0 as int == v);
            } else {
                assert(entries_map(s).dom() == entries_map(s0).dom().insert(s.last().0 as int));
                assert(entries_map(s0).dom().contains(v));
                let i = choose|i: int| 0 <= i < s0.len() && (#[trigger] s0[i]).0 as int == v;
                assert(s[i] == s0[i]);
                assert(s[i].0 as int == v);
            }
        }
    }
}

/// First virtual page of the byte range starting at `start`.
pub open spec fn start_vpn_of(start: int) -> int {
    start / (PAGE_SIZE as int)
}

/// One past the last virtual page touched by bytes `[start, end)`:
/// `end` rounded up to a page boundary, in pages.
pub open spec fn end_vpn_of(end: int) -> int {
    (end + PAGE_SIZE - 1) / (PAGE_SIZE as int)
}

/// No page of `[lo, hi)` is mapped in `m`.
pub open spec fn range_free(m: Map<int, u8>, lo: int, hi: int) -> bool {
    forall|p: int| lo <= p < hi ==> !(#[trigger] m.dom().contains(p))
}

/// Every page of `[lo, hi)` is mapped in `m`.
pub open spec fn range_mapped(m: Map<int, u8>, lo: int, hi: int) -> bool {
    forall|p: int| lo <= p < hi ==> #[trigger] m.dom().contains(p)
}

/// `m` with every page of `[lo, hi)` mapped at permission `perm`.
pub open spec fn after_mmap(m: Map<int, u8>, lo: int, hi: int, perm: u8) -> Map<int, u8> {
    Map::new(
        |p: int| m.dom().contains(p) || (lo <= p < hi),
        |p: int| if lo <= p < hi { perm } else { m[p] },
    )
}

/// `m` with every page of `[lo, hi)` unmapped.
pub open spec fn after_munmap(m: Map<int, u8>, lo: int, hi: int) -> Map<int, u8> {
    Map::new(|p: int| m.dom().contains(p) && !(lo <= p < hi), |p: int| m[p])
}

/// A mapping request is well-formed when its start is page-aligned and its
/// permission word has some of the low three bits and nothing else.
pub open spec fn mmap_params_ok(start: usize, port: usize) -> bool {
    &&& start % PAGE_SIZE == 0
    &&& port & !0x7 == 0
    &&& port & 0x7 != 0
}

/// The permission byte a request word denotes: the request's
/// read/write/execute bits shifted into place, plus user access.
pub open spec fn perm_of_port(port: usize) -> u8 {
    ((port as u8) << 1) | 0x10
}

/// Freshly mapped ranges overlap nothing: after pages `[lo1, hi1)` are
/// mapped, any range sharing a page `p` with them is no longer free, so an
/// immediately following map request on it must be refused.
pub proof fn lemma_mmap_overlap_refused(
    m: Map<int, u8>,
    lo1: int,
    hi1: int,
    perm: u8,
    lo2: int,
    hi2: int,
    p: int,
)
    requires
        lo1 <= p < hi1,
        lo2 <= p < hi2,
    ensures
        !range_free(after_mmap(m, lo1, hi1, perm), lo2, hi2),
{
    assert(after_mmap(m, lo1, hi1, perm).dom().contains(p));
}

/// A range with a never-mapped page is not fully mapped, so an unmap request
/// on it must be refused.
pub proof fn lemma_munmap_unmapped_refused(m: Map<int, u8>, lo: int, hi: int, p: int)
    requires
        lo <= p < hi,
        !m.dom().contains(p),
    ensures
        !range_mapped(m, lo, hi),
{
}

impl AddressSpace {
    #[verifier::type_invariant]
    spec fn wf(self) -> bool {
        distinct_keys(self.entries@)
    }

    /// The mapped pages: virtual page number to permission bits.
    pub closed spec fn mapping(self) -> Map<int, u8> {
        entries_map(self.entries@)
    }

    /// An address space with nothing mapped.
    pub fn new() -> (r: Self)
        ensures
            r.mapping() == Map::<int, u8>::empty(),
    {
        AddressSpace { entries: Vec::new() }
    }

    /// What the hardware would resolve for page `vpn`: its permission bits if
    /// the page is mapped, nothing otherwise.
    pub fn translate(&self, vpn: usize) -> (r: Option<u8>)
        ensures
            match r {
                Some(p) => self.mapping().dom().contains(vpn as int)
                    && p == self.mapping()[vpn as int],
                None => !self.mapping().dom().contains(vpn as int),
            },
    {
        proof {
            use_type_invariant(&*self);
            lemma_entries_map_char(self.entries@);
        }
        let n = self.entries.len();
        let mut i: usize = 0;
        while i < n
            invariant
                n == self.entries@.len(),
                i <= n,
                forall|j: int| 0 <= j < i ==> (#[trigger] self.entries@[j]).0 != vpn,
            decreases n - i,
        {
            let e = self.entries[i];
            if e.0 == vpn {
                proof {
                    use_type_invariant(&*self);
                    lemma_entries_map_char(self.entries@);
                }
                return Some(e.1);
            }
            i += 1;
        }
        proof {
            if self.mapping().dom().contains(vpn as int) {
                let j = choose|j: int|
                    0 <= j < self.entries@.len() && (#[trigger] self.entries@[j]).0 as int
                        == vpn as int;
                assert(false);
            }
        }
        None
    }

    /// Map page `vpn` with permission bits `perm`.  The page must not be
    /// mapped yet.
    pub fn insert(&mut self, vpn: usize, perm: u8)
        requires
            !old(self).mapping().dom().contains(vpn as int),
        ensures
            final(self).mapping() == old(self).mapping().insert(vpn as int, perm),
    {
        proof {
            use_type_invariant(&*self);
            lemma_entries_map_char(self.entries@);
            assert forall|j: int|
                0 <= j < self.entries@.len() implies (#[trigger] self.entries@[j]).0 != vpn by {
                if self.entries@[j].0 == vpn {
                    assert(self.mapping().dom().contains(vpn as int));
                }
            }
        }
        let ghost s0 = self.entries@;
        let mut v: Vec<(usize, u8)> = Vec::new();
        std::mem::swap(&mut self.entries, &mut v);
        v.push((vpn, perm));
        proof {
            assert(v@.drop_last() =~= s0);
        }
        self.entries = v;
    }

    /// Unmap page `vpn`.  The page must currently be mapped.
    pub fn unmap(&mut self, vpn: usize)
        requires
            old(self).mapping().dom().contains(vpn as int),
        ensures
            final(self).mapping() == old(self).mapping().remove(vpn as int),
    {
        proof {
            use_type_invariant(&*self);
        }
        let ghost s = self.entries@;
        let n = self.entries.len();
        let mut out: Vec<(usize, u8)> = Vec::new();
        let mut i: usize = 0;
        while i < n
            invariant
                n == s.len(),
                i <= n,
                s == self.entries@,
                distinct_keys(s),
                distinct_keys(out@),
                forall|j: int| 0 <= j < out@.len() ==> (#[trigger] out@[j]).0 != vpn,
                forall|j: int| 0 <= j < out@.len() ==> exists|k: int|
                    0 <= k < i && s[k] == #[trigger] out@[j],
                entries_map(out@) == entries_map(s.take(i as int)).remove(vpn as int),
            decreases n - i,
        {
            let e = self.entries[i];
            let ghost out0 = out@;
            if e.0 != vpn {
                proof {
                    // The incoming key is fresh for `out`: every key of `out`
                    // comes from an earlier entry, and keys of `s` are distinct.
                    assert forall|j: int| 0 <= j < out0.len() implies (#[trigger] out0[j]).0
                        != e.0 by {
                        let k = choose|k: int| 0 <= k < i && s[k] == #[trigger] out0[j];
                        assert(s[k].0 != s[i as int].0);
                    }
                }
                out.push(e);
                proof {
                    assert(out@.drop_last() =~= out0);
                    assert forall|j: int| 0 <= j < out@.len() implies exists|k: int|
                        0 <= k < i + 1 && s[k] == #[trigger] out@[j] by {
                        if j < out0.len() {
                            let k = choose|k: int| 0 <= k < i && s[k] == out0[j];
                            assert(s[k] == out@[j]);
                        } else {
                            assert(s[i as int] == out@[j]);
                        }
                    }
                }
            }
            proof {
                assert(s.take(i + 1).drop_last() =~= s.take(i as int));
                assert(s.take(i + 1).last() == s[i as int]);
                if e.0 != vpn {
                    assert_maps_equal!(
                        entries_map(s.take(i as int)).insert(e.0 as int, e.1).remove(vpn as int),
                        entries_map(s.take(i as int)).remove(vpn as int).insert(e.0 as int, e.1)
                    );
                } else {
                    assert_maps_equal!(
                        entries_map(s.take(i as int)).insert(e.0 as int, e.1).remove(vpn as int),
                        entries_map(s.take(i as int)).remove(vpn as int)
                    );
                }
            }
            i += 1;
        }
        proof {
            assert(s.take(n as int) =~= s);
        }
        self.entries = out;
    }
}

} // verus!
