//! The shape cache: a content-addressed, size-bounded store mapping a
//! shape descriptor to the id of its already-uploaded GPU object.
//!
//! Recency order is the order of the entry list — the least recently
//! used entry sits at the front — so eviction always removes the front.
//! Descriptor equality is exact, so only bit-identical draws ever hit.

use vstd::prelude::*;

use crate::shape::{descriptor_eq, DescView, ShapeDescriptor};

verus! {

/// The mathematical value of one cache entry.
pub ghost struct CacheEntryView {
    pub descriptor: DescView,
    pub id: u64,
}

/// One cached shape: its descriptor and its GPU object id.
#[derive(Debug)]
pub struct CacheEntry {
    pub descriptor: ShapeDescriptor,
    pub id: u64,
}

impl View for CacheEntry {
    type V = CacheEntryView;

    open spec fn view(&self) -> CacheEntryView {
        CacheEntryView { descriptor: self.descriptor@, id: self.id }
    }
}

/// The index of the entry holding descriptor `d`, or `-1` when absent.
/// Entries are keyed by exact descriptor equality, so at most one entry
/// can match in a well-formed cache.
pub open spec fn spec_find(s: Seq<CacheEntryView>, d: DescView) -> int
    decreases s.len(),
{
    if s.len() == 0 {
        -1
    } else if s[0].descriptor == d {
        0
    } else {
        let r = spec_find(s.skip(1), d);
        if r == -1 {
            -1
        } else {
            r + 1
        }
    }
}

/// Whether some entry holds descriptor `d`.
pub open spec fn spec_has(s: Seq<CacheEntryView>, d: DescView) -> bool {
    spec_find(s, d) >= 0
}

/// The ids of the entries, in recency order.
pub open spec fn spec_ids(s: Seq<CacheEntryView>) -> Seq<u64> {
    s.map_values(|e: CacheEntryView| e.id)
}

/// `spec_find` points at the first matching entry, and everything
/// before it does not match; `-1` means nothing matches.
pub proof fn lemma_find(s: Seq<CacheEntryView>, d: DescView)
    ensures
        spec_find(s, d) >= -1,
        spec_find(s, d) == -1 ==> forall|i: int| 0 <= i < s.len() ==> (#[trigger] s[i]).descriptor
            != d,
        spec_find(s, d) >= 0 ==> spec_find(s, d) < s.len() && s[spec_find(s, d)].descriptor == d,
        spec_find(s, d) >= 0 ==> forall|j: int| 0 <= j < spec_find(s, d) ==> (
        #[trigger] s[j]).descriptor != d,
    decreases s.len(),
{
    if s.len() > 0 && s[0].descriptor != d {
        lemma_find(s.skip(1), d);
        let r = spec_find(s.skip(1), d);
        assert(r >= -1);
        if r == -1 {
            assert(spec_find(s, d) == -1);
            assert forall|i: int| 0 <= i < s.len() implies (#[trigger] s[i]).descriptor != d by {
                if i > 0 {
                    assert(s.skip(1)[i - 1] == s[i]);
                }
            }
        } else {
            assert(spec_find(s, d) == r + 1);
            assert(s.skip(1)[r] == s[r + 1]);
            assert forall|j: int| 0 <= j < r + 1 implies (#[trigger] s[j]).descriptor != d by {
                if j > 0 {
                    assert(s.skip(1)[j - 1] == s[j]);
                }
            }
        }
    }
}

/// If entry `i` is the first match, `spec_find` returns `i`.
pub proof fn lemma_find_first(s: Seq<CacheEntryView>, d: DescView, i: int)
    requires
        0 <= i < s.len(),
        s[i].descriptor == d,
        forall|j: int| 0 <= j < i ==> (#[trigger] s[j]).descriptor != d,
    ensures
        spec_find(s, d) == i,
    decreases s.len(),
{
    if i > 0 {
        assert forall|j: int| 0 <= j < i - 1 implies (#[trigger] s.skip(1)[j]).descriptor != d by {
            assert(s.skip(1)[j] == s[j + 1]);
        }
        assert(s.skip(1)[i - 1] == s[i]);
        lemma_find_first(s.skip(1), d, i - 1);
    }
}

/// A bounded, least-recently-used cache of uploaded shapes.
#[derive(Debug)]
pub struct ShapeCache {
    pub entries: Vec<CacheEntry>,
    pub capacity: usize,
}

impl ShapeCache {
    /// The entries in recency order, least recently used first.
    pub open spec fn view_entries(self) -> Seq<CacheEntryView> {
        self.entries@.map_values(|e: CacheEntry| e@)
    }

    /// Well-formed: bounded, with pairwise distinct descriptors and
    /// pairwise distinct ids.
    pub open spec fn wf(self) -> bool {
        &&& 1 <= self.capacity
        &&& self.entries@.len() <= self.capacity
        &&& forall|i: int, j: int|
            0 <= i < j < self.view_entries().len() ==> (#[trigger] self.view_entries()[i]).descriptor
                != (#[trigger] self.view_entries()[j]).descriptor
        &&& forall|i: int, j: int|
            0 <= i < j < self.view_entries().len() ==> (#[trigger] self.view_entries()[i]).id != (
            #[trigger] self.view_entries()[j]).id
    }

    /// An empty cache holding at most `capacity` shapes.
    pub fn new(capacity: usize) -> (r: ShapeCache)
        requires
            capacity >= 1,
        ensures
            r.wf(),
            r.view_entries() =~= Seq::<CacheEntryView>::empty(),
            r.capacity == capacity,
    {
        ShapeCache { entries: Vec::new(), capacity }
    }

    /// Look a descriptor up.  A hit returns the entry's id and marks the
    /// entry most recently used by moving it to the back; a miss changes
    /// nothing.
    pub fn lookup(&mut self, d: &ShapeDescriptor) -> (r: Option<u64>)
        requires
            old(self).wf(),
        ensures
            final(self).wf(),
            final(self).capacity == old(self).capacity,
            ({
                let s = old(self).view_entries();
                let f = spec_find(s, d@);
                if f >= 0 {
                    r == Some(s[f].id) && final(self).view_entries() =~= s.remove(f).push(s[f])
                } else {
                    r == None::<u64> && final(self).view_entries() =~= s
                }
            }),
            spec_has(old(self).view_entries(), d@) == spec_has(final(self).view_entries(), d@),
    {
        proof {
            lemma_find(old(self).view_entries(), d@);
        }
        let mut i: usize = 0;
        let n = self.entries.len();
        while i < n
            invariant
                *self == *old(self),
                n == self.entries@.len(),
                i <= n,
                old(self).wf(),
                forall|j: int|
                    0 <= j < i ==> (#[trigger] self.view_entries()[j]).descriptor != d@,
            decreases n - i,
        {
            if descriptor_eq(&self.entries[i].descriptor, d) {
                proof {
                    assert(self.view_entries()[i as int].descriptor == d@);
                    lemma_find_first(self.view_entries(), d@, i as int);
                }
                let entry = self.entries.remove(i);
                let id = entry.id;
                self.entries.push(entry);
                proof {
                    let s = old(self).view_entries();
                    assert(self.view_entries() =~= s.remove(i as int).push(s[i as int]));
                    lemma_moved_to_back_wf(s, i as int, old(self).capacity as nat);
                    assert(spec_has(self.view_entries(), d@)) by {
                        lemma_find(self.view_entries(), d@);
                        if spec_find(self.view_entries(), d@) == -1 {
                            assert(self.view_entries()[self.view_entries().len() - 1].descriptor
                                == d@);
                        }
                    }
                }
                return Some(id);
            }
            proof {
                assert(self.view_entries()[i as int].descriptor != d@);
            }
            i = i + 1;
        }
        proof {
            if spec_find(old(self).view_entries(), d@) >= 0 {
                assert(old(self).view_entries()[spec_find(old(self).view_entries(), d@)].descriptor
                    == d@);
            }
        }
        None
    }

    /// Put a new descriptor in under a fresh id.  When the cache is
    /// full, the least recently used entry — the front — is evicted and
    /// its id returned so its GPU resources can be deleted.
    pub fn insert(&mut self, d: ShapeDescriptor, id: u64) -> (evicted: Option<u64>)
        requires
            old(self).wf(),
            !spec_has(old(self).view_entries(), d@),
            forall|i: int|
                0 <= i < old(self).view_entries().len() ==> (#[trigger] old(
                    self,
                ).view_entries()[i]).id != id,
        ensures
            final(self).wf(),
            final(self).capacity == old(self).capacity,
            ({
                let s = old(self).view_entries();
                let entry = CacheEntryView { descriptor: d@, id };
                if s.len() < old(self).capacity {
                    evicted == None::<u64> && final(self).view_entries() =~= s.push(entry)
                } else {
                    evicted == Some(s[0].id) && final(self).view_entries() =~= s.skip(1).push(
                        entry,
                    )
                }
            }),
            spec_has(final(self).view_entries(), d@),
    {
        proof {
            lemma_find(old(self).view_entries(), d@);
        }
        let mut evicted: Option<u64> = None;
        if self.entries.len() >= self.capacity {
            let front = self.entries.remove(0);
            evicted = Some(front.id);
            proof {
                assert(self.view_entries() =~= old(self).view_entries().skip(1));
            }
        }
        let ghost mid = self.view_entries();
        self.entries.push(CacheEntry { descriptor: d, id });
        proof {
            let s0 = old(self).view_entries();
            let e = CacheEntryView { descriptor: d@, id };
            let t = self.view_entries();
            assert(t =~= mid.push(e));
            let off: int = if s0.len() < old(self).capacity {
                0
            } else {
                1
            };
            assert forall|i: int, j: int|
                0 <= i < j < t.len() implies (#[trigger] t[i]).descriptor != (
            #[trigger] t[j]).descriptor && t[i].id != t[j].id by {
                if i < t.len() - 1 {
                    assert(mid[i] == s0[i + off]);
                }
                if j < t.len() - 1 {
                    assert(mid[j] == s0[j + off]);
                }
            }
            assert(t[t.len() - 1].descriptor == d@);
            lemma_find(t, d@);
            if spec_find(t, d@) == -1 {
                assert(t[t.len() - 1].descriptor != d@);
            }
        }
        evicted
    }
}

/// Moving an interior entry to the back keeps a cache's entry sequence
/// well-formed: it is the same set of entries in a new order.
proof fn lemma_moved_to_back_wf(s: Seq<CacheEntryView>, f: int, capacity: nat)
    requires
        0 <= f < s.len(),
        s.len() <= capacity,
        forall|i: int, j: int|
            0 <= i < j < s.len() ==> (#[trigger] s[i]).descriptor != (#[trigger] s[j]).descriptor,
        forall|i: int, j: int| 0 <= i < j < s.len() ==> (#[trigger] s[i]).id != (#[trigger] s[j]).id,
    ensures
        ({
            let t = s.remove(f).push(s[f]);
            &&& t.len() == s.len()
            &&& forall|i: int, j: int|
                0 <= i < j < t.len() ==> (#[trigger] t[i]).descriptor != (
                #[trigger] t[j]).descriptor
            &&& forall|i: int, j: int|
                0 <= i < j < t.len() ==> (#[trigger] t[i]).id != (#[trigger] t[j]).id
        }),
{
    let t = s.remove(f).push(s[f]);
    assert forall|i: int, j: int|
        0 <= i < j < t.len() implies (#[trigger] t[i]).descriptor != (#[trigger] t[j]).descriptor
        && (#[trigger] t[i]).id != (#[trigger] t[j]).id by {
        let oi = if i < f {
            i
        } else if i == t.len() - 1 {
            f
        } else {
            i + 1
        };
        let oj = if j < f {
            j
        } else if j == t.len() - 1 {
            f
        } else {
            j + 1
        };
        assert(t[i] == s[oi]);
        assert(t[j] == s[oj]);
        assert(oi != oj);
    }
}

} // verus!
