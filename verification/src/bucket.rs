//! One cache bucket: a bounded, TTL-scoped key-to-entry store with
//! least-recently-used eviction.  Keys are derived cache keys (raw bytes);
//! entries are response snapshots.
//!
//! The bucket keeps its entries in recency order, least recently used
//! first.  A lookup of a fresh entry touches it (moves it to the back); a
//! lookup of an expired entry removes it; an insert at capacity evicts the
//! front.

use vstd::prelude::*;
use crate::ascii::bytes_eq;
use crate::entry::{CacheEntry, CacheEntryModel};
use crate::registry::age;

verus! {

/// What a bucket holds, in recency order (least recently used first).
pub type BucketModel = Seq<(Seq<u8>, CacheEntryModel)>;

/// Pairwise-distinct keys.
pub open spec fn distinct_keys(s: BucketModel) -> bool {
    forall|i: int, j: int| 0 <= i < j < s.len() ==> (#[trigger] s[i]).0 != (#[trigger] s[j]).0
}

/// The entry stored under a key, if any.
pub open spec fn bucket_find(s: BucketModel, k: Seq<u8>) -> Option<CacheEntryModel> {
    if exists|i: int| 0 <= i < s.len() && (#[trigger] s[i]).0 == k {
        let i = choose|i: int| 0 <= i < s.len() && (#[trigger] s[i]).0 == k;
        Some(s[i].1)
    } else {
        None
    }
}

/// An entry is fresh at `now` while its age is below the bucket's TTL.
pub open spec fn fresh_at(e: CacheEntryModel, ttl: u64, now: u64) -> bool {
    age(e.created_at, now) < ttl
}

/// A stored position pins down what `bucket_find` returns.
pub proof fn lemma_find_at(s: BucketModel, i: int)
    requires
        distinct_keys(s),
        0 <= i < s.len(),
    ensures
        bucket_find(s, s[i].0) == Some(s[i].1),
{
    let k = s[i].0;
    assert(0 <= i < s.len() && s[i].0 == k);
    let j = choose|j: int| 0 <= j < s.len() && (#[trigger] s[j]).0 == k;
    assert(j == i);
}

/// After removing position `i` and re-appending the same pair, a bucket
/// maps every key as before.
proof fn lemma_touch(prev: BucketModel, cur: BucketModel, i: int)
    requires
        distinct_keys(prev),
        0 <= i < prev.len(),
        cur == prev.subrange(0, i).add(prev.subrange(i + 1, prev.len() as int)).push(prev[i]),
    ensures
        distinct_keys(cur),
        cur.len() == prev.len(),
        forall|k2: Seq<u8>| bucket_find(cur, k2) == bucket_find(prev, k2),
{
    let n = prev.len() as int;
    assert(cur.len() == n);
    assert(forall|p: int| 0 <= p < i ==> cur[p] == prev[p]);
    assert(forall|p: int| i <= p < n - 1 ==> cur[p] == prev[p + 1]);
    assert(cur[n - 1] == prev[i]);
    assert forall|p: int, q: int| 0 <= p < q < n implies (#[trigger] cur[p]).0 != (
    #[trigger] cur[q]).0 by {
        let op = if p < i {
            p
        } else if p == n - 1 {
            i
        } else {
            p + 1
        };
        let oq = if q < i {
            q
        } else if q == n - 1 {
            i
        } else {
            q + 1
        };
        assert(cur[p] == prev[op] && cur[q] == prev[oq]);
        assert(op != oq);
    }
    assert forall|k2: Seq<u8>| #[trigger] bucket_find(cur, k2) == bucket_find(prev, k2) by {
        if exists|p: int| 0 <= p < n && (#[trigger] cur[p]).0 == k2 {
            let p = choose|p: int| 0 <= p < n && (#[trigger] cur[p]).0 == k2;
            let op = if p < i {
                p
            } else if p == n - 1 {
                i
            } else {
                p + 1
            };
            assert(cur[p] == prev[op]);
            assert(prev[op].0 == k2);
            let q = choose|q: int| 0 <= q < n && (#[trigger] cur[q]).0 == k2;
            let oq = choose|oq: int| 0 <= oq < n && (#[trigger] prev[oq]).0 == k2;
            assert(q == p);
            assert(oq == op);
        } else {
            if exists|oq: int| 0 <= oq < n && (#[trigger] prev[oq]).0 == k2 {
                let oq = choose|oq: int| 0 <= oq < n && (#[trigger] prev[oq]).0 == k2;
                let p = if oq < i {
                    oq
                } else if oq == i {
                    n - 1
                } else {
                    oq - 1
                };
                assert(cur[p] == prev[oq]);
                assert(false);
            }
        }
    }
}

/// After removing position `i`, its key is gone and every other key maps
/// as before.
proof fn lemma_drop(prev: BucketModel, cur: BucketModel, i: int)
    requires
        distinct_keys(prev),
        0 <= i < prev.len(),
        cur == prev.subrange(0, i).add(prev.subrange(i + 1, prev.len() as int)),
    ensures
        distinct_keys(cur),
        cur.len() == prev.len() - 1,
        bucket_find(cur, prev[i].0) is None,
        forall|k2: Seq<u8>| k2 != prev[i].0 ==> bucket_find(cur, k2) == bucket_find(prev, k2),
{
    let n = prev.len() as int;
    assert(cur.len() == n - 1);
    assert(forall|p: int| 0 <= p < i ==> cur[p] == prev[p]);
    assert(forall|p: int| i <= p < n - 1 ==> cur[p] == prev[p + 1]);
    assert forall|p: int, q: int| 0 <= p < q < n - 1 implies (#[trigger] cur[p]).0 != (
    #[trigger] cur[q]).0 by {
        let op = if p < i {
            p
        } else {
            p + 1
        };
        let oq = if q < i {
            q
        } else {
            q + 1
        };
        assert(cur[p] == prev[op] && cur[q] == prev[oq]);
    }
    if exists|p: int| 0 <= p < n - 1 && (#[trigger] cur[p]).0 == prev[i].0 {
        let p = choose|p: int| 0 <= p < n - 1 && (#[trigger] cur[p]).0 == prev[i].0;
        let op = if p < i {
            p
        } else {
            p + 1
        };
        assert(cur[p] == prev[op]);
        assert(op != i);
        assert(prev[op].0 != prev[i].0);
        assert(false);
    }
    assert forall|k2: Seq<u8>| k2 != prev[i].0 implies #[trigger] bucket_find(cur, k2)
        == bucket_find(prev, k2) by {
        if exists|p: int| 0 <= p < n - 1 && (#[trigger] cur[p]).0 == k2 {
            let p = choose|p: int| 0 <= p < n - 1 && (#[trigger] cur[p]).0 == k2;
            let op = if p < i {
                p
            } else {
                p + 1
            };
            assert(cur[p] == prev[op]);
            let q = choose|q: int| 0 <= q < n - 1 && (#[trigger] cur[q]).0 == k2;
            let oq = choose|oq: int| 0 <= oq < n && (#[trigger] prev[oq]).0 == k2;
            assert(q == p);
            assert(oq == op);
        } else {
            if exists|oq: int| 0 <= oq < n && (#[trigger] prev[oq]).0 == k2 {
                let oq = choose|oq: int| 0 <= oq < n && (#[trigger] prev[oq]).0 == k2;
                assert(oq != i);
                let p = if oq < i {
                    oq
                } else {
                    oq - 1
                };
                assert(cur[p] == prev[oq]);
                assert(false);
            }
        }
    }
}

/// After removing position `i` and appending `(k, e)`, a bucket maps `k`
/// to `e`, has lost `prev[i]`'s key (unless it is `k`), and maps every
/// other key as before.
proof fn lemma_drop_then_push(
    prev: BucketModel,
    cur: BucketModel,
    i: int,
    k: Seq<u8>,
    e: CacheEntryModel,
)
    requires
        distinct_keys(prev),
        0 <= i < prev.len(),
        forall|p: int| 0 <= p < prev.len() && p != i ==> (#[trigger] prev[p]).0 != k,
        cur == prev.subrange(0, i).add(prev.subrange(i + 1, prev.len() as int)).push((k, e)),
    ensures
        distinct_keys(cur),
        cur.len() == prev.len(),
        bucket_find(cur, k) == Some(e),
        prev[i].0 != k ==> bucket_find(cur, prev[i].0) is None,
        forall|k2: Seq<u8>|
            k2 != k && k2 != prev[i].0 ==> bucket_find(cur, k2) == bucket_find(prev, k2),
{
    let n = prev.len() as int;
    assert(cur.len() == n);
    assert(forall|p: int| 0 <= p < i ==> cur[p] == prev[p]);
    assert(forall|p: int| i <= p < n - 1 ==> cur[p] == prev[p + 1]);
    assert(cur[n - 1] == (k, e));
    assert forall|p: int, q: int| 0 <= p < q < n implies (#[trigger] cur[p]).0 != (
    #[trigger] cur[q]).0 by {
        let op = if p < i {
            p
        } else {
            p + 1
        };
        if q == n - 1 {
            assert(cur[p] == prev[op]);
            assert(op != i);
        } else {
            let oq = if q < i {
                q
            } else {
                q + 1
            };
            assert(cur[p] == prev[op] && cur[q] == prev[oq]);
        }
    }
    lemma_find_at(cur, n - 1);
    if prev[i].0 != k {
        if exists|p: int| 0 <= p < n && (#[trigger] cur[p]).0 == prev[i].0 {
            let p = choose|p: int| 0 <= p < n && (#[trigger] cur[p]).0 == prev[i].0;
            assert(p != n - 1);
            let op = if p < i {
                p
            } else {
                p + 1
            };
            assert(cur[p] == prev[op]);
            assert(op != i);
            assert(false);
        }
    }
    assert forall|k2: Seq<u8>| k2 != k && k2 != prev[i].0 implies #[trigger] bucket_find(cur, k2)
        == bucket_find(prev, k2) by {
        if exists|p: int| 0 <= p < n && (#[trigger] cur[p]).0 == k2 {
            let p = choose|p: int| 0 <= p < n && (#[trigger] cur[p]).0 == k2;
            assert(p != n - 1);
            let op = if p < i {
                p
            } else {
                p + 1
            };
            assert(cur[p] == prev[op]);
            let q = choose|q: int| 0 <= q < n && (#[trigger] cur[q]).0 == k2;
            let oq = choose|oq: int| 0 <= oq < n && (#[trigger] prev[oq]).0 == k2;
            assert(q == p);
            assert(oq == op);
        } else {
            if exists|oq: int| 0 <= oq < n && (#[trigger] prev[oq]).0 == k2 {
                let oq = choose|oq: int| 0 <= oq < n && (#[trigger] prev[oq]).0 == k2;
                assert(oq != i);
                let p = if oq < i {
                    oq
                } else {
                    oq - 1
                };
                assert(cur[p] == prev[oq]);
                assert(false);
            }
        }
    }
}

/// A TTL-bounded, capacity-bounded response cache with LRU eviction.
pub struct CacheBucket {
    entries: Vec<(Vec<u8>, CacheEntry)>,
    ttl: u64,
    capacity: usize,
}

impl View for CacheBucket {
    type V = BucketModel;

    closed spec fn view(&self) -> BucketModel {
        Seq::new(self.entries@.len(), |i: int| (self.entries@[i].0@, self.entries@[i].1@))
    }
}

impl CacheBucket {
    /// The bucket's fixed time-to-live, in seconds.
    pub closed spec fn spec_ttl(&self) -> u64 {
        self.ttl
    }

    /// The bucket's fixed capacity.
    pub closed spec fn spec_capacity(&self) -> nat {
        self.capacity as nat
    }

    /// Keys are unique and the size never exceeds the capacity.
    pub open spec fn wf(&self) -> bool {
        distinct_keys(self@) && self@.len() <= self.spec_capacity() && self.spec_capacity() >= 1
    }

    /// An empty bucket with the given TTL and capacity.
    pub fn new(ttl: u64, capacity: usize) -> (r: Self)
        requires
            capacity >= 1,
        ensures
            r.wf(),
            r@ == Seq::<(Seq<u8>, CacheEntryModel)>::empty(),
            r.spec_ttl() == ttl,
            r.spec_capacity() == capacity,
    {
        let r = CacheBucket { entries: Vec::new(), ttl, capacity };
        proof {
            assert(r@ =~= Seq::<(Seq<u8>, CacheEntryModel)>::empty());
        }
        r
    }

    /// How many entries the bucket currently holds.
    pub fn entry_count(&self) -> (r: usize)
        ensures
            r == self@.len(),
    {
        self.entries.len()
    }

    /// The position of a key, if present.
    fn find_index(&self, key: &[u8]) -> (r: Option<usize>)
        requires
            self.wf(),
        ensures
            match r {
                Some(i) => i < self@.len() && self@[i as int].0 == key@ && bucket_find(self@, key@)
                    == Some(self@[i as int].1),
                None => bucket_find(self@, key@) is None,
            },
    {
        let n = self.entries.len();
        let mut i: usize = 0;
        while i < n
            invariant
                self.wf(),
                n == self@.len(),
                i <= n,
                forall|k: int| 0 <= k < i ==> (#[trigger] self@[k]).0 != key@,
            decreases n - i,
        {
            if bytes_eq(self.entries[i].0.as_slice(), key) {
                proof {
                    lemma_find_at(self@, i as int);
                }
                return Some(i);
            }
            i += 1;
        }
        proof {
            if bucket_find(self@, key@) is Some {
                let j = choose|j: int| 0 <= j < self@.len() && (#[trigger] self@[j]).0 == key@;
                assert(false);
            }
        }
        None
    }

    /// Looks a key up at time `now`.  A fresh entry is returned as a value
    /// copy and touched (it becomes the most recently used); an expired
    /// entry is removed and treated as absent; the bucket's contents, seen
    /// as a map, change in no other way.
    pub fn get(&mut self, key: &[u8], now: u64) -> (r: Option<CacheEntry>)
        requires
            old(self).wf(),
        ensures
            final(self).wf(),
            final(self).spec_ttl() == old(self).spec_ttl(),
            final(self).spec_capacity() == old(self).spec_capacity(),
            match r {
                Some(e) => {
                    &&& bucket_find(old(self)@, key@) == Some(e@)
                    &&& fresh_at(e@, old(self).spec_ttl(), now)
                    &&& final(self)@.len() == old(self)@.len()
                    &&& forall|k2: Seq<u8>|
                        bucket_find(final(self)@, k2) == bucket_find(old(self)@, k2)
                },
                None => {
                    &&& match bucket_find(old(self)@, key@) {
                        Some(m) => !fresh_at(m, old(self).spec_ttl(), now),
                        None => true,
                    }
                    &&& bucket_find(final(self)@, key@) is None
                    &&& forall|k2: Seq<u8>|
                        k2 != key@ ==> bucket_find(final(self)@, k2) == bucket_find(
                            old(self)@,
                            k2,
                        )
                    &&& final(self)@.len() <= old(self)@.len()
                },
            },
    {
        let ghost prev = self@;
        match self.find_index(key) {
            None => {
                None
            },
            Some(i) => {
                let created = self.entries[i].1.created_at;
                let elapsed = if now >= created {
                    now - created
                } else {
                    0
                };
                if elapsed < self.ttl {
                    let (k, e) = self.entries.remove(i);
                    let out = e.duplicate();
                    self.entries.push((k, e));
                    proof {
                        assert(self@ =~= prev.subrange(0, i as int).add(
                            prev.subrange(i + 1, prev.len() as int),
                        ).push(prev[i as int]));
                        lemma_touch(prev, self@, i as int);
                    }
                    Some(out)
                } else {
                    self.entries.remove(i);
                    proof {
                        assert(self@ =~= prev.subrange(0, i as int).add(
                            prev.subrange(i + 1, prev.len() as int),
                        ));
                        lemma_drop(prev, self@, i as int);
                    }
                    None
                }
            },
        }
    }

    /// Inserts or overwrites a key.  An existing key is replaced in place
    /// (and touched); a new key is appended, evicting the least recently
    /// used entry if the bucket is full.  No other key is affected.
    pub fn insert(&mut self, key: Vec<u8>, entry: CacheEntry) -> (evicted: Option<Vec<u8>>)
        requires
            old(self).wf(),
        ensures
            final(self).wf(),
            final(self).spec_ttl() == old(self).spec_ttl(),
            final(self).spec_capacity() == old(self).spec_capacity(),
            bucket_find(final(self)@, key@) == Some(entry@),
            final(self)@.len() <= old(self)@.len() + 1,
            match evicted {
                Some(ek) => {
                    &&& bucket_find(old(self)@, key@) is None
                    &&& old(self)@.len() == old(self).spec_capacity()
                    &&& ek@ == old(self)@[0].0
                    &&& (ek@ != key@ ==> bucket_find(final(self)@, ek@) is None)
                    &&& forall|k2: Seq<u8>|
                        k2 != key@ && k2 != ek@ ==> bucket_find(final(self)@, k2) == bucket_find(
                            old(self)@,
                            k2,
                        )
                    &&& final(self)@.len() == old(self)@.len()
                },
                None => {
                    &&& forall|k2: Seq<u8>|
                        k2 != key@ ==> bucket_find(final(self)@, k2) == bucket_find(
                            old(self)@,
                            k2,
                        )
                    &&& (bucket_find(old(self)@, key@) is None ==> old(self)@.len() < old(
                        self,
                    ).spec_capacity() && final(self)@.len() == old(self)@.len() + 1)
                    &&& (bucket_find(old(self)@, key@) is Some ==> final(self)@.len() == old(
                        self,
                    )@.len())
                },
            },
    {
        let ghost prev = self@;
        let ghost gkey = key@;
        let ghost gentry = entry@;
        match self.find_index(key.as_slice()) {
            Some(i) => {
                self.entries.remove(i);
                self.entries.push((key, entry));
                proof {
                    assert(self@ =~= prev.subrange(0, i as int).add(
                        prev.subrange(i + 1, prev.len() as int),
                    ).push((gkey, gentry)));
                    assert forall|p: int|
                        0 <= p < prev.len() && p != i implies (#[trigger] prev[p]).0 != gkey by {
                        if p < i {
                            lemma_find_at(prev, p);
                        } else {
                            lemma_find_at(prev, p);
                        }
                        assert(prev[i as int].0 == gkey);
                    }
                    lemma_drop_then_push(prev, self@, i as int, gkey, gentry);
                }
                None
            },
            None => {
                proof {
                    assert forall|p: int| 0 <= p < prev.len() implies (#[trigger] prev[p]).0
                        != gkey by {
                        if prev[p].0 == gkey {
                            lemma_find_at(prev, p);
                        }
                    }
                }
                if self.entries.len() == self.capacity {
                    let (ek, _ee) = self.entries.remove(0);
                    self.entries.push((key, entry));
                    proof {
                        assert(self@ =~= prev.subrange(0, 0).add(
                            prev.subrange(1, prev.len() as int),
                        ).push((gkey, gentry)));
                        lemma_drop_then_push(prev, self@, 0, gkey, gentry);
                    }
                    Some(ek)
                } else {
                    self.entries.push((key, entry));
                    proof {
                        let n = self@.len() as int;
                        assert(forall|p: int| 0 <= p < n - 1 ==> self@[p] == prev[p]);
                        assert(self@[n - 1] == (gkey, gentry));
                        assert forall|p: int, q: int| 0 <= p < q < n implies (
                        #[trigger] self@[p]).0 != (#[trigger] self@[q]).0 by {
                            if q == n - 1 {
                                assert(self@[p] == prev[p]);
                            } else {
                                assert(self@[p] == prev[p] && self@[q] == prev[q]);
                            }
                        }
                        lemma_find_at(self@, n - 1);
                        assert forall|k2: Seq<u8>| k2 != gkey implies #[trigger] bucket_find(
                            self@,
                            k2,
                        ) == bucket_find(prev, k2) by {
                            if exists|p: int| 0 <= p < n && (#[trigger] self@[p]).0 == k2 {
                                let p = choose|p: int|
                                    0 <= p < n && (#[trigger] self@[p]).0 == k2;
                                assert(p != n - 1);
                                assert(self@[p] == prev[p]);
                                let q = choose|q: int|
                                    0 <= q < n && (#[trigger] self@[q]).0 == k2;
                                let oq = choose|oq: int|
                                    0 <= oq < n - 1 && (#[trigger] prev[oq]).0 == k2;
                                assert(q == p);
                                assert(oq == p);
                            } else {
                                if exists|oq: int|
                                    0 <= oq < n - 1 && (#[trigger] prev[oq]).0 == k2 {
                                    let oq = choose|oq: int|
                                        0 <= oq < n - 1 && (#[trigger] prev[oq]).0 == k2;
                                    assert(self@[oq] == prev[oq]);
                                    assert(false);
                                }
                            }
                        }
                    }
                    None
                }
            },
        }
    }

    /// Drops every entry.
    pub fn invalidate_all(&mut self)
        requires
            old(self).wf(),
        ensures
            final(self).wf(),
            final(self).spec_ttl() == old(self).spec_ttl(),
            final(self).spec_capacity() == old(self).spec_capacity(),
            final(self)@ == Seq::<(Seq<u8>, CacheEntryModel)>::empty(),
    {
        self.entries.clear();
        proof {
            assert(self@ =~= Seq::<(Seq<u8>, CacheEntryModel)>::empty());
        }
    }
}

} // verus!
