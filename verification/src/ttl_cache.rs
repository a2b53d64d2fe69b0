//! A capacity-bounded cache of per-account sequence numbers with per-entry
//! expiry. On overflow the least-recently-inserted entry is evicted.

use vstd::prelude::*;

verus! {

/// One cache entry: account, cached sequence number, expiry instant.
#[derive(Clone, Copy, PartialEq, Eq, Structural, Debug)]
pub struct CacheEntry {
    pub key: u64,
    pub value: u64,
    pub expiration_secs: u64,
}

/// The cache; entries are held in insertion order.
#[derive(Debug)]
pub struct TtlCache {
    pub entries: Vec<CacheEntry>,
    pub capacity: usize,
    pub ttl_secs: u64,
}

impl TtlCache {
    /// Keys are unique and the capacity bound holds.
    pub open spec fn wf(self) -> bool {
        &&& forall|i: int, j: int|
            0 <= i < j < self.entries@.len() ==> self.entries@[i].key != self.entries@[j].key
        &&& self.entries@.len() <= self.capacity
        &&& self.capacity >= 1
    }

    /// The cached value of a key, if present.
    pub open spec fn spec_get(self, key: u64) -> Option<u64> {
        spec_entries_get(self.entries@, key)
    }

    pub fn new(capacity: usize, ttl_secs: u64) -> (r: TtlCache)
        requires
            capacity >= 1,
        ensures
            r.wf(),
            r.entries@.len() == 0,
            r.capacity == capacity,
            r.ttl_secs == ttl_secs,
    {
        TtlCache { entries: Vec::new(), capacity, ttl_secs }
    }

    /// The index of the entry with this key, if present.
    fn find(&self, key: u64) -> (r: Option<usize>)
        requires
            self.wf(),
        ensures
            r is Some <==> self.spec_get(key) is Some,
            r matches Some(i) ==> i < self.entries@.len() && self.entries@[i as int].key == key
                && self.spec_get(key) == Some(self.entries@[i as int].value),
    {
        let mut i: usize = 0;
        while i < self.entries.len()
            invariant
                self.wf(),
                i <= self.entries@.len(),
                forall|k: int| 0 <= k < i ==> self.entries@[k].key != key,
            decreases self.entries@.len() - i,
        {
            if self.entries[i].key == key {
                proof {
                    let j = choose|j: int|
                        0 <= j < self.entries@.len() && self.entries@[j].key == key;
                    if j < i as int {
                        assert(self.entries@[j].key != self.entries@[i as int].key);
                    }
                    if (i as int) < j {
                        assert(self.entries@[i as int].key != self.entries@[j].key);
                    }
                }
                return Some(i);
            }
            i += 1;
        }
        None
    }

    /// The cached value of a key.
    pub fn get(&self, key: u64) -> (r: Option<u64>)
        requires
            self.wf(),
        ensures
            r == self.spec_get(key),
    {
        match self.find(key) {
            Some(i) => Some(self.entries[i].value),
            None => None,
        }
    }

    /// Removes the entry of a key and returns its value.
    pub fn remove(&mut self, key: u64) -> (r: Option<u64>)
        requires
            old(self).wf(),
        ensures
            final(self).wf(),
            final(self).capacity == old(self).capacity,
            final(self).ttl_secs == old(self).ttl_secs,
            r == old(self).spec_get(key),
            final(self).spec_get(key) is None,
            forall|k: u64| k != key ==> final(self).spec_get(k) == old(self).spec_get(k),
    {
        let ghost pre = *self;
        match self.find(key) {
            Some(i) => {
                let e = self.entries.remove(i);
                proof {
                    lemma_remove_preserves(pre.entries@, self.entries@, i as int, key);
                }
                Some(e.value)
            },
            None => None,
        }
    }

    /// Inserts or replaces the value of a key, stamping the expiry `ttl`
    /// past `now`. A replaced key counts as newly inserted. If a new key
    /// overflows the capacity, the least-recently-inserted entry is evicted.
    pub fn insert(&mut self, key: u64, value: u64, now_secs: u64)
        requires
            old(self).wf(),
        ensures
            final(self).wf(),
            final(self).capacity == old(self).capacity,
            final(self).ttl_secs == old(self).ttl_secs,
            final(self).spec_get(key) == Some(value),
            forall|k: u64|
                k != key && final(self).spec_get(k) is Some ==> final(self).spec_get(k) == old(self).spec_get(k),
    {
        let ghost pre = *self;
        match self.find(key) {
            Some(i) => {
                let _ = self.entries.remove(i);
                proof {
                    lemma_remove_preserves(pre.entries@, self.entries@, i as int, key);
                }
            },
            None => {},
        }
        let ghost mid = *self;
        if self.entries.len() >= self.capacity {
            let _ = self.entries.remove(0);
            proof {
                lemma_remove_preserves(
                    mid.entries@,
                    self.entries@,
                    0int,
                    mid.entries@[0].key,
                );
            }
        }
        let ghost mid2 = *self;
        let expiration_secs = if now_secs > u64::MAX - self.ttl_secs {
            u64::MAX
        } else {
            now_secs + self.ttl_secs
        };
        self.entries.push(CacheEntry { key, value, expiration_secs });
        proof {
            let n = self.entries@.len() - 1;
            assert(self.entries@[n].key == key);
            assert forall|k: u64|
                k != key && self.spec_get(k) is Some implies self.spec_get(k) == pre.spec_get(
                k,
            ) by {
                let i = choose|i: int|
                    0 <= i < self.entries@.len() && self.entries@[i].key == k;
                assert(i < n);
                assert(mid2.entries@[i].key == k);
                assert(mid2.spec_get(k) is Some);
                lemma_get_unique(mid2.entries@, i, k);
                lemma_get_unique(self.entries@, i, k);
            }
        }
    }

    /// Drops every entry whose expiry is not past `now`.
    pub fn gc(&mut self, now_secs: u64)
        requires
            old(self).wf(),
        ensures
            final(self).wf(),
            final(self).capacity == old(self).capacity,
            final(self).ttl_secs == old(self).ttl_secs,
            forall|i: int|
                0 <= i < final(self).entries@.len()
                    ==> (#[trigger] final(self).entries@[i]).expiration_secs > now_secs,
            forall|k: u64|
                final(self).spec_get(k) is Some ==> final(self).spec_get(k) == old(self).spec_get(k),
    {
        let ghost pre = *self;
        let mut kept: Vec<CacheEntry> = Vec::new();
        let mut i: usize = 0;
        while i < self.entries.len()
            invariant
                i <= self.entries@.len(),
                *self == pre,
                pre.wf(),
                kept@.len() <= i,
                forall|a: int, b: int|
                    0 <= a < b < kept@.len() ==> kept@[a].key != kept@[b].key,
                forall|a: int|
                    0 <= a < kept@.len() ==> (#[trigger] kept@[a]).expiration_secs > now_secs,
                forall|a: int|
                    0 <= a < kept@.len() ==> exists|o: int|
                        0 <= o < i && pre.entries@[o] == #[trigger] kept@[a],
            decreases self.entries@.len() - i,
        {
            if self.entries[i].expiration_secs > now_secs {
                let ghost k0 = kept@;
                kept.push(self.entries[i]);
                proof {
                    assert forall|a: int, b: int|
                        0 <= a < b < kept@.len() implies kept@[a].key != kept@[b].key by {
                        if b == kept@.len() - 1 {
                            let oa = choose|o: int|
                                0 <= o < i && pre.entries@[o] == k0[a];
                            assert(pre.entries@[oa].key != pre.entries@[i as int].key);
                        }
                    }
                    assert(pre.entries@[i as int] == kept@[kept@.len() - 1]);
                }
            }
            i += 1;
        }
        self.entries = kept;
        proof {
            assert forall|k: u64| self.spec_get(k) is Some implies self.spec_get(k)
                == pre.spec_get(k) by {
                let i = choose|i: int|
                    0 <= i < self.entries@.len() && self.entries@[i].key == k;
                let o = choose|o: int|
                    0 <= o < pre.entries@.len() && pre.entries@[o] == self.entries@[i];
                assert(pre.entries@[o].key == k);
                lemma_get_unique(self.entries@, i, k);
                lemma_get_unique(pre.entries@, o, k);
            }
        }
    }
}

/// With unique keys, the entry found for a key is the only one, so the
/// cache's value for the key is that entry's value.
proof fn lemma_get_unique(entries: Seq<CacheEntry>, i: int, key: u64)
    requires
        forall|a: int, b: int| 0 <= a < b < entries.len() ==> entries[a].key != entries[b].key,
        0 <= i < entries.len(),
        entries[i].key == key,
    ensures
        (choose|j: int| 0 <= j < entries.len() && entries[j].key == key) == i,
{
    let j = choose|j: int| 0 <= j < entries.len() && entries[j].key == key;
    assert(entries[j].key == key);
    if j < i {
        assert(entries[j].key != entries[i].key);
    }
    if i < j {
        assert(entries[i].key != entries[j].key);
    }
}

/// Removing one entry keeps the other keys' values.
proof fn lemma_remove_preserves(pre: Seq<CacheEntry>, post: Seq<CacheEntry>, i: int, key: u64)
    requires
        forall|a: int, b: int| 0 <= a < b < pre.len() ==> pre[a].key != pre[b].key,
        0 <= i < pre.len(),
        pre[i].key == key,
        post == pre.remove(i),
    ensures
        forall|a: int, b: int| 0 <= a < b < post.len() ==> post[a].key != post[b].key,
        !exists|a: int| 0 <= a < post.len() && post[a].key == key,
        forall|k: u64|
            k != key ==> #[trigger] spec_entries_get(post, k) == spec_entries_get(pre, k),
{
    assert forall|a: int, b: int| 0 <= a < b < post.len() implies post[a].key != post[b].key by {
        assert(post[a] == if a < i {
            pre[a]
        } else {
            pre[a + 1]
        });
        assert(post[b] == if b < i {
            pre[b]
        } else {
            pre[b + 1]
        });
    }
    assert forall|a: int| 0 <= a < post.len() implies post[a].key != key by {
        assert(post[a] == if a < i {
            pre[a]
        } else {
            pre[a + 1]
        });
        if a < i {
            assert(pre[a].key != pre[i].key);
        } else {
            assert(pre[i].key != pre[a + 1].key);
        }
    }
    assert forall|k: u64| k != key implies #[trigger] spec_entries_get(post, k)
        == spec_entries_get(pre, k) by {
        if exists|a: int| 0 <= a < pre.len() && pre[a].key == k {
            let a = choose|a: int| 0 <= a < pre.len() && pre[a].key == k;
            assert(a != i);
            let a2 = if a < i {
                a
            } else {
                a - 1
            };
            assert(post[a2] == pre[a]);
            lemma_entries_get_unique(pre, a, k);
            lemma_entries_get_unique(post, a2, k);
        } else {
            assert forall|a: int| 0 <= a < post.len() implies post[a].key != k by {
                assert(post[a] == if a < i {
                    pre[a]
                } else {
                    pre[a + 1]
                });
            }
        }
    }
}

/// The value stored for a key in an entry list, if any.
pub open spec fn spec_entries_get(entries: Seq<CacheEntry>, key: u64) -> Option<u64> {
    if exists|i: int| 0 <= i < entries.len() && entries[i].key == key {
        Some(entries[choose|i: int| 0 <= i < entries.len() && entries[i].key == key].value)
    } else {
        None
    }
}

proof fn lemma_entries_get_unique(entries: Seq<CacheEntry>, i: int, key: u64)
    requires
        forall|a: int, b: int| 0 <= a < b < entries.len() ==> entries[a].key != entries[b].key,
        0 <= i < entries.len(),
        entries[i].key == key,
    ensures
        spec_entries_get(entries, key) == Some(entries[i].value),
{
    lemma_get_unique(entries, i, key);
}

} // verus!
