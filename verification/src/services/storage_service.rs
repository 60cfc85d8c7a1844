//! The object cache of the storage service, and the size check on objects
//! before they are stored.
use vstd::prelude::*;
use crate::id::UnitsObjectId;
use crate::id_map::{keys_distinct, lemma_map_of_dom, lemma_map_of_index, IdMap};
use crate::kernel::copy_object;
use crate::objects::{same_object, UnitsObject};
use crate::services::{two_number_message, CacheStats, ServiceError};
use crate::text::decimal_chars;

verus! {

/// A cached object and when it was last read or written, in milliseconds of
/// a clock that never goes back.
pub struct CacheEntry {
    pub object: UnitsObject,
    pub last_access: u64,
}

/// Whether an entry last touched at `last` is still fresh at `now` under a
/// time to live of `ttl_secs` seconds: fewer than `ttl_secs` whole seconds
/// have passed.
pub open spec fn fresh(last: u64, now: u64, ttl_secs: u64) -> bool {
    (if now >= last {
        now - last
    } else {
        0int
    }) / 1000 < ttl_secs
}

/// `k` is an entry of `m` accessed no later than any other.
pub open spec fn accessed_longest_ago(m: Map<UnitsObjectId, CacheEntry>, k: UnitsObjectId) -> bool {
    &&& m.dom().contains(k)
    &&& forall|j: UnitsObjectId| #[trigger] m.dom().contains(j) ==> m[k].last_access <= m[j].last_access
}

/// How caching `e` under `id` changes the entries `old` to `new` under the
/// size `size`: a full cache first drops an entry accessed longest ago.
pub open spec fn cache_add(
    old: Map<UnitsObjectId, CacheEntry>,
    new: Map<UnitsObjectId, CacheEntry>,
    id: UnitsObjectId,
    e: CacheEntry,
    size: usize,
) -> bool {
    if old.len() < size || old.len() == 0 {
        new == old.insert(id, e)
    } else {
        exists|k: UnitsObjectId| #[trigger] accessed_longest_ago(old, k) && new == old.remove(k).insert(id, e)
    }
}

/// The cache stays bounded: one that holds at most `size` entries (one, for
/// a size of zero) still does after an entry is added.
pub proof fn lemma_cache_stays_bounded(
    old: Map<UnitsObjectId, CacheEntry>,
    new: Map<UnitsObjectId, CacheEntry>,
    id: UnitsObjectId,
    e: CacheEntry,
    size: usize,
)
    requires
        old.dom().finite(),
        old.len() <= (if size == 0 { 1 } else { size }),
        cache_add(old, new, id, e, size),
    ensures
        new.dom().finite(),
        new.len() <= (if size == 0 { 1 } else { size }),
{
    if old.len() < size || old.len() == 0 {
        if old.dom().contains(id) {
            assert(new.dom() =~= old.dom());
        } else {
            assert(new.dom() =~= old.dom().insert(id));
        }
    } else {
        let k = choose|k: UnitsObjectId| #[trigger] accessed_longest_ago(old, k) && new == old.remove(k).insert(id, e);
        let mid = old.remove(k);
        assert(mid.dom() =~= old.dom().remove(k));
        if mid.dom().contains(id) {
            assert(new.dom() =~= mid.dom());
        } else {
            assert(new.dom() =~= mid.dom().insert(id));
        }
    }
}

/// A cache of objects by identifier, of a bounded size, whose entries expire
/// a time after their last access; when it is full, the entry accessed
/// longest ago makes room.
pub struct ObjectCache {
    cache: IdMap<CacheEntry>,
    cache_size: usize,
    cache_ttl_secs: u64,
}

impl ObjectCache {
    /// The cached entries.
    pub closed spec fn entries(&self) -> Map<UnitsObjectId, CacheEntry> {
        self.cache@
    }

    /// The number of entries at which the cache counts as full.
    pub closed spec fn max_size(&self) -> usize {
        self.cache_size
    }

    /// The time to live of an entry, in seconds.
    pub closed spec fn ttl_secs(&self) -> u64 {
        self.cache_ttl_secs
    }

    /// An empty cache of `cache_size` entries that live `cache_ttl_secs` seconds.
    pub fn new(cache_size: usize, cache_ttl_secs: u64) -> (c: Self)
        ensures
            c.entries() == Map::<UnitsObjectId, CacheEntry>::empty(),
            c.max_size() == cache_size,
            c.ttl_secs() == cache_ttl_secs,
    {
        ObjectCache { cache: IdMap::new(), cache_size, cache_ttl_secs }
    }

    /// The cached object `id` at time `now`: a fresh entry is touched and a
    /// copy of its object returned; a stale one is dropped.
    pub fn get_from_cache(&mut self, id: &UnitsObjectId, now: u64) -> (r: Option<UnitsObject>)
        ensures
            final(self).max_size() == old(self).max_size(),
            final(self).ttl_secs() == old(self).ttl_secs(),
            !old(self).entries().dom().contains(*id) ==> r is None && final(self).entries() == old(self).entries(),
            old(self).entries().dom().contains(*id) && fresh(old(self).entries()[*id].last_access, now, old(self).ttl_secs())
                ==> (r matches Some(o) && same_object(o, old(self).entries()[*id].object)) && final(self).entries()
                == old(self).entries().insert(*id, CacheEntry { object: old(self).entries()[*id].object, last_access: now }),
            old(self).entries().dom().contains(*id) && !fresh(old(self).entries()[*id].last_access, now, old(self).ttl_secs())
                ==> r is None && final(self).entries() == old(self).entries().remove(*id),
    {
        let is_fresh = match self.cache.get(id) {
            None => {
                return None;
            },
            Some(entry) => now.saturating_sub(entry.last_access) / 1000 < self.cache_ttl_secs,
        };
        match self.cache.remove(id) {
            Some(entry) => {
                if is_fresh {
                    let out = copy_object(&entry.object);
                    let ghost removed = self.entries();
                    self.cache.insert(*id, CacheEntry { object: entry.object, last_access: now });
                    proof {
                        assert(removed.insert(*id, CacheEntry { object: entry.object, last_access: now }) =~= old(self).entries().insert(*id, CacheEntry { object: entry.object, last_access: now }));
                    }
                    Some(out)
                } else {
                    None
                }
            },
            None => None,
        }
    }

    /// The key of an entry accessed longest ago, the first such in the cache's
    /// order, if the cache holds any.
    fn oldest(&self) -> (r: Option<UnitsObjectId>)
        ensures
            match r {
                Some(k) => self.entries().dom().contains(k) && forall|j: UnitsObjectId| #[trigger]
                    self.entries().dom().contains(j) ==> self.entries()[k].last_access
                    <= self.entries()[j].last_access,
                None => self.entries().dom().len() == 0,
            },
    {
        proof {
            use_type_invariant(&self.cache);
            self.cache.lemma_inv();
        }
        let n = self.cache.len();
        if n == 0 {
            return None;
        }
        let mut best: usize = 0;
        let mut i: usize = 1;
        while i < n
            invariant
                n == self.cache.entries().len(),
                keys_distinct(self.cache.entries()),
                0 <= best < i <= n,
                forall|j: int| 0 <= j < i ==> self.cache.entries()[best as int].1.last_access
                    <= #[trigger] self.cache.entries()[j].1.last_access,
            decreases n - i,
        {
            if self.cache.entry(i).1.last_access < self.cache.entry(best).1.last_access {
                best = i;
            }
            i = i + 1;
        }
        let k = self.cache.entry(best).0;
        proof {
            let s = self.cache.entries();
            lemma_map_of_index(s, best as int);
            assert forall|j: UnitsObjectId| #[trigger] self.entries().dom().contains(j) implies self.entries()[k].last_access
                <= self.entries()[j].last_access by {
                lemma_map_of_dom(s, j);
                let p = choose|p: int| 0 <= p < s.len() && s[p].0 == j;
                lemma_map_of_index(s, p);
            }
        }
        Some(k)
    }

    /// Cache `object` under `id` at time `now`; a full cache first drops an
    /// entry accessed longest ago.
    pub fn add_to_cache(&mut self, id: &UnitsObjectId, object: UnitsObject, now: u64)
        ensures
            final(self).max_size() == old(self).max_size(),
            final(self).ttl_secs() == old(self).ttl_secs(),
            cache_add(
                old(self).entries(),
                final(self).entries(),
                *id,
                CacheEntry { object, last_access: now },
                old(self).max_size(),
            ),
    {
        if self.cache.len() >= self.cache_size {
            match self.oldest() {
                Some(k) => {
                    self.cache.remove(&k);
                    assert(accessed_longest_ago(old(self).entries(), k));
                },
                None => {},
            }
        }
        self.cache.insert(*id, CacheEntry { object, last_access: now });
    }

    /// Drop the entry of `id`.
    pub fn remove_from_cache(&mut self, id: &UnitsObjectId)
        ensures
            final(self).entries() == old(self).entries().remove(*id),
            final(self).max_size() == old(self).max_size(),
            final(self).ttl_secs() == old(self).ttl_secs(),
    {
        self.cache.remove(id);
    }

    /// Drop every entry.
    pub fn clear_cache(&mut self)
        ensures
            final(self).entries() == Map::<UnitsObjectId, CacheEntry>::empty(),
            final(self).max_size() == old(self).max_size(),
            final(self).ttl_secs() == old(self).ttl_secs(),
    {
        self.cache = IdMap::new();
    }

    /// The number of entries, the size limit and the time to live.
    pub fn cache_stats(&self) -> (s: CacheStats)
        ensures
            s.size == self.entries().len(),
            s.max_size == self.max_size(),
            s.ttl_secs == self.ttl_secs(),
    {
        CacheStats { size: self.cache.len(), max_size: self.cache_size, ttl_secs: self.cache_ttl_secs }
    }
}

/// The largest serialized object that may be stored: 10 MiB.
pub const MAX_OBJECT_SIZE: usize = 10485760;

/// Check the size of an object's serialized form before it is stored.
pub fn check_object_size(serialized_len: usize) -> (r: Result<(), ServiceError>)
    ensures
        serialized_len <= MAX_OBJECT_SIZE ==> r is Ok,
        serialized_len > MAX_OBJECT_SIZE ==> (r matches Err(ServiceError::InvalidRequest { message })
            && message@ == "Object size "@ + decimal_chars(serialized_len as nat) + " exceeds maximum "@
            + decimal_chars(MAX_OBJECT_SIZE as nat)),
{
    if serialized_len > MAX_OBJECT_SIZE {
        return Err(
            ServiceError::invalid_request(
                two_number_message(
                    "Object size ",
                    serialized_len as u64,
                    " exceeds maximum ",
                    MAX_OBJECT_SIZE as u64,
                ),
            ),
        );
    }
    Ok(())
}

} // verus!
