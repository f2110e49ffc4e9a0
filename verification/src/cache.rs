//! The query-result cache: bounded by LRU capacity, with a per-entry TTL
//! checked lazily on read and swept on demand.
//!
//! The cache itself is the `lru` crate's collection; its contents are named
//! by [`cache_entries`] and every method the logic calls is wrapped with a
//! contract over that name. The expiry rules on top are verified.

use vstd::prelude::*;

verus! {

/// One cached value with its creation time and lifetime.
#[derive(Debug, Clone, PartialEq)]
pub struct CacheItem {
    /// The cached text.
    pub value: String,
    /// When the entry was stored, epoch milliseconds.
    pub created_at_ms: u64,
    /// How long the entry lives, milliseconds.
    pub ttl_ms: u64,
}

/// Whether an entry's lifetime has passed at `now_ms`.
pub open spec fn spec_expired(item: CacheItem, now_ms: u64) -> bool {
    now_ms > item.created_at_ms + item.ttl_ms
}

impl CacheItem {
    /// An entry stored at `now_ms` that lives for `ttl_ms`.
    pub fn new(value: String, ttl_ms: u64, now_ms: u64) -> (r: CacheItem)
        ensures
            r.value == value,
            r.created_at_ms == now_ms,
            r.ttl_ms == ttl_ms,
    {
        CacheItem { value, created_at_ms: now_ms, ttl_ms }
    }

    /// Whether the entry's lifetime has passed at `now_ms`.
    pub fn is_expired(&self, now_ms: u64) -> (r: bool)
        ensures
            r == spec_expired(*self, now_ms),
    {
        now_ms > self.created_at_ms && now_ms - self.created_at_ms > self.ttl_ms
    }
}

#[verifier::external_type_specification]
#[verifier::external_body]
#[verifier::reject_recursive_types(K)]
#[verifier::reject_recursive_types(V)]
#[verifier::reject_recursive_types(S)]
pub struct ExLruCache<K, V, S>(lru::LruCache<K, V, S>);

#[verifier::external_type_specification]
#[verifier::external_body]
pub struct ExLruDefaultHasher(lru::DefaultHasher);

/// The empty contents of a fresh cache.
pub open spec fn spec_empty_entries() -> Map<Seq<char>, CacheItem> {
    Map::empty()
}

/// What the LRU collection holds, keyed by the key's characters.
pub uninterp spec fn cache_entries(c: lru::LruCache<String, CacheItem>) -> Map<Seq<char>, CacheItem>;

/// The capacity the LRU collection was created with.
pub uninterp spec fn cache_cap(c: lru::LruCache<String, CacheItem>) -> nat;

/// Relies on `lru::LruCache::new`: an empty cache of the given capacity.
#[verifier::external_body]
fn lru_new(capacity: usize) -> (r: lru::LruCache<String, CacheItem>)
    requires
        capacity >= 1,
    ensures
        cache_entries(r) == spec_empty_entries(),
        cache_cap(r) == capacity,
{
    lru::LruCache::new(std::num::NonZeroUsize::new(capacity).unwrap())
}

/// Relies on `lru::LruCache::get`: returns the entry under the key and only
/// refreshes its recency, leaving contents and capacity as they were.
#[verifier::external_body]
fn lru_get(c: &mut lru::LruCache<String, CacheItem>, key: &String) -> (r: Option<CacheItem>)
    ensures
        cache_entries(*final(c)) == cache_entries(*old(c)),
        cache_cap(*final(c)) == cache_cap(*old(c)),
        r is Some <==> cache_entries(*old(c)).contains_key(key@),
        r is Some ==> r.unwrap() == cache_entries(*old(c))[key@],
{
    c.get(key).map(
        |item|
            CacheItem {
                value: item.value.clone(),
                created_at_ms: item.created_at_ms,
                ttl_ms: item.ttl_ms,
            },
    )
}

/// Relies on `lru::LruCache::put`: stores the entry under the key; a known
/// key is replaced in place, a fresh key on a full cache evicts exactly one
/// other, least recently used, key.
#[verifier::external_body]
fn lru_put(c: &mut lru::LruCache<String, CacheItem>, key: String, item: CacheItem)
    ensures
        cache_cap(*final(c)) == cache_cap(*old(c)),
        cache_entries(*old(c)).dom().finite() ==> cache_entries(*final(c)).dom().finite(),
        (cache_entries(*old(c)).contains_key(key@) || cache_entries(*old(c)).dom().len()
            < cache_cap(*old(c))) ==> cache_entries(*final(c)) == cache_entries(*old(c)).insert(
            key@,
            item,
        ),
        !(cache_entries(*old(c)).contains_key(key@) || cache_entries(*old(c)).dom().len()
            < cache_cap(*old(c))) ==> exists|evicted: Seq<char>|
            cache_entries(*old(c)).contains_key(evicted) && evicted != key@ && cache_entries(
                *final(c),
            ) == cache_entries(*old(c)).remove(evicted).insert(key@, item),
{
    c.put(key, item);
}

/// Relies on `lru::LruCache::pop`: removes and returns the entry under the
/// key, leaving the rest as it was.
#[verifier::external_body]
fn lru_pop(c: &mut lru::LruCache<String, CacheItem>, key: &String) -> (r: Option<CacheItem>)
    ensures
        cache_cap(*final(c)) == cache_cap(*old(c)),
        cache_entries(*final(c)) == cache_entries(*old(c)).remove(key@),
        r is Some <==> cache_entries(*old(c)).contains_key(key@),
        r is Some ==> r.unwrap() == cache_entries(*old(c))[key@],
{
    c.pop(key)
}

/// Relies on `lru::LruCache::len`: how many entries the cache holds.
#[verifier::external_body]
fn lru_len(c: &lru::LruCache<String, CacheItem>) -> (r: usize)
    requires
        cache_entries(*c).dom().finite(),
    ensures
        r == cache_entries(*c).dom().len(),
{
    c.len()
}

/// Relies on `lru::LruCache::iter`: every entry, each key once, as owned
/// pairs.
#[verifier::external_body]
fn lru_entries(c: &lru::LruCache<String, CacheItem>) -> (r: Vec<(String, CacheItem)>)
    ensures
        forall|i: int|
            0 <= i < r@.len() ==> cache_entries(*c).contains_key((#[trigger] r@[i]).0@)
                && cache_entries(*c)[r@[i].0@] == r@[i].1,
        forall|k: Seq<char>|
            cache_entries(*c).contains_key(k) ==> exists|i: int|
                0 <= i < r@.len() && (#[trigger] r@[i]).0@ == k,
{
    c.iter().map(
        |(k, v)|
            (
                k.clone(),
                CacheItem {
                    value: v.value.clone(),
                    created_at_ms: v.created_at_ms,
                    ttl_ms: v.ttl_ms,
                },
            ),
    ).collect()
}

/// A result cache keyed by statement and bound parameters, bounded by LRU
/// capacity, each entry carrying its own lifetime.
pub struct QueryResultCache {
    cache: lru::LruCache<String, CacheItem>,
    default_ttl_ms: u64,
}

impl QueryResultCache {
    /// The cached entries, keyed by the key text.
    pub closed spec fn entries(self) -> Map<Seq<char>, CacheItem> {
        cache_entries(self.cache)
    }

    /// The capacity the cache is bounded by.
    pub closed spec fn capacity(self) -> nat {
        cache_cap(self.cache)
    }

    /// The default lifetime of an entry, milliseconds.
    pub closed spec fn spec_default_ttl_ms(self) -> u64 {
        self.default_ttl_ms
    }

    /// The entry set is finite and never exceeds the capacity.
    pub open spec fn wf(self) -> bool {
        &&& self.entries().dom().finite()
        &&& self.entries().dom().len() <= self.capacity()
        &&& self.capacity() >= 1
    }

    /// An empty cache of `capacity` entries with a default lifetime.
    pub fn new(capacity: usize, default_ttl_ms: u64) -> (r: QueryResultCache)
        requires
            capacity >= 1,
        ensures
            r.wf(),
            r.entries() == spec_empty_entries(),
            r.capacity() == capacity,
            r.spec_default_ttl_ms() == default_ttl_ms,
    {
        QueryResultCache { cache: lru_new(capacity), default_ttl_ms }
    }

    /// The cached value under `key`, when one is present and alive at
    /// `now_ms`; an expired entry is dropped and yields nothing.
    pub fn get(&mut self, key: &String, now_ms: u64) -> (r: Option<String>)
        requires
            old(self).wf(),
        ensures
            final(self).wf(),
            final(self).capacity() == old(self).capacity(),
            final(self).spec_default_ttl_ms() == old(self).spec_default_ttl_ms(),
            r is Some <==> old(self).entries().contains_key(key@) && !spec_expired(
                old(self).entries()[key@],
                now_ms,
            ),
            r is Some ==> r.unwrap() == old(self).entries()[key@].value && final(self).entries()
                == old(self).entries(),
            r is None ==> final(self).entries() == old(self).entries().remove(key@),
    {
        let hit = lru_get(&mut self.cache, key);
        match hit {
            Some(item) => {
                if item.is_expired(now_ms) {
                    let _ = lru_pop(&mut self.cache, key);
                    proof {
                        vstd::set_lib::lemma_len_subset(
                            self.entries().dom(),
                            old(self).entries().dom(),
                        );
                    }
                    None
                } else {
                    Some(item.value)
                }
            },
            None => {
                proof {
                    assert(old(self).entries().remove(key@) =~= old(self).entries());
                }
                None
            },
        }
    }

    /// Stores `value` under `key` at `now_ms`, living for `ttl_ms` or the
    /// default; a fresh key on a full cache evicts one other entry.
    pub fn set(&mut self, key: String, value: String, ttl_ms: Option<u64>, now_ms: u64)
        requires
            old(self).wf(),
        ensures
            final(self).wf(),
            final(self).capacity() == old(self).capacity(),
            final(self).spec_default_ttl_ms() == old(self).spec_default_ttl_ms(),
            final(self).entries().contains_key(key@),
            final(self).entries()[key@] == (CacheItem {
                value,
                created_at_ms: now_ms,
                ttl_ms: match ttl_ms {
                    Some(t) => t,
                    None => old(self).spec_default_ttl_ms(),
                },
            }),
            forall|k: Seq<char>|
                final(self).entries().contains_key(k) && k != key@ ==> old(
                    self,
                ).entries().contains_key(k) && old(self).entries()[k] == final(self).entries()[k],
    {
        let ttl = match ttl_ms {
            Some(t) => t,
            None => self.default_ttl_ms,
        };
        let item = CacheItem::new(value, ttl, now_ms);
        let ghost pre = self.entries();
        lru_put(&mut self.cache, key, item);
        proof {
            if pre.contains_key(key@) || pre.dom().len() < old(self).capacity() {
                assert(self.entries().dom() =~= pre.dom().insert(key@));
                if pre.contains_key(key@) {
                    assert(pre.dom().insert(key@) =~= pre.dom());
                } else {
                    vstd::set_lib::lemma_len_union(pre.dom(), vstd::prelude::Set::empty().insert(key@));
                    assert(pre.dom().insert(key@).len() <= pre.dom().len() + 1);
                }
            } else {
                let evicted = choose|evicted: Seq<char>|
                    pre.contains_key(evicted) && evicted != key@ && self.entries()
                        == pre.remove(evicted).insert(key@, item);
                assert(self.entries().dom() =~= pre.dom().remove(evicted).insert(key@));
                vstd::set_lib::lemma_len_subset(
                    pre.dom().remove(evicted),
                    pre.dom(),
                );
                assert(pre.dom().remove(evicted).insert(key@).len() <= pre.dom().remove(
                    evicted,
                ).len() + 1);
                assert(pre.dom().remove(evicted).len() == pre.dom().len() - 1);
            }
        }
    }

    /// Drops every entry whose lifetime has passed at `now_ms`; live entries
    /// stay untouched.
    pub fn cleanup_expired(&mut self, now_ms: u64)
        requires
            old(self).wf(),
        ensures
            final(self).wf(),
            final(self).capacity() == old(self).capacity(),
            final(self).spec_default_ttl_ms() == old(self).spec_default_ttl_ms(),
            forall|k: Seq<char>|
                final(self).entries().contains_key(k) ==> old(self).entries().contains_key(k)
                    && old(self).entries()[k] == final(self).entries()[k] && !spec_expired(
                    final(self).entries()[k],
                    now_ms,
                ),
            forall|k: Seq<char>|
                old(self).entries().contains_key(k) && !spec_expired(
                    old(self).entries()[k],
                    now_ms,
                ) ==> final(self).entries().contains_key(k),
    {
        let items = lru_entries(&self.cache);
        let ghost orig = *self;
        let n = items.len();
        let mut i: usize = 0;
        while i < n
            invariant
                n == items@.len(),
                i <= n,
                orig == *old(self),
                self.spec_default_ttl_ms() == orig.spec_default_ttl_ms(),
                self.capacity() == orig.capacity(),
                self.entries().dom().finite(),
                self.entries().dom().len() <= self.capacity(),
                self.capacity() >= 1,
                forall|k: Seq<char>|
                    #[trigger] self.entries().dom().contains(k) ==> orig.entries().contains_key(k)
                        && orig.entries()[k] == self.entries()[k],
                forall|k: Seq<char>|
                    #[trigger] orig.entries().dom().contains(k) && !self.entries().contains_key(k)
                        ==> spec_expired(orig.entries()[k], now_ms),
                forall|j: int|
                    0 <= j < i && spec_expired(#[trigger] items@[j].1, now_ms)
                        ==> !self.entries().contains_key(items@[j].0@),
                forall|j: int|
                    0 <= j < items@.len() ==> orig.entries().contains_key(
                        (#[trigger] items@[j]).0@,
                    ) && orig.entries()[items@[j].0@] == items@[j].1,
                forall|k: Seq<char>|
                    orig.entries().contains_key(k) ==> exists|j: int|
                        0 <= j < items@.len() && (#[trigger] items@[j]).0@ == k,
            decreases n - i,
        {
            let expired = items[i].1.is_expired(now_ms);
            if expired {
                let ghost pre = self.entries();
                proof {
                    assert forall|k: Seq<char>|
                        pre.contains_key(k) implies orig.entries().contains_key(k)
                        && orig.entries()[k] == pre[k] by {
                        assert(self.entries().dom().contains(k));
                    }
                }
                let _ = lru_pop(&mut self.cache, &items[i].0);
                proof {
                    assert(self.entries() == pre.remove(items@[i as int].0@));
                    vstd::set_lib::lemma_len_subset(self.entries().dom(), pre.dom());
                    assert forall|k: Seq<char>|
                        #[trigger] self.entries().dom().contains(k) implies orig.entries().contains_key(k)
                        && orig.entries()[k] == self.entries()[k] by {
                        assert(pre.contains_key(k) && pre[k] == self.entries()[k]);
                    }
                    assert forall|k: Seq<char>|
                        #[trigger] orig.entries().dom().contains(k) && !self.entries().contains_key(
                            k,
                        ) implies spec_expired(orig.entries()[k], now_ms) by {
                        if pre.contains_key(k) {
                            assert(k == items@[i as int].0@);
                            assert(orig.entries()[k] == items@[i as int].1);
                        }
                    }
                }
            }
            i += 1;
        }
        proof {
            assert forall|k: Seq<char>|
                self.entries().contains_key(k) implies orig.entries().contains_key(k)
                && orig.entries()[k] == self.entries()[k] && !spec_expired(
                self.entries()[k],
                now_ms,
            ) by {
                let j = choose|j: int| 0 <= j < items@.len() && (#[trigger] items@[j]).0@ == k;
                assert(items@[j].1 == orig.entries()[k]);
                if spec_expired(items@[j].1, now_ms) {
                    assert(!self.entries().contains_key(items@[j].0@));
                }
            }
        }
    }

    /// How many entries the cache holds and how many it can hold.
    pub fn get_stats(&self) -> (r: (usize, usize))
        requires
            self.wf(),
            self.capacity() <= usize::MAX,
        ensures
            r.0 == self.entries().dom().len(),
            r.1 == self.capacity(),
    {
        let len = lru_len(&self.cache);
        let cap = lru_cap(&self.cache);
        (len, cap)
    }
}

/// Relies on `lru::LruCache::cap`: the capacity the cache was created with.
#[verifier::external_body]
fn lru_cap(c: &lru::LruCache<String, CacheItem>) -> (r: usize)
    requires
        cache_cap(*c) <= usize::MAX,
    ensures
        r == cache_cap(*c),
{
    c.cap().get()
}

} // verus!
