use vstd::prelude::*;

verus! {

/// A lazily loaded attribute: absent until first read from the store, then
/// kept in memory until the cache is cleared.
#[derive(Debug)]
pub struct Lazy<T> {
    pub cache: Option<T>,
}

/// The cache after an access that found `fetched` in the store: a cached
/// value is kept, and only an unloaded attribute takes what was read.
pub open spec fn access<T>(cache: Option<T>, fetched: T) -> Option<T> {
    match cache {
        Some(v) => Some(v),
        None => Some(fetched),
    }
}

/// How many store reads an access performs on this cache.
pub open spec fn reads_needed<T>(cache: Option<T>) -> nat {
    if cache is Some { 0 } else { 1 }
}

impl<T> Lazy<T> {
    /// An attribute that has not been read yet.
    pub fn unloaded() -> (r: Lazy<T>)
        ensures
            r.cache is None,
    {
        Lazy { cache: None }
    }

    /// An attribute whose value is already in memory.
    pub fn cached(v: T) -> (r: Lazy<T>)
        ensures
            r.cache == Some(v),
    {
        Lazy { cache: Some(v) }
    }

    /// Whether an access must read the store.
    pub fn needs_read(&self) -> (r: bool)
        ensures
            r == (reads_needed(self.cache) == 1),
    {
        self.cache.is_none()
    }

    /// The cached value, if any.
    pub fn get(&self) -> (r: Option<&T>)
        ensures
            r is Some == self.cache is Some,
            r is Some ==> *r->Some_0 == self.cache->Some_0,
    {
        self.cache.as_ref()
    }

    /// Records the value read from the store; a value already cached stays.
    pub fn load(&mut self, fetched: T)
        ensures
            final(self).cache == access(old(self).cache, fetched),
    {
        if self.cache.is_none() {
            self.cache = Some(fetched);
        }
    }

    /// Drops the cached value without writing it anywhere.
    pub fn clear(&mut self)
        ensures
            final(self).cache is None,
    {
        self.cache = None;
    }
}

/// Two accesses of an attribute with no clearing in between give the same
/// value, and together they read the store at most once, whatever each read
/// would have returned.
pub proof fn cache_idempotent<T>(cache: Option<T>, first: T, second: T)
    ensures
        access(access(cache, first), second) == access(cache, first),
        reads_needed(cache) + reads_needed(access(cache, first)) <= 1,
{
}

} // verus!
