//! File metadata, the freshness token of cached bodies.

use crate::store::{expiry, expiry_secs, timed_store_get, MAX_EXPIRY_SECS};
use vstd::prelude::*;

verus! {

/// Largest number of paths whose metadata is kept.
pub const META_CACHE_ENTRIES: u64 = 100_000;

/// What a stat of a path tells: length, time of last change, and whether it
/// is a directory. Two values are equal when all three parts are.
#[derive(Debug, Clone, Copy, PartialEq, Eq, Structural)]
pub struct Meta {
    len: u64,
    modified: Option<i128>,
    is_dir: bool,
}

impl Meta {
    /// `modified` counts nanoseconds from the Unix epoch, negative before it;
    /// `None` where the file system does not tell.
    pub fn new(len: u64, modified: Option<i128>, is_dir: bool) -> (m: Self)
        ensures
            m.spec_len() == len,
            m.spec_modified() == modified,
            m.spec_is_dir() == is_dir,
    {
        Meta { len, modified, is_dir }
    }

    /// Length in bytes.
    pub closed spec fn spec_len(&self) -> u64 {
        self.len
    }

    /// Time of the last change.
    pub closed spec fn spec_modified(&self) -> Option<i128> {
        self.modified
    }

    /// The path is a directory.
    pub closed spec fn spec_is_dir(&self) -> bool {
        self.is_dir
    }

    /// Length in bytes.
    #[verifier::when_used_as_spec(spec_len)]
    pub fn len(&self) -> (n: u64)
        ensures
            n == self.spec_len(),
    {
        self.len
    }

    /// Time of the last change, in nanoseconds from the Unix epoch.
    #[verifier::when_used_as_spec(spec_modified)]
    pub fn modified(&self) -> (t: Option<i128>)
        ensures
            t == self.spec_modified(),
    {
        self.modified
    }

    /// Whether the path is a directory.
    #[verifier::when_used_as_spec(spec_is_dir)]
    pub fn is_dir(&self) -> (d: bool)
        ensures
            d == self.spec_is_dir(),
    {
        self.is_dir
    }

    /// Two values with the same three parts are the same value.
    pub proof fn lemma_equal_by_parts(a: Meta, b: Meta)
        requires
            a.len() == b.len(),
            a.modified() == b.modified(),
            a.is_dir() == b.is_dir(),
        ensures
            a == b,
    {
    }
}

/// Metadata cache configuration.
#[derive(Debug, Clone, Copy, PartialEq, Eq, Structural)]
pub struct MetaCacheConfig {
    /// Entry time to live, in seconds.
    pub ttl: u64,
}

impl Default for MetaCacheConfig {
    fn default() -> (c: Self)
        ensures
            c.ttl == 60,
    {
        MetaCacheConfig { ttl: 60 }
    }
}

/// What a store of metadata was made with: the number of entries up to
/// which it keeps them, and the seconds for which it keeps each.
pub uninterp spec fn meta_store_policy(store: moka::future::Cache<String, Meta>) -> (u64, u64);

/// `moka::future::CacheBuilder`, with `max_capacity`, `time_to_live` and
/// `build`, which panics on a time to live above a thousand years. The
/// contract claims that the store was made with the two arguments, and
/// nothing of what it holds.
#[verifier::external_body]
fn meta_store_new(entries: u64, ttl: u64) -> (store: moka::future::Cache<String, Meta>)
    requires
        ttl <= MAX_EXPIRY_SECS,
    ensures
        meta_store_policy(store) == (entries, ttl),
{
    moka::future::Cache::builder()
        .max_capacity(entries)
        .time_to_live(std::time::Duration::from_secs(ttl))
        .build()
}

/// Metadata cache: what a stat told of a path is kept for a short time.
pub struct MetaCache {
    cache: moka::future::Cache<String, Meta>,
}

impl MetaCache {
    /// The store that the cache holds.
    pub closed spec fn spec_store(&self) -> moka::future::Cache<String, Meta> {
        self.cache
    }

    /// What the store was made with: the number of entries up to which it
    /// keeps them, and the seconds for which it keeps each.
    pub open spec fn policy(&self) -> (u64, u64) {
        meta_store_policy(self.spec_store())
    }

    /// An empty cache that keeps each entry for the configured time.
    pub fn new(config: MetaCacheConfig) -> (r: Self)
        ensures
            r.policy() == (META_CACHE_ENTRIES, expiry(config.ttl)),
    {
        MetaCache { cache: meta_store_new(META_CACHE_ENTRIES, expiry_secs(config.ttl)) }
    }

    /// The metadata that the cache holds for `path`. Where it holds none
    /// the caller stats the path and, if that succeeds, puts what it learnt
    /// into [`MetaCache::store`]; a failure is not kept.
    pub fn lookup(&self, path: &str) -> Option<Meta> {
        timed_store_get(&self.cache, &path.to_owned())
    }

    /// The store, for those who put entries into it.
    pub fn store(&self) -> (store: &moka::future::Cache<String, Meta>)
        ensures
            *store == self.spec_store(),
            meta_store_policy(*store) == self.policy(),
    {
        &self.cache
    }
}

} // verus!
