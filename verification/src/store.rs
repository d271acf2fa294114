//! Stores that forget: what is common to the caches whose entries age.

use vstd::prelude::*;

verus! {

/// Longest time, in seconds, that a store can be told to keep an entry: a
/// thousand years of 365 days.
pub const MAX_EXPIRY_SECS: u64 = 31_536_000_000;

/// `moka::future::Cache`, a concurrent store that drops entries as they age
/// and when it is full. Nothing is known of what it holds.
#[verifier::external_type_specification]
#[verifier::external_body]
#[verifier::reject_recursive_types(K)]
#[verifier::reject_recursive_types(V)]
#[verifier::reject_recursive_types(S)]
pub struct ExTimedStore<K, V, S>(moka::future::Cache<K, V, S>);

/// A time in seconds as a store takes it: a longer time than a store can be
/// told stands for the longest.
pub open spec fn expiry(secs: u64) -> u64 {
    if secs > MAX_EXPIRY_SECS {
        MAX_EXPIRY_SECS
    } else {
        secs
    }
}

/// The time `secs` as a store takes it.
pub fn expiry_secs(secs: u64) -> (r: u64)
    ensures
        r == expiry(secs),
{
    if secs > MAX_EXPIRY_SECS {
        MAX_EXPIRY_SECS
    } else {
        secs
    }
}

/// `moka::future::Cache::get`. The store drops entries as they age, so
/// nothing is claimed of the answer.
#[verifier::external_body]
pub(crate) fn timed_store_get<K, V>(store: &moka::future::Cache<K, V>, key: &K) -> Option<V>
    where
        K: core::hash::Hash + Eq + Send + Sync + 'static,
        V: Clone + Send + Sync + 'static,
{
    store.get(key)
}

} // verus!
