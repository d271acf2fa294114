use rtiles::meta::{Meta, MetaCache, MetaCacheConfig, META_CACHE_ENTRIES};
use rtiles::store::{expiry_secs, MAX_EXPIRY_SECS};

#[test]
fn meta_keeps_its_parts() {
    let m = Meta::new(42, Some(1_700_000_000_000_000_000), false);
    assert_eq!(m.len(), 42);
    assert_eq!(m.modified(), Some(1_700_000_000_000_000_000));
    assert!(!m.is_dir());
    let d = Meta::new(4096, None, true);
    assert!(d.is_dir());
    assert_eq!(d.modified(), None);
}

#[test]
fn meta_equality_is_componentwise() {
    let m = Meta::new(42, Some(7), false);
    assert_eq!(m, Meta::new(42, Some(7), false));
    assert_ne!(m, Meta::new(43, Some(7), false));
    assert_ne!(m, Meta::new(42, Some(8), false));
    assert_ne!(m, Meta::new(42, None, false));
    assert_ne!(m, Meta::new(42, Some(7), true));
    assert_ne!(m, Meta::new(42, Some(-7), false));
}

#[test]
fn meta_cache_defaults() {
    assert_eq!(MetaCacheConfig::default(), MetaCacheConfig { ttl: 60 });
    assert_eq!(META_CACHE_ENTRIES, 100_000);
}

#[test]
fn empty_meta_cache_knows_no_path() {
    let cache = MetaCache::new(MetaCacheConfig::default());
    assert_eq!(cache.lookup("LICENSE"), None);
    assert_eq!(cache.store().entry_count(), 0);
}

#[test]
fn meta_cache_takes_any_time_to_live() {
    let cache = MetaCache::new(MetaCacheConfig { ttl: u64::MAX });
    assert_eq!(cache.lookup("LICENSE"), None);
    let cache = MetaCache::new(MetaCacheConfig { ttl: 0 });
    assert_eq!(cache.lookup("LICENSE"), None);
}

#[test]
fn expiry_is_cut_at_a_thousand_years() {
    assert_eq!(MAX_EXPIRY_SECS, 1000 * 365 * 24 * 3600);
    assert_eq!(expiry_secs(0), 0);
    assert_eq!(expiry_secs(60), 60);
    assert_eq!(expiry_secs(MAX_EXPIRY_SECS), MAX_EXPIRY_SECS);
    assert_eq!(expiry_secs(MAX_EXPIRY_SECS + 1), MAX_EXPIRY_SECS);
    assert_eq!(expiry_secs(u64::MAX), MAX_EXPIRY_SECS);
}

#[test]
fn meta_cache_hands_out_its_own_store() {
    let cache = MetaCache::new(MetaCacheConfig::default());
    assert_eq!(cache.store().entry_count(), 0);
    assert_eq!(cache.store().policy().max_capacity(), Some(META_CACHE_ENTRIES));
    assert_eq!(cache.store().policy().time_to_live(), Some(std::time::Duration::from_secs(60)));
    let long = MetaCache::new(MetaCacheConfig { ttl: u64::MAX });
    assert_eq!(
        long.store().policy().time_to_live(),
        Some(std::time::Duration::from_secs(MAX_EXPIRY_SECS))
    );
}
