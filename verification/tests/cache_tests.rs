use tvdata_rs::cache::{CacheLookup, MetainfoCache};
use tvdata_rs::Market;

#[test]
fn lookup_fetches_once_then_answers_from_cache() {
    let mut cache: MetainfoCache<u32> = MetainfoCache::new();
    let america = Market::from_static("america");
    assert!(matches!(cache.lookup(&america), CacheLookup::Fetch));
    cache.store(america.clone(), 7);
    assert!(matches!(cache.lookup(&america), CacheLookup::Cached(7)));
    assert!(matches!(cache.lookup(&Market::from_static("crypto")), CacheLookup::Fetch));
}

#[test]
fn store_replaces_and_keeps_other_markets() {
    let mut cache: MetainfoCache<u32> = MetainfoCache::new();
    cache.store(Market::from_static("america"), 1);
    cache.store(Market::from_static("crypto"), 2);
    cache.store(Market::from_static("america"), 3);
    assert_eq!(cache.get(&Market::from_static("america")), Some(&3));
    assert_eq!(cache.get(&Market::from_static("crypto")), Some(&2));
    assert_eq!(cache.get(&Market::from_static("forex")), None);
}

#[test]
fn failed_fetch_leaves_the_cache_unchanged() {
    let mut cache: MetainfoCache<u32> = MetainfoCache::new();
    let america = Market::from_static("america");
    let failed: Result<u32, String> = Err("boom".to_string());
    assert_eq!(cache.record_fetch(america.clone(), failed), Err("boom".to_string()));
    assert!(matches!(cache.lookup(&america), CacheLookup::Fetch));
    assert_eq!(cache.record_fetch(america.clone(), Ok::<u32, String>(9)), Ok(9));
    assert!(matches!(cache.lookup(&america), CacheLookup::Cached(9)));
}
