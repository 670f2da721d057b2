use longport::cache::{Cache, CacheDecision, CacheWithKey};

#[test]
fn cache_two_reads_within_ttl_fetch_once() {
    let mut c: Cache<u64> = Cache::new(1800);
    let mut fetches = 0;

    // First read misses and is the one reader told to fetch.
    assert_eq!(c.begin(100), CacheDecision::Start);
    fetches += 1;
    c.complete(100, Some(42));

    // Two sequential reads within the window hit the identical value.
    assert_eq!(c.begin(200), CacheDecision::Hit);
    assert_eq!(c.get(200), Some(&42));
    assert_eq!(c.begin(1899), CacheDecision::Hit);
    assert_eq!(c.get(1899), Some(&42));
    assert_eq!(fetches, 1);
}

#[test]
fn cache_read_after_ttl_fetches_once_more() {
    let mut c: Cache<u64> = Cache::new(1800);
    assert_eq!(c.begin(100), CacheDecision::Start);
    c.complete(100, Some(42));

    // 1800 seconds after the fetch the value is stale: exactly one new fetch.
    assert_eq!(c.get(1900), None);
    assert_eq!(c.begin(1900), CacheDecision::Start);
    assert_eq!(c.begin(1901), CacheDecision::Wait);
    c.complete(1902, Some(43));
    assert_eq!(c.get(1903), Some(&43));
}

#[test]
fn cache_single_flight_on_miss() {
    let mut c: Cache<u64> = Cache::new(1800);

    // Three concurrent readers during a miss: one fetch, two waiters.
    assert_eq!(c.begin(10), CacheDecision::Start);
    assert_eq!(c.begin(11), CacheDecision::Wait);
    assert_eq!(c.begin(12), CacheDecision::Wait);

    // Completion hands every reader the same stored value.
    c.complete(13, Some(7));
    assert_eq!(c.get(13), Some(&7));
    assert_eq!(c.get(14), Some(&7));
    assert_eq!(c.begin(14), CacheDecision::Hit);
}

#[test]
fn cache_failed_fetch_does_not_poison() {
    let mut c: Cache<u64> = Cache::new(1800);
    assert_eq!(c.begin(10), CacheDecision::Start);
    c.complete(11, None);

    // The failure left the slot empty: the next reader fetches from scratch.
    assert_eq!(c.get(12), None);
    assert_eq!(c.begin(12), CacheDecision::Start);
    c.complete(13, Some(9));
    assert_eq!(c.get(13), Some(&9));
}

#[test]
fn keyed_cache_single_flight_per_key() {
    let mut c: CacheWithKey<u64> = CacheWithKey::new(1800);
    let a = String::from("700.HK");
    let b = String::from("AAPL.US");

    // A miss on one key single-flights that key only.
    assert_eq!(c.begin(&a, 10), CacheDecision::Start);
    assert_eq!(c.begin(&a, 11), CacheDecision::Wait);
    // An independent key fetches concurrently.
    assert_eq!(c.begin(&b, 11), CacheDecision::Start);

    c.complete(&a, 12, Some(1));
    c.complete(&b, 12, Some(2));
    assert_eq!(c.get(&a, 13), Some(&1));
    assert_eq!(c.get(&b, 13), Some(&2));
}

#[test]
fn keyed_cache_ttl_and_error_per_key() {
    let mut c: CacheWithKey<u64> = CacheWithKey::new(100);
    let a = String::from("700.HK");

    assert_eq!(c.begin(&a, 0), CacheDecision::Start);
    c.complete(&a, 0, None);
    // The failed fetch stored nothing for the key.
    assert_eq!(c.get(&a, 1), None);
    assert_eq!(c.begin(&a, 1), CacheDecision::Start);
    c.complete(&a, 2, Some(5));
    assert_eq!(c.get(&a, 50), Some(&5));
    // Past the window the key is stale again.
    assert_eq!(c.get(&a, 102), None);
    assert_eq!(c.begin(&a, 102), CacheDecision::Start);
}
