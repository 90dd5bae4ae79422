use hello_server::cache::{outcome, Cache, ComputeFailed, Lookup};
use std::sync::atomic::{AtomicUsize, Ordering};

#[test]
fn computes_missing_value() {
    let cache: Cache<u64, u64> = Cache::default();
    assert_eq!(cache.get_or_insert_with(3, |k| k * 10).unwrap(), 30);
}

#[test]
fn cached_value_is_kept() {
    let cache: Cache<String, String> = Cache::default();
    let calls = AtomicUsize::new(0);
    let first = cache.get_or_insert_with("k".to_string(), |k| {
        calls.fetch_add(1, Ordering::SeqCst);
        format!("{}-first", k)
    }).unwrap();
    assert_eq!(first, "k-first");
    for _ in 0..5 {
        let again = cache.get_or_insert_with("k".to_string(), |_| {
            calls.fetch_add(1, Ordering::SeqCst);
            "other".to_string()
        }).unwrap();
        assert_eq!(again, "k-first");
    }
    assert_eq!(calls.load(Ordering::SeqCst), 1);
}

#[test]
fn distinct_keys_get_their_own_values() {
    let cache: Cache<u64, String> = Cache::default();
    assert_eq!(cache.get_or_insert_with(1, |k| format!("v{}", k)).unwrap(), "v1");
    assert_eq!(cache.get_or_insert_with(2, |k| format!("v{}", k)).unwrap(), "v2");
    assert_eq!(cache.get_or_insert_with(1, |_| "x".to_string()).unwrap(), "v1");
}

#[test]
fn equal_values_for_repeated_string_key() {
    let cache: Cache<String, Vec<u8>> = Cache::default();
    let calls = AtomicUsize::new(0);
    let compute = |_: String| {
        calls.fetch_add(1, Ordering::SeqCst);
        vec![1u8, 2, 3]
    };
    let a = cache.get_or_insert_with("x".to_string(), compute).unwrap();
    let b = cache.get_or_insert_with("x".to_string(), compute).unwrap();
    assert_eq!(a, vec![1u8, 2, 3]);
    assert_eq!(a, b);
    assert_eq!(calls.load(Ordering::SeqCst), 1);
}

fn shareable_between_threads<T: Send + Sync>(_: &T) -> bool {
    true
}

#[test]
fn cache_can_be_shared_between_threads() {
    let cache: Cache<String, Vec<u8>> = Cache::default();
    assert!(shareable_between_threads(&cache));
}

#[test]
fn outcome_of_a_published_value_is_that_value() {
    assert_eq!(outcome(Lookup::Hit(42u64)), Ok(42));
    assert_eq!(outcome(Lookup::Hit("v".to_string())), Ok("v".to_string()));
}

#[test]
fn outcome_without_a_published_value_is_a_failure() {
    assert_eq!(outcome(Lookup::<u64>::Absent), Err(ComputeFailed));
    let (_sender, receiver) = crossbeam_channel::unbounded::<()>();
    assert_eq!(outcome(Lookup::<u64>::Wait(3, receiver)), Err(ComputeFailed));
}
