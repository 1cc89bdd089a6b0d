use memo::runtime::{CacheState, make_key};

// A pure computation to be cached, and a counter standing for its observable
// side effect: the wrapper model reports through its flag whether the
// computation ran, and the tests count those runs.
fn add(a: u64, b: u64, c: u64, d: u64) -> u64 {
    a + b + c + d
}

#[test]
fn repeat_call_computes_at_most_once() {
    let mut cache = CacheState::new(None, None);
    let key = vec![7];
    let mut runs = 0u32;

    let (r1, ran1) = cache.wrapper_call(&key, 0, 49);
    if ran1 {
        runs += 1;
    }
    let (r2, ran2) = cache.wrapper_call(&key, 1, 49);
    if ran2 {
        runs += 1;
    }
    assert_eq!(r1, 49);
    assert_eq!(r2, 49);
    assert_eq!(runs, 1);
}

#[test]
fn other_keys_do_not_disturb_a_cached_entry() {
    let mut cache = CacheState::new(None, None);
    let (_, ran) = cache.wrapper_call(&vec![1], 0, 10);
    assert!(ran);
    let (_, ran) = cache.wrapper_call(&vec![2], 1, 20);
    assert!(ran);
    let (_, ran) = cache.wrapper_call(&vec![3], 2, 30);
    assert!(ran);
    let (r, ran) = cache.wrapper_call(&vec![1], 3, 99);
    assert_eq!(r, 10);
    assert!(!ran);
}

#[test]
fn ignored_argument_change_does_not_recompute() {
    // add(a, b, c, d) with c ignored: the key is (a, b, d)
    let ignored = vec![false, false, true, false];
    let mut cache = CacheState::new(None, None);

    let k1 = make_key(&vec![1, 2, 3, 4], &ignored);
    let (r1, ran1) = cache.wrapper_call(&k1, 0, add(1, 2, 3, 4));
    assert_eq!(r1, 10);
    assert!(ran1);

    // same non-ignored arguments, different ignored one: same key, cached
    let k2 = make_key(&vec![1, 2, 9, 4], &ignored);
    assert_eq!(k1, k2);
    let (r2, ran2) = cache.wrapper_call(&k2, 1, add(1, 2, 9, 4));
    assert_eq!(r2, 10);
    assert!(!ran2);
}

#[test]
fn changed_key_arguments_do_recompute() {
    // changing a non-ignored argument changes the key and recomputes
    let ignored = vec![false, false, true, false];
    let mut cache = CacheState::new(None, None);

    let k1 = make_key(&vec![1, 2, 3, 4], &ignored);
    cache.wrapper_call(&k1, 0, add(1, 2, 3, 4));

    let k3 = make_key(&vec![3, 2, 4, 4], &ignored);
    assert_ne!(k1, k3);
    let (r3, ran3) = cache.wrapper_call(&k3, 1, add(3, 2, 4, 4));
    assert_eq!(r3, 13);
    assert!(ran3);
}

#[test]
fn time_to_live_expires_and_refreshes() {
    let mut cache = CacheState::new(None, Some(10));
    let key = vec![5];

    let (r1, ran1) = cache.wrapper_call(&key, 0, 100);
    assert_eq!(r1, 100);
    assert!(ran1);

    // within the duration: the first computed result, unchanged
    let (r2, ran2) = cache.wrapper_call(&key, 9, 200);
    assert_eq!(r2, 100);
    assert!(!ran2);

    // past the duration: recomputed, the result reflects the second run
    let (r3, ran3) = cache.wrapper_call(&key, 19, 200);
    assert_eq!(r3, 200);
    assert!(ran3);

    // the refreshed entry serves again
    let (r4, ran4) = cache.wrapper_call(&key, 20, 300);
    assert_eq!(r4, 200);
    assert!(!ran4);
}

#[test]
fn capacity_evicts_least_recently_used() {
    let mut cache = CacheState::new(Some(2), None);
    cache.wrapper_call(&vec![1], 0, 10);
    cache.wrapper_call(&vec![2], 1, 20);
    // a third distinct key evicts the least recently used: key 1
    cache.wrapper_call(&vec![3], 2, 30);

    let (r, ran) = cache.wrapper_call(&vec![1], 3, 10);
    assert!(ran, "the evicted key must be recomputed");
    assert_eq!(r, 10);
}

#[test]
fn lookup_refreshes_recency() {
    let mut cache = CacheState::new(Some(2), None);
    cache.wrapper_call(&vec![1], 0, 10);
    cache.wrapper_call(&vec![2], 1, 20);
    // touch key 1: key 2 becomes the least recently used
    let (_, ran) = cache.wrapper_call(&vec![1], 2, 10);
    assert!(!ran);
    // a new key now evicts key 2, not key 1
    cache.wrapper_call(&vec![3], 3, 30);
    let (r, ran) = cache.wrapper_call(&vec![1], 4, 99);
    assert_eq!(r, 10);
    assert!(!ran, "the recently used key must survive the eviction");
}

#[test]
fn flush_forces_recomputation() {
    let mut cache = CacheState::new(None, None);
    let key = vec![8];
    let (_, ran1) = cache.wrapper_call(&key, 0, 64);
    assert!(ran1);
    let (_, ran2) = cache.wrapper_call(&key, 1, 64);
    assert!(!ran2);

    cache.clear();

    let (r3, ran3) = cache.wrapper_call(&key, 2, 64);
    assert_eq!(r3, 64);
    assert!(ran3, "a flushed key must be recomputed");
}

#[test]
fn zero_argument_function_caches_on_the_unit_key() {
    // no parameters: the key degenerates to the unit (empty) tuple
    let key = make_key(&vec![], &vec![]);
    assert!(key.is_empty());

    let mut cache = CacheState::new(None, None);
    let (r1, ran1) = cache.wrapper_call(&key, 0, 42);
    assert_eq!(r1, 42);
    assert!(ran1);
    let (r2, ran2) = cache.wrapper_call(&key, 1, 42);
    assert_eq!(r2, 42);
    assert!(!ran2);
}

#[test]
fn stale_data_is_overwritten_not_surfaced() {
    let mut cache = CacheState::new(None, Some(5));
    let key = vec![1];
    cache.wrapper_call(&key, 0, 111);
    // expired: the wrapper recomputes and overwrites the entry
    let (r, ran) = cache.wrapper_call(&key, 100, 222);
    assert_eq!(r, 222);
    assert!(ran);
    // the overwritten entry is fresh again
    let (r, ran) = cache.wrapper_call(&key, 101, 333);
    assert_eq!(r, 222);
    assert!(!ran);
}
