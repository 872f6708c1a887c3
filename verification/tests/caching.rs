use std::collections::HashMap;
use std::sync::Mutex;

use uuid_spoofer::cache::{CacheStep, ValueCache};
use uuid_spoofer::config::SPOOFED_UUID;

/// A stand-in for the native runtime: values with a text and a count of
/// claims, freed when the last claim goes.
struct StubRuntime {
    values: HashMap<usize, (String, usize)>,
    constructions: usize,
    next_handle: usize,
}

impl StubRuntime {
    fn new() -> Self {
        StubRuntime { values: HashMap::new(), constructions: 0, next_handle: 0x1000 }
    }

    fn create(&mut self, text: &str, encoding: u32) -> usize {
        assert_eq!(encoding, 0x0800_0100);
        let handle = self.next_handle;
        self.next_handle += 0x10;
        self.values.insert(handle, (text.to_string(), 1));
        self.constructions += 1;
        handle
    }

    fn retain(&mut self, handle: usize) -> usize {
        let value = self.values.get_mut(&handle).expect("retain of a freed value");
        value.1 += 1;
        handle
    }

    fn release(&mut self, handle: usize) {
        let value = self.values.get_mut(&handle).expect("release of a freed value");
        value.1 -= 1;
        if value.1 == 0 {
            self.values.remove(&handle);
        }
    }

    fn text(&self, handle: usize) -> Option<&str> {
        self.values.get(&handle).map(|value| value.0.as_str())
    }

    fn claims(&self, handle: usize) -> usize {
        self.values.get(&handle).map(|value| value.1).unwrap_or(0)
    }
}

/// Serves one request the way the native edge does.
fn acquire(cache: &mut ValueCache, runtime: &mut StubRuntime) -> usize {
    let mut step = cache.acquire();
    if let CacheStep::Construct { text, encoding } = step {
        let fresh = runtime.create(text, encoding);
        step = cache.store(fresh);
    }
    match step {
        CacheStep::Retain { handle } => runtime.retain(handle),
        CacheStep::Construct { .. } => panic!("a second construction was asked for"),
    }
}

#[test]
fn a_new_cache_holds_nothing() {
    let cache = ValueCache::new();
    assert_eq!(cache.entry(), None);
}

#[test]
fn an_empty_cache_asks_for_the_payload_in_utf8() {
    let cache = ValueCache::new();
    match cache.acquire() {
        CacheStep::Construct { text, encoding } => {
            assert_eq!(text, "DEADBEEF-DEAD-BEEF-DEAD-BEEFDEADBEEF");
            assert_eq!(encoding, 0x0800_0100);
        }
        CacheStep::Retain { .. } => panic!("nothing to retain yet"),
    }
    assert_eq!(cache.entry(), None);
}

#[test]
fn store_keeps_the_handle_and_asks_for_a_claim() {
    let mut cache = ValueCache::new();
    assert!(matches!(cache.store(0x4242), CacheStep::Retain { handle: 0x4242 }));
    assert_eq!(cache.entry(), Some(0x4242));
}

#[test]
fn a_filled_cache_asks_for_a_claim_on_the_same_handle() {
    let mut cache = ValueCache::new();
    cache.store(0x4242);
    for _ in 0..5 {
        assert!(matches!(cache.acquire(), CacheStep::Retain { handle: 0x4242 }));
    }
    assert_eq!(cache.entry(), Some(0x4242));
}

#[test]
fn the_first_request_builds_and_retains() {
    let mut cache = ValueCache::new();
    let mut runtime = StubRuntime::new();
    let handle = acquire(&mut cache, &mut runtime);
    assert_eq!(cache.entry(), Some(handle));
    assert_eq!(runtime.constructions, 1);
    assert_eq!(runtime.claims(handle), 2);
    assert_eq!(runtime.text(handle), Some(SPOOFED_UUID));
}

#[test]
fn every_request_gets_the_same_value() {
    let mut cache = ValueCache::new();
    let mut runtime = StubRuntime::new();
    let first = acquire(&mut cache, &mut runtime);
    for n in 2..=10 {
        let handle = acquire(&mut cache, &mut runtime);
        assert_eq!(handle, first);
        assert_eq!(runtime.claims(handle), n + 1);
        assert_eq!(runtime.text(handle), Some("DEADBEEF-DEAD-BEEF-DEAD-BEEFDEADBEEF"));
    }
    assert_eq!(runtime.constructions, 1);
}

#[test]
fn releasing_every_handle_leaves_the_canonical_value() {
    for n in [1usize, 2, 7, 100] {
        let mut cache = ValueCache::new();
        let mut runtime = StubRuntime::new();
        let handles: Vec<usize> = (0..n).map(|_| acquire(&mut cache, &mut runtime)).collect();
        let canonical = handles[0];
        assert_eq!(runtime.claims(canonical), n + 1);
        for handle in handles {
            runtime.release(handle);
            assert!(runtime.claims(canonical) >= 1);
        }
        assert_eq!(runtime.claims(canonical), 1);
        assert_eq!(cache.entry(), Some(canonical));

        let again = acquire(&mut cache, &mut runtime);
        assert_eq!(again, canonical);
        assert_eq!(runtime.text(again), Some(SPOOFED_UUID));
        assert_eq!(runtime.claims(canonical), 2);
        assert_eq!(runtime.constructions, 1);
    }
}

#[test]
fn releases_may_come_between_requests() {
    let mut cache = ValueCache::new();
    let mut runtime = StubRuntime::new();
    let a = acquire(&mut cache, &mut runtime);
    runtime.release(a);
    let b = acquire(&mut cache, &mut runtime);
    let c = acquire(&mut cache, &mut runtime);
    runtime.release(c);
    runtime.release(b);
    assert_eq!(a, b);
    assert_eq!(b, c);
    assert_eq!(runtime.claims(a), 1);
    assert_eq!(runtime.constructions, 1);
    assert_eq!(runtime.text(a), Some(SPOOFED_UUID));
}

#[test]
fn first_requests_behind_one_lock_build_one_value() {
    for requesters in [1usize, 2, 8, 32] {
        let shared = Mutex::new((ValueCache::new(), StubRuntime::new()));
        let handles: Vec<usize> = (0..requesters)
            .map(|_| {
                let mut guard = shared.lock().unwrap();
                let (cache, runtime) = &mut *guard;
                acquire(cache, runtime)
            })
            .collect();

        let guard = shared.lock().unwrap();
        let (cache, runtime) = &*guard;
        assert_eq!(runtime.constructions, 1);
        assert!(handles.iter().all(|handle| Some(*handle) == cache.entry()));
        assert_eq!(runtime.claims(handles[0]), requesters + 1);
    }
}
