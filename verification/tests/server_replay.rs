//! Replayed handshakes.

use hpn::server::handshake_replay::HandshakeReplayCache;
use hpn::time::Duration;

fn pause(ms: u64) {
    let start = std::time::Instant::now();
    while start.elapsed() < std::time::Duration::from_millis(ms) {}
}

#[test]
fn fresh_random_is_accepted_once() {
    let mut cache = HandshakeReplayCache::new();
    let random = [0x42u8; 32];
    assert!(cache.check_and_insert(&random));
    assert_eq!(cache.len(), 1);
}

#[test]
fn replayed_random_is_rejected() {
    let mut cache = HandshakeReplayCache::new();
    let random = [0x42u8; 32];
    assert!(cache.check_and_insert(&random));
    assert!(
        !cache.check_and_insert(&random),
        "second call with same client_random must be rejected"
    );
}

#[test]
fn expired_entry_is_accepted_again() {
    let mut cache = HandshakeReplayCache::with_params(Duration::from_millis(10), 32);
    let random = [0x33u8; 32];
    assert!(cache.check_and_insert(&random));
    pause(20);
    assert!(
        cache.check_and_insert(&random),
        "entry past its TTL must be treated as fresh"
    );
}

#[test]
fn distinct_randoms_are_independent() {
    let mut cache = HandshakeReplayCache::new();
    let a = [0x01u8; 32];
    let b = [0x02u8; 32];
    assert!(cache.check_and_insert(&a));
    assert!(cache.check_and_insert(&b));
    assert!(!cache.check_and_insert(&a));
    assert!(!cache.check_and_insert(&b));
}

#[test]
fn cap_is_enforced_and_fails_closed_under_pressure() {
    // Once the cache is full AND no TTL eviction is possible,
    // brand-new randoms are REJECTED (fail-closed). Going dark under
    // sustained handshake flooding would silently disable the replay
    // cache, restoring the CPU-amplification surface.
    // With max_entries=2 the hard cap is 2 + 2/10 = 2, so the third
    // random is over the hard cap and must be dropped.
    let mut cache = HandshakeReplayCache::with_params(Duration::from_secs(60), 2);
    let a = [1u8; 32];
    let b = [2u8; 32];
    let c = [3u8; 32];
    assert!(cache.check_and_insert(&a));
    assert!(cache.check_and_insert(&b));
    // Cache at hard cap, no TTL-evictable entries → reject.
    assert!(!cache.check_and_insert(&c));
    // Recorded randoms still rejected on replay — protection holds.
    assert!(!cache.check_and_insert(&a));
    assert!(!cache.check_and_insert(&b));
}

#[test]
fn clear_drops_state() {
    let mut cache = HandshakeReplayCache::new();
    cache.check_and_insert(&[7u8; 32]);
    assert!(!cache.is_empty());
    cache.clear();
    assert!(cache.is_empty());
}

#[test]
fn values_differ_in_either_half() {
    let mut cache = HandshakeReplayCache::new();
    let a = [5u8; 32];
    let mut b = a;
    b[31] = 6;
    let mut c = a;
    c[0] = 6;
    assert!(cache.check_and_insert_at(&a, 0));
    assert!(cache.check_and_insert_at(&b, 0));
    assert!(cache.check_and_insert_at(&c, 0));
    assert_eq!(cache.len(), 3);
    assert!(!cache.check_and_insert_at(&a, 59_999_999_999));
    assert!(cache.check_and_insert_at(&a, 60_000_000_000));
    assert_eq!(cache.len(), 3);
}

#[test]
fn lifetimes_are_kept_to_the_nanosecond() {
    let ttl = Duration { secs: 0, nanos: 500 };
    let mut cache = HandshakeReplayCache::with_params(ttl, 10);
    assert!(cache.check_and_insert_at(&[1u8; 32], 1_000));
    assert!(!cache.check_and_insert_at(&[1u8; 32], 1_499));
    assert!(cache.check_and_insert_at(&[1u8; 32], 1_500));
}

#[test]
fn a_full_cache_forgets_what_is_old() {
    let mut cache = HandshakeReplayCache::with_params(Duration::from_millis(10), 2);
    assert!(cache.check_and_insert_at(&[1u8; 32], 0));
    assert!(cache.check_and_insert_at(&[2u8; 32], 5_000_000));
    assert!(!cache.check_and_insert_at(&[3u8; 32], 9_000_000));
    assert!(cache.check_and_insert_at(&[3u8; 32], 10_000_000));
    assert_eq!(cache.len(), 2);
}
