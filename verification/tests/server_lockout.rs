//! Lockouts after failed authentication.

use hpn::net::IpAddr;
use hpn::server::auth_lockout::{AuthLockoutTracker, LockoutKind, LockoutPolicy};

fn ip(n: u8) -> IpAddr {
    IpAddr::v4(10, 0, 0, n)
}

#[test]
fn tuple_lockout_fires_after_threshold() {
    let mut t = AuthLockoutTracker::with_production_defaults();
    let a = ip(1);

    for _ in 0..9 {
        assert_eq!(t.record_failure("alice", a), None);
        assert!(t.check_lockout("alice", a).is_none());
    }
    // 10th failure triggers the lockout.
    assert_eq!(t.record_failure("alice", a), Some(LockoutKind::Tuple));
    assert_eq!(t.check_lockout("alice", a), Some(LockoutKind::Tuple));

    // A different IP against the same user is NOT locked by the
    // tuple — this is the user-agnostic property we wanted.
    assert_eq!(t.check_lockout("alice", ip(2)), None);
}

#[test]
fn success_resets_tuple_counter() {
    let mut t = AuthLockoutTracker::with_production_defaults();
    let a = ip(1);
    for _ in 0..5 {
        t.record_failure("alice", a);
    }
    t.record_success("alice", a);
    // We need 10 more failures from scratch before lock.
    for _ in 0..9 {
        assert_eq!(t.record_failure("alice", a), None);
    }
    assert_eq!(t.record_failure("alice", a), Some(LockoutKind::Tuple));
}

#[test]
fn ip_ban_triggers_at_cross_user_volume() {
    let mut t = AuthLockoutTracker::with_production_defaults();
    let a = ip(42);
    // 10 different users, 9 failures each = 90 — below the 100 threshold.
    for u in 0..10 {
        for _ in 0..9 {
            t.record_failure(&format!("user{u}"), a);
        }
    }
    // One more failure pushes us to 91; still below.
    assert!(t.record_failure("user10", a).is_none());
    // Now ramp past 100.
    let mut banned = false;
    for _ in 0..10 {
        if t.record_failure("user11", a) == Some(LockoutKind::Ip) {
            banned = true;
            break;
        }
    }
    assert!(banned, "IP should be banned past 100 failures/hour");
}

#[test]
fn username_spread_requires_multiple_ips() {
    let mut t = AuthLockoutTracker::with_production_defaults();
    // 100 failures from one IP should never trigger username_spread
    // (it will trigger per-IP ban but not the global username lock).
    for _ in 0..100 {
        t.record_failure("bob", ip(1));
    }
    let snap = t.metrics_snapshot();
    assert_eq!(snap.username_locks, 0);
}

#[test]
fn username_spread_fires_with_diverse_attackers() {
    let policy = LockoutPolicy {
        // Shrink to make the test tractable.
        tuple_max_attempts: 1000,
        ip_max_attempts: 1000,
        username_min_attempts: 20,
        username_spread_min_ips: 5,
        ..LockoutPolicy::production()
    };
    let mut t = AuthLockoutTracker::new(policy);
    // 5 IPs, 4 failures each = 20 total → should fire the spread lock.
    let mut fired = false;
    for i in 1..=5u8 {
        for _ in 0..4 {
            if t.record_failure("charlie", ip(i)) == Some(LockoutKind::UsernameSpread) {
                fired = true;
            }
        }
    }
    assert!(fired);
    assert_eq!(
        t.check_lockout("charlie", ip(99)),
        Some(LockoutKind::UsernameSpread)
    );
}

#[test]
fn lru_evicts_when_capped() {
    let policy = LockoutPolicy {
        max_entries: 4,
        ..LockoutPolicy::production()
    };
    let mut t = AuthLockoutTracker::new(policy);
    for i in 0..10u8 {
        t.record_failure(&format!("u{i}"), ip(i));
    }
    let (tuples, ips, users) = t.debug_sizes();
    assert!(tuples <= 4);
    assert!(ips <= 4);
    assert!(users <= 4);
}

#[test]
fn lockouts_end() {
    let mut t = AuthLockoutTracker::with_production_defaults();
    for _ in 0..9 {
        assert_eq!(t.record_failure_at("alice", ip(1), 1000), None);
    }
    assert_eq!(t.record_failure_at("alice", ip(1), 1000), Some(LockoutKind::Tuple));
    assert_eq!(t.check_lockout_at("alice", ip(1), 4599), Some(LockoutKind::Tuple));
    assert_eq!(t.check_lockout_at("alice", ip(1), 4600), None);
    assert_eq!(t.check_lockout_at("bob", ip(1), 1000), None);
    assert_eq!(t.metrics_snapshot().tuple_lockouts, 1);
}

#[test]
fn windows_of_addresses_roll() {
    let mut t = AuthLockoutTracker::new(LockoutPolicy {
        tuple_max_attempts: 1000,
        ip_max_attempts: 3,
        ..LockoutPolicy::production()
    });
    assert_eq!(t.record_failure_at("a", ip(1), 10_000), None);
    assert_eq!(t.record_failure_at("b", ip(1), 13_600), None);
    // More than an hour after the window began it begins anew.
    assert_eq!(t.record_failure_at("c", ip(1), 13_601), None);
    assert_eq!(t.record_failure_at("d", ip(1), 13_602), None);
    assert_eq!(t.record_failure_at("e", ip(1), 13_603), Some(LockoutKind::Ip));
    assert_eq!(t.check_lockout_at("zzz", ip(1), 13_604), Some(LockoutKind::Ip));
    assert_eq!(t.check_lockout_at("a", ip(2), 13_604), None);
}

#[test]
fn oldest_entry_goes_first() {
    let mut t = AuthLockoutTracker::new(LockoutPolicy {
        tuple_max_attempts: 2,
        max_entries: 2,
        ..LockoutPolicy::production()
    });
    t.record_failure_at("old", ip(1), 1);
    t.record_failure_at("new", ip(2), 2);
    t.record_failure_at("newer", ip(3), 3);
    // "old" was forgotten and starts again; "newer" was not.
    assert_eq!(t.record_failure_at("newer", ip(3), 4), Some(LockoutKind::Tuple));
    assert_eq!(t.record_failure_at("old", ip(1), 5), None);
}

#[test]
fn failures_of_a_pair_count_for_an_hour() {
    let mut t = AuthLockoutTracker::with_production_defaults();
    for _ in 0..9 {
        assert_eq!(t.record_failure_at("alice", ip(1), 50_000), None);
    }
    // The tenth comes more than an hour after the others and stands alone.
    assert_eq!(t.record_failure_at("alice", ip(1), 53_601), None);
    for i in 0..8 {
        assert_eq!(t.record_failure_at("alice", ip(1), 53_602 + i), None);
    }
    assert_eq!(t.record_failure_at("alice", ip(1), 57_201), Some(LockoutKind::Tuple));
    // Within the hour the tenth locks, however early the clock stands.
    let mut t = AuthLockoutTracker::with_production_defaults();
    for _ in 0..9 {
        assert_eq!(t.record_failure_at("alice", ip(1), 3000), None);
    }
    assert_eq!(t.record_failure_at("alice", ip(1), 6600), Some(LockoutKind::Tuple));
    assert_eq!(t.check_lockout_at("alice", ip(1), 10_199), Some(LockoutKind::Tuple));
}

#[test]
fn any_hour_with_ten_failures_locks_the_pair() {
    let mut t = AuthLockoutTracker::with_production_defaults();
    let start = 100_000;
    assert_eq!(t.record_failure_at("alice", ip(1), start), None);
    for _ in 0..8 {
        assert_eq!(t.record_failure_at("alice", ip(1), start + 3590), None);
    }
    // The first failure is more than an hour old, the other nine are not.
    assert_eq!(t.record_failure_at("alice", ip(1), start + 3610), None);
    assert_eq!(t.record_failure_at("alice", ip(1), start + 3610), Some(LockoutKind::Tuple));
    // After the lockout ten more are needed.
    for i in 0..9 {
        assert_eq!(t.record_failure_at("alice", ip(1), start + 8000 + i), None);
    }
    assert_eq!(t.record_failure_at("alice", ip(1), start + 8009), Some(LockoutKind::Tuple));
}

#[test]
fn failures_while_locked_count_afterwards() {
    let mut t = AuthLockoutTracker::new(LockoutPolicy {
        tuple_max_attempts: 2,
        tuple_lockout_secs: 10,
        ..LockoutPolicy::production()
    });
    assert_eq!(t.record_failure_at("a", ip(1), 1000), None);
    assert_eq!(t.record_failure_at("a", ip(1), 1000), Some(LockoutKind::Tuple));
    for _ in 0..5 {
        assert_eq!(t.record_failure_at("a", ip(1), 1009), None);
    }
    assert_eq!(t.record_failure_at("a", ip(1), 1010), Some(LockoutKind::Tuple));
}

#[test]
fn known_entries_are_not_evicted() {
    let one = LockoutPolicy { max_entries: 1, ..LockoutPolicy::production() };
    let mut t = AuthLockoutTracker::new(LockoutPolicy { tuple_max_attempts: 2, ..one });
    assert_eq!(t.record_failure_at("a", ip(1), 10_000), None);
    assert_eq!(t.record_failure_at("a", ip(1), 10_001), Some(LockoutKind::Tuple));
    let mut t = AuthLockoutTracker::new(LockoutPolicy { ip_max_attempts: 2, ..one });
    assert_eq!(t.record_failure_at("a", ip(1), 10_000), None);
    assert_eq!(t.record_failure_at("b", ip(1), 10_001), Some(LockoutKind::Ip));
    let mut t = AuthLockoutTracker::new(LockoutPolicy {
        username_min_attempts: 2,
        username_spread_min_ips: 2,
        ..one
    });
    assert_eq!(t.record_failure_at("a", ip(1), 100_000), None);
    assert_eq!(t.record_failure_at("a", ip(2), 100_001), Some(LockoutKind::UsernameSpread));
    assert_eq!(t.debug_sizes(), (1, 1, 1));
}

#[test]
fn kinds_have_words() {
    assert_eq!(LockoutKind::Tuple.as_str(), "tuple");
    assert_eq!(LockoutKind::Ip.as_str(), "ip");
    assert_eq!(LockoutKind::UsernameSpread.as_str(), "username_spread");
}
