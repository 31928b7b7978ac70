use screenhop::lock::{LockManager, LockOutcome, DEFAULT_LEASE_MS};
use screenhop::ownership::{OwnershipMap, OwnershipState};

const LEASE: u64 = DEFAULT_LEASE_MS;

#[test]
fn acquires_a_free_lock() {
    let mut m = LockManager::new();
    assert!(matches!(m.acquire("mon", "A", 0, LEASE), LockOutcome::Granted(_)));
    assert_eq!(m.holder("mon", 1), Some("A"));
}

#[test]
fn denies_when_held_by_another_peer() {
    let mut m = LockManager::new();
    m.acquire("mon", "A", 0, LEASE);
    assert_eq!(m.acquire("mon", "B", 100, LEASE), LockOutcome::Denied { current_holder: "A".into() });
}

#[test]
fn same_peer_can_reacquire() {
    let mut m = LockManager::new();
    m.acquire("mon", "A", 0, LEASE);
    assert!(matches!(m.acquire("mon", "A", 100, LEASE), LockOutcome::Granted(_)));
}

#[test]
fn expired_lock_is_grantable_to_another() {
    let mut m = LockManager::new();
    m.acquire("mon", "A", 0, LEASE);
    assert!(matches!(m.acquire("mon", "B", LEASE + 1, LEASE), LockOutcome::Granted(_)));
    assert_eq!(m.holder("mon", LEASE + 2), Some("B"));
}

#[test]
fn renew_extends_only_for_valid_holder() {
    let mut m = LockManager::new();
    m.acquire("mon", "A", 0, LEASE);
    assert!(m.renew("mon", "A", 1_000, LEASE).is_some());
    assert!(m.renew("mon", "B", 1_000, LEASE).is_none());
    assert!(m.renew("mon", "A", LEASE + 5_000, LEASE).is_none());
}

#[test]
fn release_only_by_holder() {
    let mut m = LockManager::new();
    m.acquire("mon", "A", 0, LEASE);
    assert!(!m.release("mon", "B"));
    assert!(m.release("mon", "A"));
    assert_eq!(m.holder("mon", 1), None);
}

#[test]
fn holder_respects_expiry() {
    let mut m = LockManager::new();
    m.acquire("mon", "A", 0, LEASE);
    assert_eq!(m.holder("mon", LEASE - 1), Some("A"));
    assert_eq!(m.holder("mon", LEASE + 1), None);
}

#[test]
fn acquire_all_is_all_or_nothing() {
    let mut m = LockManager::new();
    m.acquire("mon2", "B", 0, LEASE);
    let err = m.acquire_all(&["mon1", "mon2", "mon3"], "A", 100, LEASE);
    assert_eq!(err, Err(("mon2".into(), "B".into())));
    assert_eq!(m.holder("mon1", 200), None);
    assert_eq!(m.holder("mon3", 200), None);
    assert_eq!(m.holder("mon2", 200), Some("B"));
}

#[test]
fn acquire_all_succeeds_when_all_free() {
    let mut m = LockManager::new();
    assert!(m.acquire_all(&["mon1", "mon2", "mon3"], "A", 0, LEASE).is_ok());
    assert_eq!(m.holder("mon1", 1), Some("A"));
    assert_eq!(m.holder("mon3", 1), Some("A"));
}

#[test]
fn granted_lease_expires_after_its_length() {
    let mut m = LockManager::new();
    match m.acquire("mon", "A", 1_000, 500) {
        LockOutcome::Granted(l) => {
            assert_eq!(l.holder, "A");
            assert_eq!(l.expires_ms, 1_500);
        }
        other => panic!("expected a grant, got {other:?}"),
    }
    assert_eq!(m.holder("mon", 1_499), Some("A"));
    assert_eq!(m.holder("mon", 1_500), None);
}

#[test]
fn lease_excludes_other_peers_until_expiry() {
    let mut m = LockManager::new();
    assert!(matches!(m.acquire("mon", "A", 0, LEASE), LockOutcome::Granted(_)));
    for t in [1, LEASE / 2, LEASE - 1] {
        assert_eq!(m.acquire("mon", "B", t, LEASE), LockOutcome::Denied { current_holder: "A".into() });
        assert_eq!(m.holder("mon", t), Some("A"));
    }
}

#[test]
fn merge_sets_a_new_record() {
    let mut m = OwnershipMap::new();
    assert!(m.merge("mon", Some("A".into()), 100));
    assert_eq!(m.owner("mon"), Some("A"));
}

#[test]
fn newer_wins_older_is_ignored() {
    let mut m = OwnershipMap::new();
    m.merge("mon", Some("A".into()), 100);
    assert!(m.merge("mon", Some("B".into()), 200));
    assert_eq!(m.owner("mon"), Some("B"));
    assert!(!m.merge("mon", Some("A".into()), 150));
    assert_eq!(m.owner("mon"), Some("B"));
}

#[test]
fn ties_keep_existing_for_deterministic_convergence() {
    let mut m = OwnershipMap::new();
    m.merge("mon", Some("A".into()), 100);
    assert!(!m.merge("mon", Some("B".into()), 100));
    assert_eq!(m.owner("mon"), Some("A"));
}

#[test]
fn observation_overrides_stale_gossip() {
    let mut m = OwnershipMap::new();
    m.merge("mon", Some("A".into()), 100);
    assert!(m.observe("mon", Some("B".into()), 500));
    assert_eq!(m.owner("mon"), Some("B"));
}

#[test]
fn owner_none_when_unknown_or_unowned() {
    let mut m = OwnershipMap::new();
    assert_eq!(m.owner("mon"), None);
    assert_eq!(m.state("mon"), OwnershipState::Unknown);
    m.merge("mon", None, 100);
    assert_eq!(m.owner("mon"), None);
    assert_eq!(m.state("mon"), OwnershipState::Unknown);
    assert!(m.record("mon").is_some());
}

#[test]
fn stranded_is_a_distinct_persistent_state() {
    let mut m = OwnershipMap::new();
    m.merge("mon", Some("A".into()), 100);
    assert_eq!(m.state("mon"), OwnershipState::Owned);
    assert!(m.mark_stranded("mon", 200));
    assert_eq!(m.state("mon"), OwnershipState::Stranded);
    assert_eq!(m.owner("mon"), None);
    assert!(!m.merge("mon", Some("A".into()), 150));
    assert_eq!(m.state("mon"), OwnershipState::Stranded);
    assert!(m.observe("mon", Some("B".into()), 300));
    assert_eq!(m.state("mon"), OwnershipState::Owned);
    assert_eq!(m.owner("mon"), Some("B"));
}

#[test]
fn gossip_converges_in_any_order() {
    let facts = [("m1", Some("A"), 100u64), ("m1", Some("B"), 200), ("m2", None, 50), ("m1", Some("C"), 150)];
    let mut forward = OwnershipMap::new();
    for (m, o, t) in facts {
        forward.merge(m, o.map(str::to_owned), t);
    }
    let mut backward = OwnershipMap::new();
    for (m, o, t) in facts.iter().rev() {
        backward.merge(m, o.map(str::to_owned), *t);
    }
    assert_eq!(forward.owner("m1"), Some("B"));
    assert_eq!(backward.owner("m1"), Some("B"));
    assert_eq!(forward.record("m1").unwrap().updated_ms, backward.record("m1").unwrap().updated_ms);
    assert_eq!(forward.state("m2"), backward.state("m2"));
}

#[test]
fn applying_the_same_gossip_twice_changes_nothing() {
    let mut m = OwnershipMap::new();
    assert!(m.merge("m1", Some("A".into()), 100));
    assert!(!m.merge("m1", Some("A".into()), 100));
    assert_eq!(m.owner("m1"), Some("A"));
    assert_eq!(m.snapshot().len(), 1);
}

#[test]
fn ddc_disabled_is_recorded_until_a_newer_observation() {
    let mut m = OwnershipMap::new();
    m.merge("m1", Some("A".into()), 100);
    assert!(m.mark_ddc_disabled("m1", 200));
    assert_eq!(m.state("m1"), OwnershipState::DdcDisabled);
    assert_eq!(m.owner("m1"), None);
    assert!(m.observe("m1", Some("A".into()), 300));
    assert_eq!(m.state("m1"), OwnershipState::Owned);
}
