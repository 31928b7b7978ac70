use screenhop::calibration::CalibrationStore;
use screenhop::identity::PeerIdentity;
use screenhop::quirks::is_metadata_key;
use screenhop::persist::{identity_from_bytes, secret_from_text, secret_to_store, AgentConfig, DEFAULT_AGENT_PORT};

#[test]
fn secret_round_trips_and_trims() {
    let stored = secret_to_store("  hunter2  ");
    assert_eq!(stored, "hunter2");
    assert_eq!(secret_from_text(&stored).as_deref(), Some("hunter2"));
    assert_eq!(secret_from_text("\n hunter2 \t").as_deref(), Some("hunter2"));
}

#[test]
fn blank_stored_secret_is_no_secret() {
    assert_eq!(secret_from_text(""), None);
    assert_eq!(secret_from_text(" \n\t "), None);
}

#[test]
fn agent_config_defaults() {
    let cfg = AgentConfig::default();
    assert_eq!(cfg.port, 7777);
    assert_eq!(DEFAULT_AGENT_PORT, 7777);
    assert_eq!(cfg.name, "screen-hop");
    assert!(cfg.can_actuate);
    assert!(cfg.manual_hosts.is_empty());
}

#[test]
fn identity_is_stable_across_store_and_reload() {
    let id = PeerIdentity::generate();
    let stored = id.secret_bytes();
    let again = identity_from_bytes(&stored).expect("a 32-byte key loads");
    assert_eq!(again.peer_id(), id.peer_id());
    assert_eq!(again.secret_bytes(), stored);
}

#[test]
fn malformed_identity_key_is_ignored() {
    assert!(identity_from_bytes(&[7u8; 31]).is_none());
    assert!(identity_from_bytes(&[7u8; 33]).is_none());
    assert!(identity_from_bytes(&[]).is_none());
}

#[test]
fn calibration_entries_list_every_recorded_value() {
    let mut store = CalibrationStore::new();
    store.record("peerA", "mon1", 0x0f);
    store.record("peerB", "mon1", 0x11);
    store.record("peerA", "mon2", 0x12);
    store.record("peerA", "mon1", 0x10);
    let mut entries = store.entries();
    entries.sort();
    assert_eq!(
        entries,
        vec![
            ("peerA".to_owned(), "mon1".to_owned(), 0x10),
            ("peerA".to_owned(), "mon2".to_owned(), 0x12),
            ("peerB".to_owned(), "mon1".to_owned(), 0x11),
        ]
    );
    let mut reloaded = CalibrationStore::new();
    for (peer, monitor, value) in &entries {
        reloaded.record(peer, monitor, *value);
    }
    assert_eq!(reloaded.confirmed_value("peerA", "mon1"), Some(0x10));
    assert_eq!(reloaded.confirmed_value("peerB", "mon1"), Some(0x11));
    assert!(CalibrationStore::new().entries().is_empty());
}

#[test]
fn quirk_layer_metadata_keys_start_with_an_underscore() {
    assert!(is_metadata_key("_comment"));
    assert!(is_metadata_key("_"));
    assert!(!is_metadata_key("SAM-U32H750"));
    assert!(!is_metadata_key(""));
    assert!(!is_metadata_key("a_b"));
}
