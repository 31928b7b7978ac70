use sha2::{Digest, Sha256};
use screenhop::calibration::CalibrationStore;
use screenhop::collision::{collisions_needing_labels, group_by_id, EnumeratedPanel};
use screenhop::ddc::{backend_local_id, classify_write_message, fingerprint_from_info, normalize_token_part, DisplayIdentity, MonitorInfo};
use screenhop::fingerprint::{EdidError, MonitorFingerprint};
use screenhop::types::DdcWriteResult;

const EDID_HEADER: [u8; 8] = [0x00, 0xFF, 0xFF, 0xFF, 0xFF, 0xFF, 0xFF, 0x00];

fn sample_edid(numeric_serial: u32, ascii_serial: Option<&str>) -> Vec<u8> {
    let mut e = vec![0u8; 128];
    e[0..8].copy_from_slice(&EDID_HEADER);
    e[8] = 0x05;
    e[9] = 0xE3;
    e[10..12].copy_from_slice(&0x1234u16.to_le_bytes());
    e[12..16].copy_from_slice(&numeric_serial.to_le_bytes());
    e[16] = 10;
    e[17] = (2021 - 1990) as u8;
    if let Some(s) = ascii_serial {
        let off = 54;
        e[off + 3] = 0xFF;
        let bytes = s.as_bytes();
        let n = bytes.len().min(12);
        e[off + 5..off + 5 + n].copy_from_slice(&bytes[..n]);
        if off + 5 + n < off + 18 {
            e[off + 5 + n] = 0x0A;
        }
    }
    e
}

fn fp(serial: u32, ascii: Option<&str>) -> MonitorFingerprint {
    MonitorFingerprint::from_parts("AOC".to_owned(), 0x1234, serial, ascii.map(str::to_owned))
}

fn panel(serial: u32, ascii: Option<&str>, path: Option<&str>) -> EnumeratedPanel {
    EnumeratedPanel::new(fp(serial, ascii), path.map(str::to_owned))
}

#[test]
fn records_and_reads_back_per_peer_monitor() {
    let mut s = CalibrationStore::new();
    s.record("peerA", "mon1", 0x0F);
    assert_eq!(s.confirmed_value("peerA", "mon1"), Some(0x0F));
    assert!(s.is_calibrated("peerA", "mon1"));
}

#[test]
fn value_is_never_visible_to_another_peer_or_monitor() {
    let mut s = CalibrationStore::new();
    s.record("peerA", "mon1", 0x0F);
    assert_eq!(s.confirmed_value("peerB", "mon1"), None);
    assert_eq!(s.confirmed_value("peerA", "mon2"), None);
    assert!(!s.is_calibrated("peerB", "mon1"));
}

#[test]
fn uncalibrated_is_unknown_until_first_active() {
    let s = CalibrationStore::new();
    assert_eq!(s.confirmed_value("peerA", "mon1"), None);
    assert!(s.confirmed_set("peerA", "mon1").is_empty());
}

#[test]
fn confirmed_set_feeds_the_actuation_allow_list() {
    let mut s = CalibrationStore::new();
    s.record("peerA", "mon1", 0x0F);
    let set = s.confirmed_set("peerA", "mon1");
    assert!(set.contains(&0x0F));
    assert_eq!(set.len(), 1);
}

#[test]
fn owner_for_reverse_maps_value_to_peer() {
    let mut s = CalibrationStore::new();
    s.record("peerA", "mon1", 0x0F);
    s.record("peerB", "mon1", 0x11);
    assert_eq!(s.owner_for("mon1", 0x0F).as_deref(), Some("peerA"));
    assert_eq!(s.owner_for("mon1", 0x11).as_deref(), Some("peerB"));
    assert_eq!(s.owner_for("mon1", 0x99), None);
    assert_eq!(s.owner_for("mon2", 0x0F), None);
}

#[test]
fn owner_for_breaks_ties_by_least_peer_id() {
    let mut s = CalibrationStore::new();
    s.record("peerC", "mon1", 0x0F);
    s.record("peerA", "mon1", 0x0F);
    s.record("peerB", "mon1", 0x0F);
    assert_eq!(s.owner_for("mon1", 0x0F).as_deref(), Some("peerA"));
}

#[test]
fn recording_again_replaces_only_that_pair() {
    let mut s = CalibrationStore::new();
    s.record("peerA", "mon1", 0x0F);
    s.record("peerA", "mon2", 0x12);
    s.record("peerA", "mon1", 0x11);
    assert_eq!(s.confirmed_value("peerA", "mon1"), Some(0x11));
    assert_eq!(s.confirmed_value("peerA", "mon2"), Some(0x12));
}

#[test]
fn duplicates_with_real_serial_group_as_one_dedup() {
    let fps = vec![fp(1598, None), fp(1598, None)];
    let groups = group_by_id(&fps);
    assert_eq!(groups.len(), 1);
    assert_eq!(groups.value_at(0).len(), 2);
    let panels = vec![panel(1598, None, None), panel(1598, None, None)];
    assert!(collisions_needing_labels(&panels).is_empty());
}

#[test]
fn identical_model_without_serial_needs_labels() {
    let panels = vec![panel(0, None, None), panel(0, None, None)];
    let collisions = collisions_needing_labels(&panels);
    assert_eq!(collisions.len(), 1);
    assert_eq!(collisions[0], fp(0, None).monitor_id());
}

#[test]
fn same_serial_but_distinct_device_paths_needs_labels() {
    let panels = vec![panel(42, None, Some(r"\\.\DISPLAY1")), panel(42, None, Some(r"\\.\DISPLAY2"))];
    let collisions = collisions_needing_labels(&panels);
    assert_eq!(collisions.len(), 1);
    assert_eq!(collisions[0], fp(42, None).monitor_id());
}

#[test]
fn same_serial_and_same_device_path_is_a_dedup() {
    let panels = vec![panel(42, None, Some(r"\\.\DISPLAY1")), panel(42, None, Some(r"\\.\DISPLAY1"))];
    assert!(collisions_needing_labels(&panels).is_empty());
}

#[test]
fn distinct_serials_do_not_collide() {
    let panels = vec![panel(1, None, None), panel(2, None, None), panel(3, None, None)];
    assert_eq!(group_by_id(&[fp(1, None), fp(2, None), fp(3, None)]).len(), 3);
    assert!(collisions_needing_labels(&panels).is_empty());
}

#[test]
fn groups_keep_indices_in_order_and_collisions_are_sorted() {
    let groups = group_by_id(&[fp(7, None), fp(8, None), fp(7, None)]);
    let id7 = fp(7, None).monitor_id();
    assert_eq!(groups.get(&id7).map(|v| v.clone()), Some(vec![0, 2]));
    let panels = vec![panel(0, None, None), panel(0, None, None), panel(5, None, Some("p1")), panel(5, None, Some("p2"))];
    let c = collisions_needing_labels(&panels);
    assert_eq!(c.len(), 2);
    assert!(c[0] < c[1]);
}

#[test]
fn parses_core_fields() {
    let fp = MonitorFingerprint::from_edid(&sample_edid(1598, None)).unwrap();
    assert_eq!(fp.pnp_manufacturer, "AOC");
    assert_eq!(fp.product_code, 0x1234);
    assert_eq!(fp.numeric_serial, 1598);
    assert_eq!(fp.week, 10);
    assert_eq!(fp.year, 2021);
    assert_eq!(fp.ascii_serial, None);
    assert!(fp.raw_sha256.is_some());
}

#[test]
fn parses_ascii_serial_descriptor() {
    let fp = MonitorFingerprint::from_edid(&sample_edid(0, Some("ABC123"))).unwrap();
    assert_eq!(fp.ascii_serial.as_deref(), Some("ABC123"));
}

#[test]
fn rejects_bad_header_and_short_input() {
    let mut bad = sample_edid(1, None);
    bad[0] = 0x12;
    assert_eq!(MonitorFingerprint::from_edid(&bad), Err(EdidError::BadHeader));
    assert_eq!(MonitorFingerprint::from_edid(&[0u8; 10]), Err(EdidError::TooShort));
}

#[test]
fn monitor_id_is_stable_and_serial_sensitive() {
    let a = MonitorFingerprint::from_edid(&sample_edid(1598, None)).unwrap();
    let b = MonitorFingerprint::from_edid(&sample_edid(1598, None)).unwrap();
    let c = MonitorFingerprint::from_edid(&sample_edid(9999, None)).unwrap();
    assert_eq!(a.monitor_id(), b.monitor_id());
    assert_ne!(a.monitor_id(), c.monitor_id());
    assert_eq!(a.monitor_id().len(), 12);
}

#[test]
fn ambiguity_tracks_serial_presence() {
    assert!(MonitorFingerprint::from_edid(&sample_edid(0, None)).unwrap().is_ambiguous());
    assert!(!MonitorFingerprint::from_edid(&sample_edid(1598, None)).unwrap().is_ambiguous());
    assert!(!MonitorFingerprint::from_edid(&sample_edid(0, Some("S1"))).unwrap().is_ambiguous());
}

#[test]
fn from_parts_matches_edid_identity() {
    let via_edid = MonitorFingerprint::from_edid(&sample_edid(1598, None)).unwrap();
    let via_parts = MonitorFingerprint::from_parts("AOC".to_owned(), 0x1234, 1598, None);
    assert_eq!(via_parts.pnp_manufacturer, via_edid.pnp_manufacturer);
    assert_eq!(via_parts.numeric_serial, via_edid.numeric_serial);
    assert!(via_parts.raw_sha256.is_none());
    assert_eq!(via_parts.monitor_id(), via_edid.monitor_id(), "the same panel must get the same id regardless of backend");
}

#[test]
fn monitor_id_ignores_week_year_for_cross_backend_stability() {
    let with_date = MonitorFingerprint::from_edid(&sample_edid(1598, None)).unwrap();
    let mut no_date = with_date.clone();
    no_date.week = 0;
    no_date.year = 0;
    assert_eq!(with_date.monitor_id(), no_date.monitor_id());
}

#[test]
fn monitor_id_is_the_sha256_prefix_of_the_composite() {
    let digest = Sha256::digest(b"AOC|4660|1598|");
    let hex: String = digest.iter().map(|b| format!("{b:02x}")).collect();
    assert_eq!(fp(1598, None).monitor_id(), hex[..12]);
    let with_ascii = Sha256::digest(b"AOC|4660|0|S1");
    let hex2: String = with_ascii.iter().map(|b| format!("{b:02x}")).collect();
    assert_eq!(fp(0, Some("S1")).monitor_id(), hex2[..12]);
    let edid = sample_edid(1598, None);
    let raw: String = Sha256::digest(&edid).iter().map(|b| format!("{b:02x}")).collect();
    assert_eq!(MonitorFingerprint::from_edid(&edid).unwrap().raw_sha256, Some(raw));
}

#[test]
fn edid_week_sentinel_and_unknown_year_normalize_to_zero() {
    let mut e = sample_edid(5, None);
    e[16] = 0xFF;
    e[17] = 0;
    let fp = MonitorFingerprint::from_edid(&e).unwrap();
    assert_eq!(fp.week, 0);
    assert_eq!(fp.year, 0);
}

#[test]
fn descriptor_text_drops_control_bytes_and_trailing_spaces() {
    let mut e = sample_edid(0, None);
    let off = 72;
    e[off + 3] = 0xFF;
    let text = [b' ', b'X', 0x07, b'Y', b' ', b' ', 0x0A, b'Z', 0, 0, 0, 0, 0];
    e[off + 5..off + 18].copy_from_slice(&text);
    let fp = MonitorFingerprint::from_edid(&e).unwrap();
    assert_eq!(fp.ascii_serial.as_deref(), Some(" XY"));
}

#[test]
fn pnp_letters_outside_a_to_z_decode_as_question_marks() {
    let mut e = sample_edid(1, None);
    e[8] = 0x00;
    e[9] = 0x00;
    let fp = MonitorFingerprint::from_edid(&e).unwrap();
    assert_eq!(fp.pnp_manufacturer, "???");
}

fn monitor_info(manufacturer: Option<&str>, model: Option<&str>, fingerprint: MonitorFingerprint) -> MonitorInfo {
    MonitorInfo {
        id: "provisional#1".to_owned(),
        manufacturer: manufacturer.map(str::to_owned),
        model: model.map(str::to_owned),
        serial: None,
        backend: "test".to_owned(),
        fingerprint: Some(fingerprint),
    }
}

#[test]
fn ambiguous_serialless_fingerprint_falls_back_to_provisional_id() {
    let monitor = monitor_info(
        Some("DEL"),
        Some("U2720Q"),
        MonitorFingerprint::from_parts("DEL".to_owned(), 0x1234, 0, None),
    );
    assert_eq!(monitor.monitor_id(), None);
    assert_eq!(monitor.id, "provisional#1");
}

#[test]
fn fingerprint_with_a_real_serial_remains_stable() {
    let numeric = monitor_info(
        Some("DEL"),
        Some("U2720Q"),
        MonitorFingerprint::from_parts("DEL".to_owned(), 0x1234, 42, None),
    );
    let ascii = monitor_info(
        Some("DEL"),
        Some("U2720Q"),
        MonitorFingerprint::from_parts("DEL".to_owned(), 0x1234, 0, Some("ABC123".to_owned())),
    );
    assert!(numeric.monitor_id().is_some());
    assert!(ascii.monitor_id().is_some());
}

#[test]
fn model_token_is_normalized_and_requires_both_parts() {
    let normalized = monitor_info(
        Some(" sam "),
        Some("U32H750 / R"),
        MonitorFingerprint::from_parts("SAM".to_owned(), 1, 99, None),
    );
    let missing_model = monitor_info(Some("SAM"), None, MonitorFingerprint::from_parts("SAM".to_owned(), 1, 99, None));
    assert_eq!(normalized.model_token().as_deref(), Some("SAM-U32H750-R"));
    assert_eq!(missing_model.model_token(), None);
}

#[test]
fn local_address_prefers_backend_unique_id_and_only_then_index() {
    assert_eq!(backend_local_id("WinApi", r#"\\.\DISPLAY1\Monitor0"#, 7), r#"WinApi:\\.\DISPLAY1\Monitor0"#);
    assert_eq!(backend_local_id("WinApi", "   ", 7), "WinApi:index:7");
}

#[test]
fn blank_ascii_serial_is_not_a_real_serial() {
    let monitor = monitor_info(None, None, MonitorFingerprint::from_parts("DEL".to_owned(), 1, 0, Some("   ".to_owned())));
    assert_eq!(monitor.monitor_id(), None);
}

#[test]
fn model_token_falls_back_to_the_pnp_manufacturer() {
    let monitor = monitor_info(None, Some("p2419h"), MonitorFingerprint::from_parts("DEL".to_owned(), 1, 0, None));
    assert_eq!(monitor.model_token().as_deref(), Some("DEL-P2419H"));
    assert_eq!(normalize_token_part("  --  "), None);
    assert_eq!(normalize_token_part("a..b  c"), Some("A-B-C".to_owned()));
}

#[test]
fn write_errors_mentioning_unsupported_are_permanent() {
    assert_eq!(classify_write_message("Error: VCP code NOT SUPPORTED by monitor"), DdcWriteResult::Unsupported);
    assert_eq!(classify_write_message("Unsupported feature"), DdcWriteResult::Unsupported);
    assert_eq!(classify_write_message("i2c timeout"), DdcWriteResult::Failed);
}

#[test]
fn fingerprint_from_info_prefers_edid_then_parts() {
    let with_edid = DisplayIdentity {
        edid: Some(sample_edid(1598, None)),
        manufacturer_id: Some("XYZ".to_owned()),
        model_id: Some(9),
        serial: Some(1),
        serial_number: None,
    };
    assert_eq!(fingerprint_from_info(&with_edid).unwrap().pnp_manufacturer, "AOC");
    let parts_only = DisplayIdentity {
        edid: Some(vec![0u8; 4]),
        manufacturer_id: Some("XYZ".to_owned()),
        model_id: None,
        serial: None,
        serial_number: Some("S9".to_owned()),
    };
    let f = fingerprint_from_info(&parts_only).unwrap();
    assert_eq!(f.pnp_manufacturer, "XYZ");
    assert_eq!(f.product_code, 0);
    assert_eq!(f.ascii_serial.as_deref(), Some("S9"));
    let nothing = DisplayIdentity { edid: None, manufacturer_id: None, model_id: None, serial: None, serial_number: None };
    assert!(fingerprint_from_info(&nothing).is_none());
}
