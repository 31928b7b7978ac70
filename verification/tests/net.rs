use argon2::{Algorithm, Argon2, Params, Version};
use std::io::Cursor;

use screenhop::crypto::{derive_group_key, SecureChannel, GROUP_KEY_LEN};
use screenhop::handshake::{check_hello, check_proof, hello, pin_verified, proof_for, HandshakeError, HsMsg};
use screenhop::identity::{verify, PeerIdentity};
use screenhop::message::{Envelope, Message};
use screenhop::pins::{from_hex32, peer_id_of, PinMismatch, PinStore};
use screenhop::replay::ReplayWindow;
use screenhop::transport::{frame_header, frame_len, protocol_aad_bytes, read_frame, write_frame, MAX_FRAME_LEN};

#[test]
fn derive_is_deterministic_and_secret_sensitive() {
    assert_eq!(derive_group_key("hunter2"), derive_group_key("hunter2"));
    assert_ne!(derive_group_key("hunter2"), derive_group_key("hunter3"));
    assert_eq!(derive_group_key("hunter2").len(), GROUP_KEY_LEN);
}

#[test]
fn derive_matches_pinned_argon2id_parameters() {
    let params = Params::new(19_456, 2, 1, Some(32)).unwrap();
    let mut expected = [0u8; 32];
    Argon2::new(Algorithm::Argon2id, Version::V0x13, params)
        .hash_password_into(b"mesh", b"screen-hop/v1/group-key", &mut expected)
        .unwrap();
    assert_eq!(derive_group_key("mesh"), expected);
}

#[test]
fn seal_then_open_round_trips() {
    let ch = SecureChannel::from_passphrase("mesh-secret");
    let frame = ch.seal(b"hello mesh", b"peerA:7");
    assert_eq!(ch.open(&frame, b"peerA:7").as_deref(), Some(&b"hello mesh"[..]));
}

#[test]
fn two_seals_use_distinct_nonces() {
    let ch = SecureChannel::from_passphrase("mesh-secret");
    assert_ne!(ch.seal(b"x", b""), ch.seal(b"x", b""));
}

#[test]
fn open_rejects_wrong_aad() {
    let ch = SecureChannel::from_passphrase("mesh-secret");
    let frame = ch.seal(b"payload", b"peerA:7");
    assert_eq!(ch.open(&frame, b"peerA:8"), None);
}

#[test]
fn open_rejects_tampered_ciphertext() {
    let ch = SecureChannel::from_passphrase("mesh-secret");
    let mut frame = ch.seal(b"payload", b"");
    let last = frame.len() - 1;
    frame[last] ^= 0xFF;
    assert_eq!(ch.open(&frame, b""), None);
}

#[test]
fn open_rejects_other_key_and_short_frame() {
    let a = SecureChannel::from_passphrase("secret-A");
    let b = SecureChannel::from_passphrase("secret-B");
    let frame = a.seal(b"payload", b"");
    assert_eq!(b.open(&frame, b""), None);
    assert_eq!(a.open(&[0u8; 8], b""), None);
}

#[test]
fn sealed_frame_is_nonce_then_ciphertext_with_tag() {
    let ch = SecureChannel::new(&[7u8; 32]);
    let frame = ch.seal(b"abc", b"aad");
    assert_eq!(frame.len(), 24 + 3 + 16);
    assert_ne!(&frame[24..27], b"abc");
}

#[test]
fn replay_accepts_fresh_rejects_duplicates() {
    let mut w = ReplayWindow::new();
    assert!(w.accept(1));
    assert!(!w.accept(1));
    assert!(w.accept(2));
    assert!(w.accept(3));
    assert!(!w.accept(2));
}

#[test]
fn replay_accepts_out_of_order_within_window() {
    let mut w = ReplayWindow::new();
    assert!(w.accept(10));
    assert!(w.accept(8));
    assert!(!w.accept(8));
    assert!(w.accept(9));
}

#[test]
fn replay_rejects_too_old() {
    let mut w = ReplayWindow::new();
    assert!(w.accept(100));
    assert!(!w.accept(100 - 64));
    assert!(!w.accept(1));
}

#[test]
fn replay_handles_large_forward_jump() {
    let mut w = ReplayWindow::new();
    assert!(w.accept(1));
    assert!(w.accept(1_000));
    assert!(!w.accept(1));
    assert!(w.accept(1_001));
}

#[test]
fn replay_window_edge_is_sixty_three_back() {
    let mut w = ReplayWindow::new();
    assert!(w.accept(100));
    assert!(w.accept(37));
    assert!(!w.accept(36));
    assert!(!w.accept(37));
    assert!(w.accept(0x7FFF_FFFF_FFFF_FFFF));
    assert!(!w.accept(100));
}

#[test]
fn pin_store_tofu_accepts_first_rejects_changed_key() {
    let mut pins = PinStore::new();
    let key_a = [1u8; 32];
    let key_b = [2u8; 32];
    assert!(pins.check_or_pin("peer", key_a).is_ok());
    assert!(pins.check_or_pin("peer", key_a).is_ok());
    assert_eq!(pins.check_or_pin("peer", key_b), Err(PinMismatch));
    assert!(pins.is_pinned("peer"));
}

#[test]
fn pin_store_round_trips_through_entries_and_rejects_changed_key_after_reload() {
    let key_a = [7u8; 32];
    let key_b = [9u8; 32];
    let mut pins = PinStore::new();
    assert!(pins.check_or_pin("peerX", key_a).is_ok());
    pins.pin("peerA", [0xAB; 32]);
    let entries = pins.to_entries();
    assert_eq!(entries.len(), 2);
    assert_eq!(entries[0].0, "peerA");
    assert_eq!(entries[1].1, "07".repeat(32));
    let mut reloaded = PinStore::from_entries(&entries);
    assert!(reloaded.is_pinned("peerX"));
    assert_eq!(reloaded.check_or_pin("peerX", key_b), Err(PinMismatch));
    assert!(reloaded.check_or_pin("peerX", key_a).is_ok());
    assert!(reloaded.revoke("peerX"));
    assert!(!reloaded.is_pinned("peerX"));
    assert!(!reloaded.revoke("peerX"));
}

#[test]
fn malformed_pin_entries_are_skipped() {
    let entries = vec![
        ("good".to_owned(), "0a".repeat(32)),
        ("short".to_owned(), "0a".repeat(31)),
        ("bad".to_owned(), "zz".repeat(32)),
    ];
    let store = PinStore::from_entries(&entries);
    assert!(store.is_pinned("good"));
    assert!(!store.is_pinned("short"));
    assert!(!store.is_pinned("bad"));
}

#[test]
fn hex32_parses_both_cases_and_rejects_bad_input() {
    let parsed = from_hex32(&"aB".repeat(32)).unwrap();
    assert_eq!(parsed, [0xAB; 32]);
    assert_eq!(from_hex32(&"ab".repeat(31)), None);
    assert_eq!(from_hex32(&format!("{}g0", "00".repeat(31))), None);
    assert_eq!(peer_id_of(&[0x0F; 32]), "0f".repeat(32));
}

#[test]
fn sign_then_verify_round_trips() {
    let id = PeerIdentity::generate();
    let sig = id.sign(b"challenge");
    assert!(verify(&id.public_bytes(), b"challenge", &sig));
}

#[test]
fn verify_rejects_wrong_message_or_key() {
    let id = PeerIdentity::generate();
    let other = PeerIdentity::generate();
    let sig = id.sign(b"challenge");
    assert!(!verify(&id.public_bytes(), b"different", &sig));
    assert!(!verify(&other.public_bytes(), b"challenge", &sig));
}

#[test]
fn identity_persists_via_secret_bytes() {
    let id = PeerIdentity::generate();
    let restored = PeerIdentity::from_secret_bytes(&id.secret_bytes());
    assert_eq!(id.peer_id(), restored.peer_id());
    assert_eq!(id.public_bytes(), restored.public_bytes());
}

#[test]
fn peer_id_is_hex_of_public_key() {
    let id = PeerIdentity::generate();
    assert_eq!(id.peer_id().len(), 64);
    assert_eq!(id.peer_id(), peer_id_of(&id.public_bytes()));
}

#[test]
fn public_key_matches_ed25519_dalek() {
    let secret = [3u8; 32];
    let expected = ed25519_dalek::SigningKey::from_bytes(&secret).verifying_key().to_bytes();
    let id = PeerIdentity::from_secret_bytes(&secret);
    assert_eq!(id.public_bytes(), expected);
    assert_ne!(id.public_bytes(), secret);
}

#[test]
fn aad_binds_sender_and_seq() {
    let env = Envelope { from: "peerA".into(), seq: 7, body: Message::Heartbeat { state_version: 1 } };
    assert_eq!(env.aad(), b"peerA:7");
}

#[test]
fn frame_round_trips_in_memory() {
    let mut buf = Vec::new();
    write_frame(&mut buf, b"hello").unwrap();
    let mut cur = Cursor::new(buf);
    assert_eq!(read_frame(&mut cur).unwrap(), b"hello");
}

#[test]
fn read_frame_rejects_oversized_length() {
    let mut cur = Cursor::new(u32::MAX.to_be_bytes().to_vec());
    assert!(read_frame(&mut cur).is_err());
}

#[test]
fn frame_header_is_big_endian_length() {
    assert_eq!(frame_header(0x0102_0304), [1, 2, 3, 4]);
    assert_eq!(frame_len(&[0, 0, 1, 0]), 256);
    let mut buf = Vec::new();
    write_frame(&mut buf, &[9u8; 300]).unwrap();
    assert_eq!(&buf[..4], &[0, 0, 1, 44]);
    let mut at_limit = (MAX_FRAME_LEN as u32).to_be_bytes().to_vec();
    at_limit.extend(vec![0u8; MAX_FRAME_LEN]);
    assert_eq!(read_frame(&mut Cursor::new(at_limit)).unwrap().len(), MAX_FRAME_LEN);
    assert_eq!(protocol_aad_bytes(), b"screen-hop/mesh/v1");
}

#[test]
fn handshake_messages_prove_identity_and_pin_it() {
    let a = PeerIdentity::generate();
    let b = PeerIdentity::generate();
    let nonce_a = [1u8; 32];
    let nonce_b = [2u8; 32];
    let their = check_hello(hello(&b, &nonce_b)).unwrap();
    assert_eq!(their.peer_id, b.peer_id());
    assert_eq!(their.nonce, nonce_b.to_vec());
    let proof_from_b = proof_for(&b, &nonce_a);
    assert!(check_proof(proof_from_b, &their.public_bytes, &nonce_a).is_ok());
    let mut pins = PinStore::new();
    let verified = pin_verified(&mut pins, their).unwrap();
    assert_eq!(verified.peer_id, b.peer_id());
    assert!(pins.is_pinned(&b.peer_id()));
    let _ = a;
}

#[test]
fn handshake_rejects_mismatched_ids_wrong_proofs_and_wrong_order() {
    let b = PeerIdentity::generate();
    let c = PeerIdentity::generate();
    let forged = HsMsg::Hello { peer_id: c.peer_id(), pubkey: b.public_bytes().to_vec(), nonce: vec![0; 32] };
    assert!(matches!(check_hello(forged), Err(HandshakeError::BadKey)));
    let short = HsMsg::Hello { peer_id: b.peer_id(), pubkey: vec![0; 31], nonce: vec![] };
    assert!(matches!(check_hello(short), Err(HandshakeError::BadKey)));
    assert!(matches!(check_hello(HsMsg::Proof { signature: vec![] }), Err(HandshakeError::Parse)));
    let nonce = [5u8; 32];
    let wrong = proof_for(&c, &nonce);
    assert!(matches!(check_proof(wrong, &b.public_bytes(), &nonce), Err(HandshakeError::BadProof)));
    assert!(matches!(
        check_proof(HsMsg::Proof { signature: vec![0; 63] }, &b.public_bytes(), &nonce),
        Err(HandshakeError::BadProof)
    ));
    assert!(matches!(check_proof(hello(&b, &nonce), &b.public_bytes(), &nonce), Err(HandshakeError::Parse)));
}
