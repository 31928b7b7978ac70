//! Group-key derivation and per-message AEAD sealing.
//!
//! A single shared mesh secret is stretched with Argon2id into a 32-byte master group key; every
//! message is encrypted and authenticated with XChaCha20-Poly1305 under a labeled SHA-256 sub-key
//! of it, with 24-byte random nonces.

use argon2::{Algorithm, Argon2, Params, Version};
use chacha20poly1305::aead::{Aead, AeadCore, KeyInit, OsRng, Payload};
use chacha20poly1305::{Key, XChaCha20Poly1305, XNonce};
use crate::fingerprint::sha256_of;
use vstd::prelude::*;
use vstd::array::ArrayAdditionalExecFns;
use vstd::utf8::encode_utf8;

verus! {

pub const GROUP_KEY_LEN: usize = 32;
/// XChaCha20 nonce length.
pub const NONCE_LEN: usize = 24;
/// Argon2id memory cost in KiB, pinned so the derived key never changes with crate defaults.
pub const KDF_MEM_KIB: u32 = 19_456;
/// Argon2id passes.
pub const KDF_ITERS: u32 = 2;
/// Argon2id lanes.
pub const KDF_LANES: u32 = 1;
/// The cipher seals fewer than `u32::MAX` 64-byte blocks.
pub open spec fn max_seal_len() -> int {
    274_877_906_880int
}

/// The fixed application salt of the group-key KDF, `"screen-hop/v1/group-key"`.
pub open spec fn kdf_salt() -> Seq<u8> {
    seq![115u8, 99, 114, 101, 101, 110, 45, 104, 111, 112, 47, 118, 49, 47, 103, 114, 111, 117, 112, 45, 107, 101, 121]
}

/// The domain-separation label of the AEAD sub-key, `"screen-hop/v1/aead-key"`.
pub open spec fn aead_label() -> Seq<u8> {
    seq![115u8, 99, 114, 101, 101, 110, 45, 104, 111, 112, 47, 118, 49, 47, 97, 101, 97, 100, 45, 107, 101, 121]
}

fn kdf_salt_bytes() -> (s: Vec<u8>)
    ensures
        s@ == kdf_salt(),
{
    let s: Vec<u8> = vec![115u8, 99, 114, 101, 101, 110, 45, 104, 111, 112, 47, 118, 49, 47, 103, 114, 111, 117, 112, 45, 107, 101, 121];
    assert(s@ =~= kdf_salt());
    s
}

fn aead_label_bytes() -> (s: Vec<u8>)
    ensures
        s@ == aead_label(),
{
    let s: Vec<u8> = vec![115u8, 99, 114, 101, 101, 110, 45, 104, 111, 112, 47, 118, 49, 47, 97, 101, 97, 100, 45, 107, 101, 121];
    assert(s@ =~= aead_label());
    s
}

/// Argon2id (version 0x13) with the given costs and a 32-byte output, as computed by the
/// `argon2` crate.
pub uninterp spec fn argon2id_32(m_cost: u32, t_cost: u32, p_cost: u32, password: Seq<u8>, salt: Seq<u8>) -> Seq<u8>;

/// `argon2::Argon2::hash_password_into` with Argon2id v0x13 and `Params::new(m, t, p, Some(32))`.
/// The `requires` are the parameter and input checks of `Params::new` and `verify_inputs`, so the
/// call cannot fail; the result is named by `argon2id_32` and nothing else is stated about it.
#[verifier::external_body]
fn argon2id_hash32(m_cost: u32, t_cost: u32, p_cost: u32, password: &[u8], salt: &[u8]) -> (key: [u8; 32])
    requires
        m_cost >= 8,
        m_cost >= 8 * p_cost,
        t_cost >= 1,
        1 <= p_cost <= 0xFF_FFFF,
        password@.len() <= 0xFFFF_FFFF,
        8 <= salt@.len() <= 0xFFFF_FFFF,
    ensures
        key@ == argon2id_32(m_cost, t_cost, p_cost, password@, salt@),
{
    let params = Params::new(m_cost, t_cost, p_cost, Some(32)).expect("checked parameters");
    let mut key = [0u8; 32];
    Argon2::new(Algorithm::Argon2id, Version::V0x13, params)
        .hash_password_into(password, salt, &mut key)
        .expect("checked inputs");
    key
}

/// The master group key of a passphrase.
pub open spec fn group_key_of(passphrase: Seq<char>) -> Seq<u8> {
    argon2id_32(KDF_MEM_KIB, KDF_ITERS, KDF_LANES, encode_utf8(passphrase), kdf_salt())
}

/// Stretch the shared mesh secret into the 32-byte master group key with Argon2id.
pub fn derive_group_key(passphrase: &str) -> (key: [u8; 32])
    requires
        encode_utf8(passphrase@).len() <= 0xFFFF_FFFF,
    ensures
        key@ == group_key_of(passphrase@),
{
    let salt = kdf_salt_bytes();
    argon2id_hash32(KDF_MEM_KIB, KDF_ITERS, KDF_LANES, passphrase.as_bytes(), salt.as_slice())
}

/// XChaCha20-Poly1305 encryption (ciphertext with its tag appended), as computed by the
/// `chacha20poly1305` crate.
pub uninterp spec fn xchacha_seal(key: Seq<u8>, nonce: Seq<u8>, plaintext: Seq<u8>, aad: Seq<u8>) -> Seq<u8>;

/// XChaCha20-Poly1305 decryption: the plaintext, or `None` when authentication fails.
pub uninterp spec fn xchacha_open(key: Seq<u8>, nonce: Seq<u8>, ciphertext: Seq<u8>, aad: Seq<u8>) -> Option<Seq<u8>>;

/// `Aead::encrypt` of `XChaCha20Poly1305`. The crate refuses only buffers of `u32::MAX` or more
/// 64-byte blocks, which `requires` excludes. The result is named by `xchacha_seal`, and, as for
/// any AEAD, decrypting it with the same key, nonce and associated data gives the plaintext back.
#[verifier::external_body]
fn aead_encrypt(key: &[u8; 32], nonce: &[u8; 24], plaintext: &[u8], aad: &[u8]) -> (ct: Vec<u8>)
    requires
        plaintext@.len() < max_seal_len(),
    ensures
        ct@ == xchacha_seal(key@, nonce@, plaintext@, aad@),
        xchacha_open(key@, nonce@, ct@, aad@) == Some(plaintext@),
{
    let cipher = XChaCha20Poly1305::new(Key::from_slice(key));
    cipher
        .encrypt(XNonce::from_slice(nonce), Payload { msg: plaintext, aad })
        .expect("plaintext below the cipher's length limit")
}

/// `Aead::decrypt` of `XChaCha20Poly1305`: `None` on any authentication failure. The result is
/// named by `xchacha_open`.
#[verifier::external_body]
fn aead_decrypt(key: &[u8; 32], nonce: &[u8; 24], ciphertext: &[u8], aad: &[u8]) -> (pt: Option<Vec<u8>>)
    ensures
        match pt {
            Some(p) => xchacha_open(key@, nonce@, ciphertext@, aad@) == Some(p@),
            None => xchacha_open(key@, nonce@, ciphertext@, aad@) is None,
        },
{
    let cipher = XChaCha20Poly1305::new(Key::from_slice(key));
    cipher.decrypt(XNonce::from_slice(nonce), Payload { msg: ciphertext, aad }).ok()
}

/// `AeadCore::generate_nonce` from the OS random source. Nothing is stated about the nonce.
#[verifier::external_body]
fn random_nonce24() -> (n: [u8; 24]) {
    let nonce = XChaCha20Poly1305::generate_nonce(&mut OsRng);
    let mut out = [0u8; 24];
    out.copy_from_slice(nonce.as_slice());
    out
}

fn sha256_32(data: &[u8]) -> (d: [u8; 32])
    ensures
        d@ == sha256_of(data@),
{
    let v = crate::fingerprint::sha256_digest(data);
    let mut out = [0u8; 32];
    let mut i: usize = 0;
    while i < 32
        invariant
            i <= 32,
            v@ == sha256_of(data@),
            v@.len() == 32,
            forall|j: int| 0 <= j < i ==> out@[j] == v@[j],
        decreases 32 - i,
    {
        out.set(i, v[i]);
        i = i + 1;
    }
    assert(out@ =~= v@);
    out
}

/// The AEAD sub-key of a master group key: SHA-256 of the label followed by the key.
pub open spec fn aead_key_of(group_key: Seq<u8>) -> Seq<u8> {
    sha256_of(aead_label() + group_key)
}

/// The frame-opening function of a channel keyed by `key`: `nonce || ciphertext+tag`.
pub open spec fn open_frame(key: Seq<u8>, frame: Seq<u8>, aad: Seq<u8>) -> Option<Seq<u8>> {
    if frame.len() < 24 {
        None
    } else {
        xchacha_open(key, frame.subrange(0, 24), frame.subrange(24, frame.len() as int), aad)
    }
}

/// Authenticated, encrypted framing for mesh messages, keyed by a sub-key of the group key.
pub struct SecureChannel {
    aead_key: [u8; 32],
}

impl SecureChannel {
    /// The AEAD key in use.
    pub closed spec fn key(&self) -> Seq<u8> {
        self.aead_key@
    }

    pub fn new(group_key: &[u8; 32]) -> (c: Self)
        ensures
            c.key() == aead_key_of(group_key@),
    {
        let label = aead_label_bytes();
        let mut input: Vec<u8> = label;
        let mut i: usize = 0;
        while i < 32
            invariant
                i <= 32,
                input@ == aead_label() + group_key@.subrange(0, i as int),
            decreases 32 - i,
        {
            input.push(group_key[i]);
            proof {
                assert(aead_label() + group_key@.subrange(0, i + 1) =~= (aead_label() + group_key@.subrange(
                    0,
                    i as int,
                )).push(group_key@[i as int]));
            }
            i = i + 1;
        }
        proof {
            assert(group_key@.subrange(0, 32) =~= group_key@);
        }
        SecureChannel { aead_key: sha256_32(input.as_slice()) }
    }

    pub fn from_passphrase(passphrase: &str) -> (c: Self)
        requires
            encode_utf8(passphrase@).len() <= 0xFFFF_FFFF,
        ensures
            c.key() == aead_key_of(group_key_of(passphrase@)),
    {
        SecureChannel::new(&derive_group_key(passphrase))
    }

    /// Seal `plaintext` while authenticating `aad`; returns `nonce || ciphertext+tag` with a
    /// fresh random nonce. Opening the frame with the same associated data gives the plaintext
    /// back.
    pub fn seal(&self, plaintext: &[u8], aad: &[u8]) -> (frame: Vec<u8>)
        requires
            plaintext@.len() < max_seal_len(),
        ensures
            frame@.len() >= 24,
            frame@.subrange(24, frame@.len() as int) == xchacha_seal(self.key(), frame@.subrange(0, 24), plaintext@, aad@),
            open_frame(self.key(), frame@, aad@) == Some(plaintext@),
    {
        let nonce = random_nonce24();
        let ct = aead_encrypt(&self.aead_key, &nonce, plaintext, aad);
        let mut framed: Vec<u8> = Vec::new();
        let mut i: usize = 0;
        while i < 24
            invariant
                i <= 24,
                framed@ == nonce@.subrange(0, i as int),
            decreases 24 - i,
        {
            framed.push(nonce[i]);
            proof {
                assert(nonce@.subrange(0, i + 1) =~= nonce@.subrange(0, i as int).push(nonce@[i as int]));
            }
            i = i + 1;
        }
        let mut j: usize = 0;
        while j < ct.len()
            invariant
                j <= ct@.len(),
                framed@ == nonce@ + ct@.subrange(0, j as int),
            decreases ct@.len() - j,
        {
            framed.push(ct[j]);
            proof {
                assert(nonce@ + ct@.subrange(0, j + 1) =~= (nonce@ + ct@.subrange(0, j as int)).push(ct@[j as int]));
            }
            j = j + 1;
        }
        proof {
            assert(nonce@.subrange(0, 24) =~= nonce@);
            assert(ct@.subrange(0, ct@.len() as int) =~= ct@);
            assert(framed@.subrange(0, 24) =~= nonce@);
            assert(framed@.subrange(24, framed@.len() as int) =~= ct@);
        }
        framed
    }

    /// Open a `nonce || ciphertext` frame, verifying `aad`. Returns `None` on any failure
    /// (truncated frame, wrong key, tampered ciphertext, or mismatched associated data).
    pub fn open(&self, frame: &[u8], aad: &[u8]) -> (r: Option<Vec<u8>>)
        ensures
            match r {
                Some(p) => open_frame(self.key(), frame@, aad@) == Some(p@),
                None => open_frame(self.key(), frame@, aad@) is None,
            },
    {
        if frame.len() < 24 {
            return None;
        }
        let mut nonce = [0u8; 24];
        let mut i: usize = 0;
        while i < 24
            invariant
                i <= 24,
                frame@.len() >= 24,
                forall|j: int| 0 <= j < i ==> nonce@[j] == frame@[j],
            decreases 24 - i,
        {
            nonce.set(i, frame[i]);
            i = i + 1;
        }
        let mut ct: Vec<u8> = Vec::new();
        let mut j: usize = 24;
        while j < frame.len()
            invariant
                24 <= j <= frame@.len(),
                ct@ == frame@.subrange(24, j as int),
            decreases frame@.len() - j,
        {
            ct.push(frame[j]);
            proof {
                assert(frame@.subrange(24, j + 1) =~= frame@.subrange(24, j as int).push(frame@[j as int]));
            }
            j = j + 1;
        }
        proof {
            assert(nonce@ =~= frame@.subrange(0, 24));
        }
        aead_decrypt(&self.aead_key, &nonce, ct.as_slice(), aad)
    }
}

} // verus!
