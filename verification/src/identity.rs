//! Per-install peer identity (Ed25519). The group key gates who can talk on the mesh; the
//! identity names a peer and lets it prove possession of its key during the handshake.

use ed25519_dalek::{Signature, Signer, SigningKey, Verifier, VerifyingKey};
use rand_core::OsRng;
use crate::pins::peer_id_of;
use crate::text::hex_lower;
use vstd::prelude::*;

verus! {

/// The Ed25519 public key of a 32-byte secret key, as computed by `ed25519-dalek`.
pub uninterp spec fn ed25519_public(secret: Seq<u8>) -> Seq<u8>;

/// The (deterministic) Ed25519 signature of `message` under a 32-byte secret key.
pub uninterp spec fn ed25519_signature(secret: Seq<u8>, message: Seq<u8>) -> Seq<u8>;

/// Whether `signature` verifies for `message` under the 32-byte public key.
pub uninterp spec fn ed25519_verifies(public: Seq<u8>, message: Seq<u8>, signature: Seq<u8>) -> bool;

/// `SigningKey::generate` from the OS random source, returned as its secret bytes. Nothing is
/// stated about them.
#[verifier::external_body]
fn generate_secret() -> (secret: [u8; 32]) {
    SigningKey::generate(&mut OsRng).to_bytes()
}

/// `SigningKey::from_bytes(secret).verifying_key().to_bytes()`, named by `ed25519_public`.
#[verifier::external_body]
fn public_of_secret(secret: &[u8; 32]) -> (public: [u8; 32])
    ensures
        public@ == ed25519_public(secret@),
{
    SigningKey::from_bytes(secret).verifying_key().to_bytes()
}

/// `Signer::sign` of `SigningKey::from_bytes(secret)`, named by `ed25519_signature`. A signature
/// made with a key verifies under that key's public key (Ed25519 correctness).
#[verifier::external_body]
fn sign_with_secret(secret: &[u8; 32], message: &[u8]) -> (signature: [u8; 64])
    ensures
        signature@ == ed25519_signature(secret@, message@),
        ed25519_verifies(ed25519_public(secret@), message@, signature@),
{
    SigningKey::from_bytes(secret).sign(message).to_bytes()
}

/// `VerifyingKey::from_bytes` then `Verifier::verify`; false when the key bytes are not a valid
/// point or the signature does not verify. The result is named by `ed25519_verifies`.
#[verifier::external_body]
fn verify_with_public(public: &[u8; 32], message: &[u8], signature: &[u8; 64]) -> (ok: bool)
    ensures
        ok == ed25519_verifies(public@, message@, signature@),
{
    match VerifyingKey::from_bytes(public) {
        Ok(vk) => vk.verify(message, &Signature::from_bytes(signature)).is_ok(),
        Err(_) => false,
    }
}

/// A peer's long-term signing identity, held as its 32-byte Ed25519 secret key.
pub struct PeerIdentity {
    secret: [u8; 32],
}

impl PeerIdentity {
    /// The secret key bytes.
    pub closed spec fn secret(&self) -> Seq<u8> {
        self.secret@
    }

    /// Generate a fresh identity from the OS CSPRNG.
    pub fn generate() -> (id: Self) {
        PeerIdentity { secret: generate_secret() }
    }

    /// Reconstruct from persisted secret-key bytes.
    pub fn from_secret_bytes(bytes: &[u8; 32]) -> (id: Self)
        ensures
            id.secret() == bytes@,
    {
        PeerIdentity { secret: *bytes }
    }

    /// The 32-byte secret to persist.
    pub fn secret_bytes(&self) -> (b: [u8; 32])
        ensures
            b@ == self.secret(),
    {
        self.secret
    }

    pub fn public_bytes(&self) -> (b: [u8; 32])
        ensures
            b@ == ed25519_public(self.secret()),
    {
        public_of_secret(&self.secret)
    }

    /// Stable peer id = lower-case hex of the public key.
    pub fn peer_id(&self) -> (id: String)
        ensures
            id@ == hex_lower(ed25519_public(self.secret())),
    {
        peer_id_of(&self.public_bytes())
    }

    /// Sign a message (e.g. a handshake challenge nonce). The signature verifies under this
    /// identity's public key.
    pub fn sign(&self, message: &[u8]) -> (sig: [u8; 64])
        ensures
            sig@ == ed25519_signature(self.secret(), message@),
            ed25519_verifies(ed25519_public(self.secret()), message@, sig@),
    {
        sign_with_secret(&self.secret, message)
    }
}

/// Verify `signature` over `message` against `public_bytes`. False on any malformed input.
pub fn verify(public_bytes: &[u8; 32], message: &[u8], signature: &[u8; 64]) -> (ok: bool)
    ensures
        ok == ed25519_verifies(public_bytes@, message@, signature@),
{
    verify_with_public(public_bytes, message, signature)
}

} // verus!
