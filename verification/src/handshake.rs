//! The decisions of the mutual identity handshake over an already group-keyed channel. Each side
//! sends `Hello { peer_id, pubkey, nonce }`, then signs the other's nonce (`Proof`), then checks
//! the other's proof and pins the key (trust on first use). The stream I/O and the wire encoding
//! of the messages live with the caller; every check is here.

use std::io;
use crate::identity::{ed25519_public, ed25519_signature, ed25519_verifies, verify, PeerIdentity};
use crate::pins::{peer_id_of, PinStore};
use crate::text::{hex_lower, str_eq};
use vstd::prelude::*;
use vstd::array::ArrayAdditionalExecFns;

verus! {

/// `"screen-hop/handshake/v1"`: the associated data of every sealed handshake frame.
pub open spec fn handshake_aad() -> Seq<u8> {
    seq![115u8, 99, 114, 101, 101, 110, 45, 104, 111, 112, 47, 104, 97, 110, 100, 115, 104, 97, 107, 101, 47, 118, 49]
}

/// The handshake associated-data label as bytes.
pub fn handshake_aad_bytes() -> (a: Vec<u8>)
    ensures
        a@ == handshake_aad(),
{
    let a: Vec<u8> = vec![115u8, 99, 114, 101, 101, 110, 45, 104, 111, 112, 47, 104, 97, 110, 100, 115, 104, 97, 107, 101, 47, 118, 49];
    assert(a@ =~= handshake_aad());
    a
}

/// A peer whose identity was proved during the handshake.
#[derive(Debug, Clone)]
pub struct Verified {
    pub peer_id: String,
    pub public_bytes: [u8; 32],
}

#[derive(Debug)]
pub enum HandshakeError {
    Io(io::Error),
    Decrypt,
    Parse,
    BadKey,
    BadProof,
    PinMismatch,
}

/// The two handshake messages.
#[derive(Debug, Clone, PartialEq, Eq)]
pub enum HsMsg {
    Hello { peer_id: String, pubkey: Vec<u8>, nonce: Vec<u8> },
    Proof { signature: Vec<u8> },
}

/// What a valid `Hello` established about the other side.
#[derive(Debug, Clone)]
pub struct TheirHello {
    pub peer_id: String,
    pub public_bytes: [u8; 32],
    pub nonce: Vec<u8>,
}

/// Our `Hello`: our peer id, public key and a fresh challenge nonce.
pub fn hello(me: &PeerIdentity, nonce: &[u8; 32]) -> (m: HsMsg)
    ensures
        m matches HsMsg::Hello { peer_id, pubkey, nonce: n } && peer_id@ == hex_lower(ed25519_public(me.secret()))
            && pubkey@ == ed25519_public(me.secret()) && n@ == nonce@,
{
    let public = me.public_bytes();
    HsMsg::Hello {
        peer_id: peer_id_of(&public),
        pubkey: vstd::slice::slice_to_vec(public.as_slice()),
        nonce: vstd::slice::slice_to_vec(nonce.as_slice()),
    }
}

/// Check the other side's `Hello`: it must be a `Hello` (else `Parse`), carry a 32-byte public
/// key, and name itself by exactly that key's peer id (else `BadKey`).
pub fn check_hello(msg: HsMsg) -> (r: Result<TheirHello, HandshakeError>)
    ensures
        match msg {
            HsMsg::Proof { .. } => r matches Err(HandshakeError::Parse),
            HsMsg::Hello { peer_id, pubkey, nonce } => match r {
                Ok(h) => pubkey@.len() == 32 && h.public_bytes@ == pubkey@ && peer_id@ == hex_lower(pubkey@)
                    && h.peer_id@ == peer_id@ && h.nonce@ == nonce@,
                Err(e) => e is BadKey && (pubkey@.len() != 32 || peer_id@ != hex_lower(pubkey@)),
            },
        },
{
    match msg {
        HsMsg::Proof { .. } => Err(HandshakeError::Parse),
        HsMsg::Hello { peer_id, pubkey, nonce } => {
            if pubkey.len() != 32 {
                return Err(HandshakeError::BadKey);
            }
            let mut key = [0u8; 32];
            let mut i: usize = 0;
            while i < 32
                invariant
                    i <= 32,
                    pubkey@.len() == 32,
                    forall|j: int| 0 <= j < i ==> key@[j] == pubkey@[j],
                decreases 32 - i,
            {
                key.set(i, pubkey[i]);
                i = i + 1;
            }
            proof {
                assert(key@ =~= pubkey@);
            }
            let derived = peer_id_of(&key);
            if !str_eq(derived.as_str(), peer_id.as_str()) {
                return Err(HandshakeError::BadKey);
            }
            Ok(TheirHello { peer_id, public_bytes: key, nonce })
        },
    }
}

/// Our `Proof`: our signature over the other side's nonce.
pub fn proof_for(me: &PeerIdentity, their_nonce: &[u8]) -> (m: HsMsg)
    ensures
        m matches HsMsg::Proof { signature } && signature@ == ed25519_signature(me.secret(), their_nonce@),
{
    let sig = me.sign(their_nonce);
    HsMsg::Proof { signature: vstd::slice::slice_to_vec(sig.as_slice()) }
}

/// Check the other side's `Proof`: it must be a `Proof` (else `Parse`) holding a 64-byte
/// signature over our nonce that verifies under their key (else `BadProof`).
pub fn check_proof(msg: HsMsg, their_public: &[u8; 32], my_nonce: &[u8; 32]) -> (r: Result<(), HandshakeError>)
    ensures
        match msg {
            HsMsg::Hello { .. } => r matches Err(HandshakeError::Parse),
            HsMsg::Proof { signature } => match r {
                Ok(()) => signature@.len() == 64 && ed25519_verifies(their_public@, my_nonce@, signature@),
                Err(e) => e is BadProof && !(signature@.len() == 64 && ed25519_verifies(
                    their_public@,
                    my_nonce@,
                    signature@,
                )),
            },
        },
{
    match msg {
        HsMsg::Hello { .. } => Err(HandshakeError::Parse),
        HsMsg::Proof { signature } => {
            if signature.len() != 64 {
                return Err(HandshakeError::BadProof);
            }
            let mut sig = [0u8; 64];
            let mut i: usize = 0;
            while i < 64
                invariant
                    i <= 64,
                    signature@.len() == 64,
                    forall|j: int| 0 <= j < i ==> sig@[j] == signature@[j],
                decreases 64 - i,
            {
                sig.set(i, signature[i]);
                i = i + 1;
            }
            proof {
                assert(sig@ =~= signature@);
            }
            if !verify(their_public, my_nonce.as_slice(), &sig) {
                return Err(HandshakeError::BadProof);
            }
            Ok(())
        },
    }
}

/// Pin the proved identity (trust on first use): a known peer presenting a different key is
/// refused with `PinMismatch`.
pub fn pin_verified(pins: &mut PinStore, their: TheirHello) -> (r: Result<Verified, HandshakeError>)
    requires
        old(pins).wf(),
    ensures
        final(pins).wf(),
        match r {
            Ok(v) => v.peer_id == their.peer_id && v.public_bytes == their.public_bytes
                && final(pins)@ == old(pins)@.insert(their.peer_id@, their.public_bytes@)
                && !(old(pins)@.contains_key(their.peer_id@) && old(pins)@[their.peer_id@] != their.public_bytes@),
            Err(e) => e is PinMismatch && final(pins)@ == old(pins)@ && old(pins)@.contains_key(their.peer_id@)
                && old(pins)@[their.peer_id@] != their.public_bytes@,
        },
{
    match pins.check_or_pin(their.peer_id.as_str(), their.public_bytes) {
        Ok(()) => Ok(Verified { peer_id: their.peer_id, public_bytes: their.public_bytes }),
        Err(_) => Err(HandshakeError::PinMismatch),
    }
}


/// Where one side of the handshake stands.
#[derive(Debug)]
pub enum HsState {
    /// Nothing sent yet.
    Start,
    /// Our `Hello` is out; theirs is awaited.
    AwaitHello,
    /// Their `Hello` checked and our `Proof` out; their `Proof` is awaited.
    AwaitProof(TheirHello),
    /// Finished, one way or the other.
    Done,
}

/// What happened on the connection.
#[derive(Debug)]
pub enum HsEvent {
    /// The connection is open: start.
    Begin,
    /// A handshake message arrived (already opened and decoded).
    Received(HsMsg),
    /// Sending or receiving failed (I/O, a frame that did not open, an undecodable message).
    Failed(HandshakeError),
}

/// What to do next.
#[derive(Debug)]
pub enum HsAction {
    /// Seal and send this message, then wait for the next one.
    Send(HsMsg),
    /// The handshake is over with this result.
    Finish(Result<Verified, HandshakeError>),
}

/// One step of the handshake, from the state and what happened: send our `Hello`; on theirs,
/// check it and send our `Proof` over their nonce; on their `Proof`, check it against our nonce
/// and pin their key. Any failure, or a message out of turn, ends the handshake with its error.
pub fn handshake_step(
    state: HsState,
    event: HsEvent,
    me: &PeerIdentity,
    my_nonce: &[u8; 32],
    pins: &mut PinStore,
) -> (r: (HsState, HsAction))
    requires
        old(pins).wf(),
    ensures
        final(pins).wf(),
        (r.1 matches HsAction::Finish(Ok(_))) || final(pins)@ == old(pins)@,
        (r.1 is Finish) == (r.0 is Done),
        match (state, event) {
            (_, HsEvent::Failed(e)) => r.1 matches HsAction::Finish(Err(e2)) && e2 == e,
            (HsState::Start, HsEvent::Begin) => r.0 is AwaitHello && (r.1 matches HsAction::Send(
                HsMsg::Hello { peer_id, pubkey, nonce },
            ) && peer_id@ == hex_lower(ed25519_public(me.secret())) && pubkey@ == ed25519_public(me.secret())
                && nonce@ == my_nonce@),
            (HsState::AwaitHello, HsEvent::Received(msg)) => match msg {
                HsMsg::Hello { peer_id, pubkey, nonce } => if pubkey@.len() == 32 && peer_id@ == hex_lower(pubkey@) {
                    &&& r.0 matches HsState::AwaitProof(h) && h.peer_id@ == peer_id@ && h.public_bytes@ == pubkey@
                        && h.nonce@ == nonce@
                    &&& r.1 matches HsAction::Send(HsMsg::Proof { signature }) && signature@ == ed25519_signature(
                        me.secret(),
                        nonce@,
                    )
                } else {
                    r.1 matches HsAction::Finish(Err(HandshakeError::BadKey))
                },
                HsMsg::Proof { .. } => r.1 matches HsAction::Finish(Err(HandshakeError::Parse)),
            },
            (HsState::AwaitProof(h), HsEvent::Received(msg)) => match msg {
                HsMsg::Proof { signature } => if signature@.len() == 64 && ed25519_verifies(
                    h.public_bytes@,
                    my_nonce@,
                    signature@,
                ) {
                    if old(pins)@.contains_key(h.peer_id@) && old(pins)@[h.peer_id@] != h.public_bytes@ {
                        r.1 matches HsAction::Finish(Err(HandshakeError::PinMismatch))
                    } else {
                        &&& r.1 matches HsAction::Finish(Ok(v)) && v.peer_id == h.peer_id && v.public_bytes
                            == h.public_bytes
                        &&& final(pins)@ == old(pins)@.insert(h.peer_id@, h.public_bytes@)
                    }
                } else {
                    r.1 matches HsAction::Finish(Err(HandshakeError::BadProof))
                },
                HsMsg::Hello { .. } => r.1 matches HsAction::Finish(Err(HandshakeError::Parse)),
            },
            _ => r.1 matches HsAction::Finish(Err(HandshakeError::Parse)),
        },
{
    match event {
        HsEvent::Failed(e) => (HsState::Done, HsAction::Finish(Err(e))),
        HsEvent::Begin => match state {
            HsState::Start => (HsState::AwaitHello, HsAction::Send(hello(me, my_nonce))),
            _ => (HsState::Done, HsAction::Finish(Err(HandshakeError::Parse))),
        },
        HsEvent::Received(msg) => match state {
            HsState::AwaitHello => match check_hello(msg) {
                Ok(theirs) => {
                    let proof = proof_for(me, theirs.nonce.as_slice());
                    (HsState::AwaitProof(theirs), HsAction::Send(proof))
                },
                Err(e) => (HsState::Done, HsAction::Finish(Err(e))),
            },
            HsState::AwaitProof(theirs) => match check_proof(msg, &theirs.public_bytes, my_nonce) {
                Ok(()) => (HsState::Done, HsAction::Finish(pin_verified(pins, theirs))),
                Err(e) => (HsState::Done, HsAction::Finish(Err(e))),
            },
            _ => (HsState::Done, HsAction::Finish(Err(HandshakeError::Parse))),
        },
    }
}

} // verus!
