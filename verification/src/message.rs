//! Mesh messages and the envelope that carries them.

use crate::text::{dec_digits, push_dec, string_push};
use vstd::prelude::*;
use vstd::string::StringExecFns;
use vstd::utf8::encode_utf8;

verus! {

/// A signed-off mesh message from one peer, with its per-sender sequence number.
#[derive(Debug, Clone, PartialEq, Eq)]
pub struct Envelope {
    pub from: String,
    pub seq: u64,
    pub body: Message,
}

/// Mesh protocol messages.
#[derive(Debug, Clone, PartialEq, Eq)]
pub enum Message {
    /// Presence + addresses + capability.
    Announce { name: String, endpoints: Vec<String>, can_actuate: bool, state_version: u64 },
    /// Liveness.
    Heartbeat { state_version: u64 },
    /// A last-writer-wins ownership fact.
    OwnershipGossip { monitor_id: String, owner: Option<String>, updated_ms: u64 },
    /// Ask for the per-monitor lease.
    LockRequest { monitor_id: String, lease_secs: u32 },
    /// The lease was granted; carries the granted lease length in milliseconds, which the
    /// requester anchors to its own clock.
    LockGrant { monitor_id: String, holder: String, lease_expires_ms: u64 },
    /// The lease is held by someone else.
    LockDeny { monitor_id: String, reason: String },
    /// Ask `target` to make itself the active source on a monitor.
    SwitchCommand { monitor_id: String, target: String, input_value: u32 },
    /// The outcome of a switch command, with the observed `0x60` value if any.
    SwitchResult { monitor_id: String, outcome: String, observed: Option<u32> },
}

/// The associated data of an envelope: the UTF-8 bytes of `"{from}:{seq}"`.
pub open spec fn aad_of(from: Seq<char>, seq: u64) -> Seq<u8> {
    encode_utf8(from + seq![':'] + dec_digits(seq as nat))
}

impl Envelope {
    /// Associated data binding the sender and sequence number.
    pub fn aad(&self) -> (a: Vec<u8>)
        ensures
            a@ == aad_of(self.from@, self.seq),
    {
        let mut s = String::new();
        s.append(self.from.as_str());
        string_push(&mut s, ':');
        push_dec(&mut s, self.seq);
        proof {
            assert(s@ =~= self.from@ + seq![':'] + dec_digits(self.seq as nat));
        }
        vstd::slice::slice_to_vec(s.as_str().as_bytes())
    }
}

} // verus!
