//! The mesh node's message handling: what each authenticated inbound message does to the shared
//! state and what is answered. A switch command that must actuate is handled in two steps so the
//! caller can release the shared-state lock during the slow DDC write: [`handle_message`] takes
//! the lease and asks for the actuation, [`finish_switch`] records its outcome.

use std::io;
use crate::handshake::HandshakeError;
use crate::lock::{acquire_spec, held_by_other, LockManager, LockOutcome, DEFAULT_LEASE_MS};
use crate::message::Message;
use crate::ownership::{apply_spec, gossip_record, opt_view, OwnershipMap, OwnershipState, RecordView};
use crate::peers::{heartbeat_applied, PeerPresence, PeerRegistry};
use crate::pins::PinStore;
use crate::types::{effective_success, SwitchOutcome};
use vstd::prelude::*;
use vstd::string::StringExecFns;

verus! {

/// What an [`Actuator`] reports back: the outcome plus any observed live input value.
#[derive(Debug, Clone, Copy, PartialEq, Eq, Structural)]
pub struct ActuationReport {
    pub outcome: SwitchOutcome,
    pub observed: Option<u32>,
}

impl ActuationReport {
    pub fn new(outcome: SwitchOutcome, observed: Option<u32>) -> (r: Self)
        ensures
            r.outcome == outcome,
            r.observed == observed,
    {
        ActuationReport { outcome, observed }
    }
}

/// Performs this peer's local DDC actuation: make this machine the active source on
/// `monitor_id` (pull-to-self) and report the outcome and the observed `0x60` value, if any.
pub trait Actuator {
    /// Whether this actuator's own state is consistent enough to act (always, unless an
    /// implementation says otherwise).
    open spec fn ready(&self) -> bool {
        true
    }

    fn switch_to_self(&mut self, monitor_id: &str) -> ActuationReport
        requires
            old(self).ready(),
    ;
}

/// Shared, replicated mesh state.
#[derive(Debug)]
pub struct MeshState {
    pub ownership: OwnershipMap,
    pub locks: LockManager,
    pub pins: PinStore,
    /// Peer presence/liveness, updated from Announce/Heartbeat and read by the partition guard.
    pub peers: PeerRegistry,
}

impl MeshState {
    pub open spec fn wf(&self) -> bool {
        self.ownership.wf() && self.locks.wf() && self.pins.wf() && self.peers.wf()
    }

    pub fn new() -> (s: Self)
        ensures
            s.wf(),
            s.ownership@ == Map::<Seq<char>, RecordView>::empty(),
            s.locks@ == Map::<Seq<char>, crate::lock::LeaseView>::empty(),
            s.pins@ == Map::<Seq<char>, Seq<u8>>::empty(),
            s.peers@ == Map::<Seq<char>, PeerPresence>::empty(),
    {
        MeshState {
            ownership: OwnershipMap::new(),
            locks: LockManager::new(),
            pins: PinStore::new(),
            peers: PeerRegistry::new(),
        }
    }
}

impl Default for MeshState {
    fn default() -> (s: Self)
        ensures
            s.wf(),
            s.ownership@ == Map::<Seq<char>, RecordView>::empty(),
            s.locks@ == Map::<Seq<char>, crate::lock::LeaseView>::empty(),
            s.pins@ == Map::<Seq<char>, Seq<u8>>::empty(),
            s.peers@ == Map::<Seq<char>, PeerPresence>::empty(),
    {
        MeshState::new()
    }
}

/// Why connecting to a peer failed.
#[derive(Debug)]
pub enum ConnectError {
    Io(io::Error),
    Handshake(HandshakeError),
    /// The peer's identity key differs from the one previously pinned.
    PinMismatch,
}

/// The stable wire code of a switch outcome.
pub open spec fn outcome_code_spec(o: SwitchOutcome) -> Seq<char> {
    match o {
        SwitchOutcome::Success => "success"@,
        SwitchOutcome::AssumedSuccessReadbackInconclusive => "assumed-success"@,
        SwitchOutcome::Failed => "failed"@,
        SwitchOutcome::BlockedValue => "blocked-value"@,
        SwitchOutcome::NeedsCalibration => "needs-calibration"@,
        SwitchOutcome::DdcUnavailable => "ddc-unavailable"@,
        SwitchOutcome::Unsupported => "unsupported"@,
    }
}

/// Stable, wire-safe outcome code.
pub fn outcome_code(o: SwitchOutcome) -> (s: String)
    ensures
        s@ == outcome_code_spec(o),
{
    match o {
        SwitchOutcome::Success => "success".to_owned(),
        SwitchOutcome::AssumedSuccessReadbackInconclusive => "assumed-success".to_owned(),
        SwitchOutcome::Failed => "failed".to_owned(),
        SwitchOutcome::BlockedValue => "blocked-value".to_owned(),
        SwitchOutcome::NeedsCalibration => "needs-calibration".to_owned(),
        SwitchOutcome::DdcUnavailable => "ddc-unavailable".to_owned(),
        SwitchOutcome::Unsupported => "unsupported".to_owned(),
    }
}

/// A `SwitchResult` reply carrying a refusal code and no observation.
pub open spec fn refusal(m: Option<Message>, monitor_id: Seq<char>, code: Seq<char>) -> bool {
    m matches Some(Message::SwitchResult { monitor_id: mid, outcome, observed }) && mid@ == monitor_id && outcome@ == code
        && observed is None
}

fn switch_result(monitor_id: &str, outcome: &str) -> (m: Message)
    ensures
        refusal(Some(m), monitor_id@, outcome@),
{
    Message::SwitchResult { monitor_id: monitor_id.to_owned(), outcome: outcome.to_owned(), observed: None }
}

/// What handling one message asks of the caller next.
#[derive(Debug, Clone, PartialEq, Eq)]
pub enum MeshStep {
    /// Send this reply (if any); the message is fully handled.
    Reply(Option<Message>),
    /// This node now holds the lease on `monitor_id`: perform the pull-to-self actuation, then
    /// call [`finish_switch`] with its report.
    Actuate { monitor_id: String },
}

/// The largest monotonic clock reading at which a lease of any requested length can be granted.
pub open spec fn mono_ok(mono_ms: u64) -> bool {
    mono_ms + 0xFFFF_FFFF * 1000 <= u64::MAX
}

/// Handle one authenticated message from `from` (already checked to be the handshake-verified
/// peer). `mono_ms` is this node's monotonic clock (the lease domain); `wall_ms` is wall-clock
/// UTC (the liveness and ownership domain); `has_actuator` tells whether this node can actuate.
pub fn handle_message(
    state: &mut MeshState,
    from: &str,
    my_id: &str,
    body: Message,
    mono_ms: u64,
    wall_ms: u64,
    has_actuator: bool,
) -> (step: MeshStep)
    requires
        old(state).wf(),
        mono_ok(mono_ms),
    ensures
        final(state).wf(),
        final(state).pins@ == old(state).pins@,
        match body {
            Message::Announce { name, endpoints, can_actuate, state_version } => {
                &&& step == MeshStep::Reply(None)
                &&& final(state).peers@ == old(state).peers@.insert(
                    from@,
                    PeerPresence { name, endpoints, can_actuate, state_version, last_seen_ms: wall_ms },
                )
                &&& final(state).ownership@ == old(state).ownership@
                &&& final(state).locks@ == old(state).locks@
            },
            Message::Heartbeat { state_version } => {
                &&& step == MeshStep::Reply(None)
                &&& heartbeat_applied(old(state).peers@, final(state).peers@, from@, state_version, wall_ms)
                &&& final(state).ownership@ == old(state).ownership@
                &&& final(state).locks@ == old(state).locks@
            },
            Message::OwnershipGossip { monitor_id, owner, updated_ms } => {
                &&& step == MeshStep::Reply(None)
                &&& final(state).ownership@ == apply_spec(
                    old(state).ownership@,
                    monitor_id@,
                    gossip_record(opt_view(owner), updated_ms),
                )
                &&& final(state).peers@ == old(state).peers@
                &&& final(state).locks@ == old(state).locks@
            },
            Message::LockRequest { monitor_id, lease_secs } => {
                let lease_ms = (lease_secs * 1000) as u64;
                &&& final(state).locks@ == acquire_spec(old(state).locks@, monitor_id@, from@, mono_ms, lease_ms)
                &&& final(state).ownership@ == old(state).ownership@
                &&& final(state).peers@ == old(state).peers@
                &&& if held_by_other(old(state).locks@, monitor_id@, from@, mono_ms) {
                    step matches MeshStep::Reply(Some(Message::LockDeny { monitor_id: mid, reason })) && mid@
                        == monitor_id@ && reason@ == "held by "@ + old(state).locks@[monitor_id@].holder
                } else {
                    step matches MeshStep::Reply(Some(Message::LockGrant { monitor_id: mid, holder, lease_expires_ms }))
                        && mid@ == monitor_id@ && holder@ == from@ && lease_expires_ms == lease_ms
                }
            },
            Message::SwitchCommand { monitor_id, target, .. } => {
                &&& final(state).ownership@ == old(state).ownership@
                &&& final(state).peers@ == old(state).peers@
                &&& if target@ != my_id@ {
                    step matches MeshStep::Reply(r) && refusal(r, monitor_id@, "not-actuator"@)
                        && final(state).locks@ == old(state).locks@
                } else if !has_actuator {
                    step matches MeshStep::Reply(r) && refusal(r, monitor_id@, "no-actuator"@)
                        && final(state).locks@ == old(state).locks@
                } else if held_by_other(old(state).locks@, monitor_id@, my_id@, mono_ms) {
                    step matches MeshStep::Reply(r) && refusal(r, monitor_id@, "locked-by-other"@)
                        && final(state).locks@ == old(state).locks@
                } else {
                    step matches MeshStep::Actuate { monitor_id: mid } && mid@ == monitor_id@
                        && final(state).locks@ == acquire_spec(
                        old(state).locks@,
                        monitor_id@,
                        my_id@,
                        mono_ms,
                        DEFAULT_LEASE_MS,
                    )
                }
            },
            _ => {
                &&& step == MeshStep::Reply(None)
                &&& final(state).ownership@ == old(state).ownership@
                &&& final(state).peers@ == old(state).peers@
                &&& final(state).locks@ == old(state).locks@
            },
        },
{
    match body {
        Message::Announce { name, endpoints, can_actuate, state_version } => {
            state.peers.observe_announce(from, name, endpoints, can_actuate, state_version, wall_ms);
            MeshStep::Reply(None)
        },
        Message::Heartbeat { state_version } => {
            state.peers.observe_heartbeat(from, state_version, wall_ms);
            MeshStep::Reply(None)
        },
        Message::OwnershipGossip { monitor_id, owner, updated_ms } => {
            state.ownership.merge(monitor_id.as_str(), owner, updated_ms);
            MeshStep::Reply(None)
        },
        Message::LockRequest { monitor_id, lease_secs } => {
            let lease_ms: u64 = (lease_secs as u64) * 1000;
            match state.locks.acquire(monitor_id.as_str(), from, mono_ms, lease_ms) {
                LockOutcome::Granted(_) => MeshStep::Reply(
                    Some(Message::LockGrant { monitor_id, holder: from.to_owned(), lease_expires_ms: lease_ms }),
                ),
                LockOutcome::Denied { current_holder } => {
                    let mut reason = "held by ".to_owned();
                    reason.append(current_holder.as_str());
                    MeshStep::Reply(Some(Message::LockDeny { monitor_id, reason }))
                },
            }
        },
        Message::SwitchCommand { monitor_id, target, .. } => {
            // Only the chosen actuator (the target, for pull-to-self) performs the write.
            if !crate::text::str_eq(target.as_str(), my_id) {
                return MeshStep::Reply(Some(switch_result(monitor_id.as_str(), "not-actuator")));
            }
            if !has_actuator {
                return MeshStep::Reply(Some(switch_result(monitor_id.as_str(), "no-actuator")));
            }
            // Serialize actuation behind the per-monitor lease: two actuators can never race a
            // 0x60 write on the same panel.
            match state.locks.acquire(monitor_id.as_str(), my_id, mono_ms, DEFAULT_LEASE_MS) {
                LockOutcome::Denied { .. } => MeshStep::Reply(
                    Some(switch_result(monitor_id.as_str(), "locked-by-other")),
                ),
                LockOutcome::Granted(_) => MeshStep::Actuate { monitor_id },
            }
        },
        _ => MeshStep::Reply(None),
    }
}

/// The ownership map after a local actuation of `monitor` reported `outcome` at `wall_ms`: an
/// effective success makes this node the observed owner; DDC unavailable marks the panel
/// DDC-disabled; anything else leaves the map as it was.
pub open spec fn after_actuation(
    m: Map<Seq<char>, RecordView>,
    monitor: Seq<char>,
    me: Seq<char>,
    outcome: SwitchOutcome,
    wall_ms: u64,
) -> Map<Seq<char>, RecordView> {
    if effective_success(outcome) {
        apply_spec(m, monitor, gossip_record(Some(me), wall_ms))
    } else if outcome == SwitchOutcome::DdcUnavailable {
        apply_spec(m, monitor, RecordView { owner: None, updated_ms: wall_ms, state: OwnershipState::DdcDisabled })
    } else {
        m
    }
}

/// Record the outcome of the actuation asked for by [`MeshStep::Actuate`]: reconcile ownership,
/// hand the lease back, and build the `SwitchResult` reply.
pub fn finish_switch(
    state: &mut MeshState,
    my_id: &str,
    monitor_id: String,
    report: ActuationReport,
    wall_ms: u64,
) -> (reply: Message)
    requires
        old(state).wf(),
    ensures
        final(state).wf(),
        final(state).pins@ == old(state).pins@,
        final(state).peers@ == old(state).peers@,
        final(state).ownership@ == after_actuation(old(state).ownership@, monitor_id@, my_id@, report.outcome, wall_ms),
        (old(state).locks@.contains_key(monitor_id@) && old(state).locks@[monitor_id@].holder == my_id@) ==> final(state).locks@
            == old(state).locks@.remove(monitor_id@),
        !(old(state).locks@.contains_key(monitor_id@) && old(state).locks@[monitor_id@].holder == my_id@) ==> final(state).locks@
            == old(state).locks@,
        reply matches Message::SwitchResult { monitor_id: mid, outcome, observed } && mid@ == monitor_id@ && outcome@
            == outcome_code_spec(report.outcome) && observed == report.observed,
{
    if report.outcome.is_effective_success() {
        state.ownership.observe(monitor_id.as_str(), Some(my_id.to_owned()), wall_ms);
    } else if report.outcome == SwitchOutcome::DdcUnavailable {
        state.ownership.mark_ddc_disabled(monitor_id.as_str(), wall_ms);
    }
    state.locks.release(monitor_id.as_str(), my_id);
    Message::SwitchResult { monitor_id, outcome: outcome_code(report.outcome), observed: report.observed }
}

} // verus!
