//! Domain types of the DDC/CI actuation core: directions, outcomes, requests, policies, results.

use std::collections::HashSet;
use vstd::prelude::*;

verus! {

broadcast use vstd::std_specs::hash::group_hash_axioms;

/// Which physical path performs the DDC/CI switch.
#[derive(Debug, Clone, Copy, PartialEq, Eq, Structural)]
pub enum SwitchDirection {
    /// Target machine writes its own input value over its own cable. Default, reliable path.
    PullToSelf,
    /// Current owner writes the target's value to hand the panel away. Flaky fallback.
    PushRelease,
}

/// Result of attempting a single DDC/CI input switch.
#[derive(Debug, Clone, Copy, PartialEq, Eq, Structural)]
pub enum SwitchOutcome {
    /// Write succeeded and read-back confirmed the target input.
    Success,
    /// Write succeeded; read-back could not confirm (unreliable on some panels) — success, flagged.
    AssumedSuccessReadbackInconclusive,
    /// Write was issued but the switch could not be confirmed within the retry budget.
    Failed,
    /// Refused before any write: the value is on the monitor's blocked list (soft-brick guard).
    BlockedValue,
    /// Refused before any write: the value is not self-confirmed for this peer+monitor.
    NeedsCalibration,
    /// Refused: DDC/CI is unavailable (disabled in OSD or unresponsive).
    DdcUnavailable,
    /// The monitor/OS reported the VCP code unsupported; the caller should try a fallback path.
    Unsupported,
}

/// True for outcomes that mean "the monitor most likely switched".
pub open spec fn effective_success(o: SwitchOutcome) -> bool {
    o == SwitchOutcome::Success || o == SwitchOutcome::AssumedSuccessReadbackInconclusive
}

impl SwitchOutcome {
    /// True for outcomes that mean "the monitor most likely switched".
    pub fn is_effective_success(self) -> (r: bool)
        ensures
            r == effective_success(self),
    {
        match self {
            SwitchOutcome::Success | SwitchOutcome::AssumedSuccessReadbackInconclusive => true,
            _ => false,
        }
    }
}

/// Low-level outcome of a single DDC/CI write, as reported by the driver.
#[derive(Debug, Clone, Copy, PartialEq, Eq, Structural)]
pub enum DdcWriteResult {
    /// The write was accepted by the monitor/OS.
    Accepted,
    Failed,
    /// The code was reported unsupported — the caller may fall back (e.g. a vendor tool).
    Unsupported,
}

/// A resolved request to switch one monitor to one input value.
#[derive(Debug, Clone)]
pub struct SwitchRequest {
    /// Stable monitor identity.
    pub monitor_id: String,
    /// The VCP 0x60 value to write — MUST be self-confirmed for the acting peer.
    pub input_value: u32,
    pub direction: SwitchDirection,
}

/// Default attempt budget.
pub const DEFAULT_MAX_ATTEMPTS: u32 = 3;
/// Default settle delay after an accepted write.
pub const DEFAULT_SETTLE_MS: u32 = 1500;
/// Default linear backoff base.
pub const DEFAULT_BACKOFF_MS: u32 = 400;
/// Default per-monitor hard ceiling on one switch (must stay below the mesh lease).
pub const DEFAULT_CEILING_MS: u32 = 15_000;

/// Per-switch policy plus the soft-brick guard inputs. `confirmed_values` are the values
/// self-calibrated as real for the acting peer+monitor; only these may ever be written.
#[derive(Debug)]
pub struct ActuationPolicy {
    pub confirmed_values: HashSet<u32>,
    pub blocked_values: HashSet<u32>,
    /// Total write attempts before giving up.
    pub max_attempts: u32,
    /// Delay after a successful write before reading back (DDC is slow to settle).
    pub settle_ms: u32,
    /// Base backoff between retries (multiplied by attempt number).
    pub backoff_ms: u32,
    /// When false (panel quirk), skip read-back and report assumed-success after a good write.
    pub readback_reliable: bool,
    /// Wall-clock hard ceiling for one switch, measured against the injected clock.
    pub ceiling_ms: u32,
}

/// Builds a set holding exactly the values of `values`.
pub fn set_of(values: &[u32]) -> (s: HashSet<u32>)
    ensures
        s@ == values@.to_set(),
{
    let mut s: HashSet<u32> = HashSet::new();
    let mut i: usize = 0;
    while i < values.len()
        invariant
            i <= values.len(),
            s@ == values@.subrange(0, i as int).to_set(),
        decreases values.len() - i,
    {
        s.insert(values[i]);
        proof {
            assert(values@.subrange(0, i + 1) =~= values@.subrange(0, i as int).push(values@[i as int]));
            values@.subrange(0, i as int).lemma_push_to_set_commute(values@[i as int]);
        }
        i = i + 1;
    }
    proof {
        assert(values@.subrange(0, values.len() as int) =~= values@);
    }
    s
}

impl ActuationPolicy {
    /// A policy allowing exactly `confirmed` minus anything `blocked`, with default timing.
    pub fn new(confirmed: &[u32], blocked: &[u32]) -> (p: Self)
        ensures
            p.confirmed_values@ == confirmed@.to_set(),
            p.blocked_values@ == blocked@.to_set(),
            p.max_attempts == DEFAULT_MAX_ATTEMPTS,
            p.settle_ms == DEFAULT_SETTLE_MS,
            p.backoff_ms == DEFAULT_BACKOFF_MS,
            p.readback_reliable,
            p.ceiling_ms == DEFAULT_CEILING_MS,
    {
        ActuationPolicy {
            confirmed_values: set_of(confirmed),
            blocked_values: set_of(blocked),
            max_attempts: DEFAULT_MAX_ATTEMPTS,
            settle_ms: DEFAULT_SETTLE_MS,
            backoff_ms: DEFAULT_BACKOFF_MS,
            readback_reliable: true,
            ceiling_ms: DEFAULT_CEILING_MS,
        }
    }
}

/// Outcome of executing a [`SwitchRequest`].
#[derive(Debug, Clone)]
pub struct SwitchResult {
    pub outcome: SwitchOutcome,
    pub attempts: u32,
    pub observed_value: Option<u32>,
    pub detail: Option<String>,
}

} // verus!
