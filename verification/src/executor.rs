//! The guarded DDC/CI actuation state machine:
//!
//! ```text
//! capability gate -> soft-brick guards -> write -> settle -> verify -> retry/commit/fail
//! ```
//!
//! The executor records every call it makes into the driver and the clock's loop-head readings in
//! a ghost log. Its contract states the result as a function of what those calls returned
//! ([`run_model`]), and the laws below hold for every possible sequence of driver answers.

use crate::driver::{Clock, Delayer, MonitorDriver};
use crate::text::{dec_digits, hex02, push_dec, push_hex02};
use crate::types::{effective_success, ActuationPolicy, DdcWriteResult, SwitchOutcome, SwitchRequest, SwitchResult};
use vstd::prelude::*;
use vstd::string::*;

verus! {

broadcast use vstd::std_specs::hash::group_hash_axioms;

/// VCP feature code for Input Select.
pub const VCP_INPUT_SELECT: u8 = 0x60;

/// One interaction of the executor with its injected boundaries, as recorded in its ghost log.
pub enum DriverEvent {
    /// `is_ddc_available(monitor)` returned `available`.
    Availability { monitor: Seq<char>, available: bool },
    /// The clock read `now` (the start reading, each attempt's ceiling check, and the reading
    /// that clamps each settle or backoff wait).
    ClockRead { now: u64 },
    /// `write_input(monitor, value)` returned `result`.
    Write { monitor: Seq<char>, value: u32, result: DdcWriteResult },
    /// `try_read_input(monitor)` returned `value`.
    Read { monitor: Seq<char>, value: Option<u32> },
    /// A wait of `ms` milliseconds was made (a clamped settle or backoff wait, or a caller's
    /// pause).
    Pause { ms: u32 },
}

/// Mathematical view of a [`SwitchResult`].
pub struct SwitchResultView {
    pub outcome: SwitchOutcome,
    pub attempts: u32,
    pub observed: Option<u32>,
    pub detail: Option<Seq<char>>,
}

impl View for SwitchResult {
    type V = SwitchResultView;

    open spec fn view(&self) -> SwitchResultView {
        SwitchResultView {
            outcome: self.outcome,
            attempts: self.attempts,
            observed: self.observed_value,
            detail: match self.detail {
                Some(d) => Some(d@),
                None => None,
            },
        }
    }
}

pub open spec fn msg_unavailable() -> Seq<char> {
    "DDC/CI unavailable (disabled in OSD or unresponsive)."@
}

pub open spec fn msg_blocked(v: u32) -> Seq<char> {
    "Input 0x"@ + hex02(v as nat) + " is on this monitor's blocked list."@
}

pub open spec fn msg_unconfirmed(v: u32) -> Seq<char> {
    "Input 0x"@ + hex02(v as nat) + " is not self-confirmed for this peer+monitor."@
}

pub open spec fn msg_ceiling(ceiling_ms: u32, attempts: u32) -> Seq<char> {
    "Hard ceiling of "@ + dec_digits(ceiling_ms as nat) + " ms reached after "@ + dec_digits(
        attempts as nat,
    ) + " attempt(s)."@
}

pub open spec fn msg_unsupported() -> Seq<char> {
    "Set input reported the code unsupported; use a fallback path."@
}

pub open spec fn msg_readback_skipped() -> Seq<char> {
    "Write OK; read-back skipped (panel marked read-back-unreliable)."@
}

pub open spec fn msg_readback_failed() -> Seq<char> {
    "Write OK; read-back failed (inconclusive)."@
}

pub open spec fn msg_not_confirmed(attempts: u32) -> Seq<char> {
    "Switch not confirmed after "@ + dec_digits(attempts as nat) + " attempt(s)."@
}

/// A result with no observed value.
pub open spec fn plain_result(outcome: SwitchOutcome, attempts: u32, detail: Seq<char>) -> SwitchResultView {
    SwitchResultView { outcome, attempts, observed: None, detail: Some(detail) }
}

/// The clock reading at which the hard ceiling is reached (saturating).
pub open spec fn deadline_of(start: u64, ceiling_ms: u32) -> u64 {
    if start + ceiling_ms > u64::MAX {
        u64::MAX
    } else {
        (start + ceiling_ms) as u64
    }
}

/// The wait that a clamped delay of `ms` makes when the clock reads `now`: `ms`, but never past
/// `deadline` (zero once the deadline has passed).
pub open spec fn clamp_wait(ms: u32, deadline: u64, now: u64) -> nat {
    let remaining: nat = if deadline > now { (deadline - now) as nat } else { 0 };
    if (ms as nat) < remaining { ms as nat } else { remaining }
}

/// How a clamped delay of `ms` before `deadline` shows at the start of `rest`: the clock is read,
/// then the wait [`clamp_wait`] gives is made (no wait when it is zero). `Some(k)` with the number
/// of events it took; `None` when `rest` does not start that way.
pub open spec fn clamped_wait(ms: u32, deadline: u64, rest: Seq<DriverEvent>) -> Option<nat> {
    if rest.len() == 0 {
        None
    } else {
        match rest[0] {
            DriverEvent::ClockRead { now } => {
                let w = clamp_wait(ms, deadline, now);
                if w == 0 {
                    Some(1)
                } else if rest.len() >= 2 && rest[1] == (DriverEvent::Pause { ms: w as u32 }) {
                    Some(2)
                } else {
                    None
                }
            },
            _ => None,
        }
    }
}

/// The linear backoff after failed attempt number `done` (counting from zero), saturated to
/// `u32`.
pub open spec fn backoff_wait(policy: &ActuationPolicy, done: u32) -> u32 {
    let p = policy.backoff_ms * (done + 1);
    if p > u32::MAX { u32::MAX } else { p as u32 }
}

/// The events of the backoff after failed attempt `done` at the start of `rest`: a clamped
/// [`backoff_wait`] when the policy has a backoff, nothing otherwise.
pub open spec fn backoff_events(policy: &ActuationPolicy, done: u32, deadline: u64, rest: Seq<DriverEvent>) -> Option<nat> {
    if policy.backoff_ms > 0 {
        clamped_wait(backoff_wait(policy, done), deadline, rest)
    } else {
        Some(0)
    }
}

/// A clamped wait takes at most two events, neither of them a write, and only its own events
/// decide it: any sequence that starts with them starts with the same wait.
pub proof fn lemma_clamped_wait_shape(ms: u32, deadline: u64, w: Seq<DriverEvent>, s: Seq<DriverEvent>)
    requires
        clamped_wait(ms, deadline, w) == Some(w.len()),
        w.len() <= s.len(),
        forall|i: int| 0 <= i < w.len() ==> #[trigger] s[i] == w[i],
    ensures
        clamped_wait(ms, deadline, s) == Some(w.len()),
        1 <= w.len() <= 2,
        forall|i: int| 0 <= i < w.len() ==> !(#[trigger] w[i] is Write),
        write_count(w) == 0,
{
    reveal_with_fuel(write_count, 3);
    assert(w.skip(1).len() == w.len() - 1);
    if w.len() == 2 {
        assert(w.skip(1)[0] == w[1]);
        assert(w.skip(1).skip(1).len() == 0);
    }
}

/// The write/settle/verify loop, from `done` attempts already made, over the remaining events.
/// `None` means the events are not a run the executor can produce.
pub open spec fn attempt_model(
    monitor: Seq<char>,
    input: u32,
    policy: &ActuationPolicy,
    deadline: u64,
    done: u32,
    rest: Seq<DriverEvent>,
) -> Option<SwitchResultView>
    decreases rest.len(),
{
    if done >= policy.max_attempts {
        if rest.len() == 0 {
            Some(plain_result(SwitchOutcome::Failed, done, msg_not_confirmed(done)))
        } else {
            None
        }
    } else if rest.len() == 0 {
        None
    } else {
        match rest[0] {
            DriverEvent::ClockRead { now } => {
                if now >= deadline {
                    if rest.len() == 1 {
                        Some(plain_result(SwitchOutcome::Failed, done, msg_ceiling(policy.ceiling_ms, done)))
                    } else {
                        None
                    }
                } else if rest.len() < 2 {
                    None
                } else {
                    match rest[1] {
                        DriverEvent::Write { monitor: m, value, result } => {
                            if m != monitor || value != input {
                                None
                            } else {
                                match result {
                                    DdcWriteResult::Unsupported => {
                                        if rest.len() == 2 {
                                            Some(plain_result(SwitchOutcome::Unsupported, (done + 1) as u32, msg_unsupported()))
                                        } else {
                                            None
                                        }
                                    },
                                    DdcWriteResult::Failed => match backoff_events(policy, done, deadline, rest.skip(2)) {
                                        Some(k) => if 2 + k <= rest.len() {
                                            attempt_model(monitor, input, policy, deadline, (done + 1) as u32, rest.skip(2 + k as int))
                                        } else {
                                            None
                                        },
                                        None => None,
                                    },
                                    DdcWriteResult::Accepted => match clamped_wait(policy.settle_ms, deadline, rest.skip(2)) {
                                        None => None,
                                        Some(k) => if 2 + k > rest.len() {
                                            None
                                        } else {
                                            let after = rest.skip(2 + k as int);
                                            if !policy.readback_reliable {
                                                if after.len() == 0 {
                                                    Some(plain_result(SwitchOutcome::AssumedSuccessReadbackInconclusive, (done + 1) as u32, msg_readback_skipped()))
                                                } else {
                                                    None
                                                }
                                            } else if after.len() < 1 {
                                                None
                                            } else {
                                                match after[0] {
                                                    DriverEvent::Read { monitor: m2, value: read } => {
                                                        if m2 != monitor {
                                                            None
                                                        } else {
                                                            match read {
                                                                Some(o) => {
                                                                    if o == input {
                                                                        if after.len() == 1 {
                                                                            Some(SwitchResultView {
                                                                                outcome: SwitchOutcome::Success,
                                                                                attempts: (done + 1) as u32,
                                                                                observed: Some(o),
                                                                                detail: None,
                                                                            })
                                                                        } else {
                                                                            None
                                                                        }
                                                                    } else {
                                                                        match backoff_events(policy, done, deadline, after.skip(1)) {
                                                                            Some(k2) => if 1 + k2 <= after.len() {
                                                                                attempt_model(
                                                                                    monitor,
                                                                                    input,
                                                                                    policy,
                                                                                    deadline,
                                                                                    (done + 1) as u32,
                                                                                    after.skip(1 + k2 as int),
                                                                                )
                                                                            } else {
                                                                                None
                                                                            },
                                                                            None => None,
                                                                        }
                                                                    }
                                                                },
                                                                None => {
                                                                    if after.len() == 1 {
                                                                        Some(plain_result(SwitchOutcome::AssumedSuccessReadbackInconclusive, (done + 1) as u32, msg_readback_failed()))
                                                                    } else {
                                                                        None
                                                                    }
                                                                },
                                                            }
                                                        }
                                                    },
                                                    _ => None,
                                                }
                                            }
                                        },
                                    },
                                }
                            }
                        },
                        _ => None,
                    }
                }
            },
            _ => None,
        }
    }
}

/// The complete actuation run for `request` under `policy`: the capability gate, the soft-brick
/// guards, then the bounded loop. `Some(r)` exactly when `events` is what one `execute` call
/// produces, with `r` its result.
pub open spec fn run_model(
    request: &SwitchRequest,
    policy: &ActuationPolicy,
    events: Seq<DriverEvent>,
) -> Option<SwitchResultView> {
    let v = request.input_value;
    let monitor = request.monitor_id@;
    if events.len() == 0 {
        None
    } else {
        match events[0] {
            DriverEvent::Availability { monitor: m, available } => {
                if m != monitor {
                    None
                } else if !available {
                    if events.len() == 1 {
                        Some(plain_result(SwitchOutcome::DdcUnavailable, 0, msg_unavailable()))
                    } else {
                        None
                    }
                } else if policy.blocked_values@.contains(v) {
                    if events.len() == 1 {
                        Some(plain_result(SwitchOutcome::BlockedValue, 0, msg_blocked(v)))
                    } else {
                        None
                    }
                } else if !policy.confirmed_values@.contains(v) {
                    if events.len() == 1 {
                        Some(plain_result(SwitchOutcome::NeedsCalibration, 0, msg_unconfirmed(v)))
                    } else {
                        None
                    }
                } else if events.len() < 2 {
                    None
                } else {
                    match events[1] {
                        DriverEvent::ClockRead { now } => attempt_model(
                            monitor,
                            v,
                            policy,
                            deadline_of(now, policy.ceiling_ms),
                            0,
                            events.skip(2),
                        ),
                        _ => None,
                    }
                }
            },
            _ => None,
        }
    }
}

/// Number of write events in a run.
pub open spec fn write_count(events: Seq<DriverEvent>) -> nat
    decreases events.len(),
{
    if events.len() == 0 {
        0
    } else {
        (if events[0] is Write { 1nat } else { 0nat }) + write_count(events.skip(1))
    }
}

/// Every write in `events` targets `monitor` with `value`.
pub open spec fn writes_only(events: Seq<DriverEvent>, monitor: Seq<char>, value: u32) -> bool {
    forall|i: int|
        0 <= i < events.len() ==> (#[trigger] events[i] matches DriverEvent::Write { monitor: m, value: v, .. } ==> m
            == monitor && v == value)
}

proof fn lemma_write_count_skip(events: Seq<DriverEvent>, k: int)
    requires
        0 <= k <= events.len(),
    ensures
        write_count(events) == write_count(events.take(k)) + write_count(events.skip(k)),
    decreases k,
{
    if k == 0 {
        assert(events.skip(0) =~= events);
    } else {
        lemma_write_count_skip(events.skip(1), k - 1);
        assert(events.skip(1).take(k - 1) =~= events.take(k).skip(1));
        assert(events.skip(1).skip(k - 1) =~= events.skip(k));
    }
}

/// Soft-brick and retry-budget law of the loop: every run it accepts writes only the requested
/// value to the requested monitor, its attempt count equals its number of writes and never exceeds
/// the policy's budget, and a `Success` carries the requested value as its observed read-back.
pub proof fn lemma_attempt_model_laws(
    monitor: Seq<char>,
    input: u32,
    policy: &ActuationPolicy,
    deadline: u64,
    done: u32,
    rest: Seq<DriverEvent>,
)
    requires
        done <= policy.max_attempts,
        attempt_model(monitor, input, policy, deadline, done, rest) is Some,
    ensures
        ({
            let r = attempt_model(monitor, input, policy, deadline, done, rest)->0;
            &&& writes_only(rest, monitor, input)
            &&& r.attempts == done + write_count(rest)
            &&& r.attempts <= policy.max_attempts
            &&& (r.outcome == SwitchOutcome::Success ==> r.observed == Some(input))
            &&& (r.outcome != SwitchOutcome::Success ==> r.observed is None)
            &&& (r.outcome == SwitchOutcome::Success || r.outcome
                == SwitchOutcome::AssumedSuccessReadbackInconclusive || r.outcome
                == SwitchOutcome::Failed || r.outcome == SwitchOutcome::Unsupported)
        }),
    decreases rest.len(), 1int,
{
    if done >= policy.max_attempts {
    } else {
        let r = attempt_model(monitor, input, policy, deadline, done, rest)->0;
        match rest[0] {
            DriverEvent::ClockRead { now } => {
                if now >= deadline {
                    assert(write_count(rest.skip(1)) == 0);
                } else {
                    lemma_write_count_skip(rest, 2);
                    assert(write_count(rest.take(2)) == 1) by {
                        reveal_with_fuel(write_count, 3);
                        assert(rest.take(2).skip(1)[0] == rest[1]);
                        assert(rest.take(2).skip(1).skip(1).len() == 0);
                    }
                    match rest[1] {
                        DriverEvent::Write { result, .. } => {
                            match result {
                                DdcWriteResult::Unsupported => {
                                    assert(rest.skip(2).len() == 0);
                                },
                                DdcWriteResult::Failed => {
                                    let k = backoff_events(policy, done, deadline, rest.skip(2))->0;
                                    lemma_backoff_shape_take(policy, done, deadline, rest.skip(2));
                                    assert forall|i: int| 2 <= i < 2 + k implies !(#[trigger] rest[i] is Write) by {
                                        assert(rest[i] == rest.skip(2)[i - 2]);
                                    }
                                    lemma_tail_laws(monitor, input, policy, deadline, done, rest, 2 + k as int);
                                },
                                DdcWriteResult::Accepted => {
                                    let k = clamped_wait(policy.settle_ms, deadline, rest.skip(2))->0;
                                    let wv = rest.skip(2).take(k as int);
                                    lemma_clamped_wait_take(policy.settle_ms, deadline, rest.skip(2));
                                    lemma_clamped_wait_shape(policy.settle_ms, deadline, wv, rest.skip(2));
                                    lemma_write_count_skip(rest.skip(2), k as int);
                                    assert(rest.skip(2).skip(k as int) =~= rest.skip(2 + k as int));
                                    let after = rest.skip(2 + k as int);
                                    assert forall|i: int| 2 <= i < 2 + k implies !(#[trigger] rest[i] is Write) by {
                                        assert(rest[i] == wv[i - 2]);
                                    }
                                    if !policy.readback_reliable || !(after[0] matches DriverEvent::Read { value: Some(o), .. } && o != input) {
                                        assert(write_count(after) == 0) by {
                                            reveal_with_fuel(write_count, 2);
                                            if after.len() == 1 {
                                                assert(after.skip(1).len() == 0);
                                            }
                                        }
                                        assert forall|i: int| 0 <= i < rest.len() implies (#[trigger] rest[i] matches DriverEvent::Write { monitor: m, value: v, .. } ==> m == monitor && v == input) by {
                                            if i >= 2 + k {
                                                assert(rest[i] == after[i - 2 - k]);
                                            }
                                        }
                                    } else {
                                        let k2 = backoff_events(policy, done, deadline, after.skip(1))->0;
                                        lemma_backoff_shape_take(policy, done, deadline, after.skip(1));
                                        let n: int = (2 + k + 1 + k2) as int;
                                        assert forall|i: int| 2 <= i < n implies !(#[trigger] rest[i] is Write) by {
                                            if i < 2 + k {
                                            } else if i == 2 + k {
                                                assert(rest[i] == after[0]);
                                            } else {
                                                assert(rest[i] == after.skip(1)[i - 3 - k]);
                                            }
                                        }
                                        assert(rest.skip(n) =~= after.skip(1 + k2 as int));
                                        lemma_tail_laws(monitor, input, policy, deadline, done, rest, n);
                                    }
                                },
                            }
                        },
                        _ => {},
                    }
                }
            },
            _ => {},
        }
    }
}

/// Events without a write count no writes.
proof fn lemma_no_writes(s: Seq<DriverEvent>)
    requires
        forall|i: int| 0 <= i < s.len() ==> !(#[trigger] s[i] is Write),
    ensures
        write_count(s) == 0,
    decreases s.len(),
{
    if s.len() > 0 {
        assert forall|i: int| 0 <= i < s.skip(1).len() implies !(#[trigger] s.skip(1)[i] is Write) by {
            assert(s.skip(1)[i] == s[i + 1]);
        }
        lemma_no_writes(s.skip(1));
    }
}

/// `clamped_wait` takes from the start of the events it reads.
proof fn lemma_clamped_wait_take(ms: u32, deadline: u64, s: Seq<DriverEvent>)
    requires
        clamped_wait(ms, deadline, s) is Some,
    ensures
        clamped_wait(ms, deadline, s)->0 <= s.len(),
        clamped_wait(ms, deadline, s.take(clamped_wait(ms, deadline, s)->0 as int)) == Some(clamped_wait(ms, deadline, s)->0),
{
    let k = clamped_wait(ms, deadline, s)->0;
    let t = s.take(k as int);
    assert(t[0] == s[0]);
    if k == 2 {
        assert(t[1] == s[1]);
    }
}

proof fn lemma_backoff_shape_take(policy: &ActuationPolicy, done: u32, deadline: u64, s: Seq<DriverEvent>)
    requires
        backoff_events(policy, done, deadline, s) is Some,
    ensures
        ({
            let k = backoff_events(policy, done, deadline, s)->0;
            &&& k <= s.len()
            &&& k <= 2
            &&& backoff_events(policy, done, deadline, s.take(k as int)) == Some(k)
            &&& forall|i: int| 0 <= i < k ==> !(#[trigger] s[i] is Write)
            &&& write_count(s.take(k as int)) == 0
        }),
{
    let k = backoff_events(policy, done, deadline, s)->0;
    if policy.backoff_ms > 0 {
        lemma_clamped_wait_take(backoff_wait(policy, done), deadline, s);
    } else {
        assert(s.take(0).len() == 0);
    }
    let w = s.take(k as int);
    lemma_backoff_shape(policy, done, deadline, w, s);
    assert forall|i: int| 0 <= i < k implies !(#[trigger] s[i] is Write) by {
        assert(s[i] == w[i]);
    }
}

/// The laws carry over a prefix of `n` events holding one write (the attempt's) before the
/// rest of the loop from `done + 1` attempts.
proof fn lemma_tail_laws(
    monitor: Seq<char>,
    input: u32,
    policy: &ActuationPolicy,
    deadline: u64,
    done: u32,
    rest: Seq<DriverEvent>,
    n: int,
)
    requires
        done < policy.max_attempts,
        2 <= n <= rest.len(),
        attempt_model(monitor, input, policy, deadline, (done + 1) as u32, rest.skip(n)) is Some,
        attempt_model(monitor, input, policy, deadline, done, rest)
            == attempt_model(monitor, input, policy, deadline, (done + 1) as u32, rest.skip(n)),
        write_count(rest.take(2)) == 1,
        forall|i: int| 0 <= i < 2 ==> (#[trigger] rest[i] matches DriverEvent::Write { monitor: m, value: v, .. } ==> m == monitor && v == input),
        forall|i: int| 2 <= i < n ==> !(#[trigger] rest[i] is Write),
    ensures
        ({
            let r = attempt_model(monitor, input, policy, deadline, done, rest)->0;
            &&& writes_only(rest, monitor, input)
            &&& r.attempts == done + write_count(rest)
            &&& r.attempts <= policy.max_attempts
            &&& (r.outcome == SwitchOutcome::Success ==> r.observed == Some(input))
            &&& (r.outcome != SwitchOutcome::Success ==> r.observed is None)
            &&& (r.outcome == SwitchOutcome::Success || r.outcome
                == SwitchOutcome::AssumedSuccessReadbackInconclusive || r.outcome
                == SwitchOutcome::Failed || r.outcome == SwitchOutcome::Unsupported)
        }),
    decreases rest.len(), 0int,
{
    lemma_attempt_model_laws(monitor, input, policy, deadline, (done + 1) as u32, rest.skip(n));
    lemma_write_count_skip(rest, n);
    let t = rest.take(n);
    lemma_write_count_skip(t, 2);
    assert(t.take(2) =~= rest.take(2));
    assert forall|i: int| 0 <= i < t.skip(2).len() implies !(#[trigger] t.skip(2)[i] is Write) by {
        assert(t.skip(2)[i] == rest[i + 2]);
    }
    lemma_no_writes(t.skip(2));
    assert forall|i: int| 0 <= i < rest.len() implies (#[trigger] rest[i] matches DriverEvent::Write { monitor: m, value: v, .. } ==> m == monitor && v == input) by {
        if i >= n {
            assert(rest[i] == rest.skip(n)[i - n]);
        }
    }
}

/// Soft-brick law of the whole executor: for every sequence of driver answers, a run writes
/// nothing unless DDC/CI answered, the value is not blocked and it is confirmed; whatever it
/// writes is exactly the requested value on the requested monitor; refusals make no attempt;
/// the attempt count equals the number of writes and stays within the policy's budget; and a
/// `Success` has read back exactly the requested value.
pub proof fn lemma_run_model_laws(request: &SwitchRequest, policy: &ActuationPolicy, events: Seq<DriverEvent>)
    requires
        run_model(request, policy, events) is Some,
    ensures
        ({
            let r = run_model(request, policy, events)->0;
            let v = request.input_value;
            &&& writes_only(events, request.monitor_id@, v)
            &&& r.attempts == write_count(events)
            &&& r.attempts <= policy.max_attempts
            &&& (write_count(events) > 0 ==> !policy.blocked_values@.contains(v)
                && policy.confirmed_values@.contains(v))
            &&& (policy.blocked_values@.contains(v) ==> r.attempts == 0 && (r.outcome
                == SwitchOutcome::BlockedValue || r.outcome == SwitchOutcome::DdcUnavailable))
            &&& (r.outcome == SwitchOutcome::Success ==> r.observed == Some(v))
            &&& (effective_success(r.outcome) ==> r.attempts >= 1)
        }),
{
    let v = request.input_value;
    let r = run_model(request, policy, events)->0;
    lemma_write_count_skip(events, 1);
    assert(write_count(events.take(1)) == 0) by {
        assert(events.take(1).skip(1).len() == 0);
    }
    match events[0] {
        DriverEvent::Availability { available, .. } => {
            if !available || policy.blocked_values@.contains(v) || !policy.confirmed_values@.contains(v) {
                assert(events.skip(1).len() == 0);
            } else {
                lemma_write_count_skip(events.skip(1), 1);
                assert(write_count(events.skip(1).take(1)) == 0) by {
                    assert(events.skip(1).take(1).skip(1).len() == 0);
                }
                assert(events.skip(1).skip(1) =~= events.skip(2));
                match events[1] {
                    DriverEvent::ClockRead { now } => {
                        lemma_attempt_model_laws(request.monitor_id@, v, policy, deadline_of(now, policy.ceiling_ms), 0, events.skip(2));
                        assert forall|i: int| 0 <= i < events.len() implies (#[trigger] events[i] matches DriverEvent::Write { monitor: m, value: x, .. } ==> m == request.monitor_id@ && x == v) by {
                            if i >= 2 {
                                assert(events[i] == events.skip(2)[i - 2]);
                            }
                        }
                        if effective_success(r.outcome) {
                            assert(r.attempts >= 1) by {
                                lemma_effective_success_attempted(request.monitor_id@, v, policy, deadline_of(now, policy.ceiling_ms), 0, events.skip(2));
                            }
                        }
                    },
                    _ => {},
                }
            }
        },
        _ => {},
    }
}

proof fn lemma_effective_success_attempted(
    monitor: Seq<char>,
    input: u32,
    policy: &ActuationPolicy,
    deadline: u64,
    done: u32,
    rest: Seq<DriverEvent>,
)
    requires
        done <= policy.max_attempts,
        attempt_model(monitor, input, policy, deadline, done, rest) is Some,
        effective_success(attempt_model(monitor, input, policy, deadline, done, rest)->0.outcome),
    ensures
        attempt_model(monitor, input, policy, deadline, done, rest)->0.attempts > done,
    decreases rest.len(),
{
    if done < policy.max_attempts && rest.len() >= 2 {
        match (rest[0], rest[1]) {
            (DriverEvent::ClockRead { now }, DriverEvent::Write { result, .. }) => {
                if now < deadline {
                    if result == DdcWriteResult::Failed {
                        let k = backoff_events(policy, done, deadline, rest.skip(2))->0;
                        lemma_effective_success_attempted(monitor, input, policy, deadline, (done + 1) as u32, rest.skip(2 + k as int));
                    } else if result == DdcWriteResult::Accepted && policy.readback_reliable {
                        let k = clamped_wait(policy.settle_ms, deadline, rest.skip(2))->0;
                        let after = rest.skip(2 + k as int);
                        if after.len() >= 1 {
                            match after[0] {
                                DriverEvent::Read { value: Some(o), .. } => {
                                    if o != input {
                                        let k2 = backoff_events(policy, done, deadline, after.skip(1))->0;
                                        lemma_effective_success_attempted(monitor, input, policy, deadline, (done + 1) as u32, after.skip(1 + k2 as int));
                                    }
                                },
                                _ => {},
                            }
                        }
                    }
                }
            },
            _ => {},
        }
    }
}

/// Executes a single, already-resolved [`SwitchRequest`] against a [`MonitorDriver`].
///
/// The loop is bounded by both `policy.max_attempts` and a wall-clock hard ceiling
/// (`policy.ceiling_ms`) measured against the injected [`Clock`]. The ceiling bounds time
/// between driver calls; it cannot interrupt a driver call that blocks.
pub struct SwitchExecutor<D: MonitorDriver, L: Delayer, C: Clock> {
    driver: D,
    delayer: L,
    clock: C,
    log: Ghost<Seq<DriverEvent>>,
}

impl<D: MonitorDriver, L: Delayer, C: Clock> SwitchExecutor<D, L, C> {
    /// Every driver/clock interaction this executor has made, oldest first.
    pub closed spec fn log(&self) -> Seq<DriverEvent> {
        self.log@
    }

    /// The owned driver.
    pub closed spec fn driver(&self) -> D {
        self.driver
    }

    pub fn new(driver: D, delayer: L, clock: C) -> (e: Self)
        ensures
            e.log() == Seq::<DriverEvent>::empty(),
            e.driver() == driver,
    {
        SwitchExecutor { driver, delayer, clock, log: Ghost(Seq::empty()) }
    }

    /// Access to the underlying driver (e.g. for calibration reads).
    pub fn driver_mut(&mut self) -> (d: &mut D)
        ensures
            *d == old(self).driver(),
            final(self).driver() == *final(d),
            final(self).log() == old(self).log(),
    {
        &mut self.driver
    }

    /// Read the monitor's input through the driver, outside any switch; the read is logged.
    pub fn read_input(&mut self, monitor_id: &str) -> (r: Option<u32>)
        ensures
            final(self).log() == old(self).log().push(DriverEvent::Read { monitor: monitor_id@, value: r }),
    {
        let r = self.driver.try_read_input(monitor_id);
        proof {
            self.log@ = self.log@.push(DriverEvent::Read { monitor: monitor_id@, value: r });
        }
        r
    }

    /// Wait `ms` milliseconds on a caller-supplied delay; the pause is logged.
    pub fn pause_with<P: Delayer>(&mut self, pause: &P, ms: u32)
        ensures
            final(self).log() == old(self).log().push(DriverEvent::Pause { ms }),
    {
        pause.delay(ms);
        proof {
            self.log@ = self.log@.push(DriverEvent::Pause { ms });
        }
    }

    /// Runs the capability gate, the soft-brick guards and the bounded write/verify loop. The
    /// calls made are appended to the log, and the result is what [`run_model`] gives for them.
    pub fn execute(&mut self, request: &SwitchRequest, policy: &ActuationPolicy) -> (result: SwitchResult)
        ensures
            final(self).log().len() >= old(self).log().len(),
            final(self).log().take(old(self).log().len() as int) == old(self).log(),
            run_model(request, policy, final(self).log().skip(old(self).log().len() as int))
                == Some(result@),
    {
        let ghost start = self.log@;
        let monitor = request.monitor_id.as_str();
        let v = request.input_value;
        // 1. Capability gate.
        let available = self.driver.is_ddc_available(monitor);
        proof {
            self.log@ = self.log@.push(DriverEvent::Availability { monitor: monitor@, available });
        }
        let ghost first = self.log@;
        if !available {
            let r = refusal(SwitchOutcome::DdcUnavailable, String::from_str("DDC/CI unavailable (disabled in OSD or unresponsive)."));
            proof {
                assert(self.log@.skip(start.len() as int) =~= seq![DriverEvent::Availability { monitor: monitor@, available }]);
            }
            return r;
        }
        // 2. Soft-brick guards: never write a blocked or non-confirmed value.
        if policy.blocked_values.contains(&v) {
            let mut d = String::from_str("Input 0x");
            push_hex02(&mut d, v as u64);
            d.append(" is on this monitor's blocked list.");
            let r = refusal(SwitchOutcome::BlockedValue, d);
            proof {
                assert(self.log@.skip(start.len() as int) =~= seq![DriverEvent::Availability { monitor: monitor@, available }]);
            }
            return r;
        }
        if !policy.confirmed_values.contains(&v) {
            let mut d = String::from_str("Input 0x");
            push_hex02(&mut d, v as u64);
            d.append(" is not self-confirmed for this peer+monitor.");
            let r = refusal(SwitchOutcome::NeedsCalibration, d);
            proof {
                assert(self.log@.skip(start.len() as int) =~= seq![DriverEvent::Availability { monitor: monitor@, available }]);
            }
            return r;
        }
        // 3. Write / settle / verify with retries, bounded by attempts and the hard ceiling.
        let started = self.clock.now_ms();
        proof {
            self.log@ = self.log@.push(DriverEvent::ClockRead { now: started });
        }
        let ghost second = self.log@;
        let deadline = started.saturating_add(policy.ceiling_ms as u64);
        let result = self.attempt_from(request, policy, deadline, 0);
        proof {
            let all = self.log@.skip(start.len() as int);
            assert(second.take(start.len() as int) =~= start);
            self.lemma_extend(start, second, 2);
            assert(all[0] == second[start.len() as int]);
            assert(all[1] == second[start.len() + 1int]);
            assert(deadline == deadline_of(started, policy.ceiling_ms));
        }
        result
    }

    #[verifier::rlimit(60)]
    #[verifier::spinoff_prover]
    fn attempt_from(&mut self, request: &SwitchRequest, policy: &ActuationPolicy, deadline: u64, done: u32) -> (result: SwitchResult)
        requires
            done <= policy.max_attempts,
        ensures
            final(self).log().len() >= old(self).log().len(),
            final(self).log().take(old(self).log().len() as int) == old(self).log(),
            attempt_model(
                request.monitor_id@,
                request.input_value,
                policy,
                deadline,
                done,
                final(self).log().skip(old(self).log().len() as int),
            ) == Some(result@),
        decreases policy.max_attempts - done,
    {
        let ghost start = self.log@;
        let monitor = request.monitor_id.as_str();
        let v = request.input_value;
        if done >= policy.max_attempts {
            let mut d = String::from_str("Switch not confirmed after ");
            push_dec(&mut d, done as u64);
            d.append(" attempt(s).");
            proof {
                assert(self.log@.skip(start.len() as int) =~= Seq::<DriverEvent>::empty());
            }
            return SwitchResult { outcome: SwitchOutcome::Failed, attempts: done, observed_value: None, detail: Some(d) };
        }
        let now = self.clock.now_ms();
        proof {
            self.log@ = self.log@.push(DriverEvent::ClockRead { now });
        }
        if now >= deadline {
            let mut d = String::from_str("Hard ceiling of ");
            push_dec(&mut d, policy.ceiling_ms as u64);
            d.append(" ms reached after ");
            push_dec(&mut d, done as u64);
            d.append(" attempt(s).");
            proof {
                assert(self.log@.skip(start.len() as int) =~= seq![DriverEvent::ClockRead { now }]);
            }
            return SwitchResult { outcome: SwitchOutcome::Failed, attempts: done, observed_value: None, detail: Some(d) };
        }
        let w = self.driver.write_input(monitor, v);
        proof {
            self.log@ = self.log@.push(DriverEvent::Write { monitor: monitor@, value: v, result: w });
        }
        let ghost after_write = self.log@;
        proof {
            assert(after_write.take(start.len() as int) =~= start);
        }
        match w {
            DdcWriteResult::Unsupported => {
                // The OS/monitor rejected the code outright; retrying won't help.
                proof {
                    assert(self.log@.skip(start.len() as int) =~= seq![DriverEvent::ClockRead { now }, DriverEvent::Write { monitor: monitor@, value: v, result: w }]);
                }
                return SwitchResult {
                    outcome: SwitchOutcome::Unsupported,
                    attempts: done + 1,
                    observed_value: None,
                    detail: Some(String::from_str("Set input reported the code unsupported; use a fallback path.")),
                };
            },
            DdcWriteResult::Failed => {
                self.backoff(policy, done, deadline);
                let ghost after_wait = self.log@;
                let r = self.attempt_from(request, policy, deadline, done + 1);
                proof {
                    let k = after_wait.len() - after_write.len();
                    lemma_prefix_trans(start, after_write, after_wait);
                    self.lemma_extend(start, after_wait, 2 + k);
                    let all = self.log@.skip(start.len() as int);
                    let wv = after_wait.skip(after_write.len() as int);
                    assert forall|i: int| 0 <= i < wv.len() implies #[trigger] all.skip(2)[i] == wv[i] by {
                        assert(all.skip(2)[i] == all[2 + i]);
                    }
                    lemma_backoff_shape(policy, done, deadline, wv, all.skip(2));
                    assert(all.skip(2 + k) =~= all.skip(2).skip(k));
                    assert(all[0] == after_write[start.len() as int]);
                    assert(all[1] == after_write[start.len() + 1int]);
                }
                return r;
            },
            DdcWriteResult::Accepted => {},
        }
        // Write accepted — let the panel settle before verifying (never past the ceiling).
        self.delay_clamped(policy.settle_ms, deadline);
        let ghost after_settle = self.log@;
        proof {
            lemma_prefix_trans(start, after_write, after_settle);
            let wv = after_settle.skip(after_write.len() as int);
            lemma_clamped_wait_shape(policy.settle_ms, deadline, wv, wv);
        }
        if !policy.readback_reliable {
            proof {
                assert(self.log@.take(self.log@.len() as int) =~= self.log@);
                let k = after_settle.len() - after_write.len();
                self.lemma_extend(start, after_settle, 2 + k);
                let all = self.log@.skip(start.len() as int);
                let wv = after_settle.skip(after_write.len() as int);
                assert forall|i: int| 0 <= i < wv.len() implies #[trigger] all.skip(2)[i] == wv[i] by {
                    assert(all.skip(2)[i] == all[2 + i]);
                }
                lemma_clamped_wait_shape(policy.settle_ms, deadline, wv, all.skip(2));
                assert(all[0] == after_write[start.len() as int]);
                assert(all[1] == after_write[start.len() + 1int]);
            }
            return SwitchResult {
                outcome: SwitchOutcome::AssumedSuccessReadbackInconclusive,
                attempts: done + 1,
                observed_value: None,
                detail: Some(String::from_str("Write OK; read-back skipped (panel marked read-back-unreliable).")),
            };
        }
        let read = self.driver.try_read_input(monitor);
        proof {
            self.log@ = self.log@.push(DriverEvent::Read { monitor: monitor@, value: read });
        }
        let ghost after_read = self.log@;
        proof {
            assert(after_read.take(after_settle.len() as int) =~= after_settle);
            lemma_prefix_trans(start, after_settle, after_read);
        }
        match read {
            Some(observed) => {
                if observed == v {
                    proof {
                        assert(self.log@.take(self.log@.len() as int) =~= self.log@);
                        self.lemma_settled_prefix(start, after_write, after_settle, after_read, policy.settle_ms, deadline);
                    }
                    SwitchResult { outcome: SwitchOutcome::Success, attempts: done + 1, observed_value: Some(observed), detail: None }
                } else {
                    // Confirmed-wrong: the write didn't take. Retry.
                    self.backoff(policy, done, deadline);
                    let ghost after_wait = self.log@;
                    let r = self.attempt_from(request, policy, deadline, done + 1);
                    proof {
                        lemma_prefix_trans(start, after_read, after_wait);
                        lemma_prefix_trans(after_settle, after_read, after_wait);
                        self.lemma_settled_prefix(start, after_write, after_settle, after_wait, policy.settle_ms, deadline);
                        let k = after_settle.len() - after_write.len();
                        let k2 = after_wait.len() - after_read.len();
                        let all = self.log@.skip(start.len() as int);
                        let after = all.skip(2 + k);
                        let wv = after_wait.skip(after_read.len() as int);
                        self.lemma_extend(start, after_wait, 2 + k + 1 + k2);
                        assert(after[0] == all[2 + k]);
                        assert(all[2 + k] == after_read[after_settle.len() as int]);
                        assert forall|i: int| 0 <= i < wv.len() implies #[trigger] after.skip(1)[i] == wv[i] by {
                            assert(after.skip(1)[i] == all[2 + k + 1 + i]);
                        }
                        lemma_backoff_shape(policy, done, deadline, wv, after.skip(1));
                        assert(after.skip(1 + k2) =~= all.skip(2 + k + 1 + k2));
                    }
                    r
                }
            },
            None => {
                // Read-back failed after a successful write: inconclusive, not failure.
                proof {
                    assert(self.log@.take(self.log@.len() as int) =~= self.log@);
                    self.lemma_settled_prefix(start, after_write, after_settle, after_read, policy.settle_ms, deadline);
                    let k = after_settle.len() - after_write.len();
                    let all = self.log@.skip(start.len() as int);
                    assert(all.skip(2 + k).len() == 1);
                }
                SwitchResult {
                    outcome: SwitchOutcome::AssumedSuccessReadbackInconclusive,
                    attempts: done + 1,
                    observed_value: None,
                    detail: Some(String::from_str("Write OK; read-back failed (inconclusive).")),
                }
            },
        }
    }

    /// After the write at `after_write` (two events past `start`) and the settle wait up to
    /// `after_settle`, the current log (which extends `upto`, one event past the settle wait)
    /// starts its run with the clock reading, the write, that wait and the read-back.
    proof fn lemma_settled_prefix(
        &self,
        start: Seq<DriverEvent>,
        after_write: Seq<DriverEvent>,
        after_settle: Seq<DriverEvent>,
        upto: Seq<DriverEvent>,
        settle_ms: u32,
        deadline: u64,
    )
        requires
            after_write.len() == start.len() + 2,
            after_write.take(start.len() as int) == start,
            after_settle.len() >= after_write.len(),
            after_settle.take(after_write.len() as int) == after_write,
            clamped_wait(settle_ms, deadline, after_settle.skip(after_write.len() as int))
                == Some((after_settle.len() - after_write.len()) as nat),
            upto.len() >= after_settle.len() + 1,
            upto.take(after_settle.len() as int) == after_settle,
            upto.take(start.len() as int) == start,
            self.log@.len() >= upto.len(),
            self.log@.take(upto.len() as int) == upto,
        ensures
            ({
                let all = self.log@.skip(start.len() as int);
                let k = after_settle.len() - after_write.len();
                &&& self.log@.take(start.len() as int) == start
                &&& all[0] == after_write[start.len() as int]
                &&& all[1] == after_write[start.len() + 1int]
                &&& clamped_wait(settle_ms, deadline, all.skip(2)) == Some(k as nat)
                &&& 2 + k < all.len()
                &&& all.skip(2 + k)[0] == upto[after_settle.len() as int]
                &&& (self.log@.len() == upto.len() ==> all.skip(2 + k).len() == upto.len() - after_settle.len())
            }),
    {
        let k = after_settle.len() - after_write.len();
        self.lemma_extend(start, upto, upto.len() - start.len());
        let all = self.log@.skip(start.len() as int);
        let wv = after_settle.skip(after_write.len() as int);
        assert(all[0] == upto[start.len() as int]);
        assert(upto[start.len() as int] == after_settle[start.len() as int]);
        assert(after_settle[start.len() as int] == after_write[start.len() as int]);
        assert(all[1] == upto[start.len() + 1int]);
        assert(upto[start.len() + 1int] == after_settle[start.len() + 1int]);
        assert(after_settle[start.len() + 1int] == after_write[start.len() + 1int]);
        assert forall|i: int| 0 <= i < wv.len() implies #[trigger] all.skip(2)[i] == wv[i] by {
            assert(all.skip(2)[i] == all[2 + i]);
            assert(all[2 + i] == upto[start.len() + 2 + i]);
            assert(upto[start.len() + 2 + i] == after_settle[start.len() + 2 + i]);
        }
        lemma_clamped_wait_shape(settle_ms, deadline, wv, all.skip(2));
        assert(all.skip(2 + k)[0] == all[2 + k]);
    }

    /// Splitting of the log: `start` is a prefix of `mid` (which adds `k` events) and `mid` is a
    /// prefix of the current log.
    proof fn lemma_extend(&self, start: Seq<DriverEvent>, mid: Seq<DriverEvent>, k: int)
        requires
            mid.len() == start.len() + k,
            0 <= k,
            mid.take(start.len() as int) == start,
            self.log@.len() >= mid.len(),
            self.log@.take(mid.len() as int) == mid,
        ensures
            self.log@.take(start.len() as int) == start,
            self.log@.skip(start.len() as int).skip(k) == self.log@.skip(mid.len() as int),
            forall|i: int| 0 <= i < k ==> #[trigger] self.log@.skip(start.len() as int)[i] == mid[start.len() + i],
    {
        assert forall|i: int| 0 <= i < start.len() implies self.log@[i] == start[i] by {
            assert(mid.take(start.len() as int)[i] == mid[i]);
            assert(self.log@.take(mid.len() as int)[i] == self.log@[i]);
        }
        assert(self.log@.take(start.len() as int) =~= start);
        assert(self.log@.skip(start.len() as int).skip(k) =~= self.log@.skip(mid.len() as int));
        assert forall|i: int| 0 <= i < k implies #[trigger] self.log@.skip(start.len() as int)[i] == mid[start.len() + i] by {
            assert(self.log@.take(mid.len() as int)[start.len() + i] == self.log@[start.len() + i]);
        }
    }

    /// Wait the linear backoff after failed attempt `attempt_index` (never past the ceiling);
    /// the clock reading and the wait are logged.
    fn backoff(&mut self, policy: &ActuationPolicy, attempt_index: u32, deadline: u64)
        ensures
            final(self).log().len() >= old(self).log().len(),
            final(self).log().take(old(self).log().len() as int) == old(self).log(),
            backoff_events(policy, attempt_index, deadline, final(self).log().skip(old(self).log().len() as int))
                == Some((final(self).log().len() - old(self).log().len()) as nat),
    {
        if policy.backoff_ms > 0 {
            // Linear backoff, overflow-safe.
            let factor = attempt_index as u64 + 1;
            let base = policy.backoff_ms as u64;
            assert(base * factor <= u64::MAX) by (nonlinear_arith)
                requires
                    base <= u32::MAX,
                    factor <= u32::MAX + 1,
            ;
            let product = base * factor;
            let wait: u32 = if product > u32::MAX as u64 {
                u32::MAX
            } else {
                product as u32
            };
            assert(wait == backoff_wait(policy, attempt_index));
            self.delay_clamped(wait, deadline);
        } else {
            proof {
                assert(self.log@.take(self.log@.len() as int) =~= self.log@);
            }
        }
    }

    /// Delay `ms`, but never sleep past the hard ceiling `deadline`; the clock reading and the
    /// wait made are logged.
    fn delay_clamped(&mut self, ms: u32, deadline: u64)
        ensures
            final(self).log().len() >= old(self).log().len(),
            final(self).log().take(old(self).log().len() as int) == old(self).log(),
            clamped_wait(ms, deadline, final(self).log().skip(old(self).log().len() as int))
                == Some((final(self).log().len() - old(self).log().len()) as nat),
    {
        let ghost start = self.log@;
        let now = self.clock.now_ms();
        proof {
            self.log@ = self.log@.push(DriverEvent::ClockRead { now });
        }
        let remaining = deadline.saturating_sub(now);
        let capped = if (ms as u64) < remaining {
            ms as u64
        } else {
            remaining
        };
        assert(capped == clamp_wait(ms, deadline, now));
        if capped > 0 {
            self.delayer.delay(capped as u32);
            proof {
                self.log@ = self.log@.push(DriverEvent::Pause { ms: capped as u32 });
            }
        }
        proof {
            assert(self.log@.take(start.len() as int) =~= start);
            let ev = self.log@.skip(start.len() as int);
            assert(ev[0] == DriverEvent::ClockRead { now });
            if capped > 0 {
                assert(ev[1] == DriverEvent::Pause { ms: capped as u32 });
            }
        }
    }
}

/// Prefixes compose: `a` is a prefix of `b`, which is a prefix of `c`.
proof fn lemma_prefix_trans(a: Seq<DriverEvent>, b: Seq<DriverEvent>, c: Seq<DriverEvent>)
    requires
        a.len() <= b.len() <= c.len(),
        b.take(a.len() as int) == a,
        c.take(b.len() as int) == b,
    ensures
        c.take(a.len() as int) == a,
{
    assert forall|i: int| 0 <= i < a.len() implies c.take(a.len() as int)[i] == a[i] by {
        assert(c.take(b.len() as int)[i] == c[i]);
        assert(b.take(a.len() as int)[i] == b[i]);
    }
    assert(c.take(a.len() as int) =~= a);
}

/// The backoff's events: at most two, none a write, decided by themselves alone.
pub proof fn lemma_backoff_shape(policy: &ActuationPolicy, done: u32, deadline: u64, w: Seq<DriverEvent>, s: Seq<DriverEvent>)
    requires
        backoff_events(policy, done, deadline, w) == Some(w.len()),
        w.len() <= s.len(),
        forall|i: int| 0 <= i < w.len() ==> #[trigger] s[i] == w[i],
    ensures
        backoff_events(policy, done, deadline, s) == Some(w.len()),
        w.len() <= 2,
        forall|i: int| 0 <= i < w.len() ==> !(#[trigger] w[i] is Write),
        write_count(w) == 0,
{
    if policy.backoff_ms > 0 {
        lemma_clamped_wait_shape(backoff_wait(policy, done), deadline, w, s);
    } else {
        assert(w.len() == 0);
    }
}

fn refusal(outcome: SwitchOutcome, detail: String) -> (r: SwitchResult)
    ensures
        r@ == plain_result(outcome, 0, detail@),
{
    SwitchResult { outcome, attempts: 0, observed_value: None, detail: Some(detail) }
}

} // verus!
