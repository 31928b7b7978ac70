//! Decisions of the guided hardware round-trip test: whether polling after a physical source
//! switch found a stable second input, and whether a written input was confirmed by a live read.

use crate::text::{chars_of, string_of_range, string_push};
use crate::types::DdcWriteResult;
use vstd::prelude::*;

verus! {

/// What polling after the physical switch found.
#[derive(Debug, Clone, Copy, PartialEq, Eq, Structural)]
pub enum DistinctInputObservation {
    /// Two consecutive successful reads returned this value, which differs from A.
    Distinct(u32),
    /// Every successful read returned A.
    Unchanged,
    /// Some read differed from A, but never twice in a row with the same value.
    Inconsistent,
    /// No read succeeded.
    Unreadable,
}

/// Whether a written input was confirmed.
#[derive(Debug, Clone, Copy, PartialEq, Eq, Structural)]
pub enum ExpectedInputObservation {
    Expected,
    /// The last successful read, which never matched the expected value.
    Other(u32),
    Unreadable,
}

/// Reads `i - 1` and `i` are the same successful value, different from A.
pub open spec fn pair_at(a: u32, r: Seq<Option<u32>>, i: int) -> bool {
    r[i - 1] is Some && r[i] == r[i - 1] && r[i]->0 != a
}

/// The classification of a whole poll.
pub open spec fn classify_distinct_spec(a: u32, r: Seq<Option<u32>>) -> DistinctInputObservation {
    if exists|i: int| 1 <= i < r.len() && #[trigger] pair_at(a, r, i) {
        let i = choose|i: int| 1 <= i < r.len() && #[trigger] pair_at(a, r, i) && forall|j: int| 1 <= j < i ==> !pair_at(a, r, j);
        DistinctInputObservation::Distinct(r[i]->0)
    } else if exists|i: int| 0 <= i < r.len() && #[trigger] r[i] is Some && r[i]->0 != a {
        DistinctInputObservation::Inconsistent
    } else if exists|i: int| 0 <= i < r.len() && #[trigger] r[i] is Some {
        DistinctInputObservation::Unchanged
    } else {
        DistinctInputObservation::Unreadable
    }
}

/// Decide whether polling after the physical switch produced a stable second input: a value is
/// eligible only after two consecutive successful reads return the same value, different from A.
pub fn classify_distinct_input(input_a: u32, readings: &[Option<u32>]) -> (o: DistinctInputObservation)
    ensures
        o == classify_distinct_spec(input_a, readings@),
{
    let ghost r = readings@;
    let mut previous_distinct: Option<u32> = None;
    let mut saw_successful_read = false;
    let mut saw_distinct_read = false;
    let mut i: usize = 0;
    while i < readings.len()
        invariant
            r == readings@,
            i <= r.len(),
            forall|j: int| 1 <= j < i ==> !#[trigger] pair_at(input_a, r, j),
            previous_distinct == (if i > 0 && r[i - 1] is Some && r[i - 1]->0 != input_a { r[i - 1] } else { None }),
            saw_successful_read == exists|j: int| 0 <= j < i && #[trigger] r[j] is Some,
            saw_distinct_read == exists|j: int| 0 <= j < i && #[trigger] r[j] is Some && r[j]->0 != input_a,
        decreases r.len() - i,
    {
        match readings[i] {
            Some(value) => {
                saw_successful_read = true;
                if value == input_a {
                    previous_distinct = None;
                } else {
                    saw_distinct_read = true;
                    if previous_distinct == Some(value) {
                        proof {
                            assert(pair_at(input_a, r, i as int));
                            let k = choose|k: int| 1 <= k < r.len() && #[trigger] pair_at(input_a, r, k) && forall|j: int|
                                1 <= j < k ==> !pair_at(input_a, r, j);
                            if k < i {
                            } else if k > i {
                                assert(!pair_at(input_a, r, i as int));
                            }
                        }
                        return DistinctInputObservation::Distinct(value);
                    }
                    previous_distinct = Some(value);
                }
            },
            None => {
                previous_distinct = None;
            },
        }
        proof {
            assert(!pair_at(input_a, r, i as int) || i == 0);
        }
        i = i + 1;
    }
    proof {
        assert(!exists|i: int| 1 <= i < r.len() && #[trigger] pair_at(input_a, r, i));
    }
    if saw_distinct_read {
        DistinctInputObservation::Inconsistent
    } else if saw_successful_read {
        DistinctInputObservation::Unchanged
    } else {
        DistinctInputObservation::Unreadable
    }
}

/// The classification of a confirmation poll: `Expected` if any successful read is the expected
/// value; else the last successful read; else unreadable.
pub open spec fn classify_expected_spec(expected: u32, r: Seq<Option<u32>>) -> ExpectedInputObservation {
    if exists|i: int| 0 <= i < r.len() && #[trigger] r[i] == Some(expected) {
        ExpectedInputObservation::Expected
    } else if exists|i: int| 0 <= i < r.len() && #[trigger] r[i] is Some {
        let i = choose|i: int| 0 <= i < r.len() && #[trigger] r[i] is Some && forall|j: int| i < j < r.len() ==> r[j] is None;
        ExpectedInputObservation::Other(r[i]->0)
    } else {
        ExpectedInputObservation::Unreadable
    }
}

pub fn classify_expected_input(expected: u32, readings: &[Option<u32>]) -> (o: ExpectedInputObservation)
    ensures
        o == classify_expected_spec(expected, readings@),
{
    let ghost r = readings@;
    let mut i: usize = 0;
    while i < readings.len()
        invariant
            r == readings@,
            i <= r.len(),
            forall|j: int| 0 <= j < i ==> r[j] != Some(expected),
        decreases r.len() - i,
    {
        if readings[i] == Some(expected) {
            return ExpectedInputObservation::Expected;
        }
        i = i + 1;
    }
    let mut k: usize = readings.len();
    while k > 0
        invariant
            r == readings@,
            k <= r.len(),
            forall|j: int| 0 <= j < r.len() ==> r[j] != Some(expected),
            forall|j: int| k <= j < r.len() ==> r[j] is None,
        decreases k,
    {
        match readings[k - 1] {
            Some(value) => {
                proof {
                    let w = (k - 1) as int;
                    assert(r[w] is Some && forall|j: int| w < j < r.len() ==> r[j] is None);
                    let c = choose|c: int| 0 <= c < r.len() && #[trigger] r[c] is Some && forall|j: int| c < j < r.len() ==> r[j] is None;
                    if c < w {
                        assert(r[w] is None);
                    } else if c > w {
                        assert(r[c] is None);
                    }
                }
                return ExpectedInputObservation::Other(value);
            },
            None => {},
        }
        k = k - 1;
    }
    ExpectedInputObservation::Unreadable
}

/// `s` shortened to at most `n` characters: unchanged when it fits, else its first `n - 1`
/// characters followed by `~`.
pub fn truncate(s: &str, n: usize) -> (r: String)
    ensures
        s@.len() <= n ==> r@ == s@,
        s@.len() > n ==> r@ == s@.take(if n == 0 { 0 } else { n - 1 }) + seq!['~'],
{
    let v = chars_of(s);
    if v.len() <= n {
        return string_of_range(&v, 0, v.len());
    }
    let keep = if n == 0 { 0 } else { n - 1 };
    let mut out = string_of_range(&v, 0, keep);
    string_push(&mut out, '~');
    proof {
        assert(s@.subrange(0, s@.len() as int) =~= s@);
    }
    out
}


/// The guided round trip passes only when both automatic writes were accepted, the user saw the
/// monitor reach B and come back to A, and a live read confirmed A afterwards.
pub fn round_trip_passed(
    to_b: DdcWriteResult,
    to_a: DdcWriteResult,
    saw_b: bool,
    returned_to_a: bool,
    final_read: ExpectedInputObservation,
) -> (b: bool)
    ensures
        b == (to_b == DdcWriteResult::Accepted && to_a == DdcWriteResult::Accepted && saw_b && returned_to_a
            && final_read == ExpectedInputObservation::Expected),
{
    let writes_succeeded = match (to_b, to_a) {
        (DdcWriteResult::Accepted, DdcWriteResult::Accepted) => true,
        _ => false,
    };
    let readback_confirmed = match final_read {
        ExpectedInputObservation::Expected => true,
        _ => false,
    };
    writes_succeeded && saw_b && returned_to_a && readback_confirmed
}

/// How long the guided test lets the monitor settle after writing captured A.
pub const SPIKE_SETTLE_MS: u32 = 2500;
/// How long the automatic round trip stays on B before writing captured A again.
pub const SPIKE_DWELL_MS: u32 = 3500;

/// The questions the guided test asks the person at the monitor.
#[derive(Debug, Clone, Copy, PartialEq, Eq, Structural)]
pub enum SpikePrompt {
    /// Is the monitor showing this PC on the original input (A)?
    ShowingA,
    /// Is the monitor visibly showing the intended B source now?
    ShowingB,
    /// Write captured A now to bring the monitor back?
    WriteA,
    /// Did the monitor return to this PC on A?
    ReturnedToA,
    /// Run the complete automatic round trip now?
    RunRoundTrip,
    /// During the round trip, did the monitor switch from A to B?
    SawB,
    /// Did it then return automatically to A?
    ReturnedAutomatically,
}

/// How the guided test ended.
#[derive(Debug, Clone, Copy, PartialEq, Eq, Structural)]
pub enum SpikeOutcome {
    /// The monitor was not on A: nothing was read or written.
    NotOnA,
    /// A could not be read: nothing was written.
    AUnreadable,
    /// Polling on B found no stable value distinct from A: nothing was written.
    BNotIdentified(DistinctInputObservation),
    /// The person did not confirm B: nothing was written.
    BNotConfirmed,
    /// The person declined the recovery write: nothing was written.
    RecoveryDeclined,
    /// The recovery write was not seen to bring the picture back.
    RecoveryNotSeen,
    /// The picture came back, but the recovery write reported an error.
    RecoveryWriteError(DdcWriteResult),
    /// The read-back after the recovery did not confirm A.
    RecoveryReadBack(ExpectedInputObservation),
    /// The recovery passed; the automatic round trip was skipped.
    Partial,
    /// The automatic round trip ran; `passed` is [`round_trip_passed`] of the rest.
    RoundTrip {
        passed: bool,
        to_b: DdcWriteResult,
        to_a: DdcWriteResult,
        saw_b: bool,
        returned_to_a: bool,
        final_read: ExpectedInputObservation,
    },
}

/// Where the guided test stands. A and B are held only once captured from live reads.
#[derive(Debug, Clone, Copy, PartialEq, Eq, Structural)]
pub enum SpikeState {
    Start,
    AskedShowingA,
    ReadingA,
    SwitchingToB { a: u32 },
    PollingB { a: u32 },
    AskedShowingB { a: u32, b: u32 },
    AskedWriteA { a: u32, b: u32 },
    RecoveringToA { a: u32, b: u32 },
    AskedReturnedToA { a: u32, b: u32, recovery: DdcWriteResult },
    VerifyingA { a: u32, b: u32 },
    AskedRoundTrip { a: u32, b: u32 },
    WritingB { a: u32, b: u32 },
    WritingA { a: u32, b: u32, to_b: DdcWriteResult },
    AskedSawB { a: u32, b: u32, to_b: DdcWriteResult, to_a: DdcWriteResult },
    AskedReturnedAutomatically { a: u32, b: u32, to_b: DdcWriteResult, to_a: DdcWriteResult, saw_b: bool },
    FinalCheck { a: u32, b: u32, to_b: DdcWriteResult, to_a: DdcWriteResult, saw_b: bool, returned_to_a: bool },
    Done(SpikeOutcome),
}

/// What came back from the last action.
#[derive(Debug, Clone, Copy, PartialEq, Eq, Structural)]
pub enum SpikeAnswer {
    /// The test is started, or the person pressed Enter after a pause.
    Continue,
    /// The person's yes or no.
    Confirmed(bool),
    /// One live read of the input.
    Read(Option<u32>),
    /// The classification of the poll after the physical switch.
    Polled(DistinctInputObservation),
    /// The result of a write (the wait after it has passed).
    Written(DdcWriteResult),
    /// The classification of a confirmation poll for A.
    Verified(ExpectedInputObservation),
}

/// What the test asks to be done next.
#[derive(Debug, Clone, Copy, PartialEq, Eq, Structural)]
pub enum SpikeAction {
    Ask(SpikePrompt),
    /// Read the input once.
    ReadInput,
    /// Wait for the person to switch the monitor to B by hand, then answer `Continue`.
    AwaitPhysicalSwitch,
    /// Poll for two matching reads distinct from `a`.
    PollDistinct(u32),
    /// Poll for a read equal to the value.
    PollExpected(u32),
    /// Write this input value, then wait this long.
    Write { value: u32, then_wait_ms: u32 },
    Finish(SpikeOutcome),
    /// The answer does not fit the state: nothing to do.
    Ignore,
}

/// The guided test's transition table: from a state and the answer to the last action, the next
/// state and action.
pub open spec fn spike_next(s: SpikeState, ans: SpikeAnswer) -> (SpikeState, SpikeAction) {
    match (s, ans) {
        (SpikeState::Start, SpikeAnswer::Continue) => (SpikeState::AskedShowingA, SpikeAction::Ask(SpikePrompt::ShowingA)),
        (SpikeState::AskedShowingA, SpikeAnswer::Confirmed(yes)) =>
            if yes { (SpikeState::ReadingA, SpikeAction::ReadInput) }
            else { (SpikeState::Done(SpikeOutcome::NotOnA), SpikeAction::Finish(SpikeOutcome::NotOnA)) },
        (SpikeState::ReadingA, SpikeAnswer::Read(r)) => match r {
            Some(a) => (SpikeState::SwitchingToB { a }, SpikeAction::AwaitPhysicalSwitch),
            None => (SpikeState::Done(SpikeOutcome::AUnreadable), SpikeAction::Finish(SpikeOutcome::AUnreadable)),
        },
        (SpikeState::SwitchingToB { a }, SpikeAnswer::Continue) => (SpikeState::PollingB { a }, SpikeAction::PollDistinct(a)),
        (SpikeState::PollingB { a }, SpikeAnswer::Polled(o)) => match o {
            DistinctInputObservation::Distinct(b) => (SpikeState::AskedShowingB { a, b }, SpikeAction::Ask(SpikePrompt::ShowingB)),
            _ => (SpikeState::Done(SpikeOutcome::BNotIdentified(o)), SpikeAction::Finish(SpikeOutcome::BNotIdentified(o))),
        },
        (SpikeState::AskedShowingB { a, b }, SpikeAnswer::Confirmed(yes)) =>
            if yes { (SpikeState::AskedWriteA { a, b }, SpikeAction::Ask(SpikePrompt::WriteA)) }
            else { (SpikeState::Done(SpikeOutcome::BNotConfirmed), SpikeAction::Finish(SpikeOutcome::BNotConfirmed)) },
        (SpikeState::AskedWriteA { a, b }, SpikeAnswer::Confirmed(yes)) =>
            if yes { (SpikeState::RecoveringToA { a, b }, SpikeAction::Write { value: a, then_wait_ms: SPIKE_SETTLE_MS }) }
            else { (SpikeState::Done(SpikeOutcome::RecoveryDeclined), SpikeAction::Finish(SpikeOutcome::RecoveryDeclined)) },
        (SpikeState::RecoveringToA { a, b }, SpikeAnswer::Written(w)) =>
            (SpikeState::AskedReturnedToA { a, b, recovery: w }, SpikeAction::Ask(SpikePrompt::ReturnedToA)),
        (SpikeState::AskedReturnedToA { a, b, recovery }, SpikeAnswer::Confirmed(yes)) =>
            if !yes { (SpikeState::Done(SpikeOutcome::RecoveryNotSeen), SpikeAction::Finish(SpikeOutcome::RecoveryNotSeen)) }
            else if recovery != DdcWriteResult::Accepted {
                (SpikeState::Done(SpikeOutcome::RecoveryWriteError(recovery)), SpikeAction::Finish(SpikeOutcome::RecoveryWriteError(recovery)))
            } else { (SpikeState::VerifyingA { a, b }, SpikeAction::PollExpected(a)) },
        (SpikeState::VerifyingA { a, b }, SpikeAnswer::Verified(o)) =>
            if o == ExpectedInputObservation::Expected { (SpikeState::AskedRoundTrip { a, b }, SpikeAction::Ask(SpikePrompt::RunRoundTrip)) }
            else { (SpikeState::Done(SpikeOutcome::RecoveryReadBack(o)), SpikeAction::Finish(SpikeOutcome::RecoveryReadBack(o))) },
        (SpikeState::AskedRoundTrip { a, b }, SpikeAnswer::Confirmed(yes)) =>
            if yes { (SpikeState::WritingB { a, b }, SpikeAction::Write { value: b, then_wait_ms: SPIKE_DWELL_MS }) }
            else { (SpikeState::Done(SpikeOutcome::Partial), SpikeAction::Finish(SpikeOutcome::Partial)) },
        (SpikeState::WritingB { a, b }, SpikeAnswer::Written(to_b)) =>
            (SpikeState::WritingA { a, b, to_b }, SpikeAction::Write { value: a, then_wait_ms: SPIKE_SETTLE_MS }),
        (SpikeState::WritingA { a, b, to_b }, SpikeAnswer::Written(to_a)) =>
            (SpikeState::AskedSawB { a, b, to_b, to_a }, SpikeAction::Ask(SpikePrompt::SawB)),
        (SpikeState::AskedSawB { a, b, to_b, to_a }, SpikeAnswer::Confirmed(saw_b)) =>
            (SpikeState::AskedReturnedAutomatically { a, b, to_b, to_a, saw_b }, SpikeAction::Ask(SpikePrompt::ReturnedAutomatically)),
        (SpikeState::AskedReturnedAutomatically { a, b, to_b, to_a, saw_b }, SpikeAnswer::Confirmed(returned_to_a)) =>
            (SpikeState::FinalCheck { a, b, to_b, to_a, saw_b, returned_to_a }, SpikeAction::PollExpected(a)),
        (SpikeState::FinalCheck { a, b, to_b, to_a, saw_b, returned_to_a }, SpikeAnswer::Verified(final_read)) => {
            let passed = to_b == DdcWriteResult::Accepted && to_a == DdcWriteResult::Accepted && saw_b && returned_to_a
                && final_read == ExpectedInputObservation::Expected;
            let o = SpikeOutcome::RoundTrip { passed, to_b, to_a, saw_b, returned_to_a, final_read };
            (SpikeState::Done(o), SpikeAction::Finish(o))
        },
        _ => (s, SpikeAction::Ignore),
    }
}

/// One step of the guided A -> B -> A test. Only two values are ever written: A, captured from
/// a live read while A showed, and B, captured from two matching live reads distinct from A after
/// the person switched by hand; A is written first (recovery), then B and A again (round trip),
/// each only after the person confirmed.
pub fn spike_step(s: SpikeState, answer: SpikeAnswer) -> (r: (SpikeState, SpikeAction))
    ensures
        r == spike_next(s, answer),
{
    match (s, answer) {
        (SpikeState::Start, SpikeAnswer::Continue) => (SpikeState::AskedShowingA, SpikeAction::Ask(SpikePrompt::ShowingA)),
        (SpikeState::AskedShowingA, SpikeAnswer::Confirmed(yes)) => {
            if yes {
                (SpikeState::ReadingA, SpikeAction::ReadInput)
            } else {
                (SpikeState::Done(SpikeOutcome::NotOnA), SpikeAction::Finish(SpikeOutcome::NotOnA))
            }
        },
        (SpikeState::ReadingA, SpikeAnswer::Read(r)) => match r {
            Some(a) => (SpikeState::SwitchingToB { a }, SpikeAction::AwaitPhysicalSwitch),
            None => (SpikeState::Done(SpikeOutcome::AUnreadable), SpikeAction::Finish(SpikeOutcome::AUnreadable)),
        },
        (SpikeState::SwitchingToB { a }, SpikeAnswer::Continue) => (SpikeState::PollingB { a }, SpikeAction::PollDistinct(a)),
        (SpikeState::PollingB { a }, SpikeAnswer::Polled(o)) => match o {
            DistinctInputObservation::Distinct(b) => (SpikeState::AskedShowingB { a, b }, SpikeAction::Ask(SpikePrompt::ShowingB)),
            _ => (SpikeState::Done(SpikeOutcome::BNotIdentified(o)), SpikeAction::Finish(SpikeOutcome::BNotIdentified(o))),
        },
        (SpikeState::AskedShowingB { a, b }, SpikeAnswer::Confirmed(yes)) => {
            if yes {
                (SpikeState::AskedWriteA { a, b }, SpikeAction::Ask(SpikePrompt::WriteA))
            } else {
                (SpikeState::Done(SpikeOutcome::BNotConfirmed), SpikeAction::Finish(SpikeOutcome::BNotConfirmed))
            }
        },
        (SpikeState::AskedWriteA { a, b }, SpikeAnswer::Confirmed(yes)) => {
            if yes {
                (SpikeState::RecoveringToA { a, b }, SpikeAction::Write { value: a, then_wait_ms: SPIKE_SETTLE_MS })
            } else {
                (SpikeState::Done(SpikeOutcome::RecoveryDeclined), SpikeAction::Finish(SpikeOutcome::RecoveryDeclined))
            }
        },
        (SpikeState::RecoveringToA { a, b }, SpikeAnswer::Written(w)) => (
            SpikeState::AskedReturnedToA { a, b, recovery: w },
            SpikeAction::Ask(SpikePrompt::ReturnedToA),
        ),
        (SpikeState::AskedReturnedToA { a, b, recovery }, SpikeAnswer::Confirmed(yes)) => {
            if !yes {
                (SpikeState::Done(SpikeOutcome::RecoveryNotSeen), SpikeAction::Finish(SpikeOutcome::RecoveryNotSeen))
            } else {
                match recovery {
                    DdcWriteResult::Accepted => (SpikeState::VerifyingA { a, b }, SpikeAction::PollExpected(a)),
                    _ => (
                        SpikeState::Done(SpikeOutcome::RecoveryWriteError(recovery)),
                        SpikeAction::Finish(SpikeOutcome::RecoveryWriteError(recovery)),
                    ),
                }
            }
        },
        (SpikeState::VerifyingA { a, b }, SpikeAnswer::Verified(o)) => match o {
            ExpectedInputObservation::Expected => (SpikeState::AskedRoundTrip { a, b }, SpikeAction::Ask(SpikePrompt::RunRoundTrip)),
            _ => (SpikeState::Done(SpikeOutcome::RecoveryReadBack(o)), SpikeAction::Finish(SpikeOutcome::RecoveryReadBack(o))),
        },
        (SpikeState::AskedRoundTrip { a, b }, SpikeAnswer::Confirmed(yes)) => {
            if yes {
                (SpikeState::WritingB { a, b }, SpikeAction::Write { value: b, then_wait_ms: SPIKE_DWELL_MS })
            } else {
                (SpikeState::Done(SpikeOutcome::Partial), SpikeAction::Finish(SpikeOutcome::Partial))
            }
        },
        (SpikeState::WritingB { a, b }, SpikeAnswer::Written(to_b)) => (
            SpikeState::WritingA { a, b, to_b },
            SpikeAction::Write { value: a, then_wait_ms: SPIKE_SETTLE_MS },
        ),
        (SpikeState::WritingA { a, b, to_b }, SpikeAnswer::Written(to_a)) => (
            SpikeState::AskedSawB { a, b, to_b, to_a },
            SpikeAction::Ask(SpikePrompt::SawB),
        ),
        (SpikeState::AskedSawB { a, b, to_b, to_a }, SpikeAnswer::Confirmed(saw_b)) => (
            SpikeState::AskedReturnedAutomatically { a, b, to_b, to_a, saw_b },
            SpikeAction::Ask(SpikePrompt::ReturnedAutomatically),
        ),
        (SpikeState::AskedReturnedAutomatically { a, b, to_b, to_a, saw_b }, SpikeAnswer::Confirmed(returned_to_a)) => (
            SpikeState::FinalCheck { a, b, to_b, to_a, saw_b, returned_to_a },
            SpikeAction::PollExpected(a),
        ),
        (SpikeState::FinalCheck { a, b, to_b, to_a, saw_b, returned_to_a }, SpikeAnswer::Verified(final_read)) => {
            let passed = round_trip_passed(to_b, to_a, saw_b, returned_to_a, final_read);
            let o = SpikeOutcome::RoundTrip { passed, to_b, to_a, saw_b, returned_to_a, final_read };
            (SpikeState::Done(o), SpikeAction::Finish(o))
        },
        _ => (s, SpikeAction::Ignore),
    }
}

/// The states and actions of a run of the guided test from `s` over `answers`.
pub open spec fn spike_run(s: SpikeState, answers: Seq<SpikeAnswer>) -> (SpikeState, Seq<SpikeAction>)
    decreases answers.len(),
{
    if answers.len() == 0 {
        (s, seq![])
    } else {
        let prev = spike_run(s, answers.drop_last());
        let next = spike_next(prev.0, answers.last());
        (next.0, prev.1.push(next.1))
    }
}

/// `v` came back from a single live read, or as the stable value of a poll for B.
pub open spec fn read_live(answers: Seq<SpikeAnswer>, v: u32) -> bool {
    exists|i: int| 0 <= i < answers.len() && (#[trigger] answers[i] == SpikeAnswer::Read(Some(v))
        || answers[i] == SpikeAnswer::Polled(DistinctInputObservation::Distinct(v)))
}

/// The captured values a state holds.
pub open spec fn held_values(s: SpikeState) -> Seq<u32> {
    match s {
        SpikeState::SwitchingToB { a } | SpikeState::PollingB { a } => seq![a],
        SpikeState::AskedShowingB { a, b } | SpikeState::AskedWriteA { a, b } | SpikeState::RecoveringToA { a, b }
        | SpikeState::AskedReturnedToA { a, b, .. } | SpikeState::VerifyingA { a, b } | SpikeState::AskedRoundTrip { a, b }
        | SpikeState::WritingB { a, b } | SpikeState::WritingA { a, b, .. } | SpikeState::AskedSawB { a, b, .. }
        | SpikeState::AskedReturnedAutomatically { a, b, .. } | SpikeState::FinalCheck { a, b, .. } => seq![a, b],
        _ => seq![],
    }
}

proof fn lemma_spike_run_holds_live(answers: Seq<SpikeAnswer>)
    ensures
        forall|k: int| 0 <= k < held_values(spike_run(SpikeState::Start, answers).0).len()
            ==> read_live(answers, #[trigger] held_values(spike_run(SpikeState::Start, answers).0)[k]),
        forall|k: int| 0 <= k < spike_run(SpikeState::Start, answers).1.len()
            ==> (#[trigger] spike_run(SpikeState::Start, answers).1[k] matches SpikeAction::Write { value, .. } ==> read_live(answers, value)),
    decreases answers.len(),
{
    if answers.len() > 0 {
        let pre = answers.drop_last();
        lemma_spike_run_holds_live(pre);
        let prev = spike_run(SpikeState::Start, pre);
        let last = answers.last();
        assert(answers[answers.len() - 1] == last);
        assert forall|v: u32| read_live(pre, v) implies read_live(answers, v) by {
            let i = choose|i: int| 0 <= i < pre.len() && (#[trigger] pre[i] == SpikeAnswer::Read(Some(v))
                || pre[i] == SpikeAnswer::Polled(DistinctInputObservation::Distinct(v)));
            assert(answers[i] == pre[i]);
        }
        assert forall|k: int| 0 <= k < held_values(prev.0).len() implies read_live(answers, #[trigger] held_values(prev.0)[k]) by {
            assert(read_live(pre, held_values(prev.0)[k]));
        }
        let run = spike_run(SpikeState::Start, answers);
        assert(run.1 == prev.1.push(spike_next(prev.0, last).1));
        assert forall|k: int| 0 <= k < run.1.len() && (#[trigger] run.1[k] matches SpikeAction::Write { .. })
            implies (run.1[k] matches SpikeAction::Write { value, .. } && read_live(answers, value)) by {
            if k < prev.1.len() {
                assert(run.1[k] == prev.1[k]);
            } else {
                assert(held_values(prev.0).len() == 2);
                assert(read_live(answers, held_values(prev.0)[0]));
                assert(read_live(answers, held_values(prev.0)[1]));
            }
        }
        assert forall|k: int| 0 <= k < held_values(run.0).len() implies read_live(answers, #[trigger] held_values(run.0)[k]) by {
            if held_values(prev.0).len() == 2 {
                assert(read_live(answers, held_values(prev.0)[0]));
                assert(read_live(answers, held_values(prev.0)[1]));
            } else if held_values(prev.0).len() == 1 {
                assert(read_live(answers, held_values(prev.0)[0]));
            }
        }
    }
}

/// Every value that a run of the guided test writes came back from a live read: A from the read
/// while A showed, B from the poll after the switch by hand. No value is typed or guessed.
pub proof fn lemma_spike_writes_only_live_values(answers: Seq<SpikeAnswer>, k: int)
    requires
        0 <= k < spike_run(SpikeState::Start, answers).1.len(),
        spike_run(SpikeState::Start, answers).1[k] is Write,
    ensures
        read_live(answers, spike_run(SpikeState::Start, answers).1[k]->value),
{
    lemma_spike_run_holds_live(answers);
}

} // verus!
