//! The production actuator: pull-to-self writes only this peer's own calibrated value for the
//! monitor, under the policy that the quirks database derives from that allow-list.

use crate::calibration::CalibrationStore;
use crate::driver::{Clock, Delayer, MonitorDriver};
use crate::executor::{lemma_run_model_laws, run_model, write_count, writes_only, DriverEvent, SwitchExecutor};
use crate::mesh::{ActuationReport, Actuator};
use crate::quirks::{empty_quirk, monitor_policy, overlay_spec, QuirksDb};
use crate::types::{ActuationPolicy, SwitchDirection, SwitchOutcome, SwitchRequest};
use vstd::prelude::*;

verus! {

/// What one pull-to-self did: with no confirmed value for (`peer`, `monitor`), nothing is
/// written and the panel needs calibration; otherwise exactly one executor run writing the
/// confirmed value to `monitor`, with that value as the whole allow-list under the monitor's
/// quirks, whose outcome and observation are reported.
pub open spec fn pull_to_self_effect(
    calibration: Map<(Seq<char>, Seq<char>), u32>,
    db: QuirksDb,
    peer: Seq<char>,
    monitor: Seq<char>,
    log_before: Seq<DriverEvent>,
    log_after: Seq<DriverEvent>,
    r: ActuationReport,
) -> bool {
    if !calibration.contains_key((peer, monitor)) {
        &&& r.outcome == SwitchOutcome::NeedsCalibration
        &&& r.observed is None
        &&& log_after == log_before
    } else {
        let v = calibration[(peer, monitor)];
        &&& log_after.len() >= log_before.len()
        &&& log_after.take(log_before.len() as int) == log_before
        &&& exists|req: SwitchRequest, pol: ActuationPolicy|
            #[trigger] run_model(&req, &pol, log_after.skip(log_before.len() as int)) matches Some(res)
                && req.monitor_id@ == monitor && req.input_value == v && req.direction == SwitchDirection::PullToSelf
                && monitor_policy(db, monitor, None, seq![v], pol) && r.outcome == res.outcome && r.observed
                == res.observed
    }
}

/// The calibration law of pull-to-self: a peer writes nothing to a monitor it has no confirmed
/// value for; otherwise it writes only its own confirmed value, to that monitor, never a value
/// that a quirk of the monitor blocks, and the reported outcome is a success only if the monitor
/// then showed that value.
pub proof fn lemma_pull_to_self_writes_only_calibrated(
    calibration: Map<(Seq<char>, Seq<char>), u32>,
    db: QuirksDb,
    peer: Seq<char>,
    monitor: Seq<char>,
    log_before: Seq<DriverEvent>,
    log_after: Seq<DriverEvent>,
    r: ActuationReport,
)
    requires
        pull_to_self_effect(calibration, db, peer, monitor, log_before, log_after, r),
    ensures
        !calibration.contains_key((peer, monitor)) ==> log_after == log_before,
        calibration.contains_key((peer, monitor)) ==> {
            let events = log_after.skip(log_before.len() as int);
            let v = calibration[(peer, monitor)];
            &&& writes_only(events, monitor, v)
            &&& write_count(events) > 0 ==> !overlay_spec(empty_quirk(), db.merged_view(monitor)).blocked.contains(v)
            &&& r.outcome == SwitchOutcome::Success ==> r.observed == Some(v)
        },
{
    if calibration.contains_key((peer, monitor)) {
        let events = log_after.skip(log_before.len() as int);
        let v = calibration[(peer, monitor)];
        let (req, pol) = choose|req: SwitchRequest, pol: ActuationPolicy|
            #[trigger] run_model(&req, &pol, events) matches Some(res) && req.monitor_id@ == monitor && req.input_value == v
                && req.direction == SwitchDirection::PullToSelf && monitor_policy(db, monitor, None, seq![v], pol)
                && r.outcome == res.outcome && r.observed == res.observed;
        lemma_run_model_laws(&req, &pol, events);
    }
}

/// The local actuator for one peer.
pub struct LocalActuator<D: MonitorDriver, L: Delayer, C: Clock> {
    peer_id: String,
    executor: SwitchExecutor<D, L, C>,
    quirks: QuirksDb,
    calibration: CalibrationStore,
}

impl<D: MonitorDriver, L: Delayer, C: Clock> LocalActuator<D, L, C> {
    pub closed spec fn wf(&self) -> bool {
        self.quirks.wf() && self.calibration.wf()
    }

    pub closed spec fn peer(&self) -> Seq<char> {
        self.peer_id@
    }

    pub closed spec fn log(&self) -> Seq<DriverEvent> {
        self.executor.log()
    }

    pub closed spec fn quirks(&self) -> QuirksDb {
        self.quirks
    }

    pub closed spec fn calibration(&self) -> CalibrationStore {
        self.calibration
    }

    pub fn new(peer_id: String, executor: SwitchExecutor<D, L, C>, quirks: QuirksDb, calibration: CalibrationStore) -> (a: Self)
        requires
            quirks.wf(),
            calibration.wf(),
        ensures
            a.wf(),
            a.peer() == peer_id@,
            a.log() == executor.log(),
            a.quirks() == quirks,
            a.calibration() == calibration,
    {
        LocalActuator { peer_id, executor, quirks, calibration }
    }

    /// Mutable access to the calibration store (e.g. to record a value learned during
    /// onboarding).
    pub fn calibration_mut(&mut self) -> (c: &mut CalibrationStore)
        ensures
            *c == old(self).calibration(),
            final(self).calibration() == *final(c),
            final(self).quirks() == old(self).quirks(),
            final(self).peer() == old(self).peer(),
            final(self).log() == old(self).log(),
            final(self).wf() == (old(self).quirks().wf() && final(c).wf()),
    {
        &mut self.calibration
    }

    /// Mutable access to the quirks database (e.g. to load the local and user layers).
    pub fn quirks_mut(&mut self) -> (q: &mut QuirksDb)
        ensures
            *q == old(self).quirks(),
            final(self).quirks() == *final(q),
            final(self).calibration() == old(self).calibration(),
            final(self).peer() == old(self).peer(),
            final(self).log() == old(self).log(),
            final(self).wf() == (final(q).wf() && old(self).calibration().wf()),
    {
        &mut self.quirks
    }
}

impl<D: MonitorDriver, L: Delayer, C: Clock> Actuator for LocalActuator<D, L, C> {
    open spec fn ready(&self) -> bool {
        self.wf()
    }

    /// Pull-to-self with this peer's own confirmed value; with none, refuse without writing.
    fn switch_to_self(&mut self, monitor_id: &str) -> (r: ActuationReport)
        ensures
            final(self).wf(),
            final(self).peer() == old(self).peer(),
            final(self).quirks() == old(self).quirks(),
            final(self).calibration() == old(self).calibration(),
            pull_to_self_effect(old(self).calibration()@, old(self).quirks(), old(self).peer(), monitor_id@, old(self).log(), final(self).log(), r),
    {
        let value = match self.calibration.confirmed_value(self.peer_id.as_str(), monitor_id) {
            Some(v) => v,
            None => {
                return ActuationReport::new(SwitchOutcome::NeedsCalibration, None);
            },
        };
        let confirmed: [u32; 1] = [value];
        let policy = self.quirks.policy_for(monitor_id, confirmed.as_slice());
        let request = SwitchRequest {
            monitor_id: monitor_id.to_owned(),
            input_value: value,
            direction: SwitchDirection::PullToSelf,
        };
        let ghost before = self.executor.log();
        let result = self.executor.execute(&request, &policy);
        proof {
            assert(confirmed@ =~= seq![value]);
            assert(run_model(&request, &policy, self.executor.log().skip(before.len() as int)) == Some(result@));
        }
        ActuationReport::new(result.outcome, result.observed_value)
    }
}

} // verus!
