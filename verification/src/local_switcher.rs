//! Local two-source switching over the defensive DDC/CI executor. The only values ever written
//! are the two confirmed for the selected monitor; quirks can only restrict further.

use crate::driver::{Clock, Delayer, MonitorDriver};
use crate::executor::{lemma_run_model_laws, run_model, write_count, writes_only, DriverEvent, SwitchExecutor, SwitchResultView};
use crate::local_config::{
    config_error_text, config_problem, config_ready, confirmed_pair, slot_index, slot_opposite, value_a, value_b,
    LocalConfig, SourceSlot,
};
use crate::ownership::opt_view;
use crate::quirks::{empty_quirk, monitor_policy, overlay_spec, QuirksDb};
use crate::text::{contains_sub, dec_digits, is_blank, push_dec, str_contains, str_is_blank};
use crate::types::{effective_success, SwitchDirection, SwitchOutcome, SwitchRequest};
use vstd::prelude::*;
use vstd::string::StringExecFns;

verus! {

/// The selected monitor's currently observed source.
#[derive(Debug, Clone, Copy, PartialEq, Eq, Structural)]
pub enum SourceState {
    A,
    B,
    /// DDC returned a concrete input value, but it is not either configured source.
    Unknown(u32),
    /// DDC could not read input select, as commonly happens after switching away from this PC.
    Unreadable,
    /// A monitor and two valid, distinct source values have not been configured yet.
    Unconfigured,
}

impl SourceState {
    pub fn slot(self) -> (s: Option<SourceSlot>)
        ensures
            s == (match self {
                SourceState::A => Some(SourceSlot::A),
                SourceState::B => Some(SourceSlot::B),
                _ => None,
            }),
    {
        match self {
            SourceState::A => Some(SourceSlot::A),
            SourceState::B => Some(SourceSlot::B),
            _ => None,
        }
    }
}

/// Why a local request safely stopped before invoking the executor.
#[derive(Debug, Clone, Copy, PartialEq, Eq, Structural)]
pub enum LocalNoWriteReason {
    InvalidConfig,
    SafetyPolicyUnavailable,
    NoMonitorSelected,
    SourcesIncomplete,
    UnknownCurrentInput,
    UnreadableCurrentInput,
}

/// Either the untouched executor outcome or an app-level, guaranteed-no-write refusal.
#[derive(Debug, Clone, Copy, PartialEq, Eq, Structural)]
pub enum LocalSwitchStatus {
    Executed(SwitchOutcome),
    NoWrite(LocalNoWriteReason),
}

impl LocalSwitchStatus {
    pub fn executor_outcome(self) -> (o: Option<SwitchOutcome>)
        ensures
            o == (match self {
                LocalSwitchStatus::Executed(x) => Some(x),
                LocalSwitchStatus::NoWrite(_) => None,
            }),
    {
        match self {
            LocalSwitchStatus::Executed(outcome) => Some(outcome),
            LocalSwitchStatus::NoWrite(_) => None,
        }
    }

    pub fn is_effective_success(self) -> (b: bool)
        ensures
            b == (self matches LocalSwitchStatus::Executed(o) && effective_success(o)),
    {
        match self {
            LocalSwitchStatus::Executed(outcome) => outcome.is_effective_success(),
            LocalSwitchStatus::NoWrite(_) => false,
        }
    }
}

/// Result reported to the local UI/tray layer.
#[derive(Debug, Clone, PartialEq, Eq)]
pub struct LocalSwitchReport {
    pub requested_source: Option<SourceSlot>,
    /// Set by [`LocalSwitcher::toggle`]; explicit `switch_to` requests leave it `None`.
    pub state_before: Option<SourceState>,
    pub status: LocalSwitchStatus,
    /// Preserved from the executor. App-level refusals always report zero.
    pub attempts: u32,
    /// Preserved from the executor.
    pub observed_value: Option<u32>,
    pub detail: Option<String>,
}

/// Classify a live read against the two configured values (A first).
pub open spec fn classify_spec(value: Option<u32>, a: u16, b: u16) -> SourceState {
    match value {
        Some(v) => if v == a as u32 {
            SourceState::A
        } else if v == b as u32 {
            SourceState::B
        } else {
            SourceState::Unknown(v)
        },
        None => SourceState::Unreadable,
    }
}

/// Classify a live `0x60` read against the two configured values.
pub fn classify_read(value: Option<u32>, values: [u16; 2]) -> (s: SourceState)
    ensures
        s == classify_spec(value, values@[0], values@[1]),
{
    match value {
        Some(v) => {
            if v == values[0] as u32 {
                SourceState::A
            } else if v == values[1] as u32 {
                SourceState::B
            } else {
                SourceState::Unknown(v)
            }
        },
        None => SourceState::Unreadable,
    }
}

/// Why an unready configuration cannot switch: invalid, no monitor, or a missing value.
pub open spec fn unready_reason(c: LocalConfig) -> LocalNoWriteReason {
    if config_problem(c) is Some {
        LocalNoWriteReason::InvalidConfig
    } else if c.selected_monitor is None {
        LocalNoWriteReason::NoMonitorSelected
    } else {
        LocalNoWriteReason::SourcesIncomplete
    }
}

/// The detail text of an unready configuration.
pub open spec fn unready_detail(c: LocalConfig) -> Seq<char> {
    if config_problem(c) is Some {
        config_error_text(config_problem(c)->0)
    } else if c.selected_monitor is None {
        "no monitor is selected"@
    } else {
        "both source input values must be confirmed before switching"@
    }
}

/// A refusal report: no write, zero attempts, no observation.
pub open spec fn refused(r: LocalSwitchReport, reason: LocalNoWriteReason, detail: Seq<char>) -> bool {
    &&& r.status == LocalSwitchStatus::NoWrite(reason)
    &&& r.attempts == 0
    &&& r.observed_value is None
    &&& opt_view(r.detail) == Some(detail)
}

/// `b` is `a` except possibly for `last_requested`.
pub open spec fn same_but_last(a: LocalConfig, b: LocalConfig) -> bool {
    &&& a.version == b.version
    &&& a.selected_monitor == b.selected_monitor
    &&& a.selected_monitor_model_token == b.selected_monitor_model_token
    &&& a.sources == b.sources
    &&& a.monitor_aliases == b.monitor_aliases
}

/// `events` is one executor run writing `value` to `monitor` under the local policy of `db`,
/// and `r` is its result.
pub open spec fn executed_run(
    db: QuirksDb,
    monitor: Seq<char>,
    token: Option<Seq<char>>,
    a: u16,
    b: u16,
    value: u16,
    events: Seq<DriverEvent>,
    r: SwitchResultView,
) -> bool {
    exists|req: SwitchRequest, pol: crate::types::ActuationPolicy|
        #[trigger] run_model(&req, &pol, events) == Some(r) && req.monitor_id@ == monitor && req.input_value == value as u32
            && monitor_policy(db, monitor, token, seq![a as u32, b as u32], pol)
}

/// The soft-brick law of local switching: a run of `switch_to` writes nothing but the selected
/// source's configured value to the selected monitor, anything it writes is one of the two
/// configured values and is not blocked by any quirk layer of the model or the exact id, and it
/// never makes more attempts than the policy's budget.
pub proof fn lemma_local_writes_only_configured(
    db: QuirksDb,
    monitor: Seq<char>,
    token: Option<Seq<char>>,
    a: u16,
    b: u16,
    value: u16,
    events: Seq<DriverEvent>,
    r: SwitchResultView,
)
    requires
        executed_run(db, monitor, token, a, b, value, events, r),
    ensures
        writes_only(events, monitor, value as u32),
        r.attempts == write_count(events),
        r.attempts <= crate::types::DEFAULT_MAX_ATTEMPTS,
        write_count(events) > 0 ==> (value == a || value == b),
        write_count(events) > 0 ==> !overlay_spec(
            match token {
                Some(t) => if t != monitor {
                    db.merged_view(t)
                } else {
                    empty_quirk()
                },
                None => empty_quirk(),
            },
            db.merged_view(monitor),
        ).blocked.contains(value as u32),
{
    let (req, pol) = choose|req: SwitchRequest, pol: crate::types::ActuationPolicy|
        #[trigger] run_model(&req, &pol, events) == Some(r) && req.monitor_id@ == monitor && req.input_value == value as u32
            && monitor_policy(db, monitor, token, seq![a as u32, b as u32], pol);
    lemma_run_model_laws(&req, &pol, events);
    if write_count(events) > 0 {
        assert(seq![a as u32, b as u32].to_set().contains(value as u32));
        if !(value == a || value == b) {
            assert(!seq![a as u32, b as u32].contains(value as u32));
        }
    }
}

/// The selected source's value in a ready configuration.
pub open spec fn slot_value(c: LocalConfig, s: SourceSlot) -> u16 {
    if slot_index(s) == 0 {
        value_a(c)
    } else {
        value_b(c)
    }
}

/// Single-PC input switcher over the executor.
pub struct LocalSwitcher<D: MonitorDriver, L: Delayer, C: Clock> {
    executor: SwitchExecutor<D, L, C>,
    quirks: QuirksDb,
    writes_disabled: Option<String>,
}

impl<D: MonitorDriver, L: Delayer, C: Clock> LocalSwitcher<D, L, C> {
    pub closed spec fn wf(&self) -> bool {
        self.quirks.wf()
    }

    /// The executor's driver-interaction log.
    pub closed spec fn log(&self) -> Seq<DriverEvent> {
        self.executor.log()
    }

    /// The quirks database in use.
    pub closed spec fn quirks(&self) -> QuirksDb {
        self.quirks
    }

    /// The monitor driver the switcher's executor owns.
    pub closed spec fn driver(&self) -> D {
        self.executor.driver()
    }

    /// Why writes are disabled, if they are.
    pub closed spec fn disabled(&self) -> Option<Seq<char>> {
        opt_view(self.writes_disabled)
    }

    pub fn new(executor: SwitchExecutor<D, L, C>, quirks: QuirksDb) -> (s: Self)
        requires
            quirks.wf(),
        ensures
            s.wf(),
            s.log() == executor.log(),
            s.quirks() == quirks,
            s.disabled() is None,
            s.driver() == executor.driver(),
    {
        LocalSwitcher { executor, quirks, writes_disabled: None }
    }

    pub fn driver_mut(&mut self) -> (d: &mut D)
        ensures
            *d == old(self).driver(),
            final(self).driver() == *final(d),
            final(self).log() == old(self).log(),
            final(self).quirks() == old(self).quirks(),
            final(self).disabled() == old(self).disabled(),
            final(self).wf() == old(self).wf(),
    {
        self.executor.driver_mut()
    }

    pub fn quirks_mut(&mut self) -> (q: &mut QuirksDb)
        ensures
            *q == old(self).quirks(),
            final(self).quirks() == *final(q),
            final(self).log() == old(self).log(),
            final(self).disabled() == old(self).disabled(),
    {
        &mut self.quirks
    }

    /// Permanently disable writes for this switcher when a safety-policy layer could not be
    /// loaded or validated. A blank reason becomes "safety policy is unavailable"; a new reason
    /// not already recorded is appended after "; ". Reads remain available.
    pub fn disable_writes(&mut self, error: String)
        ensures
            final(self).log() == old(self).log(),
            final(self).quirks() == old(self).quirks(),
            final(self).wf() == old(self).wf(),
            ({
                let e = if is_blank(error@) { "safety policy is unavailable"@ } else { error@ };
                final(self).disabled() == (match old(self).disabled() {
                    Some(existing) => if contains_sub(existing, e) {
                        Some(existing)
                    } else {
                        Some(existing + "; "@ + e)
                    },
                    None => Some(e),
                })
            }),
    {
        let error = if str_is_blank(error.as_str()) {
            "safety policy is unavailable".to_owned()
        } else {
            error
        };
        let current = self.writes_disabled.take();
        self.writes_disabled = match current {
            Some(mut existing) => {
                if !str_contains(existing.as_str(), error.as_str()) {
                    existing.append("; ");
                    existing.append(error.as_str());
                }
                Some(existing)
            },
            None => Some(error),
        };
    }

    pub fn writes_disabled_reason(&self) -> (r: Option<&str>)
        ensures
            match r {
                Some(s) => self.disabled() == Some(s@),
                None => self.disabled() is None,
            },
    {
        match &self.writes_disabled {
            Some(e) => Some(e.as_str()),
            None => None,
        }
    }

    /// The refusal report when writes are disabled.
    fn safety_policy_refusal(&self, requested_source: Option<SourceSlot>) -> (r: Option<LocalSwitchReport>)
        ensures
            match self.disabled() {
                Some(e) => r matches Some(rep) && refused(rep, LocalNoWriteReason::SafetyPolicyUnavailable,
                    "safety policy unavailable; writes are disabled: "@ + e) && rep.requested_source == requested_source
                    && rep.state_before is None,
                None => r is None,
            },
    {
        match &self.writes_disabled {
            Some(error) => {
                let mut d = "safety policy unavailable; writes are disabled: ".to_owned();
                d.append(error.as_str());
                Some(LocalSwitchReport {
                    requested_source,
                    state_before: None,
                    status: LocalSwitchStatus::NoWrite(LocalNoWriteReason::SafetyPolicyUnavailable),
                    attempts: 0,
                    observed_value: None,
                    detail: Some(d),
                })
            },
            None => None,
        }
    }

    /// Read the monitor's input through the driver; the read is logged.
    pub fn read_input(&mut self, monitor_id: &str) -> (r: Option<u32>)
        ensures
            final(self).log() == old(self).log().push(DriverEvent::Read { monitor: monitor_id@, value: r }),
            final(self).quirks() == old(self).quirks(),
            final(self).disabled() == old(self).disabled(),
            final(self).wf() == old(self).wf(),
    {
        self.executor.read_input(monitor_id)
    }

    /// Wait `ms` milliseconds on a caller-supplied delay; the pause is logged.
    pub fn pause_with<P: Delayer>(&mut self, pause: &P, ms: u32)
        ensures
            final(self).log() == old(self).log().push(DriverEvent::Pause { ms }),
            final(self).quirks() == old(self).quirks(),
            final(self).disabled() == old(self).disabled(),
            final(self).wf() == old(self).wf(),
    {
        self.executor.pause_with(pause, ms)
    }

    /// Read and classify the selected monitor without writing. An unready configuration is
    /// `Unconfigured` and reads nothing; otherwise one read of the selected monitor is made and
    /// classified against the two values.
    pub fn read_state(&mut self, config: &LocalConfig) -> (s: SourceState)
        requires
            config.monitor_aliases.wf(),
        ensures
            final(self).quirks() == old(self).quirks(),
            final(self).disabled() == old(self).disabled(),
            final(self).wf() == old(self).wf(),
            read_answer(old(self).log(), final(self).log(), *config, s),
    {
        if !config.is_ready() {
            return SourceState::Unconfigured;
        }
        let values = match config.confirmed_values() {
            Some(v) => v,
            None => {
                return SourceState::Unconfigured;
            },
        };
        let monitor = match &config.selected_monitor {
            Some(m) => m,
            None => {
                return SourceState::Unconfigured;
            },
        };
        let read = self.read_input(monitor.as_str());
        let s = classify_read(read, values);
        proof {
            assert(self.log().drop_last() =~= old(self).log());
            assert(s == classify_spec(read, value_a(*config), value_b(*config)));
        }
        s
    }

    /// Explicitly switch to A or B. The written value is always the configured value of
    /// `source`; the executor's allow-list is exactly the two configured values, restricted
    /// further by quirks. An effective success records `source` as the last request.
    pub fn switch_to(&mut self, config: &mut LocalConfig, source: SourceSlot) -> (report: LocalSwitchReport)
        requires
            old(self).wf(),
            old(config).monitor_aliases.wf(),
        ensures
            final(self).wf(),
            final(self).quirks() == old(self).quirks(),
            final(self).disabled() == old(self).disabled(),
            report.requested_source == Some(source),
            report.state_before is None,
            same_but_last(*old(config), *final(config)),
            final(config).monitor_aliases.wf(),
            switch_effect(old(self).quirks(), old(self).disabled(), old(self).log(), final(self).log(), *old(config), *final(config), source, report),
    {
        match self.safety_policy_refusal(Some(source)) {
            Some(r) => {
                return r;
            },
            None => {},
        }
        if !config.is_ready() {
            let reason;
            let detail;
            match config.validate() {
                Err(e) => {
                    reason = LocalNoWriteReason::InvalidConfig;
                    detail = e.message();
                },
                Ok(()) => {
                    if config.selected_monitor.is_none() {
                        reason = LocalNoWriteReason::NoMonitorSelected;
                        detail = "no monitor is selected".to_owned();
                    } else {
                        reason = LocalNoWriteReason::SourcesIncomplete;
                        detail = "both source input values must be confirmed before switching".to_owned();
                    }
                },
            }
            return LocalSwitchReport {
                requested_source: Some(source),
                state_before: None,
                status: LocalSwitchStatus::NoWrite(reason),
                attempts: 0,
                observed_value: None,
                detail: Some(detail),
            };
        }
        let values = match config.confirmed_values() {
            Some(v) => v,
            None => {
                proof {
                    assert(false);
                }
                return LocalSwitchReport {
                    requested_source: Some(source),
                    state_before: None,
                    status: LocalSwitchStatus::NoWrite(LocalNoWriteReason::SourcesIncomplete),
                    attempts: 0,
                    observed_value: None,
                    detail: None,
                };
            },
        };
        let monitor = match &config.selected_monitor {
            Some(m) => m.clone(),
            None => {
                proof {
                    assert(false);
                }
                return LocalSwitchReport {
                    requested_source: Some(source),
                    state_before: None,
                    status: LocalSwitchStatus::NoWrite(LocalNoWriteReason::NoMonitorSelected),
                    attempts: 0,
                    observed_value: None,
                    detail: None,
                };
            },
        };
        let value = values[source.index()];
        let allow: [u32; 2] = [values[0] as u32, values[1] as u32];
        let token: Option<&str> = match &config.selected_monitor_model_token {
            Some(t) => Some(t.as_str()),
            None => None,
        };
        let policy = self.quirks.policy_for_monitor(monitor.as_str(), token, allow.as_slice());
        let request = SwitchRequest { monitor_id: monitor, input_value: value as u32, direction: SwitchDirection::PullToSelf };
        let ghost before = self.executor.log();
        let result = self.executor.execute(&request, &policy);
        proof {
            let events = self.executor.log().skip(before.len() as int);
            assert(allow@ =~= seq![values@[0] as u32, values@[1] as u32]);
            assert(run_model(&request, &policy, events) == Some(result@));
        }
        let report = LocalSwitchReport {
            requested_source: Some(source),
            state_before: None,
            status: LocalSwitchStatus::Executed(result.outcome),
            attempts: result.attempts,
            observed_value: result.observed_value,
            detail: result.detail,
        };
        if report.status.is_effective_success() {
            config.last_requested = Some(source);
        }
        report
    }

    /// Toggle to the opposite of a live A/B read. The last effective request is consulted only
    /// when the input cannot be read; a concrete unknown value always stops without writing.
    pub fn toggle(&mut self, config: &mut LocalConfig) -> (report: LocalSwitchReport)
        requires
            old(self).wf(),
            old(config).monitor_aliases.wf(),
        ensures
            final(self).wf(),
            final(self).quirks() == old(self).quirks(),
            final(self).disabled() == old(self).disabled(),
            same_but_last(*old(config), *final(config)),
            final(config).monitor_aliases.wf(),
            toggle_effect(old(self).quirks(), old(self).disabled(), old(self).log(), final(self).log(), *old(config), *final(config), report),
    {
        match self.safety_policy_refusal(None) {
            Some(r) => {
                return r;
            },
            None => {},
        }
        if !config.is_ready() {
            let mut r = self.switch_to(config, SourceSlot::A);
            r.requested_source = None;
            r.state_before = Some(SourceState::Unconfigured);
            return r;
        }
        let values = match config.confirmed_values() {
            Some(v) => v,
            None => {
                proof {
                    assert(false);
                }
                return LocalSwitchReport {
                    requested_source: None,
                    state_before: Some(SourceState::Unconfigured),
                    status: LocalSwitchStatus::NoWrite(LocalNoWriteReason::SourcesIncomplete),
                    attempts: 0,
                    observed_value: None,
                    detail: None,
                };
            },
        };
        let read = match &config.selected_monitor {
            Some(m) => self.read_input(m.as_str()),
            None => {
                proof {
                    assert(false);
                }
                None
            },
        };
        let state = classify_read(read, values);
        let ghost mid = self.log();
        proof {
            assert(mid.drop_last() =~= old(self).log());
            assert(mid.take(old(self).log().len() + 1int) =~= mid);
        }
        let target = match state {
            SourceState::A => SourceSlot::B,
            SourceState::B => SourceSlot::A,
            SourceState::Unknown(value) => {
                let mut d = "live input value ".to_owned();
                push_dec(&mut d, value as u64);
                d.append(" is neither configured source; refusing to guess");
                return LocalSwitchReport {
                    requested_source: None,
                    state_before: Some(state),
                    status: LocalSwitchStatus::NoWrite(LocalNoWriteReason::UnknownCurrentInput),
                    attempts: 0,
                    observed_value: None,
                    detail: Some(d),
                };
            },
            SourceState::Unreadable => match config.last_requested {
                Some(previous) => previous.opposite(),
                None => {
                    return LocalSwitchReport {
                        requested_source: None,
                        state_before: Some(state),
                        status: LocalSwitchStatus::NoWrite(LocalNoWriteReason::UnreadableCurrentInput),
                        attempts: 0,
                        observed_value: None,
                        detail: Some("input is unreadable and there is no last successful request to invert".to_owned()),
                    };
                },
            },
            SourceState::Unconfigured => {
                proof {
                    assert(false);
                }
                SourceSlot::A
            },
        };
        let mut report = self.switch_to(config, target);
        report.state_before = Some(state);
        proof {
            assert(self.log().take(mid.len() as int) == mid);
            assert(self.log().take(old(self).log().len() + 1int) =~= mid);
        }
        report
    }
}

/// What `switch_to(source)` did, given the state before and after: with writes disabled, or an
/// unready configuration, a refusal and no driver interaction; otherwise exactly one executor
/// run writing the source's configured value, whose result is reported untouched, and an
/// effective success recorded as the last request.
pub open spec fn switch_effect(
    db: QuirksDb,
    disabled: Option<Seq<char>>,
    log_before: Seq<DriverEvent>,
    log_after: Seq<DriverEvent>,
    before: LocalConfig,
    after: LocalConfig,
    source: SourceSlot,
    report: LocalSwitchReport,
) -> bool {
    if disabled is Some {
        &&& refused(report, LocalNoWriteReason::SafetyPolicyUnavailable, "safety policy unavailable; writes are disabled: "@ + disabled->0)
        &&& log_after == log_before
        &&& after == before
    } else if !config_ready(before) {
        &&& refused(report, unready_reason(before), unready_detail(before))
        &&& log_after == log_before
        &&& after == before
    } else {
        &&& report.status matches LocalSwitchStatus::Executed(o) && {
            &&& log_after.len() >= log_before.len()
            &&& log_after.take(log_before.len() as int) == log_before
            &&& executed_run(
                db,
                before.selected_monitor->0@,
                opt_view(before.selected_monitor_model_token),
                value_a(before),
                value_b(before),
                slot_value(before, source),
                log_after.skip(log_before.len() as int),
                SwitchResultView { outcome: o, attempts: report.attempts, observed: report.observed_value, detail: opt_view(report.detail) },
            )
            &&& after.last_requested == (if effective_success(o) { Some(source) } else { before.last_requested })
        }
    }
}

/// The last event of `log_after`, appended to `log_before`, is one read of `monitor`.
pub open spec fn one_read(log_before: Seq<DriverEvent>, log_after: Seq<DriverEvent>, monitor: Seq<char>) -> bool {
    &&& log_after.len() == log_before.len() + 1
    &&& log_after.drop_last() == log_before
    &&& log_after.last() matches DriverEvent::Read { monitor: m, .. } && m == monitor
}

/// The value that read returned.
pub open spec fn read_value(log_after: Seq<DriverEvent>) -> Option<u32> {
    match log_after.last() {
        DriverEvent::Read { value, .. } => value,
        _ => None,
    }
}

/// What `read_state` answered: `Unconfigured` without any read for an unready configuration;
/// otherwise one read of the selected monitor, classified against the two values.
pub open spec fn read_answer(log_before: Seq<DriverEvent>, log_after: Seq<DriverEvent>, config: LocalConfig, s: SourceState) -> bool {
    if !config_ready(config) {
        s == SourceState::Unconfigured && log_after == log_before
    } else {
        &&& one_read(log_before, log_after, config.selected_monitor->0@)
        &&& s == classify_spec(read_value(log_after), value_a(config), value_b(config))
    }
}

/// What `toggle` did: refusals as for `switch_to` (reporting an unready configuration as
/// `Unconfigured`); otherwise a live read classified into `state_before`, then A → B, B → A,
/// unreadable → the opposite of the last request (refused when there is none), and a concrete
/// unknown value refused without writing.
pub open spec fn toggle_effect(
    db: QuirksDb,
    disabled: Option<Seq<char>>,
    log_before: Seq<DriverEvent>,
    log_after: Seq<DriverEvent>,
    before: LocalConfig,
    after: LocalConfig,
    report: LocalSwitchReport,
) -> bool {
    if disabled is Some {
        &&& refused(report, LocalNoWriteReason::SafetyPolicyUnavailable, "safety policy unavailable; writes are disabled: "@ + disabled->0)
        &&& report.requested_source is None
        &&& report.state_before is None
        &&& log_after == log_before
        &&& after == before
    } else if !config_ready(before) {
        &&& refused(report, unready_reason(before), unready_detail(before))
        &&& report.requested_source is None
        &&& report.state_before == Some(SourceState::Unconfigured)
        &&& log_after == log_before
        &&& after == before
    } else {
        &&& log_after.len() > log_before.len()
        &&& one_read(log_before, log_after.take(log_before.len() + 1int), before.selected_monitor->0@)
        &&& report.state_before == Some(
            classify_spec(read_value(log_after.take(log_before.len() + 1int)), value_a(before), value_b(before)),
        )
        &&& {
            let s = report.state_before->0;
            let mid = log_after.take(log_before.len() + 1int);
            if s is Unknown {
                &&& refused(
                    report,
                    LocalNoWriteReason::UnknownCurrentInput,
                    "live input value "@ + dec_digits(s->Unknown_0 as nat) + " is neither configured source; refusing to guess"@,
                )
                &&& report.requested_source is None
                &&& log_after == mid
                &&& after == before
            } else if s is Unreadable && before.last_requested is None {
                &&& refused(
                    report,
                    LocalNoWriteReason::UnreadableCurrentInput,
                    "input is unreadable and there is no last successful request to invert"@,
                )
                &&& report.requested_source is None
                &&& log_after == mid
                &&& after == before
            } else {
                let target = if s is A {
                    SourceSlot::B
                } else if s is B {
                    SourceSlot::A
                } else {
                    slot_opposite(before.last_requested->0)
                };
                &&& report.requested_source == Some(target)
                &&& switch_effect(db, disabled, mid, log_after, before, after, target, report)
            }
        }
    }
}
} // verus!
