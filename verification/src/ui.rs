//! The local single-monitor/two-source UI policy: the view model shown for a configuration and
//! an observed state, the final copy after a switch report, the guard on source indices coming
//! from the UI, and the toggle and setup-capture decisions. A pending request never changes the
//! shown active source; only a confirmed backend state does.

use crate::local_config::{config_ready, same_config, slot_index, slot_opposite, LocalConfig, SourceSlot};
use crate::local_switcher::{LocalSwitchReport, LocalSwitchStatus, SourceState};
use crate::ownership::opt_view;
use crate::text::{hex02, push_hex02, str_trim, trim};
use crate::types::SwitchOutcome;
use vstd::prelude::*;
use vstd::string::{StrSliceExecFns, StringExecFns};

verus! {

/// Status colour classes; the numbers are the UI's `status-kind` contract.
#[derive(Debug, Clone, Copy, PartialEq, Eq, Structural)]
pub enum StatusKind {
    Neutral,
    Confirmed,
    Switching,
    Warning,
    Error,
}

pub open spec fn status_code(k: StatusKind) -> i32 {
    match k {
        StatusKind::Neutral => 0,
        StatusKind::Confirmed => 1,
        StatusKind::Switching => 2,
        StatusKind::Warning => 3,
        StatusKind::Error => 4,
    }
}

impl StatusKind {
    pub fn as_i32(self) -> (n: i32)
        ensures
            n == status_code(self),
    {
        match self {
            StatusKind::Neutral => 0,
            StatusKind::Confirmed => 1,
            StatusKind::Switching => 2,
            StatusKind::Warning => 3,
            StatusKind::Error => 4,
        }
    }
}

/// One of the two configured destinations as rendered.
#[derive(Debug, Clone, PartialEq, Eq)]
pub struct SourceView {
    pub label: String,
    pub detail: String,
    pub configured: bool,
}

/// Complete backend-independent state for the flyout and local settings page.
#[derive(Debug, Clone, PartialEq, Eq)]
pub struct LocalView {
    pub monitor_name: String,
    pub monitor_detail: String,
    pub sources: [SourceView; 2],
    /// 0 = A, 1 = B, -1 = unknown/unreadable/unconfigured.
    pub active_source: i32,
    /// 0 = A, 1 = B, -1 = no operation in flight.
    pub pending_source: i32,
    pub ready: bool,
    pub status_kind: StatusKind,
    pub status_text: String,
    pub message: String,
}

pub open spec fn setup_message() -> Seq<char> {
    "Choose one local monitor and capture two distinct input sources before switching."@
}

pub open spec fn fallback_label(slot: SourceSlot) -> Seq<char> {
    match slot {
        SourceSlot::A => "Source A"@,
        SourceSlot::B => "Source B"@,
    }
}

/// The label shown for a slot: its trimmed label, or the fallback when blank.
pub open spec fn slot_label(c: LocalConfig, slot: SourceSlot) -> Seq<char> {
    let t = trim(c.sources@[slot_index(slot)].label@);
    if t.len() == 0 { fallback_label(slot) } else { t }
}

pub open spec fn source_detail(v: Option<u16>) -> Seq<char> {
    match v {
        Some(x) => "Input code 0x"@ + hex02(x as nat),
        None => "Not captured"@,
    }
}

/// Monitor name and detail copy.
pub open spec fn monitor_copy_spec(c: LocalConfig) -> (Seq<char>, Seq<char>) {
    match c.selected_monitor {
        None => ("No monitor selected"@, "Run setup to choose a local DDC/CI display"@),
        Some(id) => if c.monitor_aliases@.contains_key(id@) {
            (c.monitor_aliases@[id@]@, id@)
        } else {
            (id@, "Local DDC/CI monitor"@)
        },
    }
}

/// Active source, status kind, status text and message for an observed state.
pub open spec fn state_copy(c: LocalConfig, state: SourceState) -> (i32, StatusKind, Seq<char>, Seq<char>) {
    let ready = config_ready(c);
    match state {
        SourceState::A => if ready {
            (0i32, StatusKind::Confirmed, "Showing "@ + slot_label(c, SourceSlot::A), seq![])
        } else {
            (-1i32, StatusKind::Warning, "Setup required"@, setup_message())
        },
        SourceState::B => if ready {
            (1i32, StatusKind::Confirmed, "Showing "@ + slot_label(c, SourceSlot::B), seq![])
        } else {
            (-1i32, StatusKind::Warning, "Setup required"@, setup_message())
        },
        SourceState::Unknown(v) => if ready {
            (
                -1i32,
                StatusKind::Warning,
                "Current input is not one of the captured sources"@,
                "The monitor reported 0x"@ + hex02(v as nat) + ". Choose source A or B explicitly; screen-hop will not guess."@,
            )
        } else {
            (-1i32, StatusKind::Warning, "Setup required"@, setup_message())
        },
        SourceState::Unreadable => if ready {
            (
                -1i32,
                StatusKind::Warning,
                "Current input could not be confirmed"@,
                "The monitor did not answer the input read. Choose a destination explicitly, or use the monitor's source control."@,
            )
        } else {
            (-1i32, StatusKind::Warning, "Setup required"@, setup_message())
        },
        SourceState::Unconfigured => (-1i32, StatusKind::Warning, "Setup required"@, setup_message()),
    }
}

/// The view built for a configuration, an observed state and an optional pending request.
pub open spec fn view_spec(v: LocalView, c: LocalConfig, state: SourceState, pending: Option<SourceSlot>) -> bool {
    let (name, detail) = monitor_copy_spec(c);
    let (active, kind, text, message) = state_copy(c, state);
    &&& v.monitor_name@ == name
    &&& v.monitor_detail@ == detail
    &&& v.sources@[0].label == c.sources@[0].label
    &&& v.sources@[0].detail@ == source_detail(c.sources@[0].confirmed_value)
    &&& v.sources@[0].configured == c.sources@[0].confirmed_value is Some
    &&& v.sources@[1].label == c.sources@[1].label
    &&& v.sources@[1].detail@ == source_detail(c.sources@[1].confirmed_value)
    &&& v.sources@[1].configured == c.sources@[1].confirmed_value is Some
    &&& v.active_source == active
    &&& v.ready == config_ready(c)
    &&& match pending {
        Some(slot) => {
            &&& v.pending_source == slot_index(slot)
            &&& v.status_kind == StatusKind::Switching
            &&& v.status_text@ == "Switching to "@ + slot_label(c, slot) + "\u{2026}"@
            &&& v.message@
                == "Waiting for the monitor to confirm the new input. The current source has not been changed in the UI yet."@
        },
        None => {
            &&& v.pending_source == -1
            &&& v.status_kind == kind
            &&& v.status_text@ == text
            &&& v.message@ == message
        },
    }
}

fn fallback_slot_label(slot: SourceSlot) -> (s: String)
    ensures
        s@ == fallback_label(slot),
{
    match slot {
        SourceSlot::A => "Source A".to_owned(),
        SourceSlot::B => "Source B".to_owned(),
    }
}

fn label_for(config: &LocalConfig, slot: SourceSlot) -> (s: String)
    ensures
        s@ == slot_label(*config, slot),
{
    let t = str_trim(config.source(slot).label.as_str());
    if t.as_str().unicode_len() == 0 {
        fallback_slot_label(slot)
    } else {
        t
    }
}

fn source_view(config: &LocalConfig, slot: SourceSlot) -> (v: SourceView)
    ensures
        v.label == config.sources@[slot_index(slot)].label,
        v.detail@ == source_detail(config.sources@[slot_index(slot)].confirmed_value),
        v.configured == config.sources@[slot_index(slot)].confirmed_value is Some,
{
    let source = config.source(slot);
    let detail = match source.confirmed_value {
        Some(value) => {
            let mut d = "Input code 0x".to_owned();
            push_hex02(&mut d, value as u64);
            d
        },
        None => "Not captured".to_owned(),
    };
    SourceView { label: source.label.clone(), detail, configured: source.confirmed_value.is_some() }
}

fn monitor_copy(config: &LocalConfig) -> (r: (String, String))
    requires
        config.monitor_aliases.wf(),
    ensures
        (r.0@, r.1@) == monitor_copy_spec(*config),
{
    match &config.selected_monitor {
        None => ("No monitor selected".to_owned(), "Run setup to choose a local DDC/CI display".to_owned()),
        Some(id) => match config.monitor_aliases.get(id.as_str()) {
            Some(alias) => (alias.clone(), id.clone()),
            None => (id.clone(), "Local DDC/CI monitor".to_owned()),
        },
    }
}

fn setup_copy() -> (r: (i32, StatusKind, String, String))
    ensures
        r.0 == -1,
        r.1 == StatusKind::Warning,
        r.2@ == "Setup required"@,
        r.3@ == setup_message(),
{
    (
        -1,
        StatusKind::Warning,
        "Setup required".to_owned(),
        "Choose one local monitor and capture two distinct input sources before switching.".to_owned(),
    )
}

fn state_copy_exec(config: &LocalConfig, state: SourceState, ready: bool) -> (r: (i32, StatusKind, String, String))
    requires
        ready == config_ready(*config),
    ensures
        (r.0, r.1, r.2@, r.3@) == state_copy(*config, state),
{
    match state {
        SourceState::A => {
            if !ready {
                return setup_copy();
            }
            let mut t = "Showing ".to_owned();
            t.append(label_for(config, SourceSlot::A).as_str());
            (0, StatusKind::Confirmed, t, String::new())
        },
        SourceState::B => {
            if !ready {
                return setup_copy();
            }
            let mut t = "Showing ".to_owned();
            t.append(label_for(config, SourceSlot::B).as_str());
            (1, StatusKind::Confirmed, t, String::new())
        },
        SourceState::Unknown(value) => {
            if !ready {
                return setup_copy();
            }
            let mut m = "The monitor reported 0x".to_owned();
            push_hex02(&mut m, value as u64);
            m.append(". Choose source A or B explicitly; screen-hop will not guess.");
            (-1, StatusKind::Warning, "Current input is not one of the captured sources".to_owned(), m)
        },
        SourceState::Unreadable => {
            if !ready {
                return setup_copy();
            }
            (
                -1,
                StatusKind::Warning,
                "Current input could not be confirmed".to_owned(),
                "The monitor did not answer the input read. Choose a destination explicitly, or use the monitor's source control.".to_owned(),
            )
        },
        SourceState::Unconfigured => setup_copy(),
    }
}

/// Build the local flyout/settings model. `pending` is visual progress only and never alters
/// `active_source`; the caller provides a newly observed or confirmed state.
pub fn build_view(config: &LocalConfig, state: SourceState, pending: Option<SourceSlot>) -> (v: LocalView)
    requires
        config.monitor_aliases.wf(),
    ensures
        view_spec(v, *config, state, pending),
{
    let (monitor_name, monitor_detail) = monitor_copy(config);
    let sources = [source_view(config, SourceSlot::A), source_view(config, SourceSlot::B)];
    let ready = config.is_ready();
    let (active_source, status_kind, status_text, message) = state_copy_exec(config, state, ready);
    let mut view = LocalView {
        monitor_name,
        monitor_detail,
        sources,
        active_source,
        pending_source: -1,
        ready,
        status_kind,
        status_text,
        message,
    };
    match pending {
        Some(slot) => {
            view.pending_source = slot.index() as i32;
            let mut t = "Switching to ".to_owned();
            t.append(label_for(config, slot).as_str());
            t.append("\u{2026}");
            view.status_kind = StatusKind::Switching;
            view.status_text = t;
            view.message =
                "Waiting for the monitor to confirm the new input. The current source has not been changed in the UI yet.".to_owned();
        },
        None => {},
    }
    view
}

/// The label a switch report is about: the requested slot's label, or a generic phrase.
pub open spec fn target_label(c: LocalConfig, requested: Option<SourceSlot>) -> Seq<char> {
    match requested {
        Some(slot) => slot_label(c, slot),
        None => "the requested source"@,
    }
}

/// The report's detail, trimmed (empty when absent).
pub open spec fn report_detail(r: LocalSwitchReport) -> Seq<char> {
    match r.detail {
        Some(d) => trim(d@),
        None => seq![],
    }
}

/// The view after overlaying a final switch report: a confirmed success may move the active
/// slot (the executor read it back); an inconclusive success becomes unknown and a warning; any
/// other result is an error that leaves the shown active source alone.
pub open spec fn report_spec(after: LocalView, before: LocalView, c: LocalConfig, r: LocalSwitchReport) -> bool {
    let target = target_label(c, r.requested_source);
    let detail = report_detail(r);
    &&& after.monitor_name == before.monitor_name
    &&& after.monitor_detail == before.monitor_detail
    &&& after.sources == before.sources
    &&& after.ready == before.ready
    &&& after.pending_source == -1
    &&& if r.status == LocalSwitchStatus::Executed(SwitchOutcome::Success) {
        &&& after.active_source == (match r.requested_source {
            Some(slot) => slot_index(slot) as i32,
            None => before.active_source,
        })
        &&& after.status_kind == StatusKind::Confirmed
        &&& after.status_text@ == "Switched to "@ + target
        &&& after.message@ == "The monitor confirmed the new input."@
    } else if r.status == LocalSwitchStatus::Executed(SwitchOutcome::AssumedSuccessReadbackInconclusive) {
        &&& after.active_source == -1
        &&& after.status_kind == StatusKind::Warning
        &&& after.status_text@ == "Switch to "@ + target + " was sent but not confirmed"@
        &&& after.message@ == (if detail.len() == 0 {
            "The write succeeded, but the monitor stopped reporting its input. Use an explicit source button if the picture is not where expected."@
        } else {
            detail
        })
    } else {
        &&& after.active_source == before.active_source
        &&& after.status_kind == StatusKind::Error
        &&& after.status_text@ == "Could not switch to "@ + target
        &&& after.message@ == (if detail.len() == 0 {
            "No confirmed input change was made. Try again, rerun setup, or use the monitor's source control."@
        } else {
            detail
        })
    }
}

/// Turn a switch result into honest final copy.
pub fn with_switch_report(view: LocalView, config: &LocalConfig, report: &LocalSwitchReport) -> (v: LocalView)
    ensures
        report_spec(v, view, *config, *report),
{
    let ghost before = view;
    let mut view = view;
    view.pending_source = -1;
    let target = match report.requested_source {
        Some(slot) => label_for(config, slot),
        None => "the requested source".to_owned(),
    };
    let detail = match &report.detail {
        Some(d) => str_trim(d.as_str()),
        None => String::new(),
    };
    let detail_empty = detail.as_str().unicode_len() == 0;
    match report.status {
        LocalSwitchStatus::Executed(SwitchOutcome::Success) => {
            match report.requested_source {
                Some(slot) => {
                    view.active_source = slot.index() as i32;
                },
                None => {},
            }
            let mut t = "Switched to ".to_owned();
            t.append(target.as_str());
            view.status_kind = StatusKind::Confirmed;
            view.status_text = t;
            view.message = "The monitor confirmed the new input.".to_owned();
        },
        LocalSwitchStatus::Executed(SwitchOutcome::AssumedSuccessReadbackInconclusive) => {
            let mut t = "Switch to ".to_owned();
            t.append(target.as_str());
            t.append(" was sent but not confirmed");
            view.active_source = -1;
            view.status_kind = StatusKind::Warning;
            view.status_text = t;
            view.message = if detail_empty {
                "The write succeeded, but the monitor stopped reporting its input. Use an explicit source button if the picture is not where expected.".to_owned()
            } else {
                detail
            };
        },
        _ => {
            let mut t = "Could not switch to ".to_owned();
            t.append(target.as_str());
            view.status_kind = StatusKind::Error;
            view.status_text = t;
            view.message = if detail_empty {
                "No confirmed input change was made. Try again, rerun setup, or use the monitor's source control.".to_owned()
            } else {
                detail
            };
        },
    }
    view
}

/// Stateless adapter: the one UI policy entry point.
#[derive(Debug, Default, Clone, Copy)]
pub struct Controller;

impl Controller {
    pub fn new() -> (c: Self) {
        Controller
    }

    /// The view for a configuration, an observed state and an optional pending request.
    pub fn view(&self, config: &LocalConfig, state: SourceState, pending: Option<SourceSlot>) -> (v: LocalView)
        requires
            config.monitor_aliases.wf(),
        ensures
            view_spec(v, *config, state, pending),
    {
        build_view(config, state, pending)
    }

    /// A freshly built view with the final switch report overlaid.
    pub fn view_after_report(&self, config: &LocalConfig, state: SourceState, report: &LocalSwitchReport) -> (v: LocalView)
        requires
            config.monitor_aliases.wf(),
        ensures
            exists|base: LocalView| view_spec(base, *config, state, None) && report_spec(v, base, *config, *report),
    {
        let base = build_view(config, state, None);
        let ghost b = base;
        let v = with_switch_report(base, config, report);
        proof {
            assert(view_spec(b, *config, state, None) && report_spec(v, b, *config, *report));
        }
        v
    }
}

/// The shown view when the worker is gone or the safety policy failed to load: switching is
/// not offered and the reason is shown as an error; otherwise the regular view.
pub fn state_view(
    config: &LocalConfig,
    observed: SourceState,
    pending: Option<SourceSlot>,
    worker_available: bool,
    safety_policy_error: &Option<String>,
) -> (v: LocalView)
    requires
        config.monitor_aliases.wf(),
    ensures
        ({
            let (name, detail) = monitor_copy_spec(*config);
            &&& v.monitor_name@ == name
            &&& v.monitor_detail@ == detail
            &&& if !worker_available {
                &&& !v.ready
                &&& v.pending_source == -1
                &&& v.status_kind == StatusKind::Error
                &&& v.status_text@ == "DDC worker unavailable"@
                &&& v.message@ == "No switch command can be sent. Close and reopen screen-hop, then try again."@
            } else if safety_policy_error is Some {
                &&& !v.ready
                &&& v.pending_source == -1
                &&& v.status_kind == StatusKind::Error
                &&& v.status_text@ == "Safety policy could not be loaded"@
                &&& v.message == safety_policy_error->0
            } else {
                view_spec(v, *config, observed, pending)
            }
        }),
{
    let mut view = build_view(config, observed, pending);
    if !worker_available {
        view.ready = false;
        view.pending_source = -1;
        view.status_kind = StatusKind::Error;
        view.status_text = "DDC worker unavailable".to_owned();
        view.message = "No switch command can be sent. Close and reopen screen-hop, then try again.".to_owned();
    } else {
        match safety_policy_error {
            Some(error) => {
                view.ready = false;
                view.pending_source = -1;
                view.status_kind = StatusKind::Error;
                view.status_text = "Safety policy could not be loaded".to_owned();
                view.message = error.clone();
            },
            None => {},
        }
    }
    view
}

/// Resolve an index supplied by the UI to one of exactly two configured source slots. Negative
/// or stale indices and unconfirmed sources give `None`, so a UI event can never bypass the
/// two-value allow-list.
pub fn resolve_source(config: &LocalConfig, index: i32) -> (r: Option<SourceSlot>)
    ensures
        r == (if index == 0 && config.sources@[0].confirmed_value is Some {
            Some(SourceSlot::A)
        } else if index == 1 && config.sources@[1].confirmed_value is Some {
            Some(SourceSlot::B)
        } else {
            None
        }),
{
    let slot = if index == 0 {
        SourceSlot::A
    } else if index == 1 {
        SourceSlot::B
    } else {
        return None;
    };
    if config.source(slot).confirmed_value.is_none() {
        return None;
    }
    Some(slot)
}

/// One detected monitor row of the setup page.
#[derive(Debug, Clone, PartialEq, Eq)]
pub struct DetectedMonitor {
    pub name: String,
    pub detail: String,
    pub recommended: bool,
}

/// Setup rows from `(friendly name, diagnostic detail, recommendation)` values.
pub fn build_detected_monitors(rows: &[(String, String, bool)]) -> (out: Vec<DetectedMonitor>)
    ensures
        out@.len() == rows@.len(),
        forall|i: int| #![trigger out@[i]]
            0 <= i < rows@.len() ==> out@[i].name == rows@[i].0 && out@[i].detail == rows@[i].1 && out@[i].recommended
                == rows@[i].2,
{
    let mut out: Vec<DetectedMonitor> = Vec::new();
    let mut i: usize = 0;
    while i < rows.len()
        invariant
            i <= rows@.len(),
            out@.len() == i,
            forall|k: int| #![trigger out@[k]]
                0 <= k < i ==> out@[k].name == rows@[k].0 && out@[k].detail == rows@[k].1 && out@[k].recommended == rows@[k].2,
        decreases rows@.len() - i,
    {
        out.push(DetectedMonitor { name: rows[i].0.clone(), detail: rows[i].1.clone(), recommended: rows[i].2 });
        i = i + 1;
    }
    out
}

/// The toggle destination for an observed state: the other source; when the input is
/// unreadable, the opposite of the last effective request (if any); nothing otherwise.
pub open spec fn toggle_target_spec(state: SourceState, last_requested: Option<SourceSlot>) -> Option<SourceSlot> {
    match state {
        SourceState::A => Some(SourceSlot::B),
        SourceState::B => Some(SourceSlot::A),
        SourceState::Unreadable => match last_requested {
            Some(s) => Some(slot_opposite(s)),
            None => None,
        },
        _ => None,
    }
}

pub fn toggle_target(state: SourceState, last_requested: Option<SourceSlot>) -> (r: Option<SourceSlot>)
    ensures
        r == toggle_target_spec(state, last_requested),
{
    match state {
        SourceState::A => Some(SourceSlot::B),
        SourceState::B => Some(SourceSlot::A),
        SourceState::Unreadable => match last_requested {
            Some(s) => Some(s.opposite()),
            None => None,
        },
        _ => None,
    }
}

/// Commands the UI hands to the DDC worker thread.
#[derive(Debug, Clone)]
pub enum WorkerCommand {
    Read { config: LocalConfig },
    SwitchTo { config: LocalConfig, source: SourceSlot },
    CaptureA { monitor_id: String },
    CaptureBAndReturn { monitor_id: String, monitor_model_token: Option<String>, source_a: u16 },
}

/// The toggle request for an observed state: exactly the target shown as pending, sent as an
/// explicit `SwitchTo` of that target.
pub fn toggle_request(config: &LocalConfig, state: SourceState) -> (r: Option<(SourceSlot, WorkerCommand)>)
    requires
        config.monitor_aliases.wf(),
    ensures
        match toggle_target_spec(state, config.last_requested) {
            Some(t) => r matches Some((shown, WorkerCommand::SwitchTo { config: c, source })) && shown == t && source == t
                && same_config(c, *config),
            None => r is None,
        },
{
    match toggle_target(state, config.last_requested) {
        Some(target) => Some((target, WorkerCommand::SwitchTo { config: config.duplicate(), source: target })),
        None => None,
    }
}

/// Setup capture of source B: a value becomes the candidate only when it fits in 16 bits and
/// differs from A; reading A again resets the candidate; the second consecutive matching read
/// confirms it.
pub fn update_distinct_candidate(source_a: u16, candidate: &mut Option<(u16, u8)>, reading: Option<u32>) -> (r: Option<u16>)
    ensures
        match reading {
            Some(v) if v <= 0xFFFF => if v == source_a as u32 {
                *final(candidate) is None && r is None
            } else {
                match *old(candidate) {
                    Some((prev, count)) if prev as u32 == v => {
                        let n = if count == 255 { 255u8 } else { (count + 1) as u8 };
                        &&& *final(candidate) == Some((prev, n))
                        &&& r == (if n >= 2 { Some(prev) } else { None })
                    },
                    _ => *final(candidate) == Some((v as u16, 1u8)) && r is None,
                }
            },
            _ => *final(candidate) == *old(candidate) && r is None,
        },
{
    let value: u16 = match reading {
        Some(v) => {
            if v > 0xFFFF {
                return None;
            }
            v as u16
        },
        None => {
            return None;
        },
    };
    if value == source_a {
        *candidate = None;
        return None;
    }
    match *candidate {
        Some((previous, count)) => {
            if previous == value {
                let n = count.saturating_add(1);
                *candidate = Some((previous, n));
                if n >= 2 {
                    return Some(value);
                }
                return None;
            }
        },
        None => {},
    }
    *candidate = Some((value, 1));
    None
}

} // verus!
