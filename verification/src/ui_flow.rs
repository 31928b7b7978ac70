//! The local app's window flow as a state machine: what each user action, worker answer and
//! startup outcome does to the UI state, and which commands, saves and screen changes follow.
//! The window toolkit and the worker channel carry out the actions.

use crate::local_config::{config_ready, same_config, LocalConfig, SourceConfig, SourceSlot, LOCAL_CONFIG_VERSION};
use crate::local_switcher::{LocalSwitchStatus, SourceState};
use crate::types::effective_success;
use crate::ownership::opt_view;
use crate::strmap::StrMap;
use crate::text::{hex02, push_hex02, str_trim, trim};
use crate::ui::{report_spec, resolve_source, toggle_request, toggle_target_spec, view_spec, Controller, LocalView, StatusKind, WorkerCommand};
use crate::worker::WorkerEvent;
use vstd::prelude::*;
use vstd::string::{StrSliceExecFns, StringExecFns};

verus! {

/// What setup has captured so far.
#[derive(Debug)]
pub struct SetupDraft {
    pub monitor_id: Option<String>,
    pub monitor_name: Option<String>,
    pub monitor_model_token: Option<String>,
    pub source_a: Option<u16>,
    pub source_b: Option<u16>,
}

impl SetupDraft {
    pub fn new() -> (d: Self)
        ensures
            d.is_empty(),
    {
        SetupDraft { monitor_id: None, monitor_name: None, monitor_model_token: None, source_a: None, source_b: None }
    }

    pub open spec fn is_empty(&self) -> bool {
        &&& self.monitor_id is None
        &&& self.monitor_name is None
        &&& self.monitor_model_token is None
        &&& self.source_a is None
        &&& self.source_b is None
    }
}

/// A monitor offered on the setup page.
#[derive(Debug)]
pub struct MonitorChoice {
    pub id: String,
    pub name: String,
    pub model_token: Option<String>,
}

/// The window's state apart from the toolkit.
pub struct UiModel {
    pub config: LocalConfig,
    pub observed: SourceState,
    /// The source a sent switch is heading for; at most one switch is in flight.
    pub pending: Option<SourceSlot>,
    pub read_in_flight: bool,
    pub worker_available: bool,
    pub safety_policy_error: Option<String>,
    pub monitors: Vec<MonitorChoice>,
    pub draft: SetupDraft,
    /// The screen shown: 0 main, 1 setup, 2 settings.
    pub screen: u8,
}

/// What the UI does next.
pub enum UiAction {
    /// Hand this command to the worker (a failed send comes back as [`UiEvent::WorkerStopped`]).
    Send(WorkerCommand),
    /// Show the state view of the model (`state_view`).
    Render,
    /// Show this view.
    ShowView(LocalView),
    /// Show a status line and message on the main screen.
    Notice { kind: StatusKind, status: String, message: String },
    /// Persist the model's configuration (after an effective switch).
    SaveConfig,
    /// Persist this configuration as the end of setup; the result comes back as
    /// [`UiEvent::SetupSaved`] or [`UiEvent::SetupSaveFailed`].
    SaveSetup(LocalConfig),
    SetupMessage(String),
    SetupStep(u8),
    SetupBusy(bool),
    /// Select this row of the monitor list (-1 for none).
    SelectMonitor(i32),
    /// 0: main, 1: setup, 2: settings.
    Screen(u8),
}

/// What happened.
pub enum UiEvent {
    SwitchSource(i32),
    Toggle,
    /// The periodic refresh is due on the main screen.
    ReadDue,
    Worker(WorkerEvent),
    /// A command could not be sent; the worker is gone.
    WorkerStopped { during_setup: bool },
    OpenSetup,
    OpenSettings,
    CloseSettings,
    SetupContinue(i32),
    SetupCaptureA,
    SetupListenB,
    SetupFinish { source_a_name: String, source_b_name: String },
    SetupSaved(LocalConfig),
    SetupSaveFailed(String),
    SetupCancel,
}

pub open spec fn msg_is(a: UiAction, text: Seq<char>) -> bool {
    a matches UiAction::SetupMessage(m) && m@ == text
}

pub open spec fn notice_is(a: UiAction, kind: StatusKind, status: Seq<char>, message: Seq<char>) -> bool {
    a matches UiAction::Notice { kind: k, status: s, message: m } && k == kind && s@ == status && m@ == message
}

pub open spec fn sends(actions: Seq<UiAction>) -> bool {
    exists|i: int| 0 <= i < actions.len() && #[trigger] actions[i] is Send
}

pub open spec fn saves(actions: Seq<UiAction>) -> bool {
    exists|i: int| 0 <= i < actions.len() && (#[trigger] actions[i] is SaveConfig || actions[i] is SaveSetup)
}

/// Configurations handed in by events are well formed (as every configuration the library
/// builds is).
pub open spec fn event_ok(e: UiEvent) -> bool {
    match e {
        UiEvent::Worker(WorkerEvent::Switched { config, .. }) => config.monitor_aliases.wf(),
        UiEvent::SetupSaved(config) => config.monitor_aliases.wf(),
        _ => true,
    }
}

/// A switch status that counts as an effective success.
pub open spec fn status_effective(s: LocalSwitchStatus) -> bool {
    s matches LocalSwitchStatus::Executed(o) && effective_success(o)
}

/// The slot a UI index names, when that slot has a confirmed value (what `resolve_source` gives).
pub open spec fn resolve_source_spec(config: LocalConfig, index: i32) -> Option<SourceSlot> {
    if index == 0 && config.sources@[0].confirmed_value is Some {
        Some(SourceSlot::A)
    } else if index == 1 && config.sources@[1].confirmed_value is Some {
        Some(SourceSlot::B)
    } else {
        None
    }
}

/// `m` is the model with the worker marked gone and nothing in flight.
pub open spec fn stopped(old: UiModel, m: UiModel) -> bool {
    &&& m.config == old.config
    &&& m.observed == old.observed
    &&& m.pending is None
    &&& !m.read_in_flight
    &&& !m.worker_available
    &&& m.safety_policy_error == old.safety_policy_error
    &&& m.monitors == old.monitors
    &&& m.draft == old.draft
    &&& m.screen == old.screen
}

/// `m` is `old` with at most the pending slot, the in-flight read, the observation and the
/// configuration changed as listed.
pub open spec fn same_setup(old: UiModel, m: UiModel) -> bool {
    &&& m.worker_available == old.worker_available
    &&& m.safety_policy_error == old.safety_policy_error
    &&& m.monitors == old.monitors
    &&& m.draft == old.draft
    &&& m.screen == old.screen
}

/// `m` is `old` apart from the screen, the pending slot, the in-flight read, the observation and
/// the configuration.
pub open spec fn same_setup_but_screen(old: UiModel, m: UiModel) -> bool {
    &&& m.worker_available == old.worker_available
    &&& m.safety_policy_error == old.safety_policy_error
    &&& m.monitors == old.monitors
    &&& m.draft == old.draft
    &&& m.observed == old.observed
    &&& m.read_in_flight == old.read_in_flight
}

/// The setup configuration: the chosen monitor with its name as alias, both captured values
/// under the trimmed names, and A as the last request.
pub open spec fn setup_config_ok(c: LocalConfig, draft: SetupDraft, a_name: Seq<char>, b_name: Seq<char>) -> bool {
    &&& c.version == LOCAL_CONFIG_VERSION
    &&& opt_view(c.selected_monitor) == opt_view(draft.monitor_id)
    &&& opt_view(c.selected_monitor_model_token) == opt_view(draft.monitor_model_token)
    &&& c.sources@[0].label@ == trim(a_name)
    &&& c.sources@[0].confirmed_value == draft.source_a
    &&& c.sources@[1].label@ == trim(b_name)
    &&& c.sources@[1].confirmed_value == draft.source_b
    &&& c.monitor_aliases.wf()
    &&& c.monitor_aliases@ == Map::<Seq<char>, String>::empty().insert(draft.monitor_id->0@, draft.monitor_name->0)
    &&& c.last_requested == Some(SourceSlot::A)
}

/// Finish setup from the draft and the two names typed for the sources: both captures (and the
/// monitor) must be present, then both trimmed names non-blank.
pub fn setup_finish(draft: &SetupDraft, source_a_name: &str, source_b_name: &str) -> (r: Result<LocalConfig, String>)
    ensures
        match r {
            Ok(c) => {
                &&& draft.monitor_id is Some && draft.monitor_name is Some && draft.source_a is Some && draft.source_b is Some
                &&& trim(source_a_name@).len() > 0 && trim(source_b_name@).len() > 0
                &&& setup_config_ok(c, *draft, source_a_name@, source_b_name@)
            },
            Err(e) => if !(draft.monitor_id is Some && draft.monitor_name is Some && draft.source_a is Some
                && draft.source_b is Some) {
                e@ == "Both source captures must pass before setup can finish."@
            } else {
                (trim(source_a_name@).len() == 0 || trim(source_b_name@).len() == 0) && e@ == "Give both sources a name."@
            },
        },
{
    let (monitor_id, monitor_name, source_a, source_b) = match (&draft.monitor_id, &draft.monitor_name, draft.source_a, draft.source_b) {
        (Some(id), Some(name), Some(a), Some(b)) => (id, name, a, b),
        _ => {
            return Err("Both source captures must pass before setup can finish.".to_owned());
        },
    };
    let a_name = str_trim(source_a_name);
    let b_name = str_trim(source_b_name);
    if a_name.as_str().unicode_len() == 0 || b_name.as_str().unicode_len() == 0 {
        return Err("Give both sources a name.".to_owned());
    }
    let mut aliases: StrMap<String> = StrMap::new();
    aliases.insert(monitor_id.clone(), monitor_name.clone());
    let token = match &draft.monitor_model_token {
        Some(t) => Some(t.clone()),
        None => None,
    };
    let c = LocalConfig {
        version: LOCAL_CONFIG_VERSION,
        selected_monitor: Some(monitor_id.clone()),
        selected_monitor_model_token: token,
        sources: [SourceConfig::new(a_name, Some(source_a)), SourceConfig::new(b_name, Some(source_b))],
        monitor_aliases: aliases,
        last_requested: Some(SourceSlot::A),
    };
    assert(c.monitor_aliases@ =~= Map::<Seq<char>, String>::empty().insert(draft.monitor_id->0@, draft.monitor_name->0));
    Ok(c)
}

fn message(text: &str) -> (a: UiAction)
    ensures
        msg_is(a, text@),
{
    UiAction::SetupMessage(text.to_owned())
}

/// The row to select when setup opens: the configured monitor's row, else the first, else none.
pub open spec fn selected_row(config: LocalConfig, monitors: Seq<MonitorChoice>) -> i32 {
    if config.selected_monitor is Some && exists|i: int| 0 <= i < monitors.len() && monitors[i].id@ == config.selected_monitor->0@ {
        (choose|i: int| 0 <= i < monitors.len() && monitors[i].id@ == config.selected_monitor->0@
            && forall|j: int| 0 <= j < i ==> monitors[j].id@ != config.selected_monitor->0@) as i32
    } else if monitors.len() == 0 {
        -1i32
    } else {
        0i32
    }
}

fn select_row(config: &LocalConfig, monitors: &Vec<MonitorChoice>) -> (r: i32)
    requires
        monitors@.len() < 0x7FFF_FFFF,
    ensures
        r == selected_row(*config, monitors@),
{
    match &config.selected_monitor {
        Some(sel) => {
            let mut i: usize = 0;
            while i < monitors.len()
                invariant
                    i <= monitors@.len(),
                    monitors@.len() < 0x7FFF_FFFF,
                    config.selected_monitor is Some,
                    config.selected_monitor->0@ == sel@,
                    forall|j: int| 0 <= j < i ==> monitors@[j].id@ != sel@,
                decreases monitors@.len() - i,
            {
                if crate::text::str_eq(monitors[i].id.as_str(), sel.as_str()) {
                    proof {
                        let ii = i as int;
                        assert(monitors@[ii].id@ == sel@);
                        assert(0 <= ii < monitors@.len() && monitors@[ii].id@ == config.selected_monitor->0@
                            && forall|j: int| 0 <= j < ii ==> monitors@[j].id@ != config.selected_monitor->0@);
                        let k = choose|k: int| 0 <= k < monitors@.len() && monitors@[k].id@ == config.selected_monitor->0@
                            && forall|j: int| 0 <= j < k ==> monitors@[j].id@ != config.selected_monitor->0@;
                        if k < ii {
                            assert(monitors@[k].id@ != sel@);
                        } else if k > ii {
                            assert(monitors@[ii].id@ != config.selected_monitor->0@);
                        }
                        assert(k == ii);
                    }
                    return i as i32;
                }
                i = i + 1;
            }
        },
        None => {},
    }
    if monitors.len() == 0 {
        -1
    } else {
        0
    }
}

/// Open the setup page: an empty draft, the configured monitor's row selected, first step.
fn open_setup(model: UiModel, text: Option<String>) -> (r: (UiModel, Vec<UiAction>))
    requires
        model.monitors@.len() < 0x7FFF_FFFF,
    ensures
        r.0.draft.is_empty(),
        r.0.config == model.config,
        r.0.observed == model.observed,
        r.0.pending == model.pending,
        r.0.read_in_flight == model.read_in_flight,
        r.0.worker_available == model.worker_available,
        r.0.safety_policy_error == model.safety_policy_error,
        r.0.monitors == model.monitors,
        r.0.screen == 1,
        !sends(r.1@),
        !saves(r.1@),
        r.1@.len() == 5,
        r.1@[0] == UiAction::SelectMonitor(selected_row(model.config, model.monitors@)),
        r.1@[1] == UiAction::SetupStep(1),
        r.1@[2] == UiAction::SetupBusy(false),
        msg_is(r.1@[3], match text { Some(t) => t@, None => seq![] }),
        r.1@[4] == UiAction::Screen(1),
{
    let mut model = model;
    model.draft = SetupDraft::new();
    model.screen = 1;
    let row = select_row(&model.config, &model.monitors);
    let msg = match text {
        Some(t) => t,
        None => String::new(),
    };
    let mut actions: Vec<UiAction> = Vec::new();
    actions.push(UiAction::SelectMonitor(row));
    actions.push(UiAction::SetupStep(1));
    actions.push(UiAction::SetupBusy(false));
    actions.push(UiAction::SetupMessage(msg));
    actions.push(UiAction::Screen(1));
    (model, actions)
}

/// The configuration as `default_config` makes it.
pub open spec fn is_default_config(c: LocalConfig) -> bool {
    &&& c.version == LOCAL_CONFIG_VERSION
    &&& c.selected_monitor is None
    &&& c.selected_monitor_model_token is None
    &&& c.sources@[0].label@ == "Source A"@
    &&& c.sources@[0].confirmed_value is None
    &&& c.sources@[1].label@ == "Source B"@
    &&& c.sources@[1].confirmed_value is None
    &&& c.monitor_aliases.wf()
    &&& c.monitor_aliases@ == Map::<Seq<char>, String>::empty()
    &&& c.last_requested is None
}

/// The configured monitor is ready but not among the detected ones.
pub open spec fn selected_missing(c: LocalConfig, monitors: Seq<MonitorChoice>) -> bool {
    config_ready(c) && !(exists|i: int| 0 <= i < monitors.len() && monitors[i].id@ == c.selected_monitor->0@)
}

pub open spec fn config_error_text(e: Seq<char>) -> Seq<char> {
    "The existing configuration is invalid and was not trusted: "@ + e + ". Complete setup to replace it."@
}

pub open spec fn missing_monitor_text() -> Seq<char> {
    "The configured monitor handle is not available. Complete setup again before switching."@
}

/// The present parts, separated by single spaces.
pub open spec fn join_present(parts: Seq<Option<Seq<char>>>) -> Seq<char>
    decreases parts.len(),
{
    if parts.len() == 0 {
        seq![]
    } else {
        let head = join_present(parts.drop_last());
        match parts.last() {
            Some(p) => if head.len() == 0 { p } else { head + seq![' '] + p },
            None => head,
        }
    }
}

/// The startup message: the configuration problem, the worker problem, the safety-policy
/// problem and a missing configured monitor, those that apply, in that order.
pub open spec fn startup_text(loaded_error: Option<Seq<char>>, worker_error: Option<Seq<char>>, safety: Option<Seq<char>>, missing: bool) -> Seq<char> {
    join_present(seq![
        match loaded_error { Some(e) => Some(config_error_text(e)), None => None },
        worker_error,
        safety,
        if missing { Some(missing_monitor_text()) } else { None },
    ])
}

fn push_part(out: &mut String, part: &Option<String>)
    ensures
        final(out)@ == (match part {
            Some(p) => if old(out)@.len() == 0 { p@ } else { old(out)@ + seq![' '] + p@ },
            None => old(out)@,
        }),
{
    match part {
        Some(p) => {
            if out.as_str().unicode_len() > 0 {
                crate::text::string_push(out, ' ');
            }
            out.append(p.as_str());
        },
        None => {},
    }
}

/// The window's first state: the loaded configuration (or, when it could not be trusted, the
/// default one with a message), the worker's and the safety policy's state, the observation
/// still to be read; then setup is opened (with the startup message) when asked, when the
/// configured monitor is missing, when the configuration is not ready or when the worker is
/// gone; otherwise the main screen is shown and the first read is sent.
pub fn ui_start(
    loaded: Result<LocalConfig, String>,
    monitors: Vec<MonitorChoice>,
    worker_error: Option<String>,
    safety_policy_error: Option<String>,
    force_setup: bool,
) -> (r: (UiModel, Vec<UiAction>))
    requires
        monitors@.len() < 0x7FFF_FFFF,
        loaded matches Ok(c) ==> c.monitor_aliases.wf(),
    ensures
        r.0.config.monitor_aliases.wf(),
        match loaded {
            Ok(c) => r.0.config == c,
            Err(_) => is_default_config(r.0.config),
        },
        r.0.monitors == monitors,
        r.0.worker_available == (worker_error is None),
        r.0.safety_policy_error == safety_policy_error,
        r.0.observed == (if config_ready(r.0.config) { SourceState::Unreadable } else { SourceState::Unconfigured }),
        r.0.pending is None,
        r.0.draft.is_empty(),
        r.1@.len() >= 1,
        r.1@[0] is Render,
        ({
            let missing = selected_missing(r.0.config, monitors@);
            let text = startup_text(
                match loaded { Ok(_) => None, Err(e) => Some(e@) },
                opt_view(worker_error),
                opt_view(safety_policy_error),
                missing,
            );
            if force_setup || missing || !config_ready(r.0.config) || worker_error is Some {
                &&& !r.0.read_in_flight
                &&& r.0.screen == 1
                &&& r.1@.len() == 6
                &&& r.1@[1] == UiAction::SelectMonitor(selected_row(r.0.config, monitors@))
                &&& r.1@[2] == UiAction::SetupStep(1)
                &&& msg_is(r.1@[4], text)
                &&& r.1@[5] == UiAction::Screen(1)
            } else {
                &&& r.0.read_in_flight
                &&& r.0.screen == 0
                &&& r.1@.len() == 3
                &&& r.1@[1] == UiAction::Screen(0)
                &&& r.1@[2] matches UiAction::Send(WorkerCommand::Read { config: c }) && same_config(c, r.0.config)
            }
        }),
{
    let ghost lt: Option<Seq<char>> = match loaded { Ok(_) => None, Err(ref e) => Some(e@) };
    let (config, loaded_error) = match loaded {
        Ok(c) => (c, None),
        Err(e) => (LocalConfig::default_config(), Some(e)),
    };
    assert(match loaded { Ok(_) => loaded_error is None, Err(e) => loaded_error == Some(e) });
    let ready = config.is_ready();
    let mut found = false;
    match &config.selected_monitor {
        Some(sel) => {
            let mut i: usize = 0;
            while i < monitors.len()
                invariant
                    i <= monitors@.len(),
                    config.selected_monitor is Some,
                    config.selected_monitor->0@ == sel@,
                    found == exists|j: int| 0 <= j < i && monitors@[j].id@ == sel@,
                decreases monitors@.len() - i,
            {
                if crate::text::str_eq(monitors[i].id.as_str(), sel.as_str()) {
                    found = true;
                }
                i = i + 1;
            }
        },
        None => {},
    }
    let missing = ready && !found;
    proof {
        if config.selected_monitor is Some {
            assert(missing == selected_missing(config, monitors@));
        } else {
            assert(!config_ready(config));
        }
    }
    let mut text = String::new();
    let config_part = match &loaded_error {
        Some(e) => {
            let mut m = "The existing configuration is invalid and was not trusted: ".to_owned();
            m.append(e.as_str());
            m.append(". Complete setup to replace it.");
            Some(m)
        },
        None => None,
    };
    assert(opt_view(config_part) == match loaded_error { Some(e) => Some(config_error_text(e@)), None => None::<Seq<char>> });
    let missing_part = if missing {
        Some("The configured monitor handle is not available. Complete setup again before switching.".to_owned())
    } else {
        None
    };
    let ghost parts = seq![
        opt_view(config_part),
        opt_view(worker_error),
        opt_view(safety_policy_error),
        opt_view(missing_part),
    ];
    proof {
        assert(parts.drop_last().drop_last().drop_last().drop_last() =~= Seq::<Option<Seq<char>>>::empty());
        assert(parts.drop_last().drop_last().drop_last() =~= seq![parts[0]]);
        assert(parts.drop_last().drop_last() =~= seq![parts[0], parts[1]]);
        assert(parts.drop_last() =~= seq![parts[0], parts[1], parts[2]]);
        assert(join_present(parts.drop_last().drop_last().drop_last().drop_last()) == Seq::<char>::empty());
    }
    push_part(&mut text, &config_part);
    assert(text@ == join_present(parts.drop_last().drop_last().drop_last()));
    push_part(&mut text, &worker_error);
    assert(text@ == join_present(parts.drop_last().drop_last()));
    push_part(&mut text, &safety_policy_error);
    assert(text@ == join_present(parts.drop_last()));
    push_part(&mut text, &missing_part);
    assert(text@ == join_present(parts));
    proof {
        let expected = seq![
            match loaded_error { Some(e) => Some(config_error_text(e@)), None => None::<Seq<char>> },
            opt_view(worker_error),
            opt_view(safety_policy_error),
            if missing { Some(missing_monitor_text()) } else { None },
        ];
        assert(parts =~= expected);
        let st = seq![
            match lt { Some(e) => Some(config_error_text(e)), None => None },
            opt_view(worker_error),
            opt_view(safety_policy_error),
            if selected_missing(config, monitors@) { Some(missing_monitor_text()) } else { None },
        ];
        assert(st =~= expected);
        assert(startup_text(lt, opt_view(worker_error), opt_view(safety_policy_error), selected_missing(config, monitors@)) == join_present(st));
    }
    assert(text@ == startup_text(
        lt,
        opt_view(worker_error),
        opt_view(safety_policy_error),
        selected_missing(config, monitors@),
    ));
    let worker_available = worker_error.is_none();
    let observed = if ready { SourceState::Unreadable } else { SourceState::Unconfigured };
    let model = UiModel {
        config,
        observed,
        pending: None,
        read_in_flight: false,
        worker_available,
        safety_policy_error,
        monitors,
        draft: SetupDraft::new(),
        screen: 0,
    };
    if force_setup || missing || !ready || !worker_available {
        let (m, rest) = open_setup(model, Some(text));
        let mut actions: Vec<UiAction> = Vec::new();
        actions.push(UiAction::Render);
        let ghost rest0 = rest@;
        let mut rest = rest;
        actions.append(&mut rest);
        assert(actions@ =~= seq![UiAction::Render] + rest0);
        (m, actions)
    } else {
        let mut model = model;
        model.read_in_flight = true;
        let mut actions: Vec<UiAction> = Vec::new();
        actions.push(UiAction::Render);
        actions.push(UiAction::Screen(0));
        actions.push(UiAction::Send(WorkerCommand::Read { config: model.config.duplicate() }));
        (model, actions)
    }
}

/// One step of the window flow.
///
/// - Switch or toggle: refused while the worker is gone (which shows it) or while another switch
///   is pending (nothing happens); an unusable index or an unknown current input shows a notice;
///   otherwise the target becomes pending, is shown, and exactly that switch is sent.
/// - A due refresh sends one read when the worker is there, the configuration is ready, no
///   switch is pending and no read is in flight.
/// - Worker answers update the observation; a switch answer clears the pending slot, shows the
///   report (or the safety-policy error) and asks to save the updated configuration only when
///   the switch was an effective success; capture answers advance setup or show their error.
/// - Setup: choose a monitor, capture A, listen for B, finish (saved before it takes effect),
///   cancel.
pub fn ui_step(model: UiModel, event: UiEvent) -> (r: (UiModel, Vec<UiAction>))
    requires
        model.config.monitor_aliases.wf(),
        model.monitors@.len() < 0x7FFF_FFFF,
        event_ok(event),
    ensures
        r.0.monitors == model.monitors,
        r.0.config.monitor_aliases.wf(),
        // At most one switch in flight: nothing is sent for a switch while another is pending.
        model.pending is Some && (event is SwitchSource || event is Toggle) ==> !sends(r.1@),
        // Configuration is saved only after an effective switch, with the configuration it
        // returned, or at the end of setup.
        saves(r.1@) ==> (event matches UiEvent::Worker(WorkerEvent::Switched { report, .. }) && status_effective(report.status))
            || event is SetupFinish,
        match event {
            UiEvent::SwitchSource(index) => if !model.worker_available {
                stopped(model, r.0) && r.1@ == seq![UiAction::Render]
            } else if model.pending is Some {
                r.0 == model
            } else {
                match resolve_source_spec(model.config, index) {
                    None => r.0 == model && r.1@.len() == 1 && notice_is(
                        r.1@[0],
                        StatusKind::Error,
                        "Source is not configured"@,
                        "Rerun setup before switching."@,
                    ),
                    Some(s) => {
                        &&& r.0.pending == Some(s)
                        &&& r.0.config == model.config && r.0.observed == model.observed
                        &&& r.0.read_in_flight == model.read_in_flight && same_setup(model, r.0)
                        &&& r.1@.len() == 2 && r.1@[0] is Render
                        &&& r.1@[1] matches UiAction::Send(WorkerCommand::SwitchTo { config: c, source }) && source == s
                            && same_config(c, model.config)
                    },
                }
            },
            UiEvent::Toggle => if !model.worker_available {
                stopped(model, r.0) && r.1@ == seq![UiAction::Render]
            } else if model.pending is Some {
                r.0 == model
            } else {
                match toggle_target_spec(model.observed, model.config.last_requested) {
                    None => r.0 == model && r.1@.len() == 1 && notice_is(
                        r.1@[0],
                        StatusKind::Warning,
                        "Choose a source explicitly"@,
                        "The current input is not known well enough for a blind toggle."@,
                    ),
                    Some(t) => {
                        &&& r.0.pending == Some(t)
                        &&& r.0.config == model.config && r.0.observed == model.observed
                        &&& r.0.read_in_flight == model.read_in_flight && same_setup(model, r.0)
                        &&& r.1@.len() == 2 && r.1@[0] is Render
                        &&& r.1@[1] matches UiAction::Send(WorkerCommand::SwitchTo { config: c, source }) && source == t
                            && same_config(c, model.config)
                    },
                }
            },
            UiEvent::ReadDue => if model.screen == 0 && model.worker_available && config_ready(model.config)
                && model.pending is None && !model.read_in_flight {
                &&& r.0.read_in_flight
                &&& r.0.config == model.config && r.0.observed == model.observed && r.0.pending == model.pending
                &&& same_setup(model, r.0)
                &&& r.1@.len() == 1 && (r.1@[0] matches UiAction::Send(WorkerCommand::Read { config: c }) && same_config(
                    c,
                    model.config,
                ))
            } else {
                r.0 == model && r.1@.len() == 0
            },
            UiEvent::Worker(WorkerEvent::Read(s)) => {
                &&& r.0.observed == s && !r.0.read_in_flight
                &&& r.0.config == model.config && r.0.pending == model.pending && same_setup(model, r.0)
                &&& r.1@ == (if model.pending is None && model.screen == 0 { seq![UiAction::Render] } else { seq![] })
            },
            UiEvent::Worker(WorkerEvent::Switched { config, state_after, report }) => {
                &&& r.0.config == config && r.0.observed == state_after && r.0.pending is None && !r.0.read_in_flight
                &&& same_setup(model, r.0)
                &&& r.1@.len() == (if status_effective(report.status) { 2int } else { 1int })
                &&& if model.safety_policy_error is Some {
                    r.1@[0] is Render
                } else {
                    r.1@[0] matches UiAction::ShowView(v) && exists|base: LocalView| view_spec(base, config, state_after, None)
                        && #[trigger] report_spec(v, base, config, report)
                }
                &&& status_effective(report.status) ==> r.1@[1] is SaveConfig
            },
            UiEvent::Worker(WorkerEvent::CapturedA(res)) => {
                &&& r.0.config == model.config && r.0.observed == model.observed && r.0.pending == model.pending
                &&& r.0.read_in_flight == model.read_in_flight && r.0.worker_available == model.worker_available
                &&& r.0.draft.monitor_id == model.draft.monitor_id && r.0.draft.source_b == model.draft.source_b
                &&& r.1@[0] == UiAction::SetupBusy(false)
                &&& match res {
                    Ok(v) => r.0.draft.source_a == Some(v) && r.1@.len() == 3 && msg_is(
                        r.1@[1],
                        "Captured source A as input code 0x"@ + hex02(v as nat) + "."@,
                    ) && r.1@[2] == UiAction::SetupStep(3),
                    Err(e) => r.0.draft.source_a == model.draft.source_a && r.1@.len() == 2 && msg_is(r.1@[1], e@),
                }
            },
            UiEvent::Worker(WorkerEvent::CapturedB(res)) => {
                &&& r.0.config == model.config && r.0.observed == model.observed && r.0.pending == model.pending
                &&& r.0.read_in_flight == model.read_in_flight && r.0.worker_available == model.worker_available
                &&& r.0.draft.monitor_id == model.draft.monitor_id && r.0.draft.source_a == model.draft.source_a
                &&& r.1@[0] == UiAction::SetupBusy(false)
                &&& match res {
                    Ok(s) => r.0.draft.source_b == Some(s.source_b) && r.1@.len() == 3 && msg_is(
                        r.1@[1],
                        "Captured source B as 0x"@ + hex02(s.source_b as nat) + " and confirmed the return to source A."@,
                    ) && r.1@[2] == UiAction::SetupStep(4),
                    Err(e) => r.0.draft.source_b == model.draft.source_b && r.1@.len() == 2 && msg_is(r.1@[1], e@),
                }
            },
            UiEvent::WorkerStopped { during_setup } => {
                &&& stopped(model, r.0)
                &&& r.1@[0] is Render
                &&& r.1@.len() == (if during_setup { 3int } else { 1int })
                &&& during_setup ==> r.1@[1] == UiAction::SetupBusy(false) && msg_is(r.1@[2], "The DDC worker stopped. Reopen screen-hop."@)
            },
            UiEvent::OpenSetup => r.0.draft.is_empty() && r.0.config == model.config && r.1@.len() == 5 && r.1@[4]
                == UiAction::Screen(1) && r.1@[0] == UiAction::SelectMonitor(selected_row(model.config, model.monitors@)),
            UiEvent::SetupContinue(selected) => if selected < 0 {
                r.0 == model && r.1@.len() == 1 && msg_is(r.1@[0], "Choose a monitor first."@)
            } else if selected >= model.monitors@.len() {
                r.0 == model && r.1@.len() == 1 && msg_is(r.1@[0], "That monitor is no longer available. Reopen setup."@)
            } else {
                let m = model.monitors@[selected as int];
                &&& opt_view(r.0.draft.monitor_id) == Some(m.id@)
                &&& opt_view(r.0.draft.monitor_name) == Some(m.name@)
                &&& opt_view(r.0.draft.monitor_model_token) == opt_view(m.model_token)
                &&& r.0.draft.source_a is None && r.0.draft.source_b is None
                &&& r.0.config == model.config
                &&& r.1@.len() == 2 && msg_is(r.1@[0], seq![]) && r.1@[1] == UiAction::SetupStep(2)
            },
            UiEvent::SetupCaptureA => match model.draft.monitor_id {
                None => r.0 == model && r.1@.len() == 1 && msg_is(r.1@[0], "Return to monitor selection and choose a display."@),
                Some(id) => {
                    &&& r.0 == model
                    &&& r.1@.len() == 3 && r.1@[0] == UiAction::SetupBusy(true)
                    &&& msg_is(r.1@[1], "Reading the currently visible input\u{2026}"@)
                    &&& r.1@[2] matches UiAction::Send(WorkerCommand::CaptureA { monitor_id }) && monitor_id@ == id@
                },
            },
            UiEvent::SetupListenB => if model.draft.monitor_id is None || model.draft.source_a is None {
                r.0 == model && r.1@.len() == 1 && msg_is(r.1@[0], "Capture source A before listening for source B."@)
            } else {
                &&& r.0 == model
                &&& r.1@.len() == 3 && r.1@[0] == UiAction::SetupBusy(true)
                &&& r.1@[2] matches UiAction::Send(WorkerCommand::CaptureBAndReturn { monitor_id, monitor_model_token, source_a })
                    && monitor_id@ == model.draft.monitor_id->0@ && opt_view(monitor_model_token) == opt_view(
                    model.draft.monitor_model_token,
                ) && source_a == model.draft.source_a->0
            },
            UiEvent::SetupFinish { source_a_name, source_b_name } => {
                &&& r.0 == model
                &&& r.1@.len() == 1
                &&& match r.1@[0] {
                    UiAction::SaveSetup(c) => setup_config_ok(c, model.draft, source_a_name@, source_b_name@)
                        && model.draft.source_a is Some && model.draft.source_b is Some,
                    UiAction::SetupMessage(_) => true,
                    _ => false,
                }
            },
            UiEvent::SetupSaved(config) => {
                &&& r.0.config == config && r.0.observed == SourceState::A && r.0.pending is None
                &&& r.0.draft.is_empty()
                &&& r.0.screen == 0
                &&& r.1@[0] == UiAction::SetupBusy(false) && msg_is(r.1@[1], seq![]) && r.1@[2] == UiAction::Screen(0)
                &&& r.1@[3] is Render
                &&& if model.worker_available && config_ready(config) && !model.read_in_flight {
                    r.0.read_in_flight && r.1@.len() == 5 && (r.1@[4] matches UiAction::Send(WorkerCommand::Read { config: c })
                        && same_config(c, config))
                } else {
                    r.0.read_in_flight == model.read_in_flight && r.1@.len() == 4
                }
            },
            UiEvent::SetupSaveFailed(e) => r.0 == model && r.1@.len() == 1 && msg_is(
                r.1@[0],
                "Could not save setup: "@ + e@,
            ),
            UiEvent::OpenSettings => r.0.screen == 2 && r.0.config == model.config && r.0.pending == model.pending
                && same_setup_but_screen(model, r.0) && r.1@ == seq![UiAction::Screen(2)],
            UiEvent::CloseSettings => r.0.screen == 0 && r.0.config == model.config && r.0.pending == model.pending
                && same_setup_but_screen(model, r.0) && r.1@ == seq![UiAction::Screen(0)],
            UiEvent::SetupCancel => {
                &&& r.0.screen == 0
                &&& r.0.draft.is_empty() && r.0.config == model.config && r.0.pending == model.pending
                &&& r.1@.len() == 4 && r.1@[0] == UiAction::SetupBusy(false) && msg_is(r.1@[1], seq![])
                &&& r.1@[2] == UiAction::Screen(0) && r.1@[3] is Render
            },
        },
{
    let mut model = model;
    let mut actions: Vec<UiAction> = Vec::new();
    match event {
        UiEvent::SwitchSource(index) => {
            if !model.worker_available {
                model.pending = None;
                model.read_in_flight = false;
                actions.push(UiAction::Render);
                return (model, actions);
            }
            if model.pending.is_some() {
                return (model, actions);
            }
            match resolve_source(&model.config, index) {
                None => {
                    actions.push(
                        UiAction::Notice {
                            kind: StatusKind::Error,
                            status: "Source is not configured".to_owned(),
                            message: "Rerun setup before switching.".to_owned(),
                        },
                    );
                },
                Some(source) => {
                    model.pending = Some(source);
                    actions.push(UiAction::Render);
                    actions.push(UiAction::Send(WorkerCommand::SwitchTo { config: model.config.duplicate(), source }));
                },
            }
        },
        UiEvent::Toggle => {
            if !model.worker_available {
                model.pending = None;
                model.read_in_flight = false;
                actions.push(UiAction::Render);
                return (model, actions);
            }
            if model.pending.is_some() {
                return (model, actions);
            }
            match toggle_request(&model.config, model.observed) {
                None => {
                    actions.push(
                        UiAction::Notice {
                            kind: StatusKind::Warning,
                            status: "Choose a source explicitly".to_owned(),
                            message: "The current input is not known well enough for a blind toggle.".to_owned(),
                        },
                    );
                },
                Some((target, request)) => {
                    model.pending = Some(target);
                    actions.push(UiAction::Render);
                    actions.push(UiAction::Send(request));
                },
            }
        },
        UiEvent::ReadDue => {
            if model.screen == 0 && model.worker_available && model.config.is_ready() && model.pending.is_none()
                && !model.read_in_flight {
                model.read_in_flight = true;
                actions.push(UiAction::Send(WorkerCommand::Read { config: model.config.duplicate() }));
            }
        },
        UiEvent::Worker(WorkerEvent::Read(observed)) => {
            model.observed = observed;
            model.read_in_flight = false;
            if model.pending.is_none() && model.screen == 0 {
                actions.push(UiAction::Render);
            }
        },
        UiEvent::Worker(WorkerEvent::Switched { config, state_after, report }) => {
            let ok = report.status.is_effective_success();
            let view = if model.safety_policy_error.is_some() {
                None
            } else {
                Some(Controller::new().view_after_report(&config, state_after, &report))
            };
            match view {
                Some(v) => actions.push(UiAction::ShowView(v)),
                None => actions.push(UiAction::Render),
            }
            model.observed = state_after;
            model.pending = None;
            model.read_in_flight = false;
            model.config = config;
            if ok {
                actions.push(UiAction::SaveConfig);
            }
        },
        UiEvent::Worker(WorkerEvent::CapturedA(result)) => {
            actions.push(UiAction::SetupBusy(false));
            match result {
                Ok(value) => {
                    model.draft.source_a = Some(value);
                    let mut m = "Captured source A as input code 0x".to_owned();
                    push_hex02(&mut m, value as u64);
                    m.append(".");
                    actions.push(UiAction::SetupMessage(m));
                    actions.push(UiAction::SetupStep(3));
                },
                Err(error) => {
                    actions.push(UiAction::SetupMessage(error));
                },
            }
        },
        UiEvent::Worker(WorkerEvent::CapturedB(result)) => {
            actions.push(UiAction::SetupBusy(false));
            match result {
                Ok(success) => {
                    model.draft.source_b = Some(success.source_b);
                    let mut m = "Captured source B as 0x".to_owned();
                    push_hex02(&mut m, success.source_b as u64);
                    m.append(" and confirmed the return to source A.");
                    actions.push(UiAction::SetupMessage(m));
                    actions.push(UiAction::SetupStep(4));
                },
                Err(error) => {
                    actions.push(UiAction::SetupMessage(error));
                },
            }
        },
        UiEvent::WorkerStopped { during_setup } => {
            model.pending = None;
            model.read_in_flight = false;
            model.worker_available = false;
            actions.push(UiAction::Render);
            if during_setup {
                actions.push(UiAction::SetupBusy(false));
                actions.push(message("The DDC worker stopped. Reopen screen-hop."));
            }
        },
        UiEvent::OpenSetup => {
            return open_setup(model, None);
        },
        UiEvent::OpenSettings => {
            model.screen = 2;
            actions.push(UiAction::Screen(2));
        },
        UiEvent::CloseSettings => {
            model.screen = 0;
            actions.push(UiAction::Screen(0));
        },
        UiEvent::SetupContinue(selected) => {
            if selected < 0 {
                actions.push(message("Choose a monitor first."));
                return (model, actions);
            }
            let index = selected as usize;
            if index >= model.monitors.len() {
                actions.push(message("That monitor is no longer available. Reopen setup."));
                return (model, actions);
            }
            let m = &model.monitors[index];
            let draft = SetupDraft {
                monitor_id: Some(m.id.clone()),
                monitor_name: Some(m.name.clone()),
                monitor_model_token: match &m.model_token {
                    Some(t) => Some(t.clone()),
                    None => None,
                },
                source_a: None,
                source_b: None,
            };
            model.draft = draft;
            actions.push(UiAction::SetupMessage(String::new()));
            actions.push(UiAction::SetupStep(2));
        },
        UiEvent::SetupCaptureA => {
            match &model.draft.monitor_id {
                None => {
                    actions.push(message("Return to monitor selection and choose a display."));
                },
                Some(id) => {
                    let monitor_id = id.clone();
                    actions.push(UiAction::SetupBusy(true));
                    actions.push(message("Reading the currently visible input\u{2026}"));
                    actions.push(UiAction::Send(WorkerCommand::CaptureA { monitor_id }));
                },
            }
        },
        UiEvent::SetupListenB => {
            match (&model.draft.monitor_id, model.draft.source_a) {
                (Some(id), Some(source_a)) => {
                    let monitor_id = id.clone();
                    let monitor_model_token = match &model.draft.monitor_model_token {
                        Some(t) => Some(t.clone()),
                        None => None,
                    };
                    actions.push(UiAction::SetupBusy(true));
                    actions.push(
                        message(
                            "Listening for up to 30 seconds. Physically switch the monitor to source B now; screen-hop will then attempt to return to A.",
                        ),
                    );
                    actions.push(UiAction::Send(WorkerCommand::CaptureBAndReturn { monitor_id, monitor_model_token, source_a }));
                },
                _ => {
                    actions.push(message("Capture source A before listening for source B."));
                },
            }
        },
        UiEvent::SetupFinish { source_a_name, source_b_name } => {
            match setup_finish(&model.draft, source_a_name.as_str(), source_b_name.as_str()) {
                Ok(config) => actions.push(UiAction::SaveSetup(config)),
                Err(e) => actions.push(UiAction::SetupMessage(e)),
            }
        },
        UiEvent::SetupSaved(config) => {
            model.config = config;
            model.observed = SourceState::A;
            model.pending = None;
            model.draft = SetupDraft::new();
            actions.push(UiAction::SetupBusy(false));
            actions.push(UiAction::SetupMessage(String::new()));
            actions.push(UiAction::Screen(0));
            model.screen = 0;
            actions.push(UiAction::Render);
            if model.worker_available && model.config.is_ready() && !model.read_in_flight {
                model.read_in_flight = true;
                actions.push(UiAction::Send(WorkerCommand::Read { config: model.config.duplicate() }));
            }
        },
        UiEvent::SetupSaveFailed(e) => {
            let mut m = "Could not save setup: ".to_owned();
            m.append(e.as_str());
            actions.push(UiAction::SetupMessage(m));
        },
        UiEvent::SetupCancel => {
            model.draft = SetupDraft::new();
            model.screen = 0;
            actions.push(UiAction::SetupBusy(false));
            actions.push(UiAction::SetupMessage(String::new()));
            actions.push(UiAction::Screen(0));
            actions.push(UiAction::Render);
        },
    }
    (model, actions)
}

} // verus!
