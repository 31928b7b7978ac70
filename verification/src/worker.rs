//! The DDC worker of the local app: what each command from the UI does to the switcher and which
//! event it answers, including the guided capture of the two source values. The worker thread
//! and its channels belong to the host program; every decision is here.

use crate::driver::{Clock, Delayer, MonitorDriver};
use crate::local_config::{LocalConfig, SourceConfig, SourceSlot, LOCAL_CONFIG_VERSION};
use crate::executor::DriverEvent;
use crate::local_switcher::{read_answer, switch_effect, LocalSwitchReport, LocalSwitchStatus, LocalSwitcher, SourceState};
use crate::quirks::QuirksDb;
use crate::ownership::opt_view;
use crate::strmap::StrMap;
use crate::text::{dec_digits, hex02, push_dec, push_hex02};
use crate::types::SwitchOutcome;
use crate::ui::{update_distinct_candidate, WorkerCommand};
use vstd::prelude::*;
use vstd::string::StringExecFns;

verus! {

/// How often setup polls for source B after the user switches the monitor by hand.
pub const SETUP_POLL_INTERVAL_MS: u32 = 250;
/// How many polls setup makes for source B (thirty seconds).
pub const SETUP_POLL_ATTEMPTS: u32 = 120;
/// How many reads capturing source A tries.
pub const READ_RETRY_ATTEMPTS: u32 = 8;
/// The pause between those reads.
pub const READ_RETRY_INTERVAL_MS: u32 = 250;

/// Source B was captured and the monitor was confirmed back on source A.
#[derive(Debug, Clone)]
pub struct CaptureBSuccess {
    pub source_b: u16,
    pub return_report: LocalSwitchReport,
}

/// What the worker answers to a command.
#[derive(Debug)]
pub enum WorkerEvent {
    Read(SourceState),
    Switched { config: LocalConfig, state_after: SourceState, report: LocalSwitchReport },
    CapturedA(Result<u16, String>),
    CapturedB(Result<CaptureBSuccess, String>),
}

pub open spec fn unreadable_a_text() -> Seq<char> {
    "Could not read source A. Enable DDC/CI and make sure this PC is visible."@
}

pub open spec fn out_of_range_text(v: u32) -> Seq<char> {
    "Monitor returned out-of-range input value "@ + dec_digits(v as nat) + "."@
}

pub open spec fn b_not_observed_text() -> Seq<char> {
    "Source B was not observed reliably within 30 seconds. Use the monitor's physical input control to return to this PC; no configuration was saved."@
}

pub open spec fn return_failed_text(b: u16, detail: Option<Seq<char>>) -> Seq<char> {
    "Source B was captured as 0x"@ + hex02(b as nat) + ", but screen-hop could not confirm the return to A: "@
        + (match detail {
        Some(d) => d,
        None => "the return command was not confirmed"@,
    }) + ". Use the monitor's physical input control; setup was not saved."@
}

/// The answer to capturing source A from one (retried) read: a value that fits the 16-bit
/// source codes, or why not.
pub open spec fn capture_a_answer(r: Result<u16, String>, reading: Option<u32>) -> bool {
    match reading {
        Some(v) => if v <= 0xFFFF {
            r == Ok::<u16, String>(v as u16)
        } else {
            r matches Err(e) && e@ == out_of_range_text(v)
        },
        None => r matches Err(e) && e@ == unreadable_a_text(),
    }
}

/// The configuration that setup uses to switch back to A: the selected monitor and its model
/// token, default labels, the two captured values, no aliases, and B as the last request.
pub open spec fn is_capture_config(c: LocalConfig, monitor: Seq<char>, token: Option<Seq<char>>, a: u16, b: u16) -> bool {
    &&& c.version == LOCAL_CONFIG_VERSION
    &&& c.selected_monitor matches Some(m) && m@ == monitor
    &&& opt_view(c.selected_monitor_model_token) == token
    &&& c.sources@[0].label@ == "Source A"@
    &&& c.sources@[0].confirmed_value == Some(a)
    &&& c.sources@[1].label@ == "Source B"@
    &&& c.sources@[1].confirmed_value == Some(b)
    &&& c.monitor_aliases.wf()
    &&& c.monitor_aliases@ == Map::<Seq<char>, String>::empty()
    &&& c.monitor_aliases.keys_view().len() == 0
    &&& c.last_requested == Some(SourceSlot::B)
}

/// Between two logs, setup switched back to A under the capture configuration for values `a`
/// and `b`, and `report` is what that switch reported.
pub open spec fn returned_to_a(
    db: QuirksDb,
    disabled: Option<Seq<char>>,
    log_before: Seq<DriverEvent>,
    log_after: Seq<DriverEvent>,
    monitor: Seq<char>,
    token: Option<Seq<char>>,
    a: u16,
    b: u16,
    report: LocalSwitchReport,
) -> bool {
    exists|c: LocalConfig, c2: LocalConfig|
        is_capture_config(c, monitor, token, a, b) && #[trigger] switch_effect(
            db,
            disabled,
            log_before,
            log_after,
            c,
            c2,
            SourceSlot::A,
            report,
        )
}

/// One step of the setup capture of B (what `update_distinct_candidate` does): a reading that
/// fits 16 bits and equals A resets the candidate; another value starts or advances it; the
/// second matching reading confirms it; anything else leaves it.
pub open spec fn next_candidate(a: u16, cand: Option<(u16, u8)>, reading: Option<u32>) -> (Option<(u16, u8)>, Option<u16>) {
    match reading {
        Some(v) if v <= 0xFFFF => if v == a as u32 {
            (None, None)
        } else {
            match cand {
                Some((prev, count)) if prev as u32 == v => {
                    let n = if count == 255 { 255u8 } else { (count + 1) as u8 };
                    (Some((prev, n)), if n >= 2 { Some(prev) } else { None })
                },
                _ => (Some((v as u16, 1u8)), None),
            }
        },
        _ => (cand, None),
    }
}

/// The value B that a run of readings confirms, starting from candidate `cand`: the first
/// confirmation, if any.
pub open spec fn observe_b_from(a: u16, cand: Option<(u16, u8)>, readings: Seq<Option<u32>>) -> Option<u16>
    decreases readings.len(),
{
    if readings.len() == 0 {
        None
    } else {
        let (c2, r) = next_candidate(a, cand, readings[0]);
        if r is Some {
            r
        } else {
            observe_b_from(a, c2, readings.skip(1))
        }
    }
}

/// The values of the reads in a log, in order.
pub open spec fn read_values(events: Seq<DriverEvent>) -> Seq<Option<u32>>
    decreases events.len(),
{
    if events.len() == 0 {
        seq![]
    } else {
        let rest = read_values(events.skip(1));
        match events[0] {
            DriverEvent::Read { value, .. } => seq![value] + rest,
            _ => rest,
        }
    }
}

/// `events` is a retried read of `monitor` with `left` tries: a read; if it returned a value,
/// or it was the last try, nothing more; otherwise one pause of [`READ_RETRY_INTERVAL_MS`] and
/// the next try. The result is the last read's value.
pub open spec fn retry_model(monitor: Seq<char>, left: nat, events: Seq<DriverEvent>) -> Option<Option<u32>>
    decreases left,
{
    if left == 0 || events.len() == 0 {
        None
    } else {
        match events[0] {
            DriverEvent::Read { monitor: m, value } => if m != monitor {
                None
            } else if value is Some || left == 1 {
                if events.len() == 1 {
                    Some(value)
                } else {
                    None
                }
            } else if events.len() >= 2 && events[1] == (DriverEvent::Pause { ms: READ_RETRY_INTERVAL_MS }) {
                retry_model(monitor, (left - 1) as nat, events.skip(2))
            } else {
                None
            },
            _ => None,
        }
    }
}

/// `events` is the setup poll for B on `monitor` with `left` polls: a read folded into the
/// candidate; on a confirmation, or at the last poll, nothing more; otherwise one pause of
/// [`SETUP_POLL_INTERVAL_MS`] and the next poll. The result is the confirmed B, if any.
pub open spec fn poll_model(monitor: Seq<char>, a: u16, cand: Option<(u16, u8)>, left: nat, events: Seq<DriverEvent>) -> Option<Option<u16>>
    decreases left,
{
    if left == 0 || events.len() == 0 {
        None
    } else {
        match events[0] {
            DriverEvent::Read { monitor: m, value } => if m != monitor {
                None
            } else {
                let (c2, r) = next_candidate(a, cand, value);
                if r is Some || left == 1 {
                    if events.len() == 1 {
                        Some(r)
                    } else {
                        None
                    }
                } else if events.len() >= 2 && events[1] == (DriverEvent::Pause { ms: SETUP_POLL_INTERVAL_MS }) {
                    poll_model(monitor, a, c2, (left - 1) as nat, events.skip(2))
                } else {
                    None
                }
            },
            _ => None,
        }
    }
}

/// A poll confirms exactly what its readings confirm, and never A.
pub proof fn lemma_poll_observes(monitor: Seq<char>, a: u16, cand: Option<(u16, u8)>, left: nat, events: Seq<DriverEvent>)
    requires
        poll_model(monitor, a, cand, left, events) is Some,
        cand matches Some((c, _)) ==> c != a,
    ensures
        poll_model(monitor, a, cand, left, events)->0 == observe_b_from(a, cand, read_values(events)),
        poll_model(monitor, a, cand, left, events)->0 matches Some(b) ==> b != a,
    decreases left,
{
    let vals = read_values(events);
    let v0 = read_value_at(events);
    assert(events[0] is Read);
    assert(vals == seq![v0] + read_values(events.skip(1)));
    assert(vals[0] == v0);
    let (c2, r) = next_candidate(a, cand, v0);
    assert(c2 matches Some((c, _)) ==> c != a);
    if r is None && left != 1 {
        let rest = events.skip(2);
        assert(events.skip(1).skip(1) =~= rest);
        assert(events.skip(1)[0] == events[1]);
        assert(read_values(events.skip(1)) == read_values(rest));
        assert(poll_model(monitor, a, cand, left, events) == poll_model(monitor, a, c2, (left - 1) as nat, rest));
        lemma_poll_observes(monitor, a, c2, (left - 1) as nat, rest);
        assert(vals.skip(1) =~= read_values(rest));
        assert(observe_b_from(a, cand, vals) == observe_b_from(a, c2, vals.skip(1)));
    } else {
        assert(events.len() == 1);
        assert(events.skip(1).len() == 0);
        assert(read_values(events.skip(1)) =~= seq![]);
        assert(vals =~= seq![v0]);
        assert(poll_model(monitor, a, cand, left, events) == Some(r));
        if r is None {
            assert(vals.skip(1).len() == 0);
            assert(observe_b_from(a, c2, vals.skip(1)) is None);
        }
    }
}

/// The value of a log's first event, when it is a read.
pub open spec fn read_value_at(events: Seq<DriverEvent>) -> Option<u32> {
    match events[0] {
        DriverEvent::Read { value, .. } => value,
        _ => None,
    }
}

/// What capturing B and returning to A answers. Polling is logged and follows [`poll_model`];
/// it confirms exactly what [`observe_b_from`] gives for the values it read, and never A. No B:
/// nothing else happens and the not-observed error is returned. A B: the monitor is switched
/// back to A under the capture configuration; success means that return was confirmed,
/// anything else is reported with its detail.
pub open spec fn capture_b_answer<D: MonitorDriver, L: Delayer, C: Clock>(
    before: LocalSwitcher<D, L, C>,
    after: LocalSwitcher<D, L, C>,
    monitor: Seq<char>,
    token: Option<Seq<char>>,
    a: u16,
    r: Result<CaptureBSuccess, String>,
) -> bool {
    exists|mid: Seq<DriverEvent>|
        #[trigger] poll_model(monitor, a, None, SETUP_POLL_ATTEMPTS as nat, mid.skip(before.log().len() as int)) matches Some(found) && {
            &&& mid.len() >= before.log().len()
            &&& mid.take(before.log().len() as int) == before.log()
            &&& found == observe_b_from(a, None, read_values(mid.skip(before.log().len() as int)))
            &&& match found {
                None => after.log() == mid && (r matches Err(e) && e@ == b_not_observed_text()),
                Some(b) => b != a && match r {
                    Ok(s) => {
                        &&& s.source_b == b
                        &&& s.return_report.status == LocalSwitchStatus::Executed(SwitchOutcome::Success)
                        &&& returned_to_a(before.quirks(), before.disabled(), mid, after.log(), monitor, token, a, b, s.return_report)
                    },
                    Err(e) => exists|report: LocalSwitchReport|
                        report.status != LocalSwitchStatus::Executed(SwitchOutcome::Success)
                            && #[trigger] returned_to_a(before.quirks(), before.disabled(), mid, after.log(), monitor, token, a, b, report)
                            && e@ == return_failed_text(b, opt_view(report.detail)),
                },
            }
        }
}

/// The answer to capturing source A from a read.
pub fn capture_a_result(reading: Option<u32>) -> (r: Result<u16, String>)
    ensures
        capture_a_answer(r, reading),
{
    match reading {
        Some(v) => {
            if v <= 0xFFFF {
                Ok(v as u16)
            } else {
                let mut m = "Monitor returned out-of-range input value ".to_owned();
                push_dec(&mut m, v as u64);
                m.append(".");
                Err(m)
            }
        },
        None => Err("Could not read source A. Enable DDC/CI and make sure this PC is visible.".to_owned()),
    }
}

/// Read the monitor's input, retrying with a pause between tries: the first successful read,
/// or none after every try failed. Reads and pauses are logged.
pub fn read_input_retry<D: MonitorDriver, L: Delayer, C: Clock, P: Delayer>(
    switcher: &mut LocalSwitcher<D, L, C>,
    pause: &P,
    monitor_id: &str,
) -> (r: Option<u32>)
    ensures
        final(switcher).quirks() == old(switcher).quirks(),
        final(switcher).disabled() == old(switcher).disabled(),
        final(switcher).wf() == old(switcher).wf(),
        final(switcher).log().len() >= old(switcher).log().len(),
        final(switcher).log().take(old(switcher).log().len() as int) == old(switcher).log(),
        retry_model(monitor_id@, READ_RETRY_ATTEMPTS as nat, final(switcher).log().skip(old(switcher).log().len() as int)) == Some(r),
{
    retry_from(switcher, pause, monitor_id, READ_RETRY_ATTEMPTS)
}

fn retry_from<D: MonitorDriver, L: Delayer, C: Clock, P: Delayer>(
    switcher: &mut LocalSwitcher<D, L, C>,
    pause: &P,
    monitor_id: &str,
    left: u32,
) -> (r: Option<u32>)
    requires
        left >= 1,
    ensures
        final(switcher).quirks() == old(switcher).quirks(),
        final(switcher).disabled() == old(switcher).disabled(),
        final(switcher).wf() == old(switcher).wf(),
        final(switcher).log().len() >= old(switcher).log().len(),
        final(switcher).log().take(old(switcher).log().len() as int) == old(switcher).log(),
        retry_model(monitor_id@, left as nat, final(switcher).log().skip(old(switcher).log().len() as int)) == Some(r),
    decreases left,
{
    let ghost start = switcher.log();
    let value = switcher.read_input(monitor_id);
    let done = match value {
        Some(_) => true,
        None => left == 1,
    };
    if done {
        proof {
            assert(switcher.log().skip(start.len() as int) =~= seq![DriverEvent::Read { monitor: monitor_id@, value }]);
            assert(switcher.log().take(start.len() as int) =~= start);
        }
        return value;
    }
    switcher.pause_with(pause, READ_RETRY_INTERVAL_MS);
    let ghost mid = switcher.log();
    let r = retry_from(switcher, pause, monitor_id, left - 1);
    proof {
        let all = switcher.log();
        let e = all.skip(start.len() as int);
        assert(mid.take(start.len() as int) =~= start);
        assert(all.take(start.len() as int) =~= start) by {
            assert(all.take(mid.len() as int) == mid);
        }
        assert(e[0] == all[start.len() as int]);
        assert(all[start.len() as int] == mid[start.len() as int]) by {
            assert(all.take(mid.len() as int) == mid);
        }
        assert(e[1] == mid[start.len() + 1int]) by {
            assert(all.take(mid.len() as int) == mid);
        }
        assert(e.skip(2) =~= all.skip(mid.len() as int));
    }
    r
}

/// The value B that a run of setup readings confirms: the first time a reading that fits 16 bits
/// and differs from A is seen a second time without A being read in between.
pub fn observe_b(readings: &[Option<u32>], a: u16) -> (r: Option<u16>)
    ensures
        r == observe_b_from(a, None, readings@),
{
    let mut candidate: Option<(u16, u8)> = None;
    let mut i: usize = 0;
    assert(readings@.skip(0) =~= readings@);
    while i < readings.len()
        invariant
            i <= readings@.len(),
            observe_b_from(a, None, readings@) == observe_b_from(a, candidate, readings@.skip(i as int)),
        decreases readings@.len() - i,
    {
        let ghost before = candidate;
        let found = update_distinct_candidate(a, &mut candidate, readings[i]);
        proof {
            assert(readings@.skip(i as int)[0] == readings@[i as int]);
            assert(readings@.skip(i as int).skip(1) =~= readings@.skip(i + 1));
            assert((candidate, found) == next_candidate(a, before, readings@[i as int]));
        }
        match found {
            Some(b) => {
                return Some(b);
            },
            None => {},
        }
        i = i + 1;
    }
    None
}

fn poll_from<D: MonitorDriver, L: Delayer, C: Clock, P: Delayer>(
    switcher: &mut LocalSwitcher<D, L, C>,
    pause: &P,
    monitor_id: &str,
    a: u16,
    cand: Option<(u16, u8)>,
    left: u32,
) -> (r: Option<u16>)
    requires
        left >= 1,
    ensures
        final(switcher).quirks() == old(switcher).quirks(),
        final(switcher).disabled() == old(switcher).disabled(),
        final(switcher).wf() == old(switcher).wf(),
        final(switcher).log().len() >= old(switcher).log().len(),
        final(switcher).log().take(old(switcher).log().len() as int) == old(switcher).log(),
        poll_model(monitor_id@, a, cand, left as nat, final(switcher).log().skip(old(switcher).log().len() as int)) == Some(r),
    decreases left,
{
    let ghost start = switcher.log();
    let reading = switcher.read_input(monitor_id);
    let mut c = cand;
    let found = update_distinct_candidate(a, &mut c, reading);
    proof {
        assert((c, found) == next_candidate(a, cand, reading));
    }
    let done = match found {
        Some(_) => true,
        None => left == 1,
    };
    if done {
        proof {
            assert(switcher.log().skip(start.len() as int) =~= seq![DriverEvent::Read { monitor: monitor_id@, value: reading }]);
            assert(switcher.log().take(start.len() as int) =~= start);
        }
        return found;
    }
    switcher.pause_with(pause, SETUP_POLL_INTERVAL_MS);
    let ghost mid = switcher.log();
    let r = poll_from(switcher, pause, monitor_id, a, c, left - 1);
    proof {
        let all = switcher.log();
        let e = all.skip(start.len() as int);
        assert(mid.take(start.len() as int) =~= start);
        assert(all.take(start.len() as int) =~= start) by {
            assert(all.take(mid.len() as int) == mid);
        }
        assert(e[0] == mid[start.len() as int]) by {
            assert(all.take(mid.len() as int) == mid);
        }
        assert(e[1] == mid[start.len() + 1int]) by {
            assert(all.take(mid.len() as int) == mid);
        }
        assert(e.skip(2) =~= all.skip(mid.len() as int));
    }
    r
}

/// Poll for source B after the user switched the monitor by hand (two consecutive equal reads,
/// different from A), then switch back to A under a configuration of the two captured values and
/// require that return to be confirmed.
pub fn capture_b_and_return<D: MonitorDriver, L: Delayer, C: Clock, P: Delayer>(
    switcher: &mut LocalSwitcher<D, L, C>,
    pause: &P,
    monitor_id: &str,
    monitor_model_token: Option<String>,
    source_a: u16,
) -> (r: Result<CaptureBSuccess, String>)
    requires
        old(switcher).wf(),
    ensures
        final(switcher).wf(),
        final(switcher).quirks() == old(switcher).quirks(),
        final(switcher).disabled() == old(switcher).disabled(),
        capture_b_answer(*old(switcher), *final(switcher), monitor_id@, opt_view(monitor_model_token), source_a, r),
{
    let ghost start = *switcher;
    let ghost token = opt_view(monitor_model_token);
    let found = poll_from(switcher, pause, monitor_id, source_a, None, SETUP_POLL_ATTEMPTS);
    let ghost polled = switcher.log();
    proof {
        lemma_poll_observes(monitor_id@, source_a, None, SETUP_POLL_ATTEMPTS as nat, polled.skip(start.log().len() as int));
    }
    let source_b = match found {
        Some(b) => b,
        None => {
            proof {
                assert(poll_model(monitor_id@, source_a, None, SETUP_POLL_ATTEMPTS as nat, polled.skip(start.log().len() as int)) == Some(found));
            }
            return Err(
                "Source B was not observed reliably within 30 seconds. Use the monitor's physical input control to return to this PC; no configuration was saved.".to_owned(),
            );
        },
    };
    let mut config = LocalConfig {
        version: LOCAL_CONFIG_VERSION,
        selected_monitor: Some(monitor_id.to_owned()),
        selected_monitor_model_token: monitor_model_token,
        sources: [
            SourceConfig::new("Source A".to_owned(), Some(source_a)),
            SourceConfig::new("Source B".to_owned(), Some(source_b)),
        ],
        monitor_aliases: StrMap::new(),
        last_requested: Some(SourceSlot::B),
    };
    let ghost proof_config = config;
    assert(is_capture_config(proof_config, monitor_id@, token, source_a, source_b));
    let ghost mid = *switcher;
    let return_report = switcher.switch_to(&mut config, SourceSlot::A);
    proof {
        assert(switch_effect(mid.quirks(), mid.disabled(), mid.log(), switcher.log(), proof_config, config, SourceSlot::A, return_report));
        assert(returned_to_a(start.quirks(), start.disabled(), polled, switcher.log(), monitor_id@, token, source_a, source_b, return_report));
        assert(poll_model(monitor_id@, source_a, None, SETUP_POLL_ATTEMPTS as nat, polled.skip(start.log().len() as int)) == Some(found));
    }
    match return_report.status {
        LocalSwitchStatus::Executed(SwitchOutcome::Success) => Ok(CaptureBSuccess { source_b, return_report }),
        _ => {
            let mut m = "Source B was captured as 0x".to_owned();
            push_hex02(&mut m, source_b as u64);
            m.append(", but screen-hop could not confirm the return to A: ");
            match &return_report.detail {
                Some(d) => m.append(d.as_str()),
                None => m.append("the return command was not confirmed"),
            }
            m.append(". Use the monitor's physical input control; setup was not saved.");
            proof {
                assert(m@ =~= return_failed_text(source_b, opt_view(return_report.detail)));
            }
            Err(m)
        },
    }
}

/// Commands whose configuration the worker can hand to the switcher.
pub open spec fn command_ok(command: WorkerCommand) -> bool {
    match command {
        WorkerCommand::Read { config } => config.monitor_aliases.wf(),
        WorkerCommand::SwitchTo { config, .. } => config.monitor_aliases.wf(),
        _ => true,
    }
}

/// Carry out one UI command and produce its answer: a read is classified; a switch reports its
/// result, the updated configuration and a fresh reading; source A is captured from a retried
/// read; source B is captured and the monitor returned to A.
pub fn worker_step<D: MonitorDriver, L: Delayer, C: Clock, P: Delayer>(
    switcher: &mut LocalSwitcher<D, L, C>,
    pause: &P,
    command: WorkerCommand,
) -> (event: WorkerEvent)
    requires
        old(switcher).wf(),
        command_ok(command),
    ensures
        final(switcher).wf(),
        final(switcher).quirks() == old(switcher).quirks(),
        final(switcher).disabled() == old(switcher).disabled(),
        match command {
            WorkerCommand::Read { config } => event matches WorkerEvent::Read(s) && read_answer(
                old(switcher).log(),
                final(switcher).log(),
                config,
                s,
            ),
            WorkerCommand::SwitchTo { config, source } => event matches WorkerEvent::Switched { config: after, state_after, report } && {
                &&& report.requested_source == Some(source)
                &&& exists|mid: Seq<DriverEvent>|
                    #[trigger] switch_effect(old(switcher).quirks(), old(switcher).disabled(), old(switcher).log(), mid, config, after, source, report)
                        && read_answer(mid, final(switcher).log(), after, state_after)
            },
            WorkerCommand::CaptureA { monitor_id } => event matches WorkerEvent::CapturedA(r) && {
                &&& final(switcher).log().len() >= old(switcher).log().len()
                &&& final(switcher).log().take(old(switcher).log().len() as int) == old(switcher).log()
                &&& retry_model(monitor_id@, READ_RETRY_ATTEMPTS as nat, final(switcher).log().skip(old(switcher).log().len() as int)) matches Some(reading)
                    && capture_a_answer(r, reading)
            },
            WorkerCommand::CaptureBAndReturn { monitor_id, monitor_model_token, source_a } => event matches WorkerEvent::CapturedB(r)
                && capture_b_answer(*old(switcher), *final(switcher), monitor_id@, opt_view(monitor_model_token), source_a, r),
        },
{
    match command {
        WorkerCommand::Read { config } => WorkerEvent::Read(switcher.read_state(&config)),
        WorkerCommand::SwitchTo { mut config, source } => {
            let report = switcher.switch_to(&mut config, source);
            let ghost mid = switcher.log();
            let state_after = switcher.read_state(&config);
            WorkerEvent::Switched { config, state_after, report }
        },
        WorkerCommand::CaptureA { monitor_id } => {
            let reading = read_input_retry(switcher, pause, monitor_id.as_str());
            WorkerEvent::CapturedA(capture_a_result(reading))
        },
        WorkerCommand::CaptureBAndReturn { monitor_id, monitor_model_token, source_a } => {
            WorkerEvent::CapturedB(capture_b_and_return(switcher, pause, monitor_id.as_str(), monitor_model_token, source_a))
        },
    }
}

/// The message that disables writes when a quirks safety file is invalid; none when every layer
/// loaded.
pub fn safety_policy_message(errors: &[String]) -> (m: Option<String>)
    ensures
        errors@.len() == 0 ==> m is None,
        errors@.len() > 0 ==> (m matches Some(s) && s@ == "Monitor writes are disabled because a quirks safety file is invalid ("@
            + joined(errors@.map_values(|e: String| e@), errors@.len() as int)
            + "). Fix or remove the invalid file, then reopen screen-hop."@),
{
    if errors.len() == 0 {
        return None;
    }
    let ghost views = errors@.map_values(|e: String| e@);
    let mut m = "Monitor writes are disabled because a quirks safety file is invalid (".to_owned();
    let ghost prefix = m@;
    let mut i: usize = 0;
    while i < errors.len()
        invariant
            i <= errors.len(),
            views == errors@.map_values(|e: String| e@),
            m@ == prefix + joined(views, i as int),
        decreases errors.len() - i,
    {
        if i > 0 {
            m.append("; ");
        }
        m.append(errors[i].as_str());
        proof {
            assert(m@ =~= prefix + joined(views, i + 1));
        }
        i = i + 1;
    }
    m.append("). Fix or remove the invalid file, then reopen screen-hop.");
    Some(m)
}

/// The first `n` texts, separated by "; ".
pub open spec fn joined(texts: Seq<Seq<char>>, n: int) -> Seq<char>
    decreases n,
{
    if n <= 0 {
        seq![]
    } else if n == 1 {
        texts[0]
    } else {
        joined(texts, n - 1) + "; "@ + texts[n - 1]
    }
}

} // verus!
