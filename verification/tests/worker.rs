use std::cell::Cell;
use std::collections::VecDeque;

use screenhop::driver::{Clock, Delayer, MonitorDriver};
use screenhop::executor::SwitchExecutor;
use screenhop::local_config::{LocalConfig, SourceSlot};
use screenhop::local_switcher::{LocalSwitchStatus, LocalSwitcher, SourceState};
use screenhop::quirks::QuirksDb;
use screenhop::types::{DdcWriteResult, SwitchOutcome};
use screenhop::ui::WorkerCommand;
use screenhop::worker::{
    capture_a_result, capture_b_and_return, observe_b, read_input_retry, safety_policy_message, worker_step,
    WorkerEvent, SETUP_POLL_ATTEMPTS,
};

struct CountingDelay {
    calls: Cell<u32>,
}
impl Delayer for CountingDelay {
    fn delay(&self, _milliseconds: u32) {
        self.calls.set(self.calls.get() + 1);
    }
}

struct ZeroClock;
impl Clock for ZeroClock {
    fn now_ms(&self) -> u64 {
        0
    }
}

struct Panel {
    current: Option<u32>,
    reads: VecDeque<Option<u32>>,
    read_count: u32,
    writes: Vec<u32>,
}

impl Panel {
    fn reading(current: Option<u32>, reads: &[Option<u32>]) -> Self {
        Panel { current, reads: reads.iter().copied().collect(), read_count: 0, writes: Vec::new() }
    }
}

impl MonitorDriver for Panel {
    fn is_ddc_available(&mut self, _monitor_id: &str) -> bool {
        true
    }
    fn try_read_input(&mut self, _monitor_id: &str) -> Option<u32> {
        self.read_count += 1;
        self.reads.pop_front().unwrap_or(self.current)
    }
    fn write_input(&mut self, _monitor_id: &str, value: u32) -> DdcWriteResult {
        self.writes.push(value);
        self.current = Some(value);
        DdcWriteResult::Accepted
    }
}

/// A panel that stays on one input whatever is written.
struct Stuck(u32);
impl MonitorDriver for Stuck {
    fn is_ddc_available(&mut self, _monitor_id: &str) -> bool {
        true
    }
    fn try_read_input(&mut self, _monitor_id: &str) -> Option<u32> {
        Some(self.0)
    }
    fn write_input(&mut self, _monitor_id: &str, _value: u32) -> DdcWriteResult {
        DdcWriteResult::Accepted
    }
}

fn switcher(panel: Panel) -> LocalSwitcher<Panel, CountingDelay, ZeroClock> {
    LocalSwitcher::new(
        SwitchExecutor::new(panel, CountingDelay { calls: Cell::new(0) }, ZeroClock),
        QuirksDb::default(),
    )
}

fn pause() -> CountingDelay {
    CountingDelay { calls: Cell::new(0) }
}

fn ready_config() -> LocalConfig {
    let mut config = LocalConfig { selected_monitor: Some("display-1".to_owned()), ..LocalConfig::default() };
    config.source_mut(SourceSlot::A).confirmed_value = Some(0x0f);
    config.source_mut(SourceSlot::B).confirmed_value = Some(0x11);
    config
}

#[test]
fn capture_a_accepts_sixteen_bit_values_and_explains_failures() {
    assert_eq!(capture_a_result(Some(0x0f)), Ok(0x0f));
    assert_eq!(capture_a_result(Some(0xFFFF)), Ok(0xFFFF));
    assert_eq!(
        capture_a_result(Some(70000)),
        Err("Monitor returned out-of-range input value 70000.".to_owned())
    );
    assert_eq!(
        capture_a_result(None),
        Err("Could not read source A. Enable DDC/CI and make sure this PC is visible.".to_owned())
    );
}

#[test]
fn read_retry_returns_the_first_successful_read() {
    let mut sw = switcher(Panel::reading(Some(0x11), &[None, None, Some(0x0f)]));
    let p = pause();
    assert_eq!(read_input_retry(&mut sw, &p, "display-1"), Some(0x0f));
    assert_eq!(sw.driver_mut().read_count, 3);
    assert_eq!(p.calls.get(), 2);
}

#[test]
fn read_retry_gives_up_after_eight_reads() {
    let mut sw = switcher(Panel::reading(None, &[]));
    let p = pause();
    assert_eq!(read_input_retry(&mut sw, &p, "display-1"), None);
    assert_eq!(sw.driver_mut().read_count, 8);
    assert_eq!(p.calls.get(), 7);
}

#[test]
fn capture_b_needs_a_stable_distinct_value_then_confirms_the_return() {
    let panel = Panel::reading(Some(0x0f), &[Some(0x0f), Some(0x11), None, Some(0x12), Some(0x12)]);
    let mut sw = switcher(panel);
    let p = pause();
    let success = capture_b_and_return(&mut sw, &p, "display-1", None, 0x0f).expect("captured");
    assert_eq!(success.source_b, 0x12);
    assert_eq!(success.return_report.status, LocalSwitchStatus::Executed(SwitchOutcome::Success));
    assert_eq!(success.return_report.requested_source, Some(SourceSlot::A));
    assert_eq!(sw.driver_mut().writes, vec![0x0f]);
}

#[test]
fn capture_b_without_a_stable_value_writes_nothing() {
    let panel = Panel::reading(Some(0x0f), &[]);
    let mut sw = switcher(panel);
    let p = pause();
    let error = capture_b_and_return(&mut sw, &p, "display-1", None, 0x0f).err().expect("no B");
    assert!(error.starts_with("Source B was not observed reliably within 30 seconds."));
    assert!(sw.driver_mut().writes.is_empty());
    assert_eq!(sw.driver_mut().read_count, SETUP_POLL_ATTEMPTS);
    assert_eq!(p.calls.get(), SETUP_POLL_ATTEMPTS - 1);
}

#[test]
fn capture_b_reports_an_unconfirmed_return() {
    let mut sw = LocalSwitcher::new(
        SwitchExecutor::new(Stuck(0x11), CountingDelay { calls: Cell::new(0) }, ZeroClock),
        QuirksDb::default(),
    );
    let error = capture_b_and_return(&mut sw, &pause(), "display-1", None, 0x0f).err().expect("not confirmed");
    assert!(error.starts_with("Source B was captured as 0x11, but screen-hop could not confirm the return to A: "));
    assert!(error.ends_with(". Use the monitor's physical input control; setup was not saved."));
}

#[test]
fn worker_read_and_switch_answer_with_fresh_state() {
    let mut sw = switcher(Panel::reading(Some(0x0f), &[]));
    let p = pause();
    match worker_step(&mut sw, &p, WorkerCommand::Read { config: ready_config() }) {
        WorkerEvent::Read(state) => assert_eq!(state, SourceState::A),
        other => panic!("expected a read, got {other:?}"),
    }
    match worker_step(&mut sw, &p, WorkerCommand::SwitchTo { config: ready_config(), source: SourceSlot::B }) {
        WorkerEvent::Switched { config, state_after, report } => {
            assert_eq!(report.status, LocalSwitchStatus::Executed(SwitchOutcome::Success));
            assert_eq!(config.last_requested, Some(SourceSlot::B));
            assert_eq!(state_after, SourceState::B);
        }
        other => panic!("expected a switch, got {other:?}"),
    }
    match worker_step(&mut sw, &p, WorkerCommand::Read { config: LocalConfig::default() }) {
        WorkerEvent::Read(state) => assert_eq!(state, SourceState::Unconfigured),
        other => panic!("expected a read, got {other:?}"),
    }
}

#[test]
fn worker_captures_source_a() {
    let mut sw = switcher(Panel::reading(Some(0x0f), &[None]));
    match worker_step(&mut sw, &pause(), WorkerCommand::CaptureA { monitor_id: "display-1".to_owned() }) {
        WorkerEvent::CapturedA(result) => assert_eq!(result, Ok(0x0f)),
        other => panic!("expected a capture, got {other:?}"),
    }
}

#[test]
fn safety_message_lists_each_invalid_layer() {
    assert_eq!(safety_policy_message(&[]), None);
    assert_eq!(
        safety_policy_message(&["local quirks: bad".to_owned(), "user quirks: worse".to_owned()]).as_deref(),
        Some("Monitor writes are disabled because a quirks safety file is invalid (local quirks: bad; user quirks: worse). Fix or remove the invalid file, then reopen screen-hop.")
    );
}

#[test]
fn observe_b_follows_the_setup_candidate() {
    assert_eq!(observe_b(&[None, Some(0x11), Some(0x12), Some(0x12)], 0x0f), Some(0x12));
    assert_eq!(observe_b(&[Some(0x11), None, Some(0x11)], 0x0f), Some(0x11));
    assert_eq!(observe_b(&[Some(0x11), Some(0x0f), Some(0x11)], 0x0f), None);
    assert_eq!(observe_b(&[Some(0x1_0011), Some(0x1_0011)], 0x0f), None);
    assert_eq!(observe_b(&[Some(0x0f), Some(0x0f)], 0x0f), None);
    assert_eq!(observe_b(&[], 0x0f), None);
}
