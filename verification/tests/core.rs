use std::cell::Cell;
use std::collections::VecDeque;
use std::rc::Rc;

use screenhop::driver::{Clock, Delayer, MonitorDriver};
use screenhop::executor::SwitchExecutor;
use screenhop::types::{
    ActuationPolicy, DdcWriteResult, SwitchDirection, SwitchOutcome, SwitchRequest, DEFAULT_BACKOFF_MS,
    DEFAULT_CEILING_MS, DEFAULT_MAX_ATTEMPTS, DEFAULT_SETTLE_MS,
};

const MON: &str = "MON#0";
const TARGET: u32 = 0x0F;

struct NoDelay;
impl Delayer for NoDelay {
    fn delay(&self, _ms: u32) {}
}

struct ZeroClock;
impl Clock for ZeroClock {
    fn now_ms(&self) -> u64 {
        0
    }
}

#[derive(Clone, Default)]
struct TestClock(Rc<Cell<u64>>);
impl Clock for TestClock {
    fn now_ms(&self) -> u64 {
        self.0.get()
    }
}
impl Delayer for TestClock {
    fn delay(&self, ms: u32) {
        self.0.set(self.0.get() + u64::from(ms));
    }
}

struct Fake {
    ddc_available: bool,
    current: u32,
    write_result: DdcWriteResult,
    write_queue: VecDeque<DdcWriteResult>,
    read_succeeds: bool,
    apply_write: bool,
    write_calls: u32,
    read_calls: u32,
    written: Vec<u32>,
}

impl Fake {
    fn new() -> Self {
        Self {
            ddc_available: true,
            current: 0x11,
            write_result: DdcWriteResult::Accepted,
            write_queue: VecDeque::new(),
            read_succeeds: true,
            apply_write: true,
            write_calls: 0,
            read_calls: 0,
            written: Vec::new(),
        }
    }
}

impl MonitorDriver for Fake {
    fn is_ddc_available(&mut self, _id: &str) -> bool {
        self.ddc_available
    }
    fn try_read_input(&mut self, _id: &str) -> Option<u32> {
        self.read_calls += 1;
        if self.read_succeeds {
            Some(self.current)
        } else {
            None
        }
    }
    fn write_input(&mut self, _id: &str, value: u32) -> DdcWriteResult {
        self.write_calls += 1;
        self.written.push(value);
        let r = self.write_queue.pop_front().unwrap_or(self.write_result);
        if r == DdcWriteResult::Accepted && self.apply_write {
            self.current = value;
        }
        r
    }
}

fn policy(readback_reliable: bool, max_attempts: u32, blocked: &[u32], confirmed: &[u32]) -> ActuationPolicy {
    let mut p = ActuationPolicy::new(confirmed, blocked);
    p.max_attempts = max_attempts;
    p.settle_ms = 0;
    p.backoff_ms = 0;
    p.readback_reliable = readback_reliable;
    p
}

fn default_policy() -> ActuationPolicy {
    policy(true, 3, &[], &[TARGET])
}

fn req() -> SwitchRequest {
    SwitchRequest { monitor_id: MON.to_string(), input_value: TARGET, direction: SwitchDirection::PullToSelf }
}

fn exec(fake: Fake) -> SwitchExecutor<Fake, NoDelay, ZeroClock> {
    SwitchExecutor::new(fake, NoDelay, ZeroClock)
}

#[test]
fn succeeds_when_write_and_readback_match() {
    let mut e = exec(Fake::new());
    let r = e.execute(&req(), &default_policy());
    assert_eq!(r.outcome, SwitchOutcome::Success);
    assert_eq!(r.attempts, 1);
    assert_eq!(r.observed_value, Some(TARGET));
    assert_eq!(e.driver_mut().write_calls, 1);
}

#[test]
fn refuses_when_ddc_unavailable_without_writing() {
    let mut fake = Fake::new();
    fake.ddc_available = false;
    let mut e = exec(fake);
    let r = e.execute(&req(), &default_policy());
    assert_eq!(r.outcome, SwitchOutcome::DdcUnavailable);
    assert_eq!(e.driver_mut().write_calls, 0);
}

#[test]
fn refuses_blocked_value_without_writing() {
    let mut e = exec(Fake::new());
    let r = e.execute(&req(), &policy(true, 3, &[TARGET], &[TARGET]));
    assert_eq!(r.outcome, SwitchOutcome::BlockedValue);
    assert_eq!(e.driver_mut().write_calls, 0);
}

#[test]
fn refuses_unconfirmed_value_without_writing() {
    let mut e = exec(Fake::new());
    let r = e.execute(&req(), &policy(true, 3, &[], &[0x11]));
    assert_eq!(r.outcome, SwitchOutcome::NeedsCalibration);
    assert_eq!(e.driver_mut().write_calls, 0);
}

#[test]
fn reports_unsupported_and_does_not_retry() {
    let mut fake = Fake::new();
    fake.write_result = DdcWriteResult::Unsupported;
    let mut e = exec(fake);
    let r = e.execute(&req(), &default_policy());
    assert_eq!(r.outcome, SwitchOutcome::Unsupported);
    assert_eq!(e.driver_mut().write_calls, 1);
}

#[test]
fn readback_failure_after_write_is_inconclusive_not_failure() {
    let mut fake = Fake::new();
    fake.read_succeeds = false;
    let mut e = exec(fake);
    let r = e.execute(&req(), &default_policy());
    assert_eq!(r.outcome, SwitchOutcome::AssumedSuccessReadbackInconclusive);
    assert_eq!(e.driver_mut().write_calls, 1);
}

#[test]
fn skips_readback_when_panel_unreliable() {
    let mut e = exec(Fake::new());
    let r = e.execute(&req(), &policy(false, 3, &[], &[TARGET]));
    assert_eq!(r.outcome, SwitchOutcome::AssumedSuccessReadbackInconclusive);
    assert_eq!(e.driver_mut().write_calls, 1);
    assert_eq!(e.driver_mut().read_calls, 0);
}

#[test]
fn retries_after_failed_write_then_succeeds() {
    let mut fake = Fake::new();
    fake.write_queue = VecDeque::from(vec![DdcWriteResult::Failed, DdcWriteResult::Accepted]);
    let mut e = exec(fake);
    let r = e.execute(&req(), &default_policy());
    assert_eq!(r.outcome, SwitchOutcome::Success);
    assert_eq!(r.attempts, 2);
    assert_eq!(e.driver_mut().write_calls, 2);
}

#[test]
fn fails_after_max_attempts_when_readback_keeps_mismatching() {
    let mut fake = Fake::new();
    fake.current = 0x11;
    fake.apply_write = false;
    let mut e = exec(fake);
    let r = e.execute(&req(), &default_policy());
    assert_eq!(r.outcome, SwitchOutcome::Failed);
    assert_eq!(r.attempts, 3);
    assert_eq!(e.driver_mut().write_calls, 3);
}

#[test]
fn aborts_on_hard_ceiling_before_exhausting_attempts() {
    let mut fake = Fake::new();
    fake.current = 0x11;
    fake.apply_write = false;
    let clock = TestClock::default();
    let mut e = SwitchExecutor::new(fake, clock.clone(), clock);
    let mut p = ActuationPolicy::new(&[TARGET], &[]);
    p.max_attempts = 1000;
    p.settle_ms = 1000;
    p.backoff_ms = 0;
    p.ceiling_ms = 2500;
    let r = e.execute(&req(), &p);
    assert_eq!(r.outcome, SwitchOutcome::Failed);
    assert!(r.detail.as_deref().unwrap_or("").contains("ceiling"), "expected ceiling detail, got {:?}", r.detail);
    assert!(r.attempts <= 4, "attempts should be ceiling-bounded, got {}", r.attempts);
}

#[test]
fn policy_defaults_and_sets_are_exact() {
    let p = ActuationPolicy::new(&[0x0F, 0x11, 0x0F], &[0x12]);
    assert_eq!(p.confirmed_values.len(), 2);
    assert!(p.confirmed_values.contains(&0x0F) && p.confirmed_values.contains(&0x11));
    assert_eq!(p.blocked_values.len(), 1);
    assert_eq!(p.max_attempts, DEFAULT_MAX_ATTEMPTS);
    assert_eq!(p.settle_ms, DEFAULT_SETTLE_MS);
    assert_eq!(p.backoff_ms, DEFAULT_BACKOFF_MS);
    assert_eq!(p.ceiling_ms, DEFAULT_CEILING_MS);
    assert!(p.readback_reliable);
}

#[test]
fn every_write_is_the_requested_value_within_budget() {
    let mut fake = Fake::new();
    fake.apply_write = false;
    let mut e = exec(fake);
    let r = e.execute(&req(), &policy(true, 5, &[], &[TARGET, 0x11]));
    assert_eq!(r.outcome, SwitchOutcome::Failed);
    assert_eq!(r.attempts, 5);
    assert!(e.driver_mut().written.iter().all(|&v| v == TARGET));
    assert_eq!(e.driver_mut().written.len(), 5);
}

#[test]
fn blocked_value_wins_over_confirmation_and_reports_hex_detail() {
    let mut e = exec(Fake::new());
    let r = e.execute(&req(), &policy(true, 3, &[TARGET], &[TARGET]));
    assert_eq!(r.detail.as_deref(), Some("Input 0x0F is on this monitor's blocked list."));
    assert_eq!(r.attempts, 0);
}

#[test]
fn effective_success_classifies_outcomes() {
    assert!(SwitchOutcome::Success.is_effective_success());
    assert!(SwitchOutcome::AssumedSuccessReadbackInconclusive.is_effective_success());
    assert!(!SwitchOutcome::Failed.is_effective_success());
    assert!(!SwitchOutcome::DdcUnavailable.is_effective_success());
    assert!(!SwitchOutcome::Unsupported.is_effective_success());
}
