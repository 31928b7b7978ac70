use screenhop::actuator::LocalActuator;
use screenhop::calibration::CalibrationStore;
use screenhop::driver::{Clock, Delayer, MonitorDriver};
use screenhop::executor::SwitchExecutor;
use screenhop::mesh::Actuator;
use screenhop::quirks::{Quirk, QuirksDb};
use screenhop::types::{DdcWriteResult, SwitchOutcome};

const PEER: &str = "peerA";
const MON: &str = "mon-1";

struct NoDelay;
impl Delayer for NoDelay {
    fn delay(&self, _ms: u32) {}
}
struct ZeroClock;
impl Clock for ZeroClock {
    fn now_ms(&self) -> u64 {
        0
    }
}

struct FakeDriver {
    available: bool,
    current: u32,
    write_result: DdcWriteResult,
    apply: bool,
    writes: Vec<u32>,
}
impl FakeDriver {
    fn new() -> Self {
        Self {
            available: true,
            current: 0x11,
            write_result: DdcWriteResult::Accepted,
            apply: true,
            writes: Vec::new(),
        }
    }
}
impl MonitorDriver for FakeDriver {
    fn is_ddc_available(&mut self, _id: &str) -> bool {
        self.available
    }
    fn try_read_input(&mut self, _id: &str) -> Option<u32> {
        Some(self.current)
    }
    fn write_input(&mut self, _id: &str, value: u32) -> DdcWriteResult {
        self.writes.push(value);
        if self.write_result == DdcWriteResult::Accepted && self.apply {
            self.current = value;
        }
        self.write_result
    }
}

fn actuator(
    driver: FakeDriver,
    quirks: QuirksDb,
    calibration: CalibrationStore,
) -> LocalActuator<FakeDriver, NoDelay, ZeroClock> {
    let exec = SwitchExecutor::new(driver, NoDelay, ZeroClock);
    LocalActuator::new(PEER.to_owned(), exec, quirks, calibration)
}

#[test]
fn uncalibrated_monitor_refuses_without_writing() {
    let mut a = actuator(FakeDriver::new(), QuirksDb::default(), CalibrationStore::new());
    let report = a.switch_to_self(MON);
    assert_eq!(report.outcome, SwitchOutcome::NeedsCalibration);
    assert_eq!(report.observed, None);
}

#[test]
fn calibrated_pull_to_self_succeeds() {
    let mut cal = CalibrationStore::new();
    cal.record(PEER, MON, 0x0F);
    let mut a = actuator(FakeDriver::new(), QuirksDb::default(), cal);
    let report = a.switch_to_self(MON);
    assert_eq!(report.outcome, SwitchOutcome::Success);
    assert_eq!(report.observed, Some(0x0F));
}

#[test]
fn quirk_blocked_value_is_consulted_and_prevents_the_write() {
    let mut cal = CalibrationStore::new();
    cal.record(PEER, MON, 0x0F);
    let mut quirks = QuirksDb::default();
    quirks.set_local(
        MON.to_owned(),
        Quirk {
            blocked_input_values: vec![0x0F],
            ..Quirk::default()
        },
    );
    let mut a = actuator(FakeDriver::new(), quirks, cal);
    let report = a.switch_to_self(MON);
    assert_eq!(report.outcome, SwitchOutcome::BlockedValue);
}

#[test]
fn quirk_readback_unreliable_flows_into_the_policy() {
    let mut cal = CalibrationStore::new();
    cal.record(PEER, MON, 0x0F);
    let mut quirks = QuirksDb::default();
    quirks.set_local(
        MON.to_owned(),
        Quirk {
            readback_unreliable: Some(true),
            ..Quirk::default()
        },
    );
    let mut a = actuator(FakeDriver::new(), quirks, cal);
    let report = a.switch_to_self(MON);
    assert_eq!(report.outcome, SwitchOutcome::AssumedSuccessReadbackInconclusive);
}

#[test]
fn another_peers_calibration_is_not_used() {
    let mut cal = CalibrationStore::new();
    cal.record("peerB", MON, 0x0F);
    let mut a = actuator(FakeDriver::new(), QuirksDb::default(), cal);
    assert_eq!(a.switch_to_self(MON).outcome, SwitchOutcome::NeedsCalibration);
    a.calibration_mut().record(PEER, MON, 0x11);
    assert_eq!(a.switch_to_self(MON).outcome, SwitchOutcome::Success);
}

#[test]
fn unavailable_ddc_is_reported() {
    let mut cal = CalibrationStore::new();
    cal.record(PEER, MON, 0x0F);
    let mut driver = FakeDriver::new();
    driver.available = false;
    let mut a = actuator(driver, QuirksDb::default(), cal);
    assert_eq!(a.switch_to_self(MON).outcome, SwitchOutcome::DdcUnavailable);
}
