//! Injectable boundaries of the actuation core: the monitor's DDC/CI access, delays and a clock.
//! Implementations live outside the verified core (real hardware, or fakes in tests), so nothing
//! is promised about what they return; the executor's contract is stated over what they returned.

use std::time::Instant;
use crate::types::DdcWriteResult;
use vstd::prelude::*;

verus! {

/// Abstraction over the platform's DDC/CI access. Methods take `&mut self` because the
/// underlying handles require mutable access.
pub trait MonitorDriver {
    /// True if the monitor responds to DDC/CI at all.
    fn is_ddc_available(&mut self, monitor_id: &str) -> bool;

    /// Reads the monitor's current input value (VCP 0x60). `None` if the read fails (inconclusive).
    fn try_read_input(&mut self, monitor_id: &str) -> Option<u32>;

    /// Writes the monitor's input value (VCP 0x60).
    fn write_input(&mut self, monitor_id: &str, value: u32) -> DdcWriteResult;
}

/// Injectable delay so the actuation timing is testable (no real sleeps in tests).
pub trait Delayer {
    fn delay(&self, milliseconds: u32);
}

/// Injectable monotonic clock so the actuation hard ceiling is enforceable and testable. Only
/// differences between readings are meaningful (arbitrary epoch).
pub trait Clock {
    /// Monotonic milliseconds since an arbitrary, fixed origin.
    fn now_ms(&self) -> u64;
}

#[verifier::external_type_specification]
#[verifier::external_body]
pub struct ExInstant(Instant);

/// `std::time::Instant::now`. Nothing is stated about the reading.
#[verifier::external_body]
fn instant_now() -> (t: Instant) {
    Instant::now()
}

/// `Instant::elapsed` in whole milliseconds. Nothing is stated about the reading.
#[verifier::external_body]
fn millis_since(origin: &Instant) -> (ms: u64) {
    origin.elapsed().as_millis() as u64
}

/// Production [`Clock`] backed by a monotonic instant captured at construction.
pub struct RealClock {
    origin: Instant,
}

impl RealClock {
    pub fn new() -> (c: Self) {
        RealClock { origin: instant_now() }
    }
}

impl Default for RealClock {
    fn default() -> (c: Self) {
        RealClock::new()
    }
}

impl Clock for RealClock {
    fn now_ms(&self) -> u64 {
        millis_since(&self.origin)
    }
}

} // verus!
