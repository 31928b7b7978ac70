use std::collections::VecDeque;

use screenhop::driver::{Clock, Delayer, MonitorDriver};
use screenhop::executor::SwitchExecutor;
use screenhop::harness::{soak_panel, PanelStats, SoakReport, SoakSample};
use screenhop::local_config::{ConfigError, LocalConfig, SourceConfig, SourceSlot, LOCAL_CONFIG_VERSION};
use screenhop::local_switcher::{LocalNoWriteReason, LocalSwitchStatus, LocalSwitcher, SourceState};
use screenhop::lock::LockOutcome;
use screenhop::mesh::{finish_switch, handle_message, outcome_code, ActuationReport, MeshState, MeshStep};
use screenhop::message::Message;
use screenhop::orchestration::{execute_plan, plan_preset, resolve_actuation, would_go_blind, ActuationError};
use screenhop::ownership::{OwnershipMap, OwnershipState};
use screenhop::peers::PeerRegistry;
use screenhop::quirks::{Quirk, QuirksDb};
use screenhop::reconcile::{reconcile_all, reconcile_one, LiveRead, ReconcileChange};
use screenhop::runtime::{announce_message, ownership_gossip_snapshot, record_switch_result};
use screenhop::strmap::StrMap;
use screenhop::types::{DdcWriteResult, SwitchDirection, SwitchOutcome};

const TTL: u64 = 10_000;

#[test]
fn announce_records_presence_and_online_within_ttl() {
    let mut r = PeerRegistry::new();
    r.observe_announce("A", "Work PC".into(), vec!["10.0.0.5:7777".into()], true, 3, 1_000);
    let p = r.get("A").unwrap();
    assert_eq!(p.name, "Work PC");
    assert!(p.can_actuate);
    assert_eq!(p.state_version, 3);
    assert!(r.is_online("A", 5_000, TTL));
    assert!(!r.is_online("A", 20_000, TTL));
}

#[test]
fn heartbeat_updates_last_seen_and_version() {
    let mut r = PeerRegistry::new();
    r.observe_announce("A", "PC".into(), vec![], true, 1, 1_000);
    r.observe_heartbeat("A", 9, 8_000);
    let p = r.get("A").unwrap();
    assert_eq!(p.state_version, 9);
    assert_eq!(p.last_seen_ms, 8_000);
    assert!(p.can_actuate, "heartbeat must not clobber capability from the announce");
}

#[test]
fn heartbeat_before_announce_records_minimal_presence() {
    let mut r = PeerRegistry::new();
    r.observe_heartbeat("B", 2, 500);
    assert!(r.is_online("B", 1_000, TTL));
    assert_eq!(r.get("B").unwrap().name, "");
}

#[test]
fn degraded_when_a_known_peer_goes_silent() {
    let mut r = PeerRegistry::new();
    assert!(!r.is_degraded(0, TTL), "no known peers is not degraded");
    r.observe_announce("A", "a".into(), vec![], true, 1, 0);
    r.observe_announce("B", "b".into(), vec![], true, 1, 0);
    assert!(!r.is_degraded(5_000, TTL));
    r.observe_heartbeat("A", 2, 12_000);
    assert!(r.is_degraded(15_000, TTL));
    assert_eq!(r.lost(15_000, TTL), vec!["B".to_string()]);
    r.observe_heartbeat("B", 2, 15_000);
    r.observe_heartbeat("A", 3, 15_000);
    assert!(!r.is_degraded(16_000, TTL));
}

#[test]
fn lost_lists_only_silent_peers() {
    let mut r = PeerRegistry::new();
    r.observe_announce("A", "a".into(), vec![], true, 1, 0);
    r.observe_announce("B", "b".into(), vec![], true, 1, 12_000);
    let lost = r.lost(15_000, TTL);
    assert_eq!(lost, vec!["A".to_string()]);
}

#[test]
fn online_lists_only_recent_peers() {
    let mut r = PeerRegistry::new();
    r.observe_announce("A", "a".into(), vec![], true, 1, 0);
    r.observe_announce("B", "b".into(), vec![], true, 1, 9_000);
    let mut online = r.online(10_000, TTL);
    online.sort();
    assert_eq!(online, vec!["A".to_string(), "B".to_string()]);
    let online_later = r.online(15_000, TTL);
    assert_eq!(online_later, vec!["B".to_string()]);
}

#[test]
fn registry_ids_len_and_clock_skew() {
    let mut r = PeerRegistry::new();
    assert!(r.is_empty());
    r.observe_announce("A", "a".into(), vec![], false, 1, 20_000);
    r.observe_heartbeat("B", 1, 0);
    let mut ids = r.ids();
    ids.sort();
    assert_eq!(ids, vec!["A".to_string(), "B".to_string()]);
    assert_eq!(r.len(), 2);
    assert_eq!(r.last_seen_ms("A"), Some(20_000));
    assert_eq!(r.last_seen_ms("Z"), None);
    // A last-seen time in the future counts as just seen.
    assert!(r.is_online("A", 10_000, 0));
}

#[test]
fn detects_an_external_owner_change() {
    let mut map = OwnershipMap::new();
    map.merge("m1", Some("A".into()), 100);
    let change = reconcile_one(&mut map, "m1", &LiveRead::Owner(Some("B".into())), 500);
    assert_eq!(
        change,
        Some(ReconcileChange { monitor_id: "m1".into(), previous_owner: Some("A".into()), new_owner: Some("B".into()) })
    );
    assert_eq!(map.owner("m1"), Some("B"));
}

#[test]
fn no_change_when_live_matches_cache() {
    let mut map = OwnershipMap::new();
    map.merge("m1", Some("A".into()), 100);
    assert_eq!(reconcile_one(&mut map, "m1", &LiveRead::Owner(Some("A".into())), 500), None);
}

#[test]
fn ddc_disabled_read_sets_state_and_reports_owner_loss() {
    let mut map = OwnershipMap::new();
    map.merge("m1", Some("A".into()), 100);
    let change = reconcile_one(&mut map, "m1", &LiveRead::DdcDisabled, 500).unwrap();
    assert_eq!(change.previous_owner, Some("A".into()));
    assert_eq!(change.new_owner, None);
    assert_eq!(map.state("m1"), OwnershipState::DdcDisabled);
}

#[test]
fn reconcile_all_returns_only_the_changed_monitors() {
    let mut map = OwnershipMap::new();
    map.merge("m1", Some("A".into()), 100);
    map.merge("m2", Some("B".into()), 100);
    let reads = vec![
        ("m1".to_string(), LiveRead::Owner(Some("A".into()))),
        ("m2".to_string(), LiveRead::Owner(Some("A".into()))),
    ];
    let changes = reconcile_all(&mut map, &reads, 500);
    assert_eq!(changes.len(), 1);
    assert_eq!(changes[0].monitor_id, "m2");
    assert_eq!(map.owner("m2"), Some("A"));
}

#[test]
fn stale_read_changes_nothing_and_stranded_read_drops_the_owner() {
    let mut map = OwnershipMap::new();
    map.merge("m1", Some("A".into()), 1_000);
    assert_eq!(reconcile_one(&mut map, "m1", &LiveRead::Owner(Some("B".into())), 500), None);
    assert_eq!(map.owner("m1"), Some("A"));
    let change = reconcile_one(&mut map, "m1", &LiveRead::Stranded, 2_000).unwrap();
    assert_eq!(change.new_owner, None);
    assert_eq!(map.state("m1"), OwnershipState::Stranded);
}

#[test]
fn ownership_snapshot_only_replicates_positive_owner_facts() {
    let mut state = MeshState::default();
    state.ownership.observe("owned", Some("peer-a".into()), 100);
    state.ownership.merge("unknown", None, 110);
    state.ownership.mark_stranded("stranded", 120);
    state.ownership.mark_ddc_disabled("ddc-off", 130);
    let mut snapshot = ownership_gossip_snapshot(&state);
    snapshot.sort_by_key(|message| match message {
        Message::OwnershipGossip { monitor_id, .. } => monitor_id.clone(),
        _ => unreachable!(),
    });
    assert_eq!(
        snapshot,
        vec![Message::OwnershipGossip { monitor_id: "owned".into(), owner: Some("peer-a".into()), updated_ms: 100 }]
    );
}

#[test]
fn switch_result_records_success_but_does_not_overclassify_ddc_unavailable() {
    let mut state = MeshState::default();
    record_switch_result(&mut state, "m1", "peer-b", "success", 100);
    assert_eq!(state.ownership.owner("m1"), Some("peer-b"));
    record_switch_result(&mut state, "m1", "peer-b", "ddc-unavailable", 200);
    assert_eq!(state.ownership.owner("m1"), Some("peer-b"));
    assert_eq!(state.ownership.state("m1"), OwnershipState::Owned);
    assert_eq!(state.ownership.record("m1").unwrap().updated_ms, 100);
}

#[test]
fn announce_reports_the_configured_actuation_capability() {
    assert_eq!(
        announce_message("Read-only PC", "127.0.0.1:7777".to_owned(), false),
        Message::Announce {
            name: "Read-only PC".into(),
            endpoints: vec!["127.0.0.1:7777".to_owned()],
            can_actuate: false,
            state_version: 0,
        }
    );
}

fn sample(outcome: SwitchOutcome, attempts: u32, latency_ms: u64) -> SoakSample {
    SoakSample::new(outcome, attempts, latency_ms)
}

#[test]
fn latency_percentiles_use_nearest_rank() {
    let mut s = PanelStats::new("P".to_owned(), SwitchDirection::PullToSelf);
    for ms in [10u64, 20, 30, 40, 50, 60, 70, 80, 90, 100] {
        s.record(sample(SwitchOutcome::Success, 1, ms));
    }
    assert_eq!(s.latency_median_ms(), Some(50));
    assert_eq!(s.latency_p90_ms(), Some(90));
}

#[test]
fn first_attempt_vs_within_retry() {
    let mut s = PanelStats::new("P".to_owned(), SwitchDirection::PullToSelf);
    s.record(sample(SwitchOutcome::Success, 1, 100));
    s.record(sample(SwitchOutcome::Success, 3, 200));
    s.record(sample(SwitchOutcome::AssumedSuccessReadbackInconclusive, 1, 150));
    s.record(sample(SwitchOutcome::Failed, 3, 300));
    assert_eq!(s.count(), 4);
    assert_eq!(s.within_retry_count(), 3);
    assert_eq!(s.first_attempt_count(), 2);
}

#[test]
fn empty_stats_are_safe() {
    let s = PanelStats::new("P".to_owned(), SwitchDirection::PullToSelf);
    assert_eq!(s.latency_median_ms(), None);
    assert_eq!(s.first_attempt_count(), 0);
    assert!(!s.is_pull_to_self_capable());
}

#[test]
fn soak_runs_sample_size_times_and_scopes_pull_to_self() {
    let stats = soak_panel("P".to_owned(), SwitchDirection::PullToSelf, 200, |i| {
        let outcome = if i % 5 == 0 { SwitchOutcome::Failed } else { SwitchOutcome::Success };
        sample(outcome, 1, (i as u64) * 10)
    });
    assert_eq!(stats.count(), 200);
    assert!(stats.is_pull_to_self_capable());
    assert_eq!(stats.within_retry_count(), 160);
    let mut report = SoakReport::new();
    report.add(stats);
    let mut pr = PanelStats::new("Q".to_owned(), SwitchDirection::PushRelease);
    pr.record(sample(SwitchOutcome::Success, 1, 10));
    report.add(pr);
    assert_eq!(report.pull_to_self_panels().len(), 1);
}

#[test]
fn percentile_of_unsorted_samples_and_clamped_percent() {
    let mut s = PanelStats::new("P".to_owned(), SwitchDirection::PullToSelf);
    for ms in [70u64, 10, 40] {
        s.record(sample(SwitchOutcome::Success, 1, ms));
    }
    assert_eq!(s.latency_percentile_ms(0), Some(10));
    assert_eq!(s.latency_percentile_ms(50), Some(40));
    assert_eq!(s.latency_percentile_ms(100), Some(70));
    assert_eq!(s.latency_percentile_ms(250), Some(70));
}

#[test]
fn blank_selected_monitor_model_token_is_invalid() {
    let config = LocalConfig { selected_monitor_model_token: Some("   ".to_owned()), ..LocalConfig::default() };
    assert_eq!(config.validate(), Err(ConfigError::BlankSelectedMonitorModelToken));
}

const MONITOR: &str = "MONITOR#1";
const INPUT_A: u16 = 0x0f;
const INPUT_B: u16 = 0x11;

fn ready_config() -> LocalConfig {
    let mut config = LocalConfig {
        selected_monitor: Some(MONITOR.to_owned()),
        selected_monitor_model_token: Some("SAM-U32H750".to_owned()),
        ..LocalConfig::default()
    };
    config.source_mut(SourceSlot::A).confirmed_value = Some(INPUT_A);
    config.source_mut(SourceSlot::B).confirmed_value = Some(INPUT_B);
    config
}

#[test]
fn config_validation_reports_each_problem_in_order() {
    let mut c = LocalConfig::default();
    assert!(c.validate().is_ok());
    assert!(!c.is_ready());
    c.version = 1;
    assert_eq!(c.validate(), Err(ConfigError::UnsupportedVersion { found: 1, supported: LOCAL_CONFIG_VERSION }));
    let mut c = ready_config();
    assert!(c.is_ready());
    c.source_mut(SourceSlot::B).label = " \t".to_owned();
    assert_eq!(c.validate(), Err(ConfigError::BlankSourceLabel(SourceSlot::B)));
    let mut c = ready_config();
    c.source_mut(SourceSlot::B).confirmed_value = Some(INPUT_A);
    assert_eq!(c.validate(), Err(ConfigError::DuplicateConfirmedValue(INPUT_A)));
    assert_eq!(
        ConfigError::DuplicateConfirmedValue(15).message(),
        "source A and B must use distinct input values (both are 15)"
    );
    let mut c = ready_config();
    c.monitor_aliases.insert("id".to_owned(), "  ".to_owned());
    assert_eq!(c.validate(), Err(ConfigError::BlankMonitorAlias("id".to_owned())));
    assert_eq!(
        ConfigError::BlankMonitorAlias("id".to_owned()).message(),
        "monitor alias for \"id\" cannot be blank"
    );
    let mut c = ready_config();
    c.monitor_aliases.insert(" ".to_owned(), "x".to_owned());
    assert_eq!(c.validate(), Err(ConfigError::BlankMonitorAliasId));
    let c = LocalConfig { selected_monitor: Some("".to_owned()), ..LocalConfig::default() };
    assert_eq!(c.validate(), Err(ConfigError::BlankSelectedMonitor));
    assert_eq!(c.confirmed_values(), None);
    assert_eq!(ready_config().confirmed_values(), Some([INPUT_A, INPUT_B]));
    assert_eq!(SourceSlot::A.opposite(), SourceSlot::B);
    assert_eq!(SourceSlot::B.index(), 1);
    assert_eq!(SourceConfig::new("x".to_owned(), Some(3)).confirmed_value, Some(3));
}

struct NoDelay;
impl Delayer for NoDelay {
    fn delay(&self, _milliseconds: u32) {}
}

struct ZeroClock;
impl Clock for ZeroClock {
    fn now_ms(&self) -> u64 {
        0
    }
}

struct FakeDriver {
    available: bool,
    current: Option<u32>,
    reads: VecDeque<Option<u32>>,
    writes: Vec<u32>,
    write_results: VecDeque<DdcWriteResult>,
    apply_write: bool,
}

impl FakeDriver {
    fn at(value: u16) -> Self {
        Self {
            available: true,
            current: Some(u32::from(value)),
            reads: VecDeque::new(),
            writes: Vec::new(),
            write_results: VecDeque::new(),
            apply_write: true,
        }
    }

    fn unreadable() -> Self {
        Self { current: None, ..Self::at(INPUT_A) }
    }
}

impl MonitorDriver for FakeDriver {
    fn is_ddc_available(&mut self, _monitor_id: &str) -> bool {
        self.available
    }

    fn try_read_input(&mut self, _monitor_id: &str) -> Option<u32> {
        self.reads.pop_front().unwrap_or(self.current)
    }

    fn write_input(&mut self, _monitor_id: &str, value: u32) -> DdcWriteResult {
        self.writes.push(value);
        let result = self.write_results.pop_front().unwrap_or(DdcWriteResult::Accepted);
        if result == DdcWriteResult::Accepted && self.apply_write {
            self.current = Some(value);
        }
        result
    }
}

fn switcher(driver: FakeDriver, quirks: QuirksDb) -> LocalSwitcher<FakeDriver, NoDelay, ZeroClock> {
    LocalSwitcher::new(SwitchExecutor::new(driver, NoDelay, ZeroClock), quirks)
}

#[test]
fn toggle_switches_a_to_b_and_b_to_a() {
    let mut config = ready_config();
    let mut switcher = switcher(FakeDriver::at(INPUT_A), QuirksDb::default());
    let to_b = switcher.toggle(&mut config);
    assert_eq!(to_b.requested_source, Some(SourceSlot::B));
    assert_eq!(to_b.state_before, Some(SourceState::A));
    assert_eq!(to_b.status, LocalSwitchStatus::Executed(SwitchOutcome::Success));
    assert_eq!(config.last_requested, Some(SourceSlot::B));
    let to_a = switcher.toggle(&mut config);
    assert_eq!(to_a.requested_source, Some(SourceSlot::A));
    assert_eq!(to_a.state_before, Some(SourceState::B));
    assert_eq!(to_a.status, LocalSwitchStatus::Executed(SwitchOutcome::Success));
    assert_eq!(switcher.driver_mut().writes, vec![u32::from(INPUT_B), u32::from(INPUT_A)]);
}

#[test]
fn unknown_readable_input_never_uses_last_requested_or_writes() {
    let mut config = ready_config();
    config.last_requested = Some(SourceSlot::A);
    let mut driver = FakeDriver::at(INPUT_A);
    driver.current = Some(0x44);
    let mut switcher = switcher(driver, QuirksDb::default());
    let report = switcher.toggle(&mut config);
    assert_eq!(report.state_before, Some(SourceState::Unknown(0x44)));
    assert_eq!(report.status, LocalSwitchStatus::NoWrite(LocalNoWriteReason::UnknownCurrentInput));
    assert_eq!(report.detail.as_deref(), Some("live input value 68 is neither configured source; refusing to guess"));
    assert!(switcher.driver_mut().writes.is_empty());
}

#[test]
fn unreadable_input_without_last_requested_makes_no_write() {
    let mut config = ready_config();
    let mut switcher = switcher(FakeDriver::unreadable(), QuirksDb::default());
    let report = switcher.toggle(&mut config);
    assert_eq!(report.state_before, Some(SourceState::Unreadable));
    assert_eq!(report.status, LocalSwitchStatus::NoWrite(LocalNoWriteReason::UnreadableCurrentInput));
    assert!(switcher.driver_mut().writes.is_empty());
}

#[test]
fn unreadable_input_uses_last_requested_only_as_inactive_input_fallback() {
    let mut config = ready_config();
    config.last_requested = Some(SourceSlot::A);
    let mut switcher = switcher(FakeDriver::unreadable(), QuirksDb::default());
    let report = switcher.toggle(&mut config);
    assert_eq!(report.state_before, Some(SourceState::Unreadable));
    assert_eq!(report.requested_source, Some(SourceSlot::B));
    assert_eq!(report.status, LocalSwitchStatus::Executed(SwitchOutcome::Success));
    assert_eq!(switcher.driver_mut().writes, vec![u32::from(INPUT_B)]);
}

#[test]
fn blocked_quirk_wins_over_both_value_allow_list() {
    let mut config = ready_config();
    let mut quirks = QuirksDb::default();
    quirks.set_local(MONITOR.to_owned(), Quirk { blocked_input_values: vec![u32::from(INPUT_B)], ..Quirk::default() });
    let mut switcher = switcher(FakeDriver::at(INPUT_A), quirks);
    let report = switcher.switch_to(&mut config, SourceSlot::B);
    assert_eq!(report.status, LocalSwitchStatus::Executed(SwitchOutcome::BlockedValue));
    assert_eq!(report.attempts, 0);
    assert!(switcher.driver_mut().writes.is_empty());
}

#[test]
fn model_token_blocked_quirk_is_applied_to_the_selected_monitor() {
    let mut config = ready_config();
    let mut quirks = QuirksDb::default();
    quirks.set_local("SAM-U32H750".to_owned(), Quirk { blocked_input_values: vec![u32::from(INPUT_B)], ..Quirk::default() });
    let mut switcher = switcher(FakeDriver::at(INPUT_A), quirks);
    let report = switcher.switch_to(&mut config, SourceSlot::B);
    assert_eq!(report.status, LocalSwitchStatus::Executed(SwitchOutcome::BlockedValue));
    assert!(switcher.driver_mut().writes.is_empty());
}

#[test]
fn unavailable_safety_policy_disables_switches_but_keeps_reads_available() {
    let mut config = ready_config();
    let mut switcher = switcher(FakeDriver::at(INPUT_A), QuirksDb::default());
    switcher.disable_writes("invalid quirks-user.json".to_owned());
    assert_eq!(switcher.read_state(&config), SourceState::A);
    let explicit = switcher.switch_to(&mut config, SourceSlot::B);
    let toggle = switcher.toggle(&mut config);
    assert_eq!(explicit.status, LocalSwitchStatus::NoWrite(LocalNoWriteReason::SafetyPolicyUnavailable));
    assert_eq!(toggle.status, LocalSwitchStatus::NoWrite(LocalNoWriteReason::SafetyPolicyUnavailable));
    assert!(switcher.driver_mut().writes.is_empty());
}

#[test]
fn executor_retry_and_inconclusive_readback_are_preserved_in_local_report() {
    let mut config = ready_config();
    let mut driver = FakeDriver::at(INPUT_A);
    driver.write_results = VecDeque::from([DdcWriteResult::Failed, DdcWriteResult::Accepted]);
    driver.reads = VecDeque::from([None]);
    let mut switcher = switcher(driver, QuirksDb::default());
    let report = switcher.switch_to(&mut config, SourceSlot::B);
    assert_eq!(report.status, LocalSwitchStatus::Executed(SwitchOutcome::AssumedSuccessReadbackInconclusive));
    assert_eq!(report.attempts, 2);
    assert_eq!(switcher.driver_mut().writes, vec![u32::from(INPUT_B); 2]);
    assert_eq!(config.last_requested, Some(SourceSlot::B));
}

#[test]
fn disable_writes_accumulates_distinct_reasons() {
    let mut switcher = switcher(FakeDriver::at(INPUT_A), QuirksDb::default());
    assert_eq!(switcher.writes_disabled_reason(), None);
    switcher.disable_writes("  ".to_owned());
    assert_eq!(switcher.writes_disabled_reason(), Some("safety policy is unavailable"));
    switcher.disable_writes("bad user layer".to_owned());
    switcher.disable_writes("bad user layer".to_owned());
    assert_eq!(switcher.writes_disabled_reason(), Some("safety policy is unavailable; bad user layer"));
}

#[test]
fn unready_config_refuses_with_the_reason() {
    let mut config = LocalConfig::default();
    let mut switcher = switcher(FakeDriver::at(INPUT_A), QuirksDb::default());
    let r = switcher.switch_to(&mut config, SourceSlot::A);
    assert_eq!(r.status, LocalSwitchStatus::NoWrite(LocalNoWriteReason::NoMonitorSelected));
    assert_eq!(r.detail.as_deref(), Some("no monitor is selected"));
    let mut config = LocalConfig { selected_monitor: Some(MONITOR.to_owned()), ..LocalConfig::default() };
    let r = switcher.toggle(&mut config);
    assert_eq!(r.status, LocalSwitchStatus::NoWrite(LocalNoWriteReason::SourcesIncomplete));
    assert_eq!(r.state_before, Some(SourceState::Unconfigured));
    assert_eq!(switcher.read_state(&config), SourceState::Unconfigured);
    assert!(switcher.driver_mut().writes.is_empty());
}

#[test]
fn blocked_values_flow_into_policy_but_never_confirm_a_write() {
    let mut shipped = StrMap::new();
    shipped.insert(
        "M".to_owned(),
        Quirk { blocked_input_values: vec![0x0F], settle_ms: Some(2500), readback_unreliable: Some(true), ..Quirk::default() },
    );
    let db = QuirksDb::from_layers(shipped, StrMap::new(), StrMap::new());
    let policy = db.policy_for("M", &[0x11]);
    assert!(policy.blocked_values.contains(&0x0F));
    assert!(policy.confirmed_values.contains(&0x11));
    assert!(!policy.confirmed_values.contains(&0x0F));
    assert_eq!(policy.settle_ms, 2500);
    assert!(!policy.readback_reliable);
}

#[test]
fn precedence_is_user_over_local_over_shipped() {
    let mut shipped = StrMap::new();
    shipped.insert(
        "M".to_owned(),
        Quirk {
            settle_ms: Some(1000),
            readback_unreliable: Some(false),
            blocked_input_values: vec![0x01],
            source: Some("shipped".into()),
            ..Quirk::default()
        },
    );
    let mut local = StrMap::new();
    local.insert(
        "M".to_owned(),
        Quirk { settle_ms: Some(2000), blocked_input_values: vec![0x02], source: Some("local".into()), ..Quirk::default() },
    );
    let mut user = StrMap::new();
    user.insert("M".to_owned(), Quirk { settle_ms: Some(3000), source: Some("user".into()), ..Quirk::default() });
    let db = QuirksDb::from_layers(shipped, local, user);
    let m = db.merged("M");
    assert_eq!(m.settle_ms, Some(3000));
    assert_eq!(m.readback_unreliable, Some(false));
    assert_eq!(m.source.as_deref(), Some("user"));
    let mut blocked = m.blocked_input_values.clone();
    blocked.sort();
    assert_eq!(blocked, vec![0x01, 0x02]);
    assert_eq!(db.merged("nonexistent"), Quirk::default());
}

#[test]
fn set_local_is_visible_and_stays_below_user() {
    let mut db = QuirksDb::default();
    db.set_local("M".to_owned(), Quirk { settle_ms: Some(1234), ..Quirk::default() });
    assert_eq!(db.merged("M").settle_ms, Some(1234));
    let mut user = StrMap::new();
    user.insert("M".to_owned(), Quirk { settle_ms: Some(999), ..Quirk::default() });
    db.replace_user(user);
    assert_eq!(db.merged("M").settle_ms, Some(999));
}

#[test]
fn monitor_policy_layers_model_then_exact_id() {
    let mut db = QuirksDb::default();
    db.set_local(
        "SAM-U32H750".to_owned(),
        Quirk { settle_ms: Some(1000), readback_unreliable: Some(false), blocked_input_values: vec![0x0f], ..Quirk::default() },
    );
    db.set_local(
        "exact-monitor-id".to_owned(),
        Quirk { settle_ms: Some(2500), readback_unreliable: Some(true), blocked_input_values: vec![0x11], ..Quirk::default() },
    );
    let policy = db.policy_for_monitor("exact-monitor-id", Some("SAM-U32H750"), &[0x0f, 0x11]);
    assert_eq!(policy.settle_ms, 2500);
    assert!(!policy.readback_reliable);
    assert!(policy.blocked_values.contains(&0x0f));
    assert!(policy.blocked_values.contains(&0x11));
}

#[test]
fn overlay_keeps_lower_blocked_values_and_dedups() {
    let mut low = Quirk { blocked_input_values: vec![3, 1], settle_ms: Some(5), ..Quirk::default() };
    let high = Quirk { blocked_input_values: vec![1, 2, 2], ..Quirk::default() };
    low.overlay(&high);
    assert_eq!(low.blocked_input_values, vec![3, 1, 2]);
    assert_eq!(low.settle_ms, Some(5));
}

fn online(peers: &[&str]) -> Vec<String> {
    peers.iter().map(|s| (*s).to_owned()).collect()
}

fn ownership(pairs: &[(&str, &str)]) -> OwnershipMap {
    let mut o = OwnershipMap::new();
    for (i, (m, owner)) in pairs.iter().enumerate() {
        o.merge(m, Some((*owner).to_owned()), (i + 1) as u64);
    }
    o
}

fn mons(list: &[&str]) -> Vec<String> {
    list.iter().map(|s| (*s).to_owned()).collect()
}

fn assign(list: &[(&str, &str)]) -> Vec<(String, String)> {
    list.iter().map(|(m, p)| ((*m).to_owned(), (*p).to_owned())).collect()
}

#[test]
fn pull_to_self_actuator_is_the_target() {
    let own = ownership(&[("m1", "A")]);
    let op = resolve_actuation("m1", "B", SwitchDirection::PullToSelf, &own, &online(&["A", "B"]), false).unwrap();
    assert_eq!(op.actuator, "B");
    assert_eq!(op.target, "B");
}

#[test]
fn pull_to_self_with_offline_target_is_stranded() {
    let own = ownership(&[("m1", "A")]);
    let r = resolve_actuation("m1", "B", SwitchDirection::PullToSelf, &own, &online(&["A"]), false);
    assert_eq!(r, Err(ActuationError::Stranded { monitor_id: "m1".into(), owner: Some("B".into()) }));
}

#[test]
fn push_release_actuator_is_the_current_owner() {
    let own = ownership(&[("m1", "A")]);
    let op = resolve_actuation("m1", "B", SwitchDirection::PushRelease, &own, &online(&["A", "B"]), false).unwrap();
    assert_eq!(op.actuator, "A");
}

#[test]
fn push_release_strands_when_owner_offline_or_unknown() {
    let own = ownership(&[("m1", "A")]);
    assert!(matches!(
        resolve_actuation("m1", "B", SwitchDirection::PushRelease, &own, &online(&["B"]), false),
        Err(ActuationError::Stranded { .. })
    ));
    let empty = OwnershipMap::new();
    assert_eq!(
        resolve_actuation("m1", "B", SwitchDirection::PushRelease, &empty, &online(&["A", "B"]), false),
        Err(ActuationError::Stranded { monitor_id: "m1".into(), owner: None })
    );
}

#[test]
fn degraded_mesh_refuses_switches_and_empties_presets() {
    let own = ownership(&[("m1", "A"), ("m2", "A")]);
    let all = mons(&["m1", "m2"]);
    assert_eq!(
        resolve_actuation("m1", "B", SwitchDirection::PullToSelf, &own, &online(&["A", "B"]), true),
        Err(ActuationError::Degraded { monitor_id: "m1".into() })
    );
    let plan = plan_preset("A", &assign(&[("m1", "B"), ("m2", "B")]), &own, &all, true);
    assert!(plan.degraded);
    assert!(plan.ops.is_empty());
}

#[test]
fn blind_only_when_handing_away_the_last_owned_monitor() {
    let own = ownership(&[("m1", "A"), ("m2", "A")]);
    let all = mons(&["m1", "m2"]);
    assert!(would_go_blind("A", &assign(&[("m1", "B"), ("m2", "B")]), &own, &all));
    assert!(!would_go_blind("A", &assign(&[("m1", "B")]), &own, &all));
}

#[test]
fn not_blind_when_operator_owns_nothing_to_begin_with() {
    let own = ownership(&[("m1", "B")]);
    let all = mons(&["m1"]);
    assert!(!would_go_blind("A", &assign(&[("m1", "B")]), &own, &all));
}

#[test]
fn preset_moves_operator_panels_last_and_flags_blind_correctly() {
    let own = ownership(&[("m1", "B"), ("m2", "A")]);
    let all = mons(&["m1", "m2"]);
    let plan = plan_preset("A", &assign(&[("m2", "B"), ("m1", "A")]), &own, &all, false);
    assert_eq!(plan.ops.last().unwrap().monitor_id, "m2");
    assert!(!plan.blinds_operator);
}

#[test]
fn whole_desk_handoff_flags_blind() {
    let own = ownership(&[("m1", "A"), ("m2", "A")]);
    let all = mons(&["m1", "m2"]);
    let plan = plan_preset("A", &assign(&[("m1", "B"), ("m2", "B")]), &own, &all, false);
    assert!(plan.blinds_operator);
}

#[test]
fn execute_plan_runs_every_op_in_order_and_collects_partial_failure() {
    let own = ownership(&[("m1", "B"), ("m2", "A")]);
    let all = mons(&["m1", "m2"]);
    let plan = plan_preset("A", &assign(&[("m2", "B"), ("m1", "A")]), &own, &all, false);
    let mut order = Vec::new();
    let outcome = execute_plan(&plan, |op| {
        order.push(op.monitor_id.clone());
        if op.monitor_id == "m1" {
            SwitchOutcome::Unsupported
        } else {
            SwitchOutcome::Success
        }
    });
    assert_eq!(order, vec!["m1".to_string(), "m2".to_string()], "ops run in plan order");
    assert_eq!(outcome.results.len(), 2);
    assert!(outcome.partial_failure());
    assert!(!outcome.all_succeeded());
    assert_eq!(outcome.failures().len(), 1);
    assert_eq!(outcome.failures()[0].monitor_id, "m1");
}

#[test]
fn execute_plan_reports_all_succeeded_and_does_nothing_when_degraded() {
    let own = ownership(&[("m1", "A")]);
    let all = mons(&["m1"]);
    let ok = execute_plan(&plan_preset("A", &assign(&[("m1", "B")]), &own, &all, false), |_| SwitchOutcome::Success);
    assert!(ok.all_succeeded());
    assert!(!ok.partial_failure());
    let mut calls = 0;
    let degraded = execute_plan(&plan_preset("A", &assign(&[("m1", "B")]), &own, &all, true), |_| {
        calls += 1;
        SwitchOutcome::Success
    });
    assert_eq!(calls, 0, "a degraded plan actuates nothing");
    assert!(degraded.results.is_empty());
    assert!(!degraded.all_succeeded());
}

#[test]
fn later_assignment_for_the_same_monitor_wins() {
    let own = ownership(&[("m1", "A")]);
    let all = mons(&["m1"]);
    assert!(!would_go_blind("A", &assign(&[("m1", "B"), ("m1", "A")]), &own, &all));
    assert!(would_go_blind("A", &assign(&[("m1", "A"), ("m1", "B")]), &own, &all));
}

#[test]
fn lock_request_is_granted_then_denied_to_another_peer() {
    let mut st = MeshState::default();
    let step = handle_message(&mut st, "peerA", "me", Message::LockRequest { monitor_id: "m1".into(), lease_secs: 30 }, 0, 0, true);
    assert_eq!(
        step,
        MeshStep::Reply(Some(Message::LockGrant { monitor_id: "m1".into(), holder: "peerA".into(), lease_expires_ms: 30_000 }))
    );
    let step = handle_message(&mut st, "peerB", "me", Message::LockRequest { monitor_id: "m1".into(), lease_secs: 30 }, 1_000, 0, true);
    assert_eq!(step, MeshStep::Reply(Some(Message::LockDeny { monitor_id: "m1".into(), reason: "held by peerA".into() })));
}

#[test]
fn switch_command_is_refused_when_not_target_or_locked_and_actuates_otherwise() {
    let mut st = MeshState::default();
    let cmd = |target: &str| Message::SwitchCommand { monitor_id: "m1".into(), target: target.into(), input_value: 0 };
    let refused = |code: &str| MeshStep::Reply(Some(Message::SwitchResult { monitor_id: "m1".into(), outcome: code.into(), observed: None }));
    assert_eq!(handle_message(&mut st, "p", "me", cmd("other"), 0, 0, true), refused("not-actuator"));
    assert_eq!(handle_message(&mut st, "p", "me", cmd("me"), 0, 0, false), refused("no-actuator"));
    assert!(matches!(st.locks.acquire("m1", "peerX", 0, 30_000), LockOutcome::Granted(_)));
    assert_eq!(handle_message(&mut st, "p", "me", cmd("me"), 10, 0, true), refused("locked-by-other"));
    assert_eq!(handle_message(&mut st, "p", "me", cmd("me"), 40_000, 0, true), MeshStep::Actuate { monitor_id: "m1".into() });
    assert_eq!(st.locks.holder("m1", 40_001), Some("me"));
    let reply = finish_switch(&mut st, "me", "m1".into(), ActuationReport::new(SwitchOutcome::Success, Some(0x0F)), 500);
    assert_eq!(reply, Message::SwitchResult { monitor_id: "m1".into(), outcome: "success".into(), observed: Some(0x0F) });
    assert_eq!(st.ownership.owner("m1"), Some("me"));
    assert_eq!(st.locks.holder("m1", 40_001), None);
}

#[test]
fn ddc_unavailable_actuation_marks_the_panel_and_gossip_and_presence_update_state() {
    let mut st = MeshState::default();
    assert_eq!(
        handle_message(&mut st, "p", "me", Message::SwitchCommand { monitor_id: "m1".into(), target: "me".into(), input_value: 0 }, 0, 0, true),
        MeshStep::Actuate { monitor_id: "m1".into() }
    );
    let reply = finish_switch(&mut st, "me", "m1".into(), ActuationReport::new(SwitchOutcome::DdcUnavailable, None), 700);
    assert!(matches!(reply, Message::SwitchResult { ref outcome, .. } if outcome == "ddc-unavailable"));
    assert_eq!(st.ownership.state("m1"), OwnershipState::DdcDisabled);
    let gossip = Message::OwnershipGossip { monitor_id: "m2".into(), owner: Some("peerB".into()), updated_ms: 5 };
    assert_eq!(handle_message(&mut st, "peerB", "me", gossip, 0, 0, true), MeshStep::Reply(None));
    assert_eq!(st.ownership.owner("m2"), Some("peerB"));
    let announce = Message::Announce { name: "B".into(), endpoints: vec!["x".into()], can_actuate: true, state_version: 2 };
    handle_message(&mut st, "peerB", "me", announce, 0, 9_000, true);
    assert_eq!(st.peers.last_seen_ms("peerB"), Some(9_000));
    handle_message(&mut st, "peerB", "me", Message::Heartbeat { state_version: 3 }, 0, 9_500, true);
    assert_eq!(st.peers.get("peerB").unwrap().state_version, 3);
    assert_eq!(outcome_code(SwitchOutcome::AssumedSuccessReadbackInconclusive), "assumed-success");
}

#[test]
fn alias_error_quotes_the_monitor_id_as_debug_formatting_does() {
    for id in ["display-1", "DISPLAY\\AOC1234", "say \"hi\"", "tab\there", "nul\0\u{1}\u{1f}\u{7f}", "new\nline\r", "café"] {
        assert_eq!(
            ConfigError::BlankMonitorAlias(id.to_owned()).message(),
            format!("monitor alias for {id:?} cannot be blank")
        );
    }
}
