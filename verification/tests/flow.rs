use screenhop::local_config::{LocalConfig, SourceSlot};
use screenhop::local_switcher::{LocalNoWriteReason, LocalSwitchReport, LocalSwitchStatus, SourceState};
use screenhop::spike::{
    spike_step, DistinctInputObservation, ExpectedInputObservation, SpikeAction, SpikeAnswer, SpikeOutcome,
    SpikePrompt, SpikeState, SPIKE_DWELL_MS, SPIKE_SETTLE_MS,
};
use screenhop::transport::{frame_body_len, read_frame_body, MAX_FRAME_LEN};
use screenhop::types::{DdcWriteResult, SwitchOutcome};
use screenhop::ui::WorkerCommand;
use screenhop::ui_flow::{setup_finish, ui_start, ui_step, MonitorChoice, SetupDraft, UiAction, UiEvent, UiModel};
use screenhop::worker::WorkerEvent;
use screenhop::ownership::OwnershipMap;
use screenhop::peers::PeerRegistry;
use screenhop::reconcile::{reconcile_all, reconcile_one, LiveRead};
use screenhop::replay::ReplayWindow;
use screenhop::handshake::{handshake_step, hello, proof_for, HandshakeError, HsAction, HsEvent, HsMsg, HsState};
use screenhop::identity::PeerIdentity;
use screenhop::pins::PinStore;
use screenhop::ddc::MonitorInfo;
use screenhop::fingerprint::MonitorFingerprint;
use screenhop::persist::{secret_from_text, secret_to_store};
use screenhop::replay::{SendCounter, SenderWindows};
use screenhop::ui::Controller;

fn ready_config() -> LocalConfig {
    let mut config = LocalConfig {
        selected_monitor: Some("display-1".to_owned()),
        ..LocalConfig::default()
    };
    config.monitor_aliases.insert("display-1".to_owned(), "Studio monitor".to_owned());
    config.source_mut(SourceSlot::A).label = "Desk PC".to_owned();
    config.source_mut(SourceSlot::A).confirmed_value = Some(0x0f);
    config.source_mut(SourceSlot::B).label = "Laptop".to_owned();
    config.source_mut(SourceSlot::B).confirmed_value = Some(0x11);
    config
}

fn monitor(id: &str) -> MonitorChoice {
    MonitorChoice { id: id.to_owned(), name: "Studio monitor".to_owned(), model_token: None }
}

fn full_draft() -> SetupDraft {
    SetupDraft {
        monitor_id: Some("display-1".to_owned()),
        monitor_name: Some("Studio monitor".to_owned()),
        monitor_model_token: Some("DEL-U2720Q".to_owned()),
        source_a: Some(0x0f),
        source_b: Some(0x11),
    }
}

fn ready_model() -> UiModel {
    UiModel {
        config: ready_config(),
        observed: SourceState::A,
        pending: None,
        read_in_flight: false,
        worker_available: true,
        safety_policy_error: None,
        monitors: vec![monitor("display-1")],
        draft: SetupDraft::new(),
        screen: 0,
    }
}

fn sends(actions: &[UiAction]) -> bool {
    actions.iter().any(|a| matches!(a, UiAction::Send(_)))
}

fn saves(actions: &[UiAction]) -> bool {
    actions.iter().any(|a| matches!(a, UiAction::SaveConfig | UiAction::SaveSetup(_)))
}

fn setup_message(actions: &[UiAction]) -> Option<String> {
    actions.iter().find_map(|a| match a {
        UiAction::SetupMessage(m) => Some(m.clone()),
        _ => None,
    })
}

#[test]
fn setup_cannot_finish_without_both_captures() {
    let mut draft = full_draft();
    draft.source_b = None;
    assert_eq!(
        setup_finish(&draft, "Desk PC", "Laptop").unwrap_err(),
        "Both source captures must pass before setup can finish."
    );
    assert!(setup_finish(&SetupDraft::new(), "Desk PC", "Laptop").is_err());
}

#[test]
fn setup_needs_two_non_blank_names() {
    assert_eq!(setup_finish(&full_draft(), "   ", "Laptop").unwrap_err(), "Give both sources a name.");
    assert_eq!(setup_finish(&full_draft(), "Desk PC", "").unwrap_err(), "Give both sources a name.");
}

#[test]
fn setup_finish_builds_the_captured_configuration() {
    let config = setup_finish(&full_draft(), "  Desk PC ", "Laptop").unwrap();
    assert_eq!(config.selected_monitor.as_deref(), Some("display-1"));
    assert_eq!(config.selected_monitor_model_token.as_deref(), Some("DEL-U2720Q"));
    assert_eq!(config.source(SourceSlot::A).label, "Desk PC");
    assert_eq!(config.source(SourceSlot::A).confirmed_value, Some(0x0f));
    assert_eq!(config.source(SourceSlot::B).label, "Laptop");
    assert_eq!(config.source(SourceSlot::B).confirmed_value, Some(0x11));
    assert_eq!(config.last_requested, Some(SourceSlot::A));
    assert!(config.is_ready());
}

#[test]
fn startup_with_an_untrusted_configuration_opens_setup() {
    let (model, actions) = ui_start(Err("bad version".to_owned()), vec![], None, None, false);
    assert!(!model.config.is_ready());
    assert_eq!(model.observed, SourceState::Unconfigured);
    assert!(!model.read_in_flight);
    assert!(!sends(&actions));
    assert_eq!(actions.len(), 6);
    assert!(matches!(actions[0], UiAction::Render));
    assert!(matches!(actions[1], UiAction::SelectMonitor(-1)));
    assert!(matches!(actions[2], UiAction::SetupStep(1)));
    assert!(matches!(actions[5], UiAction::Screen(1)));
    assert_eq!(
        setup_message(&actions).unwrap(),
        "The existing configuration is invalid and was not trusted: bad version. Complete setup to replace it."
    );
}

#[test]
fn startup_with_a_ready_configuration_reads_the_monitor() {
    let (model, actions) = ui_start(Ok(ready_config()), vec![monitor("display-1")], None, None, false);
    assert!(model.read_in_flight);
    assert_eq!(model.observed, SourceState::Unreadable);
    assert_eq!(actions.len(), 3);
    assert!(matches!(actions[1], UiAction::Screen(0)));
    assert!(matches!(actions[2], UiAction::Send(WorkerCommand::Read { .. })));
}

#[test]
fn startup_joins_worker_and_missing_monitor_messages() {
    let (model, actions) =
        ui_start(Ok(ready_config()), vec![monitor("display-2")], Some("Worker failed.".to_owned()), None, false);
    assert!(!model.worker_available);
    assert!(!sends(&actions));
    assert_eq!(
        setup_message(&actions).unwrap(),
        "Worker failed. The configured monitor handle is not available. Complete setup again before switching."
    );
    assert!(matches!(actions[1], UiAction::SelectMonitor(0)));
}

#[test]
fn forced_setup_selects_the_configured_monitor_row() {
    let (_, actions) = ui_start(
        Ok(ready_config()),
        vec![monitor("display-0"), monitor("display-1")],
        None,
        None,
        true,
    );
    assert!(matches!(actions[1], UiAction::SelectMonitor(1)));
    assert_eq!(setup_message(&actions).unwrap(), "");
}

#[test]
fn switch_is_sent_once_and_blocks_a_second_request() {
    let (model, actions) = ui_step(ready_model(), UiEvent::SwitchSource(1));
    assert_eq!(model.pending, Some(SourceSlot::B));
    assert!(actions
        .iter()
        .any(|a| matches!(a, UiAction::Send(WorkerCommand::SwitchTo { source: SourceSlot::B, .. }))));
    let (model, actions) = ui_step(model, UiEvent::Toggle);
    assert_eq!(model.pending, Some(SourceSlot::B));
    assert!(!sends(&actions));
    let (_, actions) = ui_step(ready_model_with_pending(), UiEvent::SwitchSource(0));
    assert!(!sends(&actions));
}

fn ready_model_with_pending() -> UiModel {
    let mut model = ready_model();
    model.pending = Some(SourceSlot::A);
    model
}

#[test]
fn nothing_is_sent_to_a_stopped_worker() {
    let mut model = ready_model();
    model.worker_available = false;
    let (_, actions) = ui_step(model, UiEvent::Toggle);
    assert!(!sends(&actions));
}

fn switched(status: LocalSwitchStatus) -> UiEvent {
    let mut config = ready_config();
    config.last_requested = Some(SourceSlot::B);
    UiEvent::Worker(WorkerEvent::Switched {
        config,
        state_after: SourceState::B,
        report: LocalSwitchReport {
            requested_source: Some(SourceSlot::B),
            state_before: None,
            status,
            attempts: 1,
            observed_value: Some(0x11),
            detail: None,
        },
    })
}

#[test]
fn effective_switch_is_saved_with_the_updated_configuration() {
    let mut model = ready_model();
    model.pending = Some(SourceSlot::B);
    let (model, actions) = ui_step(model, switched(LocalSwitchStatus::Executed(SwitchOutcome::Success)));
    assert_eq!(model.pending, None);
    assert!(actions.iter().any(|a| matches!(a, UiAction::SaveConfig)));
    assert_eq!(model.config.last_requested, Some(SourceSlot::B));
}

#[test]
fn failed_or_refused_switch_is_not_saved() {
    let mut model = ready_model();
    model.pending = Some(SourceSlot::B);
    let (model, actions) = ui_step(model, switched(LocalSwitchStatus::Executed(SwitchOutcome::Failed)));
    assert_eq!(model.pending, None);
    assert!(!saves(&actions));
    let (_, actions) =
        ui_step(model, switched(LocalSwitchStatus::NoWrite(LocalNoWriteReason::UnreadableCurrentInput)));
    assert!(!saves(&actions));
}

#[test]
fn setup_finish_event_saves_before_it_takes_effect() {
    let mut model = ready_model();
    model.draft = full_draft();
    let (_, actions) = ui_step(
        model,
        UiEvent::SetupFinish { source_a_name: "Desk PC".to_owned(), source_b_name: "Laptop".to_owned() },
    );
    assert!(actions.iter().any(|a| matches!(a, UiAction::SaveSetup(_))));
    let (_, actions) = ui_step(
        ready_model(),
        UiEvent::SetupFinish { source_a_name: "Desk PC".to_owned(), source_b_name: "Laptop".to_owned() },
    );
    assert!(!saves(&actions));
}

fn run_spike(answers: &[SpikeAnswer]) -> (SpikeState, Vec<SpikeAction>) {
    let mut state = SpikeState::Start;
    let mut actions = Vec::new();
    for answer in answers {
        let (next, action) = spike_step(state, *answer);
        state = next;
        actions.push(action);
    }
    (state, actions)
}

#[test]
fn guided_round_trip_writes_captured_a_then_b_then_a() {
    let answers = [
        SpikeAnswer::Continue,
        SpikeAnswer::Confirmed(true),
        SpikeAnswer::Read(Some(0x0f)),
        SpikeAnswer::Continue,
        SpikeAnswer::Polled(DistinctInputObservation::Distinct(0x11)),
        SpikeAnswer::Confirmed(true),
        SpikeAnswer::Confirmed(true),
        SpikeAnswer::Written(DdcWriteResult::Accepted),
        SpikeAnswer::Confirmed(true),
        SpikeAnswer::Verified(ExpectedInputObservation::Expected),
        SpikeAnswer::Confirmed(true),
        SpikeAnswer::Written(DdcWriteResult::Accepted),
        SpikeAnswer::Written(DdcWriteResult::Accepted),
        SpikeAnswer::Confirmed(true),
        SpikeAnswer::Confirmed(true),
        SpikeAnswer::Verified(ExpectedInputObservation::Expected),
    ];
    let (state, actions) = run_spike(&answers);
    let writes: Vec<(u32, u32)> = actions
        .iter()
        .filter_map(|a| match a {
            SpikeAction::Write { value, then_wait_ms } => Some((*value, *then_wait_ms)),
            _ => None,
        })
        .collect();
    assert_eq!(writes, vec![(0x0f, SPIKE_SETTLE_MS), (0x11, SPIKE_DWELL_MS), (0x0f, SPIKE_SETTLE_MS)]);
    assert_eq!(actions[0], SpikeAction::Ask(SpikePrompt::ShowingA));
    assert_eq!(actions[2], SpikeAction::AwaitPhysicalSwitch);
    assert_eq!(actions[3], SpikeAction::PollDistinct(0x0f));
    let outcome = SpikeOutcome::RoundTrip {
        passed: true,
        to_b: DdcWriteResult::Accepted,
        to_a: DdcWriteResult::Accepted,
        saw_b: true,
        returned_to_a: true,
        final_read: ExpectedInputObservation::Expected,
    };
    assert_eq!(state, SpikeState::Done(outcome));
    assert_eq!(actions[15], SpikeAction::Finish(outcome));
}

#[test]
fn guided_test_writes_nothing_when_b_is_not_identified() {
    let (state, actions) = run_spike(&[
        SpikeAnswer::Continue,
        SpikeAnswer::Confirmed(true),
        SpikeAnswer::Read(Some(0x0f)),
        SpikeAnswer::Continue,
        SpikeAnswer::Polled(DistinctInputObservation::Inconsistent),
    ]);
    let outcome = SpikeOutcome::BNotIdentified(DistinctInputObservation::Inconsistent);
    assert_eq!(state, SpikeState::Done(outcome));
    assert!(!actions.iter().any(|a| matches!(a, SpikeAction::Write { .. })));
}

#[test]
fn guided_test_stops_on_recovery_write_error_and_ignores_stray_answers() {
    let (state, actions) = run_spike(&[
        SpikeAnswer::Continue,
        SpikeAnswer::Confirmed(true),
        SpikeAnswer::Read(Some(0x0f)),
        SpikeAnswer::Continue,
        SpikeAnswer::Polled(DistinctInputObservation::Distinct(0x11)),
        SpikeAnswer::Confirmed(true),
        SpikeAnswer::Confirmed(true),
        SpikeAnswer::Written(DdcWriteResult::Failed),
        SpikeAnswer::Confirmed(true),
        SpikeAnswer::Continue,
    ]);
    let outcome = SpikeOutcome::RecoveryWriteError(DdcWriteResult::Failed);
    assert_eq!(state, SpikeState::Done(outcome));
    assert_eq!(actions[8], SpikeAction::Finish(outcome));
    assert_eq!(actions[9], SpikeAction::Ignore);
    let (state, _) = run_spike(&[SpikeAnswer::Continue, SpikeAnswer::Confirmed(false)]);
    assert_eq!(state, SpikeState::Done(SpikeOutcome::NotOnA));
}

#[test]
fn frame_body_len_reads_the_big_endian_length_up_to_the_cap() {
    assert_eq!(frame_body_len(&[0, 0, 0, 5]), Some(5));
    assert_eq!(frame_body_len(&[0, 0x10, 0, 0]), Some(MAX_FRAME_LEN));
    assert_eq!(frame_body_len(&[0, 0x10, 0, 1]), None);
    assert_eq!(frame_body_len(&[0xff, 0xff, 0xff, 0xff]), None);
}

#[test]
fn replay_window_accepts_each_number_once_within_the_window() {
    let mut w = ReplayWindow::new();
    assert!(w.accept(100));
    assert!(!w.accept(100));
    assert!(!w.accept(36));
    assert!(w.accept(37));
    assert!(!w.accept(37));
    assert!(w.accept(99));
    assert!(w.accept(200));
    assert!(!w.accept(99));
}

#[test]
fn registry_ids_are_exactly_the_observed_peers() {
    let mut r = PeerRegistry::new();
    r.observe_heartbeat("peer-b", 1, 10);
    r.observe_announce("peer-a", "Desk".to_owned(), vec![], true, 2, 20);
    r.observe_heartbeat("peer-a", 3, 30);
    r.observe_announce("peer-b", "Laptop".to_owned(), vec![], false, 4, 40);
    let mut ids = r.ids();
    ids.sort();
    assert_eq!(ids, vec!["peer-a".to_owned(), "peer-b".to_owned()]);
    assert_eq!(ids.len(), r.len());
}

#[test]
fn reconcile_all_matches_reconcile_one_in_order() {
    let reads = vec![
        ("mon-1".to_owned(), LiveRead::Owner(Some("peer-a".to_owned()))),
        ("mon-2".to_owned(), LiveRead::DdcDisabled),
        ("mon-1".to_owned(), LiveRead::Owner(Some("peer-a".to_owned()))),
        ("mon-1".to_owned(), LiveRead::Owner(Some("peer-b".to_owned()))),
    ];
    let mut batch = OwnershipMap::new();
    let changes = reconcile_all(&mut batch, &reads, 1_000);
    let mut single = OwnershipMap::new();
    let mut one_by_one = Vec::new();
    for (id, read) in &reads {
        if let Some(c) = reconcile_one(&mut single, id, read, 1_000) {
            one_by_one.push(c);
        }
    }
    assert_eq!(changes, one_by_one);
    assert_eq!(changes[0].monitor_id, "mon-1");
    assert_eq!(changes[0].new_owner.as_deref(), Some("peer-a"));
    assert_eq!(batch.owner("mon-1"), single.owner("mon-1"));
    assert_eq!(batch.owner("mon-2"), single.owner("mon-2"));
}

fn hs_send(action: HsAction) -> HsMsg {
    match action {
        HsAction::Send(msg) => msg,
        HsAction::Finish(r) => panic!("expected a message, got {r:?}"),
    }
}

#[test]
fn handshake_steps_prove_both_identities_and_pin_them() {
    let alice = PeerIdentity::from_secret_bytes(&[7u8; 32]);
    let bob = PeerIdentity::from_secret_bytes(&[9u8; 32]);
    let (na, nb) = ([1u8; 32], [2u8; 32]);
    let (mut pa, mut pb) = (PinStore::new(), PinStore::new());
    let (sa, a1) = handshake_step(HsState::Start, HsEvent::Begin, &alice, &na, &mut pa);
    let (sb, b1) = handshake_step(HsState::Start, HsEvent::Begin, &bob, &nb, &mut pb);
    let (sa, a2) = handshake_step(sa, HsEvent::Received(hs_send(b1)), &alice, &na, &mut pa);
    let (sb, b2) = handshake_step(sb, HsEvent::Received(hs_send(a1)), &bob, &nb, &mut pb);
    let (sa, a3) = handshake_step(sa, HsEvent::Received(hs_send(b2)), &alice, &na, &mut pa);
    let (sb, b3) = handshake_step(sb, HsEvent::Received(hs_send(a2)), &bob, &nb, &mut pb);
    assert!(matches!(sa, HsState::Done) && matches!(sb, HsState::Done));
    match (a3, b3) {
        (HsAction::Finish(Ok(va)), HsAction::Finish(Ok(vb))) => {
            assert_eq!(va.peer_id, bob.peer_id());
            assert_eq!(vb.peer_id, alice.peer_id());
        }
        _ => panic!("handshake did not finish"),
    }
    assert!(pa.is_pinned(&bob.peer_id()));
    assert!(pb.is_pinned(&alice.peer_id()));
    assert_eq!(pa.check_or_pin(&bob.peer_id(), alice.public_bytes()).is_err(), true);
}

#[test]
fn handshake_step_refuses_messages_out_of_turn_and_forged_proofs() {
    let alice = PeerIdentity::from_secret_bytes(&[7u8; 32]);
    let bob = PeerIdentity::from_secret_bytes(&[9u8; 32]);
    let mut pins = PinStore::new();
    let (s, _) = handshake_step(HsState::Start, HsEvent::Begin, &alice, &[1u8; 32], &mut pins);
    let (_, a) = handshake_step(s, HsEvent::Received(HsMsg::Proof { signature: vec![0; 64] }), &alice, &[1u8; 32], &mut pins);
    assert!(matches!(a, HsAction::Finish(Err(HandshakeError::Parse))));
    let (s, _) = handshake_step(HsState::Start, HsEvent::Begin, &alice, &[1u8; 32], &mut pins);
    let bob_hello = hello(&bob, &[2u8; 32]);
    let (s, _) = handshake_step(s, HsEvent::Received(bob_hello), &alice, &[1u8; 32], &mut pins);
    let forged = proof_for(&bob, &[3u8; 32]);
    let (_, a) = handshake_step(s, HsEvent::Received(forged), &alice, &[1u8; 32], &mut pins);
    assert!(matches!(a, HsAction::Finish(Err(HandshakeError::BadProof))));
    assert!(!pins.is_pinned(&bob.peer_id()));
}

#[test]
fn frame_body_reads_exactly_the_announced_length_or_refuses_before_reading() {
    let mut cursor = std::io::Cursor::new(b"hello, world".to_vec());
    assert_eq!(read_frame_body(&mut cursor, &[0, 0, 0, 5]).unwrap(), b"hello".to_vec());
    assert_eq!(cursor.position(), 5);
    let err = read_frame_body(&mut cursor, &[0xff, 0xff, 0xff, 0xff]).unwrap_err();
    assert_eq!(err.kind(), std::io::ErrorKind::InvalidData);
    assert_eq!(cursor.position(), 5);
}


#[test]
fn sent_commands_carry_the_current_configuration() {
    let expected = ready_config();
    let (model, actions) = ui_step(ready_model(), UiEvent::SwitchSource(0));
    match &actions[1] {
        UiAction::Send(WorkerCommand::SwitchTo { config, source }) => {
            assert_eq!(*source, SourceSlot::A);
            assert_eq!(*config, expected);
        }
        _ => panic!("expected a switch command"),
    }
    let mut model = model;
    model.pending = None;
    model.observed = SourceState::A;
    let (_, actions) = ui_step(model, UiEvent::Toggle);
    match &actions[1] {
        UiAction::Send(WorkerCommand::SwitchTo { config, source }) => {
            assert_eq!(*source, SourceSlot::B);
            assert_eq!(*config, expected);
        }
        _ => panic!("expected a toggle command"),
    }
    let (_, actions) = ui_step(ready_model(), UiEvent::ReadDue);
    match &actions[0] {
        UiAction::Send(WorkerCommand::Read { config }) => assert_eq!(*config, expected),
        _ => panic!("expected a read command"),
    }
    let (_, actions) = ui_start(Ok(ready_config()), vec![monitor("display-1")], None, None, false);
    match &actions[2] {
        UiAction::Send(WorkerCommand::Read { config }) => assert_eq!(*config, expected),
        _ => panic!("expected a read command"),
    }
}

#[test]
fn switch_answer_shows_the_report_view() {
    let mut model = ready_model();
    model.pending = Some(SourceSlot::B);
    let event = switched(LocalSwitchStatus::Executed(SwitchOutcome::Success));
    let (config, report) = match &event {
        UiEvent::Worker(WorkerEvent::Switched { config, report, .. }) => (config.clone(), report.clone()),
        _ => unreachable!(),
    };
    let (_, actions) = ui_step(model, event);
    let expected = Controller::new().view_after_report(&config, SourceState::B, &report);
    match &actions[0] {
        UiAction::ShowView(v) => assert_eq!(*v, expected),
        _ => panic!("expected the report view"),
    }
}

#[test]
fn reads_repaint_and_refresh_only_on_the_main_screen() {
    let (model, actions) = ui_step(ready_model(), UiEvent::OpenSettings);
    assert_eq!(model.screen, 2);
    assert!(matches!(actions[..], [UiAction::Screen(2)]));
    let (model, actions) = ui_step(model, UiEvent::Worker(WorkerEvent::Read(SourceState::B)));
    assert_eq!(model.observed, SourceState::B);
    assert!(actions.is_empty());
    let (model, actions) = ui_step(model, UiEvent::ReadDue);
    assert!(!model.read_in_flight);
    assert!(actions.is_empty());
    let (model, actions) = ui_step(model, UiEvent::CloseSettings);
    assert_eq!(model.screen, 0);
    assert!(matches!(actions[..], [UiAction::Screen(0)]));
    let (_, actions) = ui_step(model, UiEvent::Worker(WorkerEvent::Read(SourceState::A)));
    assert!(matches!(actions[..], [UiAction::Render]));
}

#[test]
fn stored_secret_loads_back_trimmed() {
    let stored = secret_to_store("  hunter2  ");
    assert_eq!(stored, "hunter2");
    assert_eq!(secret_from_text(&stored), Some("hunter2".to_owned()));
    assert_eq!(secret_from_text(&secret_to_store(" \t ")), None);
}

#[test]
fn monitor_id_is_twelve_lower_case_hex_digits() {
    let id = MonitorFingerprint::from_parts("AOC".to_owned(), 0x1234, 1598, None).monitor_id();
    assert_eq!(id.len(), 12);
    assert!(id.chars().all(|c| c.is_ascii_digit() || ('a'..='f').contains(&c)));
}

#[test]
fn sender_windows_keep_one_window_per_sender() {
    let mut windows = SenderWindows::new();
    assert!(windows.accept("peer-a", 5));
    assert!(windows.accept("peer-b", 5));
    assert!(!windows.accept("peer-a", 5));
    assert!(windows.accept("peer-a", 4));
    let mut counter = SendCounter::new();
    assert_eq!(counter.next(), 1);
    assert_eq!(counter.next(), 2);
    assert_eq!(counter.current(), 2);
}

#[test]
fn detected_monitor_rows_name_and_describe_the_display() {
    let info = MonitorInfo {
        id: "display-1".to_owned(),
        manufacturer: Some(" Dell ".to_owned()),
        model: None,
        serial: None,
        backend: "WinApi".to_owned(),
        fingerprint: None,
    };
    assert_eq!(info.display_name(), "Dell Monitor");
    assert_eq!(info.display_detail(), "WinApi \u{b7} display-1");
    let blank = MonitorInfo { manufacturer: None, model: Some("  ".to_owned()), ..info.clone() };
    assert_eq!(blank.display_name(), "Monitor");
    let with_fp = MonitorInfo {
        fingerprint: Some(MonitorFingerprint::from_parts("AOC".to_owned(), 0x1234, 1598, None)),
        ..info
    };
    let id = MonitorFingerprint::from_parts("AOC".to_owned(), 0x1234, 1598, None).monitor_id();
    assert_eq!(with_fp.display_detail(), format!("WinApi \u{b7} display-1 \u{b7} fingerprint {id}"));
}
