use screenhop::local_config::{LocalConfig, SourceSlot};
use screenhop::local_switcher::{LocalSwitchReport, LocalSwitchStatus, SourceState};
use screenhop::spike::{
    classify_distinct_input, classify_expected_input, truncate, DistinctInputObservation,
    ExpectedInputObservation,
};
use screenhop::spike::round_trip_passed;
use screenhop::types::{DdcWriteResult, SwitchOutcome};
use screenhop::ui::{
    build_detected_monitors, build_view, resolve_source, toggle_request, toggle_target,
    update_distinct_candidate, Controller, StatusKind, WorkerCommand,
};

fn ready_config() -> LocalConfig {
    let mut config = LocalConfig {
        selected_monitor: Some("display-1".to_owned()),
        ..LocalConfig::default()
    };
    config
        .monitor_aliases
        .insert("display-1".to_owned(), "Studio monitor".to_owned());
    config.source_mut(SourceSlot::A).label = "Desk PC".to_owned();
    config.source_mut(SourceSlot::A).confirmed_value = Some(0x0f);
    config.source_mut(SourceSlot::B).label = "Laptop".to_owned();
    config.source_mut(SourceSlot::B).confirmed_value = Some(0x11);
    config
}

#[test]
fn ready_view_uses_the_confirmed_local_source() {
    let view = build_view(&ready_config(), SourceState::A, None);
    assert!(view.ready);
    assert_eq!(view.monitor_name, "Studio monitor");
    assert_eq!(view.monitor_detail, "display-1");
    assert_eq!(view.active_source, 0);
    assert_eq!(view.pending_source, -1);
    assert_eq!(view.status_kind, StatusKind::Confirmed);
    assert_eq!(view.sources[1].label, "Laptop");
    assert!(view.sources.iter().all(|source| source.configured));
}

#[test]
fn unconfigured_view_invites_setup_and_actuates_nothing() {
    let view = build_view(&LocalConfig::default(), SourceState::Unconfigured, None);
    assert!(!view.ready);
    assert_eq!(view.active_source, -1);
    assert_eq!(view.pending_source, -1);
    assert!(view.status_text.contains("Setup"));
    assert!(view.sources.iter().all(|source| !source.configured));
}

#[test]
fn unknown_value_stays_unknown_and_explains_the_exact_read() {
    let view = build_view(&ready_config(), SourceState::Unknown(0x1b), None);
    assert!(view.ready);
    assert_eq!(view.active_source, -1);
    assert_eq!(view.status_kind, StatusKind::Warning);
    assert!(view.message.contains("0x1B"));
    assert!(view.message.contains("will not guess"));
}

#[test]
fn pending_target_does_not_optimistically_change_the_active_source() {
    let view = build_view(&ready_config(), SourceState::A, Some(SourceSlot::B));
    assert_eq!(view.active_source, 0);
    assert_eq!(view.pending_source, 1);
    assert_eq!(view.status_kind, StatusKind::Switching);
    assert!(view.status_text.contains("Laptop"));
    assert!(view.message.contains("not been changed"));
}

#[test]
fn inconclusive_report_never_claims_a_confirmed_active_source() {
    let config = ready_config();
    let report = LocalSwitchReport {
        requested_source: Some(SourceSlot::B),
        state_before: Some(SourceState::A),
        status: LocalSwitchStatus::Executed(SwitchOutcome::AssumedSuccessReadbackInconclusive),
        attempts: 1,
        observed_value: None,
        detail: None,
    };
    let view = Controller::new().view_after_report(&config, SourceState::Unreadable, &report);
    assert_eq!(view.active_source, -1);
    assert_eq!(view.status_kind, StatusKind::Warning);
    assert!(view.status_text.contains("not confirmed"));
}

#[test]
fn failed_report_is_an_error_and_preserves_the_last_confirmed_source() {
    let config = ready_config();
    let report = LocalSwitchReport {
        requested_source: Some(SourceSlot::B),
        state_before: Some(SourceState::A),
        status: LocalSwitchStatus::Executed(SwitchOutcome::Failed),
        attempts: 3,
        observed_value: Some(0x0f),
        detail: Some("monitor remained on source A".to_owned()),
    };
    let view = Controller::new().view_after_report(&config, SourceState::A, &report);
    assert_eq!(view.active_source, 0);
    assert_eq!(view.status_kind, StatusKind::Error);
    assert_eq!(view.message, "monitor remained on source A");
}

#[test]
fn binding_preserves_unknown_and_pending_sentinels() {
    let config = ready_config();
    let view = build_view(&config, SourceState::Unknown(0x1b), Some(SourceSlot::B));
    assert_eq!(view.active_source, -1);
    assert_eq!(view.pending_source, 1);
    assert_eq!(view.status_kind.as_i32(), StatusKind::Switching.as_i32());
    assert_eq!(view.sources.len(), 2);
}

#[test]
fn status_kind_numbers_are_stable() {
    assert_eq!(StatusKind::Neutral.as_i32(), 0);
    assert_eq!(StatusKind::Confirmed.as_i32(), 1);
    assert_eq!(StatusKind::Switching.as_i32(), 2);
    assert_eq!(StatusKind::Warning.as_i32(), 3);
    assert_eq!(StatusKind::Error.as_i32(), 4);
}

#[test]
fn source_index_guard_rejects_negative_stale_and_unconfigured_values() {
    let mut config = ready_config();
    assert_eq!(resolve_source(&config, 0), Some(SourceSlot::A));
    assert_eq!(resolve_source(&config, 1), Some(SourceSlot::B));
    assert_eq!(resolve_source(&config, -1), None);
    assert_eq!(resolve_source(&config, 2), None);
    assert_eq!(resolve_source(&config, i32::MAX), None);

    config.source_mut(SourceSlot::B).confirmed_value = None;
    assert_eq!(resolve_source(&config, 1), None);
}

#[test]
fn monitor_rows_preserve_friendly_and_diagnostic_copy() {
    let rows = build_detected_monitors(&[(
        "Studio monitor".to_owned(),
        "AOC Q27G3XMN · DISPLAY\\AOC1234".to_owned(),
        true,
    )]);
    assert_eq!(rows.len(), 1);
    assert_eq!(rows[0].name.as_str(), "Studio monitor");
    assert!(rows[0].detail.as_str().contains("DISPLAY"));
    assert!(rows[0].recommended);
}

#[test]
fn toggle_hint_is_safe_for_known_and_unreadable_states() {
    assert_eq!(toggle_target(SourceState::A, None), Some(SourceSlot::B));
    assert_eq!(toggle_target(SourceState::B, None), Some(SourceSlot::A));
    assert_eq!(
        toggle_target(SourceState::Unreadable, Some(SourceSlot::B)),
        Some(SourceSlot::A)
    );
    assert_eq!(toggle_target(SourceState::Unreadable, None), None);
    assert_eq!(toggle_target(SourceState::Unknown(0x44), None), None);
}

#[test]
fn toggle_request_writes_exactly_the_target_shown_as_pending() {
    let config = LocalConfig::default();
    let (displayed_target, command) = toggle_request(&config, SourceState::A).unwrap();
    match command {
        WorkerCommand::SwitchTo { source, .. } => assert_eq!(source, displayed_target),
        WorkerCommand::Read { .. }
        | WorkerCommand::CaptureA { .. }
        | WorkerCommand::CaptureBAndReturn { .. } => {
            panic!("toggle must enqueue an explicit SwitchTo command")
        }
    }
}

#[test]
fn toggle_request_is_none_when_the_target_is_unknown() {
    let config = LocalConfig::default();
    assert!(toggle_request(&config, SourceState::Unknown(0x44)).is_none());
    assert!(toggle_request(&config, SourceState::Unreadable).is_none());
}

#[test]
fn second_source_requires_two_matching_distinct_reads() {
    let mut candidate = None;
    assert_eq!(update_distinct_candidate(0x0f, &mut candidate, None), None);
    assert_eq!(
        update_distinct_candidate(0x0f, &mut candidate, Some(0x11)),
        None
    );
    assert_eq!(
        update_distinct_candidate(0x0f, &mut candidate, Some(0x12)),
        None
    );
    assert_eq!(
        update_distinct_candidate(0x0f, &mut candidate, Some(0x12)),
        Some(0x12)
    );
}

#[test]
fn returning_to_source_a_resets_a_partial_b_candidate() {
    let mut candidate = None;
    assert_eq!(
        update_distinct_candidate(0x0f, &mut candidate, Some(0x11)),
        None
    );
    assert_eq!(
        update_distinct_candidate(0x0f, &mut candidate, Some(0x0f)),
        None
    );
    assert!(candidate.is_none());
}

#[test]
fn readings_wider_than_sixteen_bits_are_ignored() {
    let mut candidate = Some((0x11, 1));
    assert_eq!(
        update_distinct_candidate(0x0f, &mut candidate, Some(0x1_0011)),
        None
    );
    assert_eq!(candidate, Some((0x11, 1)));
}

#[test]
fn distinct_input_requires_matching_successful_values_different_from_a() {
    assert_eq!(
        classify_distinct_input(0x0f, &[None, Some(0x0f), None]),
        DistinctInputObservation::Unchanged
    );
    assert_eq!(
        classify_distinct_input(0x0f, &[None, Some(0x11), Some(0x11)]),
        DistinctInputObservation::Distinct(0x11)
    );
}

#[test]
fn distinct_input_requires_two_consecutive_matching_reads() {
    assert_eq!(
        classify_distinct_input(0x0f, &[Some(0x11), None, Some(0x11)]),
        DistinctInputObservation::Inconsistent
    );
    assert_eq!(
        classify_distinct_input(0x0f, &[Some(0x11), Some(0x12)]),
        DistinctInputObservation::Inconsistent
    );
    assert_eq!(
        classify_distinct_input(0x0f, &[Some(0x11), Some(0x12), Some(0x12)]),
        DistinctInputObservation::Distinct(0x12)
    );
}

#[test]
fn distinct_input_reports_fully_unreadable_poll() {
    assert_eq!(
        classify_distinct_input(0x0f, &[None, None]),
        DistinctInputObservation::Unreadable
    );
}

#[test]
fn expected_input_requires_a_matching_live_read() {
    assert_eq!(
        classify_expected_input(0x0f, &[None, Some(0x11), Some(0x12)]),
        ExpectedInputObservation::Other(0x12)
    );
    assert_eq!(
        classify_expected_input(0x0f, &[Some(0x11), Some(0x0f)]),
        ExpectedInputObservation::Expected
    );
    assert_eq!(
        classify_expected_input(0x0f, &[None]),
        ExpectedInputObservation::Unreadable
    );
}

#[test]
fn truncate_marks_cut_text_with_a_tilde() {
    assert_eq!(truncate("short", 10), "short");
    assert_eq!(truncate("abcdefgh", 5), "abcd~");
    assert_eq!(truncate("abc", 0), "~");
}

#[test]
fn round_trip_passes_only_when_everything_was_confirmed() {
    let ok = DdcWriteResult::Accepted;
    assert!(round_trip_passed(ok, ok, true, true, ExpectedInputObservation::Expected));
    assert!(!round_trip_passed(DdcWriteResult::Failed, ok, true, true, ExpectedInputObservation::Expected));
    assert!(!round_trip_passed(ok, ok, false, true, ExpectedInputObservation::Expected));
    assert!(!round_trip_passed(ok, ok, true, false, ExpectedInputObservation::Expected));
    assert!(!round_trip_passed(ok, ok, true, true, ExpectedInputObservation::Other(0x11)));
}
