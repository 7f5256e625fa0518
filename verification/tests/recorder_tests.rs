use module_live_telemetry::recorder::{
    flush_interval_ms, log_due, next_sample_tick, on_sample_lost, on_status_lost, recorder_action,
    status_interval_ms, LostAction, RecorderAction,
};

#[test]
fn test_recorder_starts_when_live() {
    assert_eq!(recorder_action(2, false, false), RecorderAction::StartAndSample);
    assert_eq!(recorder_action(2, true, true), RecorderAction::Sample);
}

#[test]
fn test_recorder_keeps_recording_open_while_paused() {
    assert_eq!(recorder_action(3, true, true), RecorderAction::NotePaused);
    assert_eq!(recorder_action(3, true, false), RecorderAction::Idle);
    assert_eq!(recorder_action(3, false, true), RecorderAction::Idle);
}

#[test]
fn test_recorder_finishes_when_session_ends() {
    assert_eq!(recorder_action(0, true, false), RecorderAction::Finish);
    assert_eq!(recorder_action(1, true, true), RecorderAction::Finish);
    assert_eq!(recorder_action(0, false, true), RecorderAction::NoteWaiting);
    assert_eq!(recorder_action(0, false, false), RecorderAction::Idle);
}

#[test]
fn test_recorder_losing_the_game() {
    assert_eq!(on_status_lost(true, false), LostAction::FinishAndStop);
    assert_eq!(on_status_lost(false, true), LostAction::Reconnect { log: true });
    assert_eq!(on_sample_lost(true), LostAction::FinishAndStop);
    assert_eq!(on_sample_lost(false), LostAction::Fail);
}

#[test]
fn test_recorder_intervals_and_ticks() {
    assert!(log_due(0, 2000, 2000));
    assert!(!log_due(0, 1999, 2000));
    assert!(!log_due(10, 5, 0));
    assert_eq!(status_interval_ms(100), 250);
    assert_eq!(status_interval_ms(2000), 2000);
    assert_eq!(flush_interval_ms(0), None);
    assert_eq!(flush_interval_ms(1), Some(250));
    assert_eq!(flush_interval_ms(3000), Some(3000));
    assert_eq!(next_sample_tick(41), 42);
    assert_eq!(next_sample_tick(u64::MAX), u64::MAX);
}
