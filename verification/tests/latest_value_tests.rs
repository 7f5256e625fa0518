use module_live_telemetry::dashboard::{LatestValueStats, SendError};
use module_live_telemetry::latest_value::{
    advance_generation, clear_pending, send_latest, take_notification, try_recv, NullSink, LatestValueState, RecvOutcome, ValuesFrame,
};
use std::collections::HashMap;

fn frame(generation: u64, tick: u64, ts: u64, values: &[(&str, f64)]) -> ValuesFrame {
    ValuesFrame {
        subscription_generation: generation,
        sample_tick: tick,
        timestamp_ns: ts,
        values: values.iter().map(|(k, v)| (k.to_string(), v.to_bits())).collect(),
    }
}

fn value_map(f: &ValuesFrame) -> HashMap<String, f64> {
    let mut m = HashMap::new();
    for (k, v) in &f.values {
        m.insert(k.clone(), f64::from_bits(*v));
    }
    m
}

fn zero_stats() -> LatestValueStats {
    LatestValueStats {
        published_frames: 0,
        overwritten_frames: 0,
        received_frames: 0,
        cleared_frames: 0,
        stale_generation_frames: 0,
    }
}

#[test]
fn latest_value_channel_overwrites_old_frame() {
    let mut state = LatestValueState::new();
    let mut stats = zero_stats();
    send_latest(&mut state, &mut stats, true, frame(0, 7, 99, &[("speed", 100.0), ("gear", 4.0)])).unwrap();
    send_latest(&mut state, &mut stats, true, frame(0, 8, 100, &[("speed", 123.0)])).unwrap();

    let f = try_recv(&mut state, &mut stats, true).unwrap();
    assert_eq!(f.sample_tick, 8);
    assert_eq!(f.timestamp_ns, 100);
    let values = value_map(&f);
    assert_eq!(values.get("speed"), Some(&123.0));
    assert_eq!(values.get("gear"), Some(&4.0));
    assert!(matches!(try_recv(&mut state, &mut stats, true), Err(RecvOutcome::Empty)));
    assert_eq!(
        stats,
        LatestValueStats {
            published_frames: 2,
            overwritten_frames: 1,
            received_frames: 1,
            cleared_frames: 0,
            stale_generation_frames: 0,
        }
    );
}

#[test]
fn latest_value_never_merges_across_subscription_generations() {
    let mut state = LatestValueState::new();
    let mut stats = zero_stats();
    send_latest(&mut state, &mut stats, true, frame(1, 10, 100, &[("old", 1.0)])).unwrap();
    send_latest(&mut state, &mut stats, true, frame(2, 11, 110, &[("new", 2.0)])).unwrap();

    let f = try_recv(&mut state, &mut stats, true).unwrap();
    assert_eq!(f.subscription_generation, 2);
    assert_eq!(value_map(&f), HashMap::from([("new".to_string(), 2.0)]));

    send_latest(&mut state, &mut stats, true, frame(1, 12, 120, &[("late-old", 3.0)])).unwrap();
    assert!(matches!(try_recv(&mut state, &mut stats, true), Err(RecvOutcome::Empty)));
    assert_eq!(stats.stale_generation_frames, 1);
}

#[test]
fn clear_pending_removes_frame_and_notification() {
    let mut state = LatestValueState::new();
    let mut stats = zero_stats();
    send_latest(&mut state, &mut stats, true, frame(0, 7, 99, &[("gear", 3.0)])).unwrap();
    assert!(state.notified);
    assert!(clear_pending(&mut state, &mut stats));
    assert!(matches!(try_recv(&mut state, &mut stats, true), Err(RecvOutcome::Empty)));
    assert!(!take_notification(&mut state));
    assert_eq!(stats.cleared_frames, 1);
    assert!(!clear_pending(&mut state, &mut stats));
}

#[test]
fn test_latest_value_disconnects() {
    let mut state = LatestValueState::new();
    let mut stats = zero_stats();
    assert_eq!(send_latest(&mut state, &mut stats, false, frame(0, 1, 1, &[])), Err(SendError::Disconnected));
    assert_eq!(stats.published_frames, 0);
    assert!(matches!(try_recv(&mut state, &mut stats, false), Err(RecvOutcome::Disconnected)));
}

#[test]
fn test_advance_generation_discards_older_pending() {
    let mut state = LatestValueState::new();
    let mut stats = zero_stats();
    send_latest(&mut state, &mut stats, true, frame(3, 1, 1, &[("a", 1.0)])).unwrap();
    assert!(advance_generation(&mut state, &mut stats, 5));
    assert_eq!(state.generation_floor, 5);
    send_latest(&mut state, &mut stats, true, frame(4, 2, 2, &[("b", 2.0)])).unwrap();
    assert!(state.slot.is_none());
    assert_eq!(stats.stale_generation_frames, 1);
    // A lower generation never lowers the floor.
    assert!(!advance_generation(&mut state, &mut stats, 2));
    assert_eq!(state.generation_floor, 5);
}

#[test]
fn test_try_recv_drains_notification() {
    let mut state = LatestValueState::new();
    let mut stats = zero_stats();
    assert!(!state.notified);
    send_latest(&mut state, &mut stats, true, frame(0, 1, 1, &[("a", 1.0)])).unwrap();
    send_latest(&mut state, &mut stats, true, frame(0, 2, 2, &[("b", 2.0)])).unwrap();
    assert!(state.notified);
    try_recv(&mut state, &mut stats, true).unwrap();
    assert!(!state.notified);
}

#[test]
fn test_stale_frame_leaves_no_notification() {
    let mut state = LatestValueState::new();
    let mut stats = zero_stats();
    advance_generation(&mut state, &mut stats, 4);
    send_latest(&mut state, &mut stats, true, frame(3, 1, 1, &[("a", 1.0)])).unwrap();
    assert!(!state.notified);
    send_latest(&mut state, &mut stats, true, frame(4, 2, 2, &[("a", 1.0)])).unwrap();
    assert!(take_notification(&mut state));
    assert!(!take_notification(&mut state));
    assert!(state.slot.is_some());
}

#[test]
fn test_null_sink_does_not_panic() {
    NullSink.send(frame(0, 1, 1, &[("any", 1.0)])).unwrap();
}
