use module_live_telemetry::lap_report::{detect_laps, timing_at_tick, SessionLapSample};
use std::collections::HashMap;

fn s(tick: u64, valid: i32, crossed: bool) -> SessionLapSample {
    SessionLapSample { sample_tick: tick, is_valid_lap: valid, crossed_start_line: crossed }
}

#[test]
fn laps_split_at_line_crossings() {
    let session = vec![
        s(100, 1, false),
        s(101, 1, false),
        s(102, 1, true),
        s(103, 1, false),
        s(104, 1, false),
        s(105, 1, true),
        s(106, 0, false),
    ];
    let mut timing = HashMap::new();
    timing.insert(105u64, (90_000i32, 88_000i32));
    let laps = detect_laps(&session, &timing);
    assert_eq!(laps.len(), 3);
    assert!(laps[0].is_out_lap);
    assert!(!laps[0].is_valid);
    assert_eq!((laps[0].start_tick, laps[0].end_tick, laps[0].sample_count), (100, 101, 2));
    assert_eq!((laps[0].last_time_ms, laps[0].best_time_ms), (None, None));
    assert_eq!((laps[1].lap_number, laps[1].start_tick, laps[1].end_tick), (1, 102, 104));
    assert!(laps[1].is_valid);
    assert_eq!((laps[1].last_time_ms, laps[1].best_time_ms), (Some(90_000), Some(88_000)));
    assert_eq!((laps[2].start_tick, laps[2].end_tick, laps[2].sample_count), (105, 106, 2));
    assert!(!laps[2].is_valid);
}

#[test]
fn no_samples_no_laps() {
    let timing = HashMap::new();
    assert!(detect_laps(&[], &timing).is_empty());
}

#[test]
fn implausible_times_are_dropped() {
    let mut timing = HashMap::new();
    timing.insert(7u64, (0i32, 2_000_000i32));
    assert_eq!(timing_at_tick(&timing, 7), (None, None));
    timing.insert(8u64, (1_999_999i32, 1i32));
    assert_eq!(timing_at_tick(&timing, 8), (Some(1_999_999), Some(1)));
    assert_eq!(timing_at_tick(&timing, 9), (None, None));
}

#[test]
fn validity_looks_at_the_last_three_samples() {
    let session = vec![
        s(0, 1, false),
        s(1, 1, true),
        s(2, 0, false),
        s(3, 1, false),
        s(4, 1, false),
        s(5, 1, false),
        s(6, 1, true),
    ];
    let timing = HashMap::new();
    let laps = detect_laps(&session, &timing);
    assert_eq!(laps.len(), 3);
    // Lap 1 spans samples 1..6; its last three samples are valid.
    assert!(laps[1].is_valid);
    assert_eq!(laps[1].sample_count, 5);
    let total: usize = laps.iter().map(|l| l.sample_count).sum();
    assert_eq!(total, session.len());
}

use module_live_telemetry::lap_report::{list_laps, repair_shifted_session_flags, TimingLapSample};
use module_live_telemetry::samples::SessionSample;

fn lap_sample(tick: u64, valid: i32, crossed: bool) -> SessionLapSample {
    SessionLapSample { sample_tick: tick, is_valid_lap: valid, crossed_start_line: crossed }
}

fn timing(tick: u64, last: i32, best: i32) -> TimingLapSample {
    TimingLapSample { sample_tick: tick, i_last_time: last, i_best_time: best }
}

#[test]
fn test_list_laps_times_at_crossing_or_latest_before() {
    let session = vec![
        lap_sample(0, 1, false),
        lap_sample(1, 1, false),
        lap_sample(2, 1, true),
        lap_sample(3, 0, false),
        lap_sample(4, 1, false),
        lap_sample(5, 1, true),
        lap_sample(6, 1, false),
    ];
    // A timing sample at the second crossing; none at the first, whose lap
    // takes the latest one since the lap started.
    let timings = vec![timing(1, 90_000, 88_000), timing(1, 91_000, 88_500), timing(5, 85_000, 85_000)];
    let laps = list_laps(&session, &timings);
    assert_eq!(laps.len(), 3);
    assert!(laps[0].is_out_lap && !laps[0].is_valid);
    assert_eq!((laps[0].start_tick, laps[0].end_tick, laps[0].sample_count), (0, 1, 2));
    assert_eq!(laps[0].last_time_ms, Some(91_000));
    assert_eq!(laps[0].best_time_ms, Some(88_500));
    // Lap 1 ends at tick 4; tick 3 (two before the crossing) says invalid.
    assert_eq!((laps[1].start_tick, laps[1].end_tick, laps[1].sample_count), (2, 4, 3));
    assert!(!laps[1].is_valid);
    assert_eq!(laps[1].last_time_ms, Some(85_000));
    // The lap in progress has no times and is valid by its last sample.
    assert_eq!((laps[2].start_tick, laps[2].end_tick, laps[2].sample_count), (5, 6, 2));
    assert!(laps[2].is_valid);
    assert_eq!(laps[2].last_time_ms, None);
}

#[test]
fn test_list_laps_without_timing() {
    let session = vec![lap_sample(10, 1, false), lap_sample(11, 1, true), lap_sample(12, 1, false)];
    let laps = list_laps(&session, &[]);
    assert_eq!(laps.len(), 2);
    assert_eq!(laps[0].last_time_ms, None);
    assert!(list_laps(&[], &[]).is_empty());
}

fn session_sample() -> SessionSample {
    SessionSample {
        sample_tick: 1,
        timestamp_ns: 2,
        status: 2,
        session: 0,
        session_index: 0,
        completed_laps: 0,
        position: 1,
        session_time_left: 0,
        number_of_laps: 0,
        current_sector_index: 0,
        normalized_car_position: 0,
        is_in_pit: 0,
        is_in_pit_lane: 0,
        mandatory_pit_done: 7,
        missing_mandatory_pits: 0,
        penalty_time: 0,
        penalty_type: 0,
        track_status: vec![0; 33],
        clock: 0,
        replay_time_multiplier: 0,
        is_valid_lap: 5,
        global_yellow: 10,
        global_yellow1: 11,
        global_yellow2: 12,
        global_yellow3: 13,
        global_white: 14,
        global_green: 15,
        global_chequered: 16,
        global_red: 17,
        gap_ahead_or_tail_value: 18,
    }
}

#[test]
fn test_repair_shifted_session_flags() {
    let mut s = session_sample();
    repair_shifted_session_flags(&mut s, true);
    assert_eq!(s.is_valid_lap, 1);
    assert_eq!(s.is_in_pit_lane, 7);
    assert_eq!(
        (s.global_yellow, s.global_yellow1, s.global_yellow2, s.global_yellow3),
        (11, 12, 13, 14)
    );
    assert_eq!((s.global_white, s.global_green, s.global_chequered, s.global_red), (15, 16, 17, 18));
    assert_eq!(s.gap_ahead_or_tail_value, 18);
    assert_eq!(s.mandatory_pit_done, 7);
    let mut t = session_sample();
    repair_shifted_session_flags(&mut t, false);
    assert_eq!(t.is_valid_lap, 0);
}
