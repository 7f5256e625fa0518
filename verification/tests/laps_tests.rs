use module_live_telemetry::laps::{segment_raw_graphics_laps, LapBoundaryReason, LapSample};

fn sample(
    sample_tick: u64,
    completed_laps: i32,
    current_lap_time_ms: i32,
    last_lap_time_ms: i32,
    _normalized_car_position: f32,
) -> LapSample {
    LapSample {
        sample_tick,
        timestamp_ns: sample_tick * 1_000_000,
        completed_laps,
        current_lap_time_ms,
        last_lap_time_ms,
        is_valid_lap: 1,
    }
}

#[test]
fn segments_laps_and_skips_duplicate_boundary_samples() {
    let samples = vec![
        sample(0, 0, 0, 0, 0.0),
        sample(1, 0, 20_000, 0, 0.95),
        sample(2, 0, 0, 0, 1.0),
        sample(3, 1, 10, 20_100, 0.0),
        sample(4, 1, 30_000, 20_100, 0.5),
        sample(5, 1, 0, 20_100, 1.0),
        sample(6, 2, 12, 30_050, 0.0),
        sample(7, 2, 1_000, 30_050, 0.1),
    ];

    let laps = segment_raw_graphics_laps(&samples);
    assert_eq!(laps.len(), 3);
    assert_eq!((laps[0].start_sample_index, laps[0].end_sample_index), (0, 2));
    assert_eq!((laps[1].start_sample_index, laps[1].end_sample_index), (2, 5));
    assert_eq!((laps[2].start_sample_index, laps[2].end_sample_index), (5, 8));
    assert_eq!(laps[0].boundary_reason, Some(LapBoundaryReason::CurrentLapReset));
    assert_eq!(laps[1].boundary_reason, Some(LapBoundaryReason::CurrentLapReset));
    assert!(!laps[2].is_complete);
}

#[test]
fn empty_recording_has_no_laps() {
    assert!(segment_raw_graphics_laps(&[]).is_empty());
}

#[test]
fn single_lap_in_progress() {
    let samples = vec![sample(0, 0, 100, 0, 0.0), sample(1, 0, 200, 0, 0.1)];
    let laps = segment_raw_graphics_laps(&samples);
    assert_eq!(laps.len(), 1);
    assert_eq!(laps[0].sample_count, 2);
    assert!(!laps[0].is_complete);
    assert_eq!(laps[0].lap_time_ms, None);
    assert_eq!(laps[0].is_valid, None);
}

#[test]
fn completed_lap_count_change_closes_lap_with_its_time() {
    let samples = vec![
        sample(10, 0, 50_000, 0, 0.0),
        sample(11, 0, 90_000, 0, 0.9),
        sample(12, 1, 90_500, 91_000, 0.0),
        sample(13, 1, 1_000, 91_000, 0.1),
    ];
    let laps = segment_raw_graphics_laps(&samples);
    assert_eq!(laps.len(), 2);
    assert_eq!(laps[0].boundary_reason, Some(LapBoundaryReason::CompletedLapsChanged));
    assert_eq!((laps[0].start_tick, laps[0].end_tick), (10, 11));
    assert_eq!(laps[0].lap_time_ms, Some(90_000));
    assert_eq!(laps[0].is_valid, Some(true));
    assert_eq!(laps[0].duration_ns(), 1_000_000);
    assert_eq!(laps[1].lap_index, 1);
    assert_eq!(laps[1].acc_completed_laps_at_start, 1);
}

#[test]
fn boundary_reason_labels() {
    assert_eq!(LapBoundaryReason::CompletedLapsChanged.label(), "completed_laps_changed");
    assert_eq!(LapBoundaryReason::CurrentLapReset.label(), "current_lap_reset");
}

#[test]
fn laps_cover_all_samples() {
    let samples: Vec<LapSample> = (0..20)
        .map(|i| sample(i, (i / 5) as i32, ((i % 5) * 3000) as i32, 0, 0.0))
        .collect();
    let laps = segment_raw_graphics_laps(&samples);
    assert_eq!(laps[0].start_sample_index, 0);
    assert_eq!(laps.last().unwrap().end_sample_index, samples.len());
    for w in laps.windows(2) {
        assert_eq!(w[0].end_sample_index, w[1].start_sample_index);
    }
    let total: usize = laps.iter().map(|l| l.sample_count).sum();
    assert_eq!(total, samples.len());
}
