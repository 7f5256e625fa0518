use module_live_telemetry::compute::items::{
    all_builtin_calculated_items, position_key, DeltaTimeToLifeBestLap, DeltaTimeToSessionBestLap,
    ReferencePoint,
};
use module_live_telemetry::compute::ComputeError;
use module_live_telemetry::error::{IoError, IoErrorKind};

fn point(pos: f32, time_ms: i32) -> ReferencePoint {
    ReferencePoint { position_key: position_key(pos.to_bits()), time_ms }
}

fn key(pos: f32) -> Option<i64> {
    position_key(pos.to_bits())
}

#[test]
fn test_compute_error_display() {
    assert_eq!(ComputeError::NoValidData.to_string(), "无有效数据");
    assert_eq!(ComputeError::InvalidReferenceData.to_string(), "无效参考数据");
    assert_eq!(
        ComputeError::ComputationFailed("oops".to_string()).to_string(),
        "计算失败: oops"
    );
    assert_eq!(
        ComputeError::ItemNotFound("speed_mps".to_string()).to_string(),
        "计算项未找到: speed_mps"
    );
}

#[test]
fn test_compute_error_from_io() {
    let io_err = IoError::new(IoErrorKind::NotFound, "file not found");
    let compute_err = ComputeError::from(io_err);
    assert!(compute_err.to_string().contains("file not found"));
}

#[test]
fn test_all_builtin_calculated_items() {
    let items = all_builtin_calculated_items();
    assert_eq!(items.len(), 2);

    let delta = items
        .iter()
        .find(|i| i.key.to_string() == "calc:delta_time_to_life_best_lap")
        .unwrap();
    assert_eq!(delta.description, "当前圈与历史最佳圈时间差");
    assert!(delta.requires_reference);

    let session = items
        .iter()
        .find(|i| i.key.to_string() == "calc:delta_time_to_session_best_lap")
        .unwrap();
    assert_eq!(session.description, "当前圈与本Session最佳圈时间差");
    assert!(session.requires_reference);
}

#[test]
fn test_delta_time_to_life_best_lap_normal() {
    let reference = vec![point(0.0, 0), point(0.5, 50000), point(1.0, 100000)];
    let mut item = DeltaTimeToLifeBestLap::new();
    let delta = item.compute(Some(&reference), 1, key(0.5), 51000).unwrap();
    assert_eq!(delta, -1000);
}

#[test]
fn test_delta_time_to_life_best_lap_no_reference() {
    let mut item = DeltaTimeToLifeBestLap::new();
    assert!(item.compute(None, 1, key(0.5), 51000).is_err());
}

#[test]
fn test_delta_time_to_life_best_lap_empty_reference() {
    let reference: Vec<ReferencePoint> = Vec::new();
    let mut item = DeltaTimeToLifeBestLap::new();
    assert!(item.compute(Some(&reference), 1, key(0.5), 51000).is_err());
}

#[test]
fn test_delta_time_to_life_best_lap_reset_on_lap_change() {
    let reference = vec![point(0.0, 0), point(0.5, 50000)];
    let mut item = DeltaTimeToLifeBestLap::new();
    let delta = item.compute(Some(&reference), 2, key(0.5), 52000).unwrap();
    assert_eq!(delta, -2000);
}

#[test]
fn test_session_best_lap_no_reference() {
    let mut item = DeltaTimeToSessionBestLap::new();
    assert_eq!(item.compute(None, 1, key(0.5), 51000), Err(ComputeError::NoValidData));
}

#[test]
fn test_session_best_lap_with_reference() {
    let reference = vec![point(0.0, 0), point(0.5, 50000), point(1.0, 100000)];
    let mut item = DeltaTimeToSessionBestLap::new();
    let delta = item.compute(Some(&reference), 1, key(0.5), 52000).unwrap();
    assert_eq!(delta, -2000);
}

#[test]
fn empty_reference_is_invalid_reference_data() {
    let reference: Vec<ReferencePoint> = Vec::new();
    let mut item = DeltaTimeToSessionBestLap::new();
    assert_eq!(
        item.compute(Some(&reference), 1, key(0.5), 51000),
        Err(ComputeError::InvalidReferenceData)
    );
}

#[test]
fn lookup_follows_the_car_along_the_lap() {
    let reference = vec![point(0.0, 0), point(0.25, 25000), point(0.5, 50000), point(0.75, 75000)];
    let mut item = DeltaTimeToLifeBestLap::new();
    assert_eq!(item.compute(Some(&reference), 3, key(0.3), 31000).unwrap(), 25000 - 31000);
    assert_eq!(item.compute(Some(&reference), 3, key(0.8), 80000).unwrap(), 75000 - 80000);
    // Going backwards on the same lap restarts the search from the beginning.
    assert_eq!(item.compute(Some(&reference), 3, key(0.1), 9000).unwrap(), -9000);
}

#[test]
fn position_keys_order_like_the_floats() {
    let values = [-1.0f32, -0.5, 0.0, 0.25, 0.5, 1.0];
    for w in values.windows(2) {
        assert!(key(w[0]) < key(w[1]));
    }
    assert_eq!(key(-0.0), key(0.0));
}

#[test]
fn nan_positions_compare_false() {
    assert_eq!(key(f32::NAN), None);
    assert_eq!(key(-f32::NAN), None);
    assert!(key(f32::INFINITY).is_some());
    assert!(key(f32::NEG_INFINITY) < key(-1.0));
    let reference = vec![point(0.0, 0), point(0.5, 50000), point(1.0, 100000)];
    let mut item = DeltaTimeToLifeBestLap::new();
    // No comparison with NaN holds, so the search runs to the last point.
    assert_eq!(item.compute(Some(&reference), 1, key(f32::NAN), 1000).unwrap(), 100000 - 1000);
    // A NaN reference point is never ahead of the car: the search passes it.
    let reference = vec![point(0.0, 0), point(f32::NAN, 50000), point(1.0, 100000)];
    let mut item = DeltaTimeToLifeBestLap::new();
    assert_eq!(item.compute(Some(&reference), 1, key(0.2), 1000).unwrap(), 50000 - 1000);
}
