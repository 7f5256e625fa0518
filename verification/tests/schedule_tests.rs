use module_live_telemetry::compute::registry::ComputeRegistry;
use module_live_telemetry::compute::ComputeError;
use module_live_telemetry::schedule::{
    advance_due, build_schedule, should_log_compute_error, should_report_sent_frame, take_due_items,
};

const MS: u64 = 1_000_000;

#[test]
fn subscriptions_with_same_interval_share_a_schedule_bucket() {
    // speed_kmh and rpms every 16 ms, gear every 50 ms.
    let buckets = build_schedule(&[16 * MS, 16 * MS, 50 * MS], 0);
    assert_eq!(buckets.len(), 2);
    assert_eq!(buckets[0].interval_ns, 16 * MS);
    assert_eq!(buckets[0].items, vec![0, 1]);
    assert_eq!(buckets[1].items, vec![2]);
    assert_eq!(buckets[1].next_due_ns, 50 * MS);
}

#[test]
fn test_due_buckets_hand_out_items_and_move_on() {
    let mut buckets = build_schedule(&[10, 25, 10], 100);
    assert!(take_due_items(&mut buckets, 105).is_empty());
    assert_eq!(take_due_items(&mut buckets, 110), vec![0, 2]);
    assert_eq!(buckets[0].next_due_ns, 120);
    assert_eq!(take_due_items(&mut buckets, 200), vec![0, 2, 1]);
    assert_eq!(buckets[0].next_due_ns, 210);
    assert_eq!(buckets[1].next_due_ns, 225);
}

#[test]
fn test_advance_due() {
    assert_eq!(advance_due(100, 10, 100), 110);
    assert_eq!(advance_due(100, 10, 135), 140);
    assert_eq!(advance_due(100, 0, 135), 135);
    assert_eq!(advance_due(150, 10, 135), 150);
}

#[test]
fn test_compute_error_log_is_throttled() {
    let s = 1_000_000_000u64;
    assert!(should_log_compute_error(None, 0));
    assert!(!should_log_compute_error(Some(10 * s), 14 * s));
    assert!(should_log_compute_error(Some(10 * s), 15 * s));
    assert!(!should_log_compute_error(Some(10 * s), 9 * s));
}

#[test]
fn test_sent_frame_reports() {
    assert!(should_report_sent_frame(1));
    assert!(!should_report_sent_frame(2));
    assert!(should_report_sent_frame(1000));
    assert!(should_report_sent_frame(0));
    assert!(!should_report_sent_frame(1001));
}

#[test]
fn test_unregister() {
    let mut registry = ComputeRegistry::new();
    registry.register_calc_realtime("test_item").unwrap();
    assert!(registry.unregister("test_item"));
    assert!(!registry.unregister("test_item"));
}

#[test]
fn test_is_registered() {
    let mut registry = ComputeRegistry::new();
    assert!(!registry.is_registered("test_item"));
    registry.register_calc_realtime("test_item").unwrap();
    assert!(registry.is_registered("test_item"));
}

#[test]
fn test_register_empty_name_rejected() {
    let mut registry = ComputeRegistry::new();
    let result = registry.register_calc_realtime("");
    assert!(result.is_err());
    match result.unwrap_err() {
        ComputeError::InvalidRegistration(msg) => {
            assert!(msg.contains("不能为空"));
        }
        _ => panic!("expected InvalidRegistration"),
    }
}

#[test]
fn test_register_duplicate_name_rejected() {
    let mut registry = ComputeRegistry::new();
    registry.register_calc_realtime("test_item").unwrap();
    let result = registry.register_calc_realtime("test_item");
    assert!(result.is_err());
    match result.unwrap_err() {
        ComputeError::InvalidRegistration(msg) => {
            assert!(msg.contains("已注册"));
        }
        _ => panic!("expected InvalidRegistration"),
    }
}

#[test]
fn test_register_batch_duplicate_with_realtime() {
    let mut registry = ComputeRegistry::new();
    registry.register_calc_realtime("test_item").unwrap();
    let result = registry.register_calc_batch("test_item");
    assert!(result.is_err());
}

#[test]
fn test_registry_counts_and_message() {
    let mut registry = ComputeRegistry::new();
    registry.register_calc_realtime("a").unwrap();
    registry.register_calc_batch("b").unwrap();
    assert_eq!(registry.calc_realtime_count(), 1);
    assert_eq!(registry.calc_batch_count(), 1);
    match registry.register_calc_batch("a") {
        Err(ComputeError::InvalidRegistration(m)) => assert_eq!(m, "计算项 'a' 已注册"),
        other => panic!("unexpected {:?}", other),
    }
    assert!(registry.unregister("b"));
    assert_eq!(registry.calc_batch_count(), 0);
}
