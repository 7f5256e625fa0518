use module_live_telemetry::compute::registry::ComputeRegistry;
use module_live_telemetry::compute::ComputeError;
use module_live_telemetry::item_key::ItemKey;
use module_live_telemetry::raw_catalog::all_raw_items;
use module_live_telemetry::subscriptions::Subscriptions;

const MS: u64 = 1_000_000;

fn raw_field_known(key: &ItemKey) -> bool {
    all_raw_items().iter().any(|e| e.key.to_string() == key.to_string())
}

fn subscribe(s: &mut Subscriptions, registry: &ComputeRegistry, text: &str, interval_ms: u64) -> Result<(), ComputeError> {
    let key = ItemKey::parse(text).unwrap();
    let known = raw_field_known(&key);
    s.subscribe(key, interval_ms * MS, registry, known)
}

#[test]
fn test_subscribe_raw_item() {
    let registry = ComputeRegistry::new();
    let mut service = Subscriptions::new();
    assert!(subscribe(&mut service, &registry, "raw:controls.speed_kmh", 50).is_ok());
}

#[test]
fn test_subscribe_raw_item_invalid() {
    let registry = ComputeRegistry::new();
    let mut service = Subscriptions::new();
    assert!(subscribe(&mut service, &registry, "raw:controls.nonexistent", 50).is_err());
}

#[test]
fn test_subscribe_calc_item() {
    let mut registry = ComputeRegistry::new();
    registry.register_calc_realtime("test_calc").unwrap();
    let mut service = Subscriptions::new();
    assert!(subscribe(&mut service, &registry, "calc:test_calc", 50).is_ok());
}

#[test]
fn test_subscribe_calc_item_not_registered() {
    let registry = ComputeRegistry::new();
    let mut service = Subscriptions::new();
    assert!(subscribe(&mut service, &registry, "calc:nonexistent", 50).is_err());
}

#[test]
fn test_unsubscribe() {
    let registry = ComputeRegistry::new();
    let mut service = Subscriptions::new();
    let key = ItemKey::parse("raw:controls.speed_kmh").unwrap();
    subscribe(&mut service, &registry, "raw:controls.speed_kmh", 50).unwrap();
    assert!(service.is_subscribed(&key));
    service.unsubscribe(&key);
    assert!(!service.is_subscribed(&key));
}

#[test]
fn test_subscription_refusals_name_the_key() {
    let registry = ComputeRegistry::new();
    let mut service = Subscriptions::new();
    let r = subscribe(&mut service, &registry, "system:cpu_temp", 50);
    assert!(matches!(r, Err(ComputeError::ItemNotFound(ref s)) if s == "system:cpu_temp"));
    assert_eq!(service.subscription_count(), 0);
}

#[test]
fn test_resubscribing_keeps_one_entry() {
    let registry = ComputeRegistry::new();
    let mut service = Subscriptions::new();
    subscribe(&mut service, &registry, "raw:controls.speed_kmh", 50).unwrap();
    subscribe(&mut service, &registry, "raw:controls.speed_kmh", 16).unwrap();
    assert_eq!(service.subscription_count(), 1);
    let buckets = service.schedule(0);
    assert_eq!(buckets.len(), 1);
    assert_eq!(buckets[0].interval_ns, 16 * MS);
    // Unsubscribing an item that is not subscribed changes nothing.
    service.unsubscribe(&ItemKey::parse("raw:controls.rpms").unwrap());
    assert_eq!(service.subscription_count(), 1);
}

#[test]
fn test_subscriptions_with_same_interval_share_a_bucket() {
    let registry = ComputeRegistry::new();
    let mut service = Subscriptions::new();
    for (name, interval) in [("raw:controls.speed_kmh", 16), ("raw:controls.rpms", 16), ("raw:controls.gear", 50)] {
        subscribe(&mut service, &registry, name, interval).unwrap();
    }
    let buckets = service.schedule(1000);
    assert_eq!(buckets.len(), 2);
    assert_eq!(buckets[0].items, vec![0, 1]);
    assert_eq!(buckets[0].next_due_ns, 1000 + 16 * MS);
    assert_eq!(buckets[1].items, vec![2]);
}

#[test]
fn test_registered_item_names_sorted_once() {
    let mut registry = ComputeRegistry::new();
    registry.register_calc_realtime("delta_b").unwrap();
    registry.register_calc_realtime("delta_a").unwrap();
    registry.register_calc_batch("batch_z").unwrap();
    registry.register_calc_batch("Delta").unwrap();
    assert_eq!(registry.registered_item_names(), vec!["Delta", "batch_z", "delta_a", "delta_b"]);
    assert!(ComputeRegistry::new().registered_item_names().is_empty());
}
