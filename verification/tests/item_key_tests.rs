use module_live_telemetry::item_key::{ItemKey, ItemType};

#[test]
fn test_parse_raw() {
    let key = ItemKey::parse("raw:controls.speed_kmh").unwrap();
    assert_eq!(key.item_type, ItemType::Raw);
    assert_eq!(key.name, "controls.speed_kmh");
    assert_eq!(key.to_string(), "raw:controls.speed_kmh");
}

#[test]
fn test_parse_calc() {
    let key = ItemKey::parse("calc:delta_best").unwrap();
    assert_eq!(key.item_type, ItemType::Calculated);
    assert_eq!(key.name, "delta_best");
}

#[test]
fn test_parse_system() {
    let key = ItemKey::parse("system:cpu_temp").unwrap();
    assert_eq!(key.item_type, ItemType::System);
    assert_eq!(key.name, "cpu_temp");
}

#[test]
fn test_parse_invalid_prefix() {
    assert!(ItemKey::parse("foo:bar").is_none());
}

#[test]
fn test_parse_empty_name() {
    assert!(ItemKey::parse("raw:").is_none());
}

#[test]
fn test_parse_no_colon() {
    assert!(ItemKey::parse("speed_kmh").is_none());
}

#[test]
fn test_is_methods() {
    assert!(ItemKey::parse("raw:x").unwrap().is_raw());
    assert!(ItemKey::parse("calc:x").unwrap().is_calculated());
    assert!(ItemKey::parse("system:x").unwrap().is_system());
    assert!(!ItemKey::parse("raw:x").unwrap().is_calculated());
}

#[test]
fn item_key_text_parses_back() {
    let key = ItemKey::new(ItemType::Calculated, "delta_time_to_life_best_lap".to_string());
    let text = key.to_string();
    assert_eq!(text, "calc:delta_time_to_life_best_lap");
    assert_eq!(ItemKey::parse(&text), Some(key));
}

#[test]
fn parse_splits_at_first_colon() {
    let key = ItemKey::parse("raw:a:b").unwrap();
    assert_eq!(key.item_type, ItemType::Raw);
    assert_eq!(key.name, "a:b");
    assert!(ItemKey::parse(":raw").is_none());
    assert!(ItemKey::parse("").is_none());
}

#[test]
fn item_type_prefixes() {
    assert_eq!(ItemType::Raw.as_str(), "raw");
    assert_eq!(ItemType::Calculated.as_str(), "calc");
    assert_eq!(ItemType::System.as_str(), "system");
    assert_eq!(ItemType::from_str("calc"), Some(ItemType::Calculated));
    assert_eq!(ItemType::from_str("Calc"), None);
}

#[test]
fn test_parsed_key_prints_back_its_text() {
    for text in ["raw:controls.speed_kmh", "calc:delta_best", "system:a:b"] {
        let key = ItemKey::parse(text).unwrap();
        assert_eq!(key.to_string(), text);
    }
    let key = ItemKey::parse("system:a:b").unwrap();
    assert_eq!(key.name, "a:b");
}
