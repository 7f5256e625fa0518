use module_live_telemetry::item_key::ItemType;
use module_live_telemetry::raw_catalog::{all_raw_items, RawItemEntry};

#[test]
fn catalog_lists_every_group_field() {
    let items = all_raw_items();
    assert_eq!(items.len(), 298);
    assert!(items.iter().all(|e| e.key.item_type == ItemType::Raw));
    assert_eq!(items[0].key.to_string(), "raw:sample_tick");
    assert_eq!(items[1].unit, Some("ns"));
}

#[test]
fn catalog_names_and_descriptions() {
    let items = all_raw_items();
    let find = |name: &str| items.iter().find(|e| e.key.name == name).unwrap();
    let speed = find("controls.speed_kmh");
    assert_eq!(speed.description, "车速");
    assert_eq!(speed.unit, Some("km/h"));
    let vel = find("motion.velocity[2]");
    assert_eq!(vel.description, "世界坐标系速度Z轴分量");
    assert_eq!(vel.unit, Some("m/s"));
    let load = find("tyres.wheel_load[3]");
    assert_eq!(load.description, "轮胎载荷（后右）");
    let contact = find("tyres.tyre_contact_normal[11]");
    assert_eq!(contact.description, "轮胎接地面法向量（后右Z）");
    assert_eq!(contact.unit, None);
    let damage = find("car_state.car_damage[4]");
    assert_eq!(damage.description, "车辆损伤（中部）");
    let ride = find("car_state.ride_height[1]");
    assert_eq!(ride.unit, Some("mm"));
    let last = items.last().unwrap();
    assert_eq!(last.key.to_string(), "raw:other_cars.player_car_id");
}

#[test]
fn raw_item_entry_new_builds_a_raw_key() {
    let e = RawItemEntry::new("session.flag".to_string(), "当前旗语类型".to_string(), None);
    assert_eq!(e.key.to_string(), "raw:session.flag");
    assert_eq!(e.description, "当前旗语类型");
    assert_eq!(e.unit, None);
}
