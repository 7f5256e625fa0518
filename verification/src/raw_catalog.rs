//! The catalogue of raw items: every field a recording carries, under its
//! `raw:{group}.{field}` key, with a description and a unit.

use vstd::prelude::*;
use crate::item_key::{ItemKey, ItemType};
use crate::text::{decimal, push_decimal};

verus! {

/// A raw item of the catalogue.
#[derive(Debug, Clone)]
pub struct RawItemEntry {
    /// The full key, such as `raw:controls.speed_kmh`.
    pub key: ItemKey,
    /// What the item measures.
    pub description: String,
    /// Its unit, if it has one.
    pub unit: Option<&'static str>,
}

impl RawItemEntry {
    /// The raw item `name`, with its description and unit.
    pub fn new(name: String, description: String, unit: Option<&'static str>) -> (r: Self)
        ensures
            r.key.item_type == ItemType::Raw,
            r.key.name@ == name@,
            r.description@ == description@,
            r.unit == unit,
    {
        RawItemEntry { key: ItemKey::new(ItemType::Raw, name), description, unit }
    }
}

/// A field of a telemetry group: its name, description and unit.
#[derive(Debug, Clone, Copy)]
pub struct FieldInfo {
    pub name: &'static str,
    pub description: &'static str,
    pub unit: Option<&'static str>,
}

/// The text of a unit.
pub open spec fn unit_text(u: Option<&'static str>) -> Option<Seq<char>> {
    match u {
        Some(s) => Some(s@),
        None => None,
    }
}

/// A catalogue entry as text: the item's name, description and unit.
pub open spec fn entry_text(e: RawItemEntry) -> (Seq<char>, Seq<char>, Option<Seq<char>>) {
    (e.key.name@, e.description@, unit_text(e.unit))
}

/// The entries of a catalogue as text.
pub open spec fn catalog_text(items: Seq<RawItemEntry>) -> Seq<(Seq<char>, Seq<char>, Option<Seq<char>>)> {
    items.map_values(|e: RawItemEntry| entry_text(e))
}

/// Every entry is a raw item.
pub open spec fn all_raw(items: Seq<RawItemEntry>) -> bool {
    forall|i: int| 0 <= i < items.len() ==> (#[trigger] items[i]).key.item_type == ItemType::Raw
}

/// The entries of the fields of `group`, named `{group}.{field}`.
pub open spec fn field_entries(group: Seq<char>, fields: Seq<FieldInfo>) -> Seq<(Seq<char>, Seq<char>, Option<Seq<char>>)> {
    Seq::new(fields.len(), |i: int| (group + "."@ + fields[i].name@, fields[i].description@, unit_text(fields[i].unit)))
}

/// `base[i]`.
pub open spec fn indexed_name(base: Seq<char>, i: int) -> Seq<char> {
    base + "["@ + decimal(i as nat) + "]"@
}

/// One entry per label: `base[i]`, described by the label between
/// `before` and `after`.
pub open spec fn labelled_entries(
    base: Seq<char>,
    before: Seq<char>,
    after: Seq<char>,
    labels: Seq<&'static str>,
    unit: Option<Seq<char>>,
) -> Seq<(Seq<char>, Seq<char>, Option<Seq<char>>)> {
    Seq::new(labels.len(), |i: int| (indexed_name(base, i), before + labels[i]@ + after, unit))
}

/// For each array field of `group`, one entry per label, described as the
/// field's description with the label in full-width brackets.
pub open spec fn array_field_entries(group: Seq<char>, fields: Seq<FieldInfo>, labels: Seq<&'static str>) -> Seq<(Seq<char>, Seq<char>, Option<Seq<char>>)>
    decreases fields.len(),
{
    if fields.len() == 0 {
        Seq::empty()
    } else {
        let f = fields.last();
        array_field_entries(group, fields.drop_last(), labels)
            + labelled_entries(group + "."@ + f.name@, f.description@ + "（"@, "）"@, labels, unit_text(f.unit))
    }
}

/// The four motion vectors' entries for axis `i`, named `axis`.
pub open spec fn motion_axis_entries(i: int, axis: Seq<char>) -> Seq<(Seq<char>, Seq<char>, Option<Seq<char>>)> {
    seq![
        (indexed_name("motion.velocity"@, i), "世界坐标系速度"@ + axis + "轴分量"@, Some("m/s"@)),
        (indexed_name("motion.acc_g"@, i), "加速度"@ + axis + "轴分量（G力）"@, Some("G"@)),
        (indexed_name("motion.local_velocity"@, i), "车辆局部坐标系速度"@ + axis + "轴分量"@, Some("m/s"@)),
        (indexed_name("motion.local_angular_vel"@, i), "车辆局部坐标系角速度"@ + axis + "轴分量"@, Some("rad/s"@)),
    ]
}

/// The whole catalogue, in order.
pub open spec fn spec_raw_catalog() -> Seq<(Seq<char>, Seq<char>, Option<Seq<char>>)> {
    seq![("sample_tick"@, "采样序号"@, None), ("timestamp_ns"@, "时间戳（纳秒）"@, Some("ns"@))]
        + field_entries("controls"@, spec_controls_fields())
        + field_entries("motion"@, spec_motion_scalars_fields())
        + motion_axis_entries(0, "X"@) + motion_axis_entries(1, "Y"@) + motion_axis_entries(2, "Z"@)
        + field_entries("tyres"@, spec_tyres_scalars_fields())
        + array_field_entries("tyres"@, spec_tyre_arrays_fields(), spec_tyre_corners())
        + array_field_entries("tyres"@, spec_contact_fields(), spec_contact12_labels())
        + field_entries("powertrain"@, spec_powertrain_fields())
        + field_entries("session"@, spec_session_fields())
        + field_entries("timing"@, spec_timing_fields())
        + field_entries("car_state"@, spec_car_state_scalars_fields())
        + labelled_entries("car_state.car_damage"@, "车辆损伤（"@, "）"@, spec_damage_labels(), None)
        + labelled_entries("car_state.ride_height"@, "底盘高度（"@, "）"@, spec_ride_labels(), Some("mm"@))
        + labelled_entries("car_state.mfd_tyre_pressure"@, "MFD显示胎压（"@, "）"@, spec_tyre_corners(), Some("psi"@))
        + field_entries("environment"@, spec_environment_fields())
        + field_entries("other_cars"@, spec_other_cars_fields())
}

/// Append an entry.
fn push_entry(items: &mut Vec<RawItemEntry>, name: String, description: String, unit: Option<&'static str>)
    ensures
        catalog_text(final(items)@) == catalog_text(old(items)@).push((name@, description@, unit_text(unit))),
        all_raw(old(items)@) ==> all_raw(final(items)@),
{
    let e = RawItemEntry::new(name, description, unit);
    items.push(e);
    assert(catalog_text(items@) =~= catalog_text(old(items)@).push((name@, description@, unit_text(unit))));
}

/// Append the entries of the fields of `group`.
fn push_fields(items: &mut Vec<RawItemEntry>, group: &str, fields: &[FieldInfo])
    ensures
        catalog_text(final(items)@) == catalog_text(old(items)@) + field_entries(group@, fields@),
        all_raw(old(items)@) ==> all_raw(final(items)@),
{
    let ghost start = catalog_text(items@);
    let ghost raw0 = all_raw(items@);
    let mut i: usize = 0;
    while i < fields.len()
        invariant
            i <= fields@.len(),
            catalog_text(items@) == start + field_entries(group@, fields@).subrange(0, i as int),
            raw0 ==> all_raw(items@),
        decreases fields@.len() - i,
    {
        let f = fields[i];
        let mut name = String::from_str(group);
        name.append(".");
        name.append(f.name);
        push_entry(items, name, String::from_str(f.description), f.unit);
        i = i + 1;
        assert(field_entries(group@, fields@).subrange(0, i as int)
            =~= field_entries(group@, fields@).subrange(0, i - 1).push(field_entries(group@, fields@)[i - 1]));
    }
    assert(field_entries(group@, fields@).subrange(0, fields@.len() as int) =~= field_entries(group@, fields@));
}

/// `base[i]`.
fn make_indexed_name(base: &str, i: usize) -> (s: String)
    ensures
        s@ == indexed_name(base@, i as int),
{
    let mut s = String::from_str(base);
    s.append("[");
    push_decimal(&mut s, i as u64);
    s.append("]");
    s
}

/// Append one entry per label: `base[i]`, described by the label between
/// `before` and `after`.
fn push_labelled(
    items: &mut Vec<RawItemEntry>,
    base: &str,
    before: &str,
    after: &str,
    labels: &[&'static str],
    unit: Option<&'static str>,
)
    ensures
        catalog_text(final(items)@) == catalog_text(old(items)@) + labelled_entries(base@, before@, after@, labels@, unit_text(unit)),
        all_raw(old(items)@) ==> all_raw(final(items)@),
{
    let ghost start = catalog_text(items@);
    let ghost raw0 = all_raw(items@);
    let ghost all = labelled_entries(base@, before@, after@, labels@, unit_text(unit));
    let mut i: usize = 0;
    while i < labels.len()
        invariant
            i <= labels@.len(),
            all == labelled_entries(base@, before@, after@, labels@, unit_text(unit)),
            catalog_text(items@) == start + all.subrange(0, i as int),
            raw0 ==> all_raw(items@),
        decreases labels@.len() - i,
    {
        let name = make_indexed_name(base, i);
        let mut description = String::from_str(before);
        description.append(labels[i]);
        description.append(after);
        push_entry(items, name, description, unit);
        i = i + 1;
        assert(all.subrange(0, i as int) =~= all.subrange(0, i - 1).push(all[i - 1]));
    }
    assert(all.subrange(0, labels@.len() as int) =~= all);
}

/// Append, for each array field of `group`, one entry per label.
fn push_array_fields(items: &mut Vec<RawItemEntry>, group: &str, fields: &[FieldInfo], labels: &[&'static str])
    ensures
        catalog_text(final(items)@) == catalog_text(old(items)@) + array_field_entries(group@, fields@, labels@),
        all_raw(old(items)@) ==> all_raw(final(items)@),
{
    let ghost start = catalog_text(items@);
    let ghost raw0 = all_raw(items@);
    let mut i: usize = 0;
    while i < fields.len()
        invariant
            i <= fields@.len(),
            catalog_text(items@) == start + array_field_entries(group@, fields@.subrange(0, i as int), labels@),
            raw0 ==> all_raw(items@),
        decreases fields@.len() - i,
    {
        let f = fields[i];
        let mut base = String::from_str(group);
        base.append(".");
        base.append(f.name);
        let mut before = String::from_str(f.description);
        before.append("（");
        push_labelled(items, base.as_str(), before.as_str(), "）", labels, f.unit);
        proof {
            let next = fields@.subrange(0, i + 1);
            assert(next.drop_last() =~= fields@.subrange(0, i as int));
            assert(next.last() == f);
        }
        i = i + 1;
    }
    assert(fields@.subrange(0, fields@.len() as int) =~= fields@);
}

/// Append the four motion vectors' entries for axis `i`, named `axis`.
fn push_motion_axis(items: &mut Vec<RawItemEntry>, i: usize, axis: &str)
    ensures
        catalog_text(final(items)@) == catalog_text(old(items)@) + motion_axis_entries(i as int, axis@),
        all_raw(old(items)@) ==> all_raw(final(items)@),
{
    let ghost start = catalog_text(items@);
    let mut d = String::from_str("世界坐标系速度");
    d.append(axis);
    d.append("轴分量");
    push_entry(items, make_indexed_name("motion.velocity", i), d, Some("m/s"));
    let mut d = String::from_str("加速度");
    d.append(axis);
    d.append("轴分量（G力）");
    push_entry(items, make_indexed_name("motion.acc_g", i), d, Some("G"));
    let mut d = String::from_str("车辆局部坐标系速度");
    d.append(axis);
    d.append("轴分量");
    push_entry(items, make_indexed_name("motion.local_velocity", i), d, Some("m/s"));
    let mut d = String::from_str("车辆局部坐标系角速度");
    d.append(axis);
    d.append("轴分量");
    push_entry(items, make_indexed_name("motion.local_angular_vel", i), d, Some("rad/s"));
    assert(catalog_text(items@) =~= start + motion_axis_entries(i as int, axis@));
}

/// The whole catalogue of raw items, each under its `raw:` key.
pub fn all_raw_items() -> (items: Vec<RawItemEntry>)
    ensures
        catalog_text(items@) == spec_raw_catalog(),
        all_raw(items@),
{
    let mut items: Vec<RawItemEntry> = Vec::new();
    assert(catalog_text(items@) =~= Seq::empty());
    push_entry(&mut items, String::from_str("sample_tick"), String::from_str("采样序号"), None);
    push_entry(&mut items, String::from_str("timestamp_ns"), String::from_str("时间戳（纳秒）"), Some("ns"));
    push_fields(&mut items, "controls", controls_fields().as_slice());
    push_fields(&mut items, "motion", motion_scalars_fields().as_slice());
    push_motion_axis(&mut items, 0, "X");
    push_motion_axis(&mut items, 1, "Y");
    push_motion_axis(&mut items, 2, "Z");
    push_fields(&mut items, "tyres", tyres_scalars_fields().as_slice());
    let corners = tyre_corners();
    push_array_fields(&mut items, "tyres", tyre_arrays_fields().as_slice(), corners.as_slice());
    push_array_fields(&mut items, "tyres", contact_fields().as_slice(), contact12_labels().as_slice());
    push_fields(&mut items, "powertrain", powertrain_fields().as_slice());
    push_fields(&mut items, "session", session_fields().as_slice());
    push_fields(&mut items, "timing", timing_fields().as_slice());
    push_fields(&mut items, "car_state", car_state_scalars_fields().as_slice());
    push_labelled(&mut items, "car_state.car_damage", "车辆损伤（", "）", damage_labels().as_slice(), None);
    push_labelled(&mut items, "car_state.ride_height", "底盘高度（", "）", ride_labels().as_slice(), Some("mm"));
    push_labelled(&mut items, "car_state.mfd_tyre_pressure", "MFD显示胎压（", "）", corners.as_slice(), Some("psi"));
    push_fields(&mut items, "environment", environment_fields().as_slice());
    push_fields(&mut items, "other_cars", other_cars_fields().as_slice());
    assert(catalog_text(items@) =~= spec_raw_catalog());
    items
}

/// The fields of the controls group, in catalogue order.
pub open spec fn spec_controls_fields() -> Seq<FieldInfo> {
    seq![
        FieldInfo { name: "sample_tick", description: "采样序号", unit: None },
        FieldInfo { name: "timestamp_ns", description: "时间戳（纳秒）", unit: Some("ns") },
        FieldInfo { name: "physics_packet_id", description: "物理数据包 ID", unit: None },
        FieldInfo { name: "graphics_packet_id", description: "图形数据包 ID", unit: None },
        FieldInfo { name: "speed_kmh", description: "车速", unit: Some("km/h") },
        FieldInfo { name: "gas", description: "油门开度（0.0~1.0）", unit: None },
        FieldInfo { name: "brake", description: "刹车开度（0.0~1.0）", unit: None },
        FieldInfo { name: "clutch", description: "离合器开度（0.0~1.0）", unit: None },
        FieldInfo { name: "steer_angle", description: "方向盘转角", unit: Some("rad") },
        FieldInfo { name: "gear", description: "当前档位（0=空档，-1=倒档）", unit: None },
        FieldInfo { name: "rpms", description: "发动机转速", unit: Some("rpm") },
        FieldInfo { name: "fuel", description: "剩余燃油", unit: Some("L") },
    ]
}

fn controls_fields() -> (r: Vec<FieldInfo>)
    ensures
        r@ == spec_controls_fields(),
{
    let r = vec![
        FieldInfo { name: "sample_tick", description: "采样序号", unit: None },
        FieldInfo { name: "timestamp_ns", description: "时间戳（纳秒）", unit: Some("ns") },
        FieldInfo { name: "physics_packet_id", description: "物理数据包 ID", unit: None },
        FieldInfo { name: "graphics_packet_id", description: "图形数据包 ID", unit: None },
        FieldInfo { name: "speed_kmh", description: "车速", unit: Some("km/h") },
        FieldInfo { name: "gas", description: "油门开度（0.0~1.0）", unit: None },
        FieldInfo { name: "brake", description: "刹车开度（0.0~1.0）", unit: None },
        FieldInfo { name: "clutch", description: "离合器开度（0.0~1.0）", unit: None },
        FieldInfo { name: "steer_angle", description: "方向盘转角", unit: Some("rad") },
        FieldInfo { name: "gear", description: "当前档位（0=空档，-1=倒档）", unit: None },
        FieldInfo { name: "rpms", description: "发动机转速", unit: Some("rpm") },
        FieldInfo { name: "fuel", description: "剩余燃油", unit: Some("L") },
    ];
    assert(r@ =~= spec_controls_fields());
    r
}

/// The fields of the scalar fields of the motion group, in catalogue order.
pub open spec fn spec_motion_scalars_fields() -> Seq<FieldInfo> {
    seq![
        FieldInfo { name: "sample_tick", description: "采样序号", unit: None },
        FieldInfo { name: "timestamp_ns", description: "时间戳（纳秒）", unit: Some("ns") },
        FieldInfo { name: "heading", description: "航向角", unit: Some("rad") },
        FieldInfo { name: "pitch", description: "俯仰角", unit: Some("rad") },
        FieldInfo { name: "roll", description: "侧倾角", unit: Some("rad") },
    ]
}

fn motion_scalars_fields() -> (r: Vec<FieldInfo>)
    ensures
        r@ == spec_motion_scalars_fields(),
{
    let r = vec![
        FieldInfo { name: "sample_tick", description: "采样序号", unit: None },
        FieldInfo { name: "timestamp_ns", description: "时间戳（纳秒）", unit: Some("ns") },
        FieldInfo { name: "heading", description: "航向角", unit: Some("rad") },
        FieldInfo { name: "pitch", description: "俯仰角", unit: Some("rad") },
        FieldInfo { name: "roll", description: "侧倾角", unit: Some("rad") },
    ];
    assert(r@ =~= spec_motion_scalars_fields());
    r
}

/// The fields of the scalar fields of the tyres group, in catalogue order.
pub open spec fn spec_tyres_scalars_fields() -> Seq<FieldInfo> {
    seq![
        FieldInfo { name: "sample_tick", description: "采样序号", unit: None },
        FieldInfo { name: "timestamp_ns", description: "时间戳（纳秒）", unit: Some("ns") },
        FieldInfo { name: "number_of_tyres_out", description: "出界轮胎数量", unit: None },
        FieldInfo { name: "front_brake_compound", description: "前刹车片材质类型", unit: None },
        FieldInfo { name: "rear_brake_compound", description: "后刹车片材质类型", unit: None },
    ]
}

fn tyres_scalars_fields() -> (r: Vec<FieldInfo>)
    ensures
        r@ == spec_tyres_scalars_fields(),
{
    let r = vec![
        FieldInfo { name: "sample_tick", description: "采样序号", unit: None },
        FieldInfo { name: "timestamp_ns", description: "时间戳（纳秒）", unit: Some("ns") },
        FieldInfo { name: "number_of_tyres_out", description: "出界轮胎数量", unit: None },
        FieldInfo { name: "front_brake_compound", description: "前刹车片材质类型", unit: None },
        FieldInfo { name: "rear_brake_compound", description: "后刹车片材质类型", unit: None },
    ];
    assert(r@ =~= spec_tyres_scalars_fields());
    r
}

/// The fields of the per-wheel fields of the tyres group, in catalogue order.
pub open spec fn spec_tyre_arrays_fields() -> Seq<FieldInfo> {
    seq![
        FieldInfo { name: "wheel_slip", description: "轮胎滑动率", unit: None },
        FieldInfo { name: "wheel_load", description: "轮胎载荷", unit: Some("N") },
        FieldInfo { name: "wheels_pressure", description: "胎压", unit: Some("psi") },
        FieldInfo { name: "wheel_angular_speed", description: "车轮角速度", unit: Some("rad/s") },
        FieldInfo { name: "tyre_wear", description: "轮胎磨损", unit: None },
        FieldInfo { name: "tyre_dirty_level", description: "轮胎脏污程度", unit: None },
        FieldInfo { name: "tyre_core_temperature", description: "轮胎核心温度", unit: Some("°C") },
        FieldInfo { name: "camber_rad", description: "轮胎倾角", unit: Some("rad") },
        FieldInfo { name: "suspension_travel", description: "悬挂行程", unit: Some("mm") },
        FieldInfo { name: "slip_ratio", description: "滑移率", unit: None },
        FieldInfo { name: "slip_angle", description: "滑移角", unit: Some("rad") },
        FieldInfo { name: "tyre_temp_i", description: "轮胎内侧温度", unit: Some("°C") },
        FieldInfo { name: "tyre_temp_m", description: "轮胎中间温度", unit: Some("°C") },
        FieldInfo { name: "tyre_temp_o", description: "轮胎外侧温度", unit: Some("°C") },
        FieldInfo { name: "tyre_temp", description: "轮胎表面温度", unit: Some("°C") },
        FieldInfo { name: "mz", description: "回正力矩", unit: Some("Nm") },
        FieldInfo { name: "fx", description: "纵向力", unit: Some("N") },
        FieldInfo { name: "fy", description: "横向力", unit: Some("N") },
        FieldInfo { name: "suspension_damage", description: "悬挂损伤", unit: None },
        FieldInfo { name: "brake_temp", description: "刹车温度", unit: Some("°C") },
        FieldInfo { name: "brake_pressure", description: "刹车压力", unit: Some("bar") },
        FieldInfo { name: "pad_life", description: "刹车片寿命", unit: None },
        FieldInfo { name: "disc_life", description: "刹车盘寿命", unit: None },
    ]
}

fn tyre_arrays_fields() -> (r: Vec<FieldInfo>)
    ensures
        r@ == spec_tyre_arrays_fields(),
{
    let r = vec![
        FieldInfo { name: "wheel_slip", description: "轮胎滑动率", unit: None },
        FieldInfo { name: "wheel_load", description: "轮胎载荷", unit: Some("N") },
        FieldInfo { name: "wheels_pressure", description: "胎压", unit: Some("psi") },
        FieldInfo { name: "wheel_angular_speed", description: "车轮角速度", unit: Some("rad/s") },
        FieldInfo { name: "tyre_wear", description: "轮胎磨损", unit: None },
        FieldInfo { name: "tyre_dirty_level", description: "轮胎脏污程度", unit: None },
        FieldInfo { name: "tyre_core_temperature", description: "轮胎核心温度", unit: Some("°C") },
        FieldInfo { name: "camber_rad", description: "轮胎倾角", unit: Some("rad") },
        FieldInfo { name: "suspension_travel", description: "悬挂行程", unit: Some("mm") },
        FieldInfo { name: "slip_ratio", description: "滑移率", unit: None },
        FieldInfo { name: "slip_angle", description: "滑移角", unit: Some("rad") },
        FieldInfo { name: "tyre_temp_i", description: "轮胎内侧温度", unit: Some("°C") },
        FieldInfo { name: "tyre_temp_m", description: "轮胎中间温度", unit: Some("°C") },
        FieldInfo { name: "tyre_temp_o", description: "轮胎外侧温度", unit: Some("°C") },
        FieldInfo { name: "tyre_temp", description: "轮胎表面温度", unit: Some("°C") },
        FieldInfo { name: "mz", description: "回正力矩", unit: Some("Nm") },
        FieldInfo { name: "fx", description: "纵向力", unit: Some("N") },
        FieldInfo { name: "fy", description: "横向力", unit: Some("N") },
        FieldInfo { name: "suspension_damage", description: "悬挂损伤", unit: None },
        FieldInfo { name: "brake_temp", description: "刹车温度", unit: Some("°C") },
        FieldInfo { name: "brake_pressure", description: "刹车压力", unit: Some("bar") },
        FieldInfo { name: "pad_life", description: "刹车片寿命", unit: None },
        FieldInfo { name: "disc_life", description: "刹车盘寿命", unit: None },
    ];
    assert(r@ =~= spec_tyre_arrays_fields());
    r
}

/// The fields of the contact-patch fields of the tyres group, twelve lanes each, in catalogue order.
pub open spec fn spec_contact_fields() -> Seq<FieldInfo> {
    seq![
        FieldInfo { name: "tyre_contact_point", description: "轮胎接地点坐标", unit: None },
        FieldInfo { name: "tyre_contact_normal", description: "轮胎接地面法向量", unit: None },
        FieldInfo { name: "tyre_contact_heading", description: "轮胎接地朝向", unit: None },
    ]
}

fn contact_fields() -> (r: Vec<FieldInfo>)
    ensures
        r@ == spec_contact_fields(),
{
    let r = vec![
        FieldInfo { name: "tyre_contact_point", description: "轮胎接地点坐标", unit: None },
        FieldInfo { name: "tyre_contact_normal", description: "轮胎接地面法向量", unit: None },
        FieldInfo { name: "tyre_contact_heading", description: "轮胎接地朝向", unit: None },
    ];
    assert(r@ =~= spec_contact_fields());
    r
}

/// The fields of the powertrain group, in catalogue order.
pub open spec fn spec_powertrain_fields() -> Seq<FieldInfo> {
    seq![
        FieldInfo { name: "sample_tick", description: "采样序号", unit: None },
        FieldInfo { name: "timestamp_ns", description: "时间戳（纳秒）", unit: Some("ns") },
        FieldInfo { name: "turbo_boost", description: "涡轮增压值", unit: Some("bar") },
        FieldInfo { name: "ballast", description: "配重", unit: Some("kg") },
        FieldInfo { name: "kers_charge", description: "KERS 充电百分比", unit: Some("%") },
        FieldInfo { name: "kers_input", description: "KERS 输入功率", unit: Some("kW") },
        FieldInfo { name: "kers_current_kj", description: "KERS 当前能量", unit: Some("kJ") },
        FieldInfo { name: "drs", description: "DRS 状态（0=关闭，1=开启）", unit: None },
        FieldInfo { name: "tc", description: "牵引力控制等级", unit: None },
        FieldInfo { name: "abs", description: "ABS 等级", unit: None },
        FieldInfo { name: "engine_brake", description: "发动机制动等级", unit: None },
        FieldInfo { name: "ers_recovery_level", description: "ERS 回收等级", unit: None },
        FieldInfo { name: "ers_power_level", description: "ERS 输出等级", unit: None },
        FieldInfo { name: "ers_heat_charging", description: "ERS 热量充电状态", unit: None },
        FieldInfo { name: "ers_is_charging", description: "ERS 是否充电中（0/1）", unit: None },
        FieldInfo { name: "drs_available", description: "DRS 是否可用（0/1）", unit: None },
        FieldInfo { name: "drs_enabled", description: "DRS 是否启用（0/1）", unit: None },
        FieldInfo { name: "tc_in_action", description: "TC 是否介入（0/1）", unit: None },
        FieldInfo { name: "abs_in_action", description: "ABS 是否介入（0/1）", unit: None },
        FieldInfo { name: "auto_shifter_on", description: "自动换挡是否开启（0/1）", unit: None },
        FieldInfo { name: "current_max_rpm", description: "当前最大转速", unit: Some("rpm") },
        FieldInfo { name: "p2p_activations", description: "P2P 激活次数", unit: None },
        FieldInfo { name: "p2p_status", description: "P2P 状态", unit: None },
        FieldInfo { name: "water_temp", description: "水温", unit: Some("°C") },
    ]
}

fn powertrain_fields() -> (r: Vec<FieldInfo>)
    ensures
        r@ == spec_powertrain_fields(),
{
    let r = vec![
        FieldInfo { name: "sample_tick", description: "采样序号", unit: None },
        FieldInfo { name: "timestamp_ns", description: "时间戳（纳秒）", unit: Some("ns") },
        FieldInfo { name: "turbo_boost", description: "涡轮增压值", unit: Some("bar") },
        FieldInfo { name: "ballast", description: "配重", unit: Some("kg") },
        FieldInfo { name: "kers_charge", description: "KERS 充电百分比", unit: Some("%") },
        FieldInfo { name: "kers_input", description: "KERS 输入功率", unit: Some("kW") },
        FieldInfo { name: "kers_current_kj", description: "KERS 当前能量", unit: Some("kJ") },
        FieldInfo { name: "drs", description: "DRS 状态（0=关闭，1=开启）", unit: None },
        FieldInfo { name: "tc", description: "牵引力控制等级", unit: None },
        FieldInfo { name: "abs", description: "ABS 等级", unit: None },
        FieldInfo { name: "engine_brake", description: "发动机制动等级", unit: None },
        FieldInfo { name: "ers_recovery_level", description: "ERS 回收等级", unit: None },
        FieldInfo { name: "ers_power_level", description: "ERS 输出等级", unit: None },
        FieldInfo { name: "ers_heat_charging", description: "ERS 热量充电状态", unit: None },
        FieldInfo { name: "ers_is_charging", description: "ERS 是否充电中（0/1）", unit: None },
        FieldInfo { name: "drs_available", description: "DRS 是否可用（0/1）", unit: None },
        FieldInfo { name: "drs_enabled", description: "DRS 是否启用（0/1）", unit: None },
        FieldInfo { name: "tc_in_action", description: "TC 是否介入（0/1）", unit: None },
        FieldInfo { name: "abs_in_action", description: "ABS 是否介入（0/1）", unit: None },
        FieldInfo { name: "auto_shifter_on", description: "自动换挡是否开启（0/1）", unit: None },
        FieldInfo { name: "current_max_rpm", description: "当前最大转速", unit: Some("rpm") },
        FieldInfo { name: "p2p_activations", description: "P2P 激活次数", unit: None },
        FieldInfo { name: "p2p_status", description: "P2P 状态", unit: None },
        FieldInfo { name: "water_temp", description: "水温", unit: Some("°C") },
    ];
    assert(r@ =~= spec_powertrain_fields());
    r
}

/// The fields of the session group, in catalogue order.
pub open spec fn spec_session_fields() -> Seq<FieldInfo> {
    seq![
        FieldInfo { name: "sample_tick", description: "采样序号", unit: None },
        FieldInfo { name: "timestamp_ns", description: "时间戳（纳秒）", unit: Some("ns") },
        FieldInfo { name: "status", description: "游戏状态（0=Off，1=Replay，2=Live，3=Pause）", unit: None },
        FieldInfo { name: "session", description: "会话状态", unit: None },
        FieldInfo { name: "session_index", description: "会话序号", unit: None },
        FieldInfo { name: "completed_laps", description: "已完成圈数", unit: None },
        FieldInfo { name: "position", description: "当前排名", unit: None },
        FieldInfo { name: "session_time_left", description: "会话剩余时间", unit: Some("s") },
        FieldInfo { name: "number_of_laps", description: "总圈数", unit: None },
        FieldInfo { name: "current_sector_index", description: "当前扇区索引", unit: None },
        FieldInfo { name: "normalized_car_position", description: "标准化赛道位置（0.0~1.0）", unit: None },
        FieldInfo { name: "is_in_pit", description: "是否在维修区（0/1）", unit: None },
        FieldInfo { name: "is_in_pit_lane", description: "是否在维修通道（0/1）", unit: None },
        FieldInfo { name: "mandatory_pit_done", description: "强制进站是否完成（0/1）", unit: None },
        FieldInfo { name: "missing_mandatory_pits", description: "未完成的强制进站次数", unit: None },
        FieldInfo { name: "penalty_time", description: "罚时", unit: Some("s") },
        FieldInfo { name: "penalty_type", description: "罚时类型", unit: None },
        FieldInfo { name: "clock", description: "比赛时钟", unit: Some("s") },
        FieldInfo { name: "replay_time_multiplier", description: "回放速度倍率", unit: Some("x") },
        FieldInfo { name: "is_valid_lap", description: "当前圈是否有效（0/1）", unit: None },
        FieldInfo { name: "global_yellow", description: "全场黄旗（0/1）", unit: None },
        FieldInfo { name: "global_yellow1", description: "1号黄旗区（0/1）", unit: None },
        FieldInfo { name: "global_yellow2", description: "2号黄旗区（0/1）", unit: None },
        FieldInfo { name: "global_yellow3", description: "3号黄旗区（0/1）", unit: None },
        FieldInfo { name: "global_white", description: "全场白旗（0/1）", unit: None },
        FieldInfo { name: "global_green", description: "全场绿旗（0/1）", unit: None },
        FieldInfo { name: "global_chequered", description: "格子旗（0/1）", unit: None },
        FieldInfo { name: "global_red", description: "全场红旗（0/1）", unit: None },
        FieldInfo { name: "gap_ahead_or_tail_value", description: "与前车差距（ms）或队列位置", unit: Some("ms") },
        FieldInfo { name: "flag", description: "当前旗语类型", unit: None },
        FieldInfo { name: "gap_behind", description: "与后车差距", unit: Some("ms") },
    ]
}

fn session_fields() -> (r: Vec<FieldInfo>)
    ensures
        r@ == spec_session_fields(),
{
    let r = vec![
        FieldInfo { name: "sample_tick", description: "采样序号", unit: None },
        FieldInfo { name: "timestamp_ns", description: "时间戳（纳秒）", unit: Some("ns") },
        FieldInfo { name: "status", description: "游戏状态（0=Off，1=Replay，2=Live，3=Pause）", unit: None },
        FieldInfo { name: "session", description: "会话状态", unit: None },
        FieldInfo { name: "session_index", description: "会话序号", unit: None },
        FieldInfo { name: "completed_laps", description: "已完成圈数", unit: None },
        FieldInfo { name: "position", description: "当前排名", unit: None },
        FieldInfo { name: "session_time_left", description: "会话剩余时间", unit: Some("s") },
        FieldInfo { name: "number_of_laps", description: "总圈数", unit: None },
        FieldInfo { name: "current_sector_index", description: "当前扇区索引", unit: None },
        FieldInfo { name: "normalized_car_position", description: "标准化赛道位置（0.0~1.0）", unit: None },
        FieldInfo { name: "is_in_pit", description: "是否在维修区（0/1）", unit: None },
        FieldInfo { name: "is_in_pit_lane", description: "是否在维修通道（0/1）", unit: None },
        FieldInfo { name: "mandatory_pit_done", description: "强制进站是否完成（0/1）", unit: None },
        FieldInfo { name: "missing_mandatory_pits", description: "未完成的强制进站次数", unit: None },
        FieldInfo { name: "penalty_time", description: "罚时", unit: Some("s") },
        FieldInfo { name: "penalty_type", description: "罚时类型", unit: None },
        FieldInfo { name: "clock", description: "比赛时钟", unit: Some("s") },
        FieldInfo { name: "replay_time_multiplier", description: "回放速度倍率", unit: Some("x") },
        FieldInfo { name: "is_valid_lap", description: "当前圈是否有效（0/1）", unit: None },
        FieldInfo { name: "global_yellow", description: "全场黄旗（0/1）", unit: None },
        FieldInfo { name: "global_yellow1", description: "1号黄旗区（0/1）", unit: None },
        FieldInfo { name: "global_yellow2", description: "2号黄旗区（0/1）", unit: None },
        FieldInfo { name: "global_yellow3", description: "3号黄旗区（0/1）", unit: None },
        FieldInfo { name: "global_white", description: "全场白旗（0/1）", unit: None },
        FieldInfo { name: "global_green", description: "全场绿旗（0/1）", unit: None },
        FieldInfo { name: "global_chequered", description: "格子旗（0/1）", unit: None },
        FieldInfo { name: "global_red", description: "全场红旗（0/1）", unit: None },
        FieldInfo { name: "gap_ahead_or_tail_value", description: "与前车差距（ms）或队列位置", unit: Some("ms") },
        FieldInfo { name: "flag", description: "当前旗语类型", unit: None },
        FieldInfo { name: "gap_behind", description: "与后车差距", unit: Some("ms") },
    ];
    assert(r@ =~= spec_session_fields());
    r
}

/// The fields of the timing group, in catalogue order.
pub open spec fn spec_timing_fields() -> Seq<FieldInfo> {
    seq![
        FieldInfo { name: "sample_tick", description: "采样序号", unit: None },
        FieldInfo { name: "timestamp_ns", description: "时间戳（纳秒）", unit: Some("ns") },
        FieldInfo { name: "i_current_time", description: "当前圈用时", unit: Some("ms") },
        FieldInfo { name: "i_last_time", description: "上一圈用时", unit: Some("ms") },
        FieldInfo { name: "i_best_time", description: "最佳圈用时", unit: Some("ms") },
        FieldInfo { name: "i_split", description: "分段计时", unit: Some("ms") },
        FieldInfo { name: "last_sector_time", description: "上一扇区用时", unit: Some("ms") },
        FieldInfo { name: "i_delta_lap_time", description: "与最佳圈时间差", unit: Some("ms") },
        FieldInfo { name: "is_delta_positive", description: "时间差是否为正（慢于最佳圈=1）", unit: None },
        FieldInfo { name: "i_estimated_lap_time", description: "预估圈时", unit: Some("ms") },
        FieldInfo { name: "fuel_estimated_laps", description: "预估可跑圈数", unit: None },
        FieldInfo { name: "fuel_x_lap", description: "每圈油耗", unit: Some("L") },
        FieldInfo { name: "used_fuel", description: "已消耗燃油", unit: Some("L") },
        FieldInfo { name: "distance_traveled", description: "已行驶距离", unit: Some("m") },
        FieldInfo { name: "observed_slot_before_i_split", description: "分段前观察槽位", unit: None },
    ]
}

fn timing_fields() -> (r: Vec<FieldInfo>)
    ensures
        r@ == spec_timing_fields(),
{
    let r = vec![
        FieldInfo { name: "sample_tick", description: "采样序号", unit: None },
        FieldInfo { name: "timestamp_ns", description: "时间戳（纳秒）", unit: Some("ns") },
        FieldInfo { name: "i_current_time", description: "当前圈用时", unit: Some("ms") },
        FieldInfo { name: "i_last_time", description: "上一圈用时", unit: Some("ms") },
        FieldInfo { name: "i_best_time", description: "最佳圈用时", unit: Some("ms") },
        FieldInfo { name: "i_split", description: "分段计时", unit: Some("ms") },
        FieldInfo { name: "last_sector_time", description: "上一扇区用时", unit: Some("ms") },
        FieldInfo { name: "i_delta_lap_time", description: "与最佳圈时间差", unit: Some("ms") },
        FieldInfo { name: "is_delta_positive", description: "时间差是否为正（慢于最佳圈=1）", unit: None },
        FieldInfo { name: "i_estimated_lap_time", description: "预估圈时", unit: Some("ms") },
        FieldInfo { name: "fuel_estimated_laps", description: "预估可跑圈数", unit: None },
        FieldInfo { name: "fuel_x_lap", description: "每圈油耗", unit: Some("L") },
        FieldInfo { name: "used_fuel", description: "已消耗燃油", unit: Some("L") },
        FieldInfo { name: "distance_traveled", description: "已行驶距离", unit: Some("m") },
        FieldInfo { name: "observed_slot_before_i_split", description: "分段前观察槽位", unit: None },
    ];
    assert(r@ =~= spec_timing_fields());
    r
}

/// The fields of the scalar fields of the car-state group, in catalogue order.
pub open spec fn spec_car_state_scalars_fields() -> Seq<FieldInfo> {
    seq![
        FieldInfo { name: "sample_tick", description: "采样序号", unit: None },
        FieldInfo { name: "timestamp_ns", description: "时间戳（纳秒）", unit: Some("ns") },
        FieldInfo { name: "pit_limiter_on", description: "维修区限速器是否开启（0/1）", unit: None },
        FieldInfo { name: "ignition_on", description: "点火是否开启（0/1）", unit: None },
        FieldInfo { name: "starter_engine_on", description: "启动马达是否工作（0/1）", unit: None },
        FieldInfo { name: "is_engine_running", description: "发动机是否运转（0/1）", unit: None },
        FieldInfo { name: "is_ai_controlled", description: "是否AI控制（0/1）", unit: None },
        FieldInfo { name: "cg_height", description: "重心高度", unit: Some("mm") },
        FieldInfo { name: "brake_bias", description: "刹车平衡", unit: Some("%") },
        FieldInfo { name: "rain_lights", description: "雨灯状态", unit: None },
        FieldInfo { name: "flashing_lights", description: "闪烁灯状态", unit: None },
        FieldInfo { name: "lights_stage", description: "灯光档位", unit: None },
        FieldInfo { name: "wiper_lv", description: "雨刮档位", unit: None },
        FieldInfo { name: "driver_stint_total_time_left", description: "车手剩余总驾驶时间", unit: Some("s") },
        FieldInfo { name: "driver_stint_time_left", description: "车手当前阶段剩余时间", unit: Some("s") },
        FieldInfo { name: "rain_tyres", description: "是否使用雨胎（0/1）", unit: None },
        FieldInfo { name: "current_tyre_set", description: "当前轮胎组编号", unit: None },
        FieldInfo { name: "strategy_tyre_set", description: "策略轮胎组编号", unit: None },
        FieldInfo { name: "track_grip_status", description: "赛道抓地力状态", unit: None },
        FieldInfo { name: "mfd_tyre_set", description: "MFD显示轮胎组", unit: None },
        FieldInfo { name: "mfd_fuel_to_add", description: "MFD显示需加油量", unit: Some("L") },
        FieldInfo { name: "ideal_line_on", description: "理想路线辅助是否开启（0/1）", unit: None },
        FieldInfo { name: "is_setup_menu_visible", description: "调校菜单是否显示（0/1）", unit: None },
        FieldInfo { name: "main_display_index", description: "主显示页面索引", unit: None },
        FieldInfo { name: "secondary_display_index", description: "副显示页面索引", unit: None },
        FieldInfo { name: "direction_lights_left", description: "左转向灯（0/1）", unit: None },
        FieldInfo { name: "direction_lights_right", description: "右转向灯（0/1）", unit: None },
        FieldInfo { name: "tc_level", description: "TC 等级", unit: None },
        FieldInfo { name: "tc_cut", description: "TC 切断等级", unit: None },
        FieldInfo { name: "engine_map", description: "发动机模式", unit: None },
        FieldInfo { name: "abs_level", description: "ABS 等级", unit: None },
        FieldInfo { name: "exhaust_temperature", description: "排气温度", unit: Some("°C") },
        FieldInfo { name: "final_ff", description: "最终前向力反馈", unit: None },
        FieldInfo { name: "performance_meter", description: "性能表指数", unit: None },
        FieldInfo { name: "kerb_vibration", description: "路肩震动", unit: None },
        FieldInfo { name: "slip_vibrations", description: "滑动震动", unit: None },
        FieldInfo { name: "g_vibrations", description: "G力震动", unit: None },
        FieldInfo { name: "abs_vibrations", description: "ABS震动", unit: None },
    ]
}

fn car_state_scalars_fields() -> (r: Vec<FieldInfo>)
    ensures
        r@ == spec_car_state_scalars_fields(),
{
    let r = vec![
        FieldInfo { name: "sample_tick", description: "采样序号", unit: None },
        FieldInfo { name: "timestamp_ns", description: "时间戳（纳秒）", unit: Some("ns") },
        FieldInfo { name: "pit_limiter_on", description: "维修区限速器是否开启（0/1）", unit: None },
        FieldInfo { name: "ignition_on", description: "点火是否开启（0/1）", unit: None },
        FieldInfo { name: "starter_engine_on", description: "启动马达是否工作（0/1）", unit: None },
        FieldInfo { name: "is_engine_running", description: "发动机是否运转（0/1）", unit: None },
        FieldInfo { name: "is_ai_controlled", description: "是否AI控制（0/1）", unit: None },
        FieldInfo { name: "cg_height", description: "重心高度", unit: Some("mm") },
        FieldInfo { name: "brake_bias", description: "刹车平衡", unit: Some("%") },
        FieldInfo { name: "rain_lights", description: "雨灯状态", unit: None },
        FieldInfo { name: "flashing_lights", description: "闪烁灯状态", unit: None },
        FieldInfo { name: "lights_stage", description: "灯光档位", unit: None },
        FieldInfo { name: "wiper_lv", description: "雨刮档位", unit: None },
        FieldInfo { name: "driver_stint_total_time_left", description: "车手剩余总驾驶时间", unit: Some("s") },
        FieldInfo { name: "driver_stint_time_left", description: "车手当前阶段剩余时间", unit: Some("s") },
        FieldInfo { name: "rain_tyres", description: "是否使用雨胎（0/1）", unit: None },
        FieldInfo { name: "current_tyre_set", description: "当前轮胎组编号", unit: None },
        FieldInfo { name: "strategy_tyre_set", description: "策略轮胎组编号", unit: None },
        FieldInfo { name: "track_grip_status", description: "赛道抓地力状态", unit: None },
        FieldInfo { name: "mfd_tyre_set", description: "MFD显示轮胎组", unit: None },
        FieldInfo { name: "mfd_fuel_to_add", description: "MFD显示需加油量", unit: Some("L") },
        FieldInfo { name: "ideal_line_on", description: "理想路线辅助是否开启（0/1）", unit: None },
        FieldInfo { name: "is_setup_menu_visible", description: "调校菜单是否显示（0/1）", unit: None },
        FieldInfo { name: "main_display_index", description: "主显示页面索引", unit: None },
        FieldInfo { name: "secondary_display_index", description: "副显示页面索引", unit: None },
        FieldInfo { name: "direction_lights_left", description: "左转向灯（0/1）", unit: None },
        FieldInfo { name: "direction_lights_right", description: "右转向灯（0/1）", unit: None },
        FieldInfo { name: "tc_level", description: "TC 等级", unit: None },
        FieldInfo { name: "tc_cut", description: "TC 切断等级", unit: None },
        FieldInfo { name: "engine_map", description: "发动机模式", unit: None },
        FieldInfo { name: "abs_level", description: "ABS 等级", unit: None },
        FieldInfo { name: "exhaust_temperature", description: "排气温度", unit: Some("°C") },
        FieldInfo { name: "final_ff", description: "最终前向力反馈", unit: None },
        FieldInfo { name: "performance_meter", description: "性能表指数", unit: None },
        FieldInfo { name: "kerb_vibration", description: "路肩震动", unit: None },
        FieldInfo { name: "slip_vibrations", description: "滑动震动", unit: None },
        FieldInfo { name: "g_vibrations", description: "G力震动", unit: None },
        FieldInfo { name: "abs_vibrations", description: "ABS震动", unit: None },
    ];
    assert(r@ =~= spec_car_state_scalars_fields());
    r
}

/// The fields of the environment group, in catalogue order.
pub open spec fn spec_environment_fields() -> Seq<FieldInfo> {
    seq![
        FieldInfo { name: "sample_tick", description: "采样序号", unit: None },
        FieldInfo { name: "timestamp_ns", description: "时间戳（纳秒）", unit: Some("ns") },
        FieldInfo { name: "air_density", description: "空气密度", unit: Some("kg/m³") },
        FieldInfo { name: "air_temp", description: "气温", unit: Some("°C") },
        FieldInfo { name: "road_temp", description: "赛道温度", unit: Some("°C") },
        FieldInfo { name: "wind_speed", description: "风速", unit: Some("m/s") },
        FieldInfo { name: "wind_direction", description: "风向", unit: Some("rad") },
        FieldInfo { name: "surface_grip", description: "路面抓地力系数", unit: None },
        FieldInfo { name: "rain_intensity", description: "降雨强度", unit: None },
        FieldInfo { name: "rain_intensity_in_10min", description: "未来10分钟降雨强度", unit: None },
        FieldInfo { name: "rain_intensity_in_30min", description: "未来30分钟降雨强度", unit: None },
    ]
}

fn environment_fields() -> (r: Vec<FieldInfo>)
    ensures
        r@ == spec_environment_fields(),
{
    let r = vec![
        FieldInfo { name: "sample_tick", description: "采样序号", unit: None },
        FieldInfo { name: "timestamp_ns", description: "时间戳（纳秒）", unit: Some("ns") },
        FieldInfo { name: "air_density", description: "空气密度", unit: Some("kg/m³") },
        FieldInfo { name: "air_temp", description: "气温", unit: Some("°C") },
        FieldInfo { name: "road_temp", description: "赛道温度", unit: Some("°C") },
        FieldInfo { name: "wind_speed", description: "风速", unit: Some("m/s") },
        FieldInfo { name: "wind_direction", description: "风向", unit: Some("rad") },
        FieldInfo { name: "surface_grip", description: "路面抓地力系数", unit: None },
        FieldInfo { name: "rain_intensity", description: "降雨强度", unit: None },
        FieldInfo { name: "rain_intensity_in_10min", description: "未来10分钟降雨强度", unit: None },
        FieldInfo { name: "rain_intensity_in_30min", description: "未来30分钟降雨强度", unit: None },
    ];
    assert(r@ =~= spec_environment_fields());
    r
}

/// The fields of the other-cars group, in catalogue order.
pub open spec fn spec_other_cars_fields() -> Seq<FieldInfo> {
    seq![
        FieldInfo { name: "sample_tick", description: "采样序号", unit: None },
        FieldInfo { name: "timestamp_ns", description: "时间戳（纳秒）", unit: Some("ns") },
        FieldInfo { name: "active_cars", description: "活跃车辆数", unit: None },
        FieldInfo { name: "player_car_id", description: "玩家车辆 ID", unit: None },
    ]
}

fn other_cars_fields() -> (r: Vec<FieldInfo>)
    ensures
        r@ == spec_other_cars_fields(),
{
    let r = vec![
        FieldInfo { name: "sample_tick", description: "采样序号", unit: None },
        FieldInfo { name: "timestamp_ns", description: "时间戳（纳秒）", unit: Some("ns") },
        FieldInfo { name: "active_cars", description: "活跃车辆数", unit: None },
        FieldInfo { name: "player_car_id", description: "玩家车辆 ID", unit: None },
    ];
    assert(r@ =~= spec_other_cars_fields());
    r
}

/// The labels of the four wheels.
pub open spec fn spec_tyre_corners() -> Seq<&'static str> {
    seq!["前左", "前右", "后左", "后右"]
}

fn tyre_corners() -> (r: Vec<&'static str>)
    ensures
        r@ == spec_tyre_corners(),
{
    let r = vec!["前左", "前右", "后左", "后右"];
    assert(r@ =~= spec_tyre_corners());
    r
}

/// The labels of the twelve contact-patch lanes.
pub open spec fn spec_contact12_labels() -> Seq<&'static str> {
    seq!["前左X", "前左Y", "前左Z", "前右X", "前右Y", "前右Z", "后左X", "后左Y", "后左Z", "后右X", "后右Y", "后右Z"]
}

fn contact12_labels() -> (r: Vec<&'static str>)
    ensures
        r@ == spec_contact12_labels(),
{
    let r = vec!["前左X", "前左Y", "前左Z", "前右X", "前右Y", "前右Z", "后左X", "后左Y", "后左Z", "后右X", "后右Y", "后右Z"];
    assert(r@ =~= spec_contact12_labels());
    r
}

/// The labels of the five damage zones.
pub open spec fn spec_damage_labels() -> Seq<&'static str> {
    seq!["前部", "后部", "左侧", "右侧", "中部"]
}

fn damage_labels() -> (r: Vec<&'static str>)
    ensures
        r@ == spec_damage_labels(),
{
    let r = vec!["前部", "后部", "左侧", "右侧", "中部"];
    assert(r@ =~= spec_damage_labels());
    r
}

/// The labels of the two axles.
pub open spec fn spec_ride_labels() -> Seq<&'static str> {
    seq!["前轴", "后轴"]
}

fn ride_labels() -> (r: Vec<&'static str>)
    ensures
        r@ == spec_ride_labels(),
{
    let r = vec!["前轴", "后轴"];
    assert(r@ =~= spec_ride_labels());
    r
}
} // verus!
