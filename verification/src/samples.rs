//! The typed samples of v1 recordings: each cluster's columns read from a
//! chunk's payload and assembled into one sample per row, and all samples
//! of a cluster read chunk by chunk.

use vstd::prelude::*;
use crate::error::{error_matches, ErrorDesc, TelemetryError, TelemetryResult};
use crate::format::{
    ChunkHeader, ColumnEntry, IndexEntry,
    CLUSTER_CAR_STATE,
    CLUSTER_CONTROLS,
    CLUSTER_ENVIRONMENT,
    CLUSTER_MOTION,
    CLUSTER_OTHER_CARS,
    CLUSTER_POWERTRAIN,
    CLUSTER_SESSION,
    CLUSTER_TIMING,
    CLUSTER_TYRES,
    COL_ABS_IN_ACTION,
    COL_ABS_LEVEL,
    COL_ABS_PHYSICS,
    COL_ABS_VIBRATIONS,
    COL_ACC_G,
    COL_ACTIVE_CARS,
    COL_AIR_DENSITY,
    COL_AIR_TEMP,
    COL_AUTO_SHIFTER_ON,
    COL_BALLAST,
    COL_BEST_TIME_STR,
    COL_BRAKE,
    COL_BRAKE_BIAS,
    COL_BRAKE_PRESSURE,
    COL_BRAKE_TEMP,
    COL_CAMBER_RAD,
    COL_CAR_COORDINATES,
    COL_CAR_DAMAGE,
    COL_CAR_ID,
    COL_CG_HEIGHT,
    COL_CLOCK,
    COL_CLUTCH,
    COL_COMPLETED_LAPS,
    COL_CURRENT_MAX_RPM,
    COL_CURRENT_SECTOR_INDEX,
    COL_CURRENT_TIME_STR,
    COL_CURRENT_TYRE_SET,
    COL_DELTA_LAP_TIME_STR,
    COL_DIRECTION_LIGHTS_LEFT,
    COL_DIRECTION_LIGHTS_RIGHT,
    COL_DISC_LIFE,
    COL_DISTANCE_TRAVELED,
    COL_DRIVER_STINT_TIME_LEFT,
    COL_DRIVER_STINT_TOTAL_TIME_LEFT,
    COL_DRS,
    COL_DRS_AVAILABLE,
    COL_DRS_ENABLED,
    COL_ENGINE_BRAKE,
    COL_ENGINE_MAP,
    COL_ERS_HEAT_CHARGING,
    COL_ERS_IS_CHARGING,
    COL_ERS_POWER_LEVEL,
    COL_ERS_RECOVERY_LEVEL,
    COL_ESTIMATED_LAP_TIME_STR,
    COL_EXHAUST_TEMPERATURE,
    COL_FINAL_FF,
    COL_FLASHING_LIGHTS,
    COL_FRONT_BRAKE_COMPOUND,
    COL_FUEL,
    COL_FUEL_ESTIMATED_LAPS,
    COL_FUEL_X_LAP,
    COL_FX,
    COL_FY,
    COL_GAP_AHEAD_OR_TAIL,
    COL_GAS,
    COL_GEAR,
    COL_GLOBAL_CHEQUERED,
    COL_GLOBAL_GREEN,
    COL_GLOBAL_RED,
    COL_GLOBAL_WHITE,
    COL_GLOBAL_YELLOW,
    COL_GLOBAL_YELLOW1,
    COL_GLOBAL_YELLOW2,
    COL_GLOBAL_YELLOW3,
    COL_GRAPHICS_PACKET_ID,
    COL_G_VIBRATIONS,
    COL_HEADING,
    COL_IDEAL_LINE_ON,
    COL_IGNITION_ON,
    COL_IS_AI_CONTROLLED,
    COL_IS_DELTA_POSITIVE,
    COL_IS_ENGINE_RUNNING,
    COL_IS_IN_PIT,
    COL_IS_IN_PIT_LANE,
    COL_IS_SETUP_MENU_VISIBLE,
    COL_IS_VALID_LAP,
    COL_I_BEST_TIME,
    COL_I_CURRENT_TIME,
    COL_I_DELTA_LAP_TIME,
    COL_I_ESTIMATED_LAP_TIME,
    COL_I_LAST_TIME,
    COL_I_SPLIT,
    COL_KERB_VIBRATION,
    COL_KERS_CHARGE,
    COL_KERS_CURRENT_KJ,
    COL_KERS_INPUT,
    COL_LAST_SECTOR_TIME,
    COL_LAST_TIME_STR,
    COL_LIGHTS_STAGE,
    COL_LOCAL_ANGULAR_VEL,
    COL_LOCAL_VELOCITY,
    COL_MAIN_DISPLAY_INDEX,
    COL_MANDATORY_PIT_DONE,
    COL_MFD_FUEL_TO_ADD,
    COL_MFD_TYRE_PRESSURE,
    COL_MFD_TYRE_SET,
    COL_MISSING_MANDATORY_PITS,
    COL_MZ,
    COL_NORMALIZED_CAR_POSITION,
    COL_NUMBER_OF_LAPS,
    COL_NUMBER_OF_TYRES_OUT,
    COL_OBSERVED_SLOT_BEFORE_I_SPLIT,
    COL_P2P_ACTIVATIONS,
    COL_P2P_STATUS,
    COL_PAD_LIFE,
    COL_PENALTY_TIME,
    COL_PENALTY_TYPE,
    COL_PERFORMANCE_METER,
    COL_PHYSICS_PACKET_ID,
    COL_PITCH,
    COL_PIT_LIMITER_ON,
    COL_PLAYER_CAR_ID,
    COL_POSITION,
    COL_RAIN_INTENSITY,
    COL_RAIN_INTENSITY_IN_10MIN,
    COL_RAIN_INTENSITY_IN_30MIN,
    COL_RAIN_LIGHTS,
    COL_RAIN_TYRES,
    COL_REAR_BRAKE_COMPOUND,
    COL_REPLAY_TIME_MULTIPLIER,
    COL_RIDE_HEIGHT,
    COL_ROAD_TEMP,
    COL_ROLL,
    COL_RPMS,
    COL_SAMPLE_TICK,
    COL_SECONDARY_DISPLAY_INDEX,
    COL_SESSION,
    COL_SESSION_INDEX,
    COL_SESSION_TIME_LEFT,
    COL_SLIP_ANGLE,
    COL_SLIP_RATIO,
    COL_SLIP_VIBRATIONS,
    COL_SPEED_KMH,
    COL_SPLIT_STR,
    COL_STARTER_ENGINE_ON,
    COL_STATUS,
    COL_STEER_ANGLE,
    COL_STRATEGY_TYRE_SET,
    COL_SURFACE_GRIP,
    COL_SUSPENSION_DAMAGE,
    COL_SUSPENSION_TRAVEL,
    COL_TC_CUT,
    COL_TC_IN_ACTION,
    COL_TC_LEVEL,
    COL_TC_PHYSICS,
    COL_TIMESTAMP_NS,
    COL_TRACK_GRIP_STATUS,
    COL_TRACK_STATUS,
    COL_TURBO_BOOST,
    COL_TYRE_COMPOUND_STR,
    COL_TYRE_CONTACT_HEADING,
    COL_TYRE_CONTACT_NORMAL,
    COL_TYRE_CONTACT_POINT,
    COL_TYRE_CORE_TEMPERATURE,
    COL_TYRE_DIRTY_LEVEL,
    COL_TYRE_TEMP,
    COL_TYRE_TEMP_I,
    COL_TYRE_TEMP_M,
    COL_TYRE_TEMP_O,
    COL_TYRE_WEAR,
    COL_USED_FUEL,
    COL_VELOCITY,
    COL_WATER_TEMP,
    COL_WHEELS_PRESSURE,
    COL_WHEEL_ANGULAR_SPEED,
    COL_WHEEL_LOAD,
    COL_WHEEL_SLIP,
    COL_WIND_DIRECTION,
    COL_WIND_SPEED,
    COL_WIPER_LV,
};
use crate::reader::{read_array_column, read_column_words, spec_read_array_column, spec_read_chunk, spec_read_column,
    BinaryTelemetryReader};

verus! {

/// The error of `r` if it failed, else `rest`.
pub open spec fn first_error<T>(r: Result<T, ErrorDesc>, rest: Option<ErrorDesc>) -> Option<ErrorDesc> {
    match r {
        Err(d) => Some(d),
        Ok(_) => rest,
    }
}

/// `r` holds the samples that `d` describes, by their views, or fails as
/// `d` says.
pub open spec fn samples_match<S: View>(r: TelemetryResult<Vec<S>>, d: Result<Seq<S::V>, ErrorDesc>) -> bool {
    match d {
        Ok(vs) => r is Ok && r->Ok_0@.len() == vs.len()
            && forall|k: int| 0 <= k < vs.len() ==> (#[trigger] r->Ok_0@[k])@ == vs[k],
        Err(e) => r is Err && error_matches(r->Err_0, e),
    }
}

/// The lanes of an item as 32-bit words.
pub open spec fn lanes_u32(s: Seq<u64>) -> Seq<u32> {
    Seq::new(s.len(), |j: int| s[j] as u32)
}

/// The lanes of an item as 16-bit words.
pub open spec fn lanes_u16(s: Seq<u64>) -> Seq<u16> {
    Seq::new(s.len(), |j: int| s[j] as u16)
}

/// The lanes of an item as `i32` values.
pub open spec fn lanes_i32(s: Seq<u64>) -> Seq<i32> {
    Seq::new(s.len(), |j: int| (s[j] as u32) as i32)
}

fn words_to_u32(v: &Vec<u64>) -> (r: Vec<u32>)
    ensures
        r@ == lanes_u32(v@),
{
    let mut r: Vec<u32> = Vec::new();
    let mut i: usize = 0;
    while i < v.len()
        invariant
            i <= v@.len(),
            r@ == lanes_u32(v@.subrange(0, i as int)),
        decreases v@.len() - i,
    {
        r.push(v[i] as u32);
        i = i + 1;
        assert(r@ =~= lanes_u32(v@.subrange(0, i as int)));
    }
    assert(v@.subrange(0, v@.len() as int) =~= v@);
    r
}

fn words_to_u16(v: &Vec<u64>) -> (r: Vec<u16>)
    ensures
        r@ == lanes_u16(v@),
{
    let mut r: Vec<u16> = Vec::new();
    let mut i: usize = 0;
    while i < v.len()
        invariant
            i <= v@.len(),
            r@ == lanes_u16(v@.subrange(0, i as int)),
        decreases v@.len() - i,
    {
        r.push(v[i] as u16);
        i = i + 1;
        assert(r@ =~= lanes_u16(v@.subrange(0, i as int)));
    }
    assert(v@.subrange(0, v@.len() as int) =~= v@);
    r
}

fn words_to_i32(v: &Vec<u64>) -> (r: Vec<i32>)
    ensures
        r@ == lanes_i32(v@),
{
    let mut r: Vec<i32> = Vec::new();
    let mut i: usize = 0;
    while i < v.len()
        invariant
            i <= v@.len(),
            r@ == lanes_i32(v@.subrange(0, i as int)),
        decreases v@.len() - i,
    {
        r.push(v[i] as u32 as i32);
        i = i + 1;
        assert(r@ =~= lanes_i32(v@.subrange(0, i as int)));
    }
    assert(v@.subrange(0, v@.len() as int) =~= v@);
    r
}

/// What reading the column `id` of `count` values of width `w` gives.
#[verifier::opaque]
pub open spec fn column_words(p: Seq<u8>, cols: Seq<ColumnEntry>, id: u16, count: nat, w: nat) -> Result<Seq<u64>, ErrorDesc> {
    spec_read_column(p, cols, id, count, w)
}

/// What reading the column `id` of `count` items of `lanes` values of
/// width `w` gives.
#[verifier::opaque]
pub open spec fn array_column_items(p: Seq<u8>, cols: Seq<ColumnEntry>, id: u16, count: nat, lanes: nat, w: nat) -> Result<Seq<Seq<u64>>, ErrorDesc> {
    spec_read_array_column(p, cols, id, count, lanes, w)
}

/// What reading the chunk of an index entry gives.
#[verifier::opaque]
pub open spec fn chunk_read(b: Seq<u8>, e: IndexEntry, cluster: u16) -> Result<(ChunkHeader, Seq<ColumnEntry>, int, int), ErrorDesc> {
    spec_read_chunk(b, e, cluster)
}

fn read_column(payload: &[u8], columns: &[ColumnEntry], id: u16, count: usize, w: usize) -> (r: TelemetryResult<Vec<u64>>)
    requires
        w == 4 || w == 8,
        count <= u32::MAX,
    ensures
        match column_words(payload@, columns@, id, count as nat, w as nat) {
            Ok(ws) => r is Ok && r->Ok_0@ == ws && ws.len() == count,
            Err(d) => r is Err && error_matches(r->Err_0, d),
        },
{
    proof { reveal(column_words); }
    read_column_words(payload, columns, id, count, w)
}

fn read_array(payload: &[u8], columns: &[ColumnEntry], id: u16, count: usize, lanes: usize, w: usize) -> (r: TelemetryResult<Vec<Vec<u64>>>)
    requires
        w == 2 || w == 4,
        lanes <= 180,
        count <= u32::MAX,
    ensures
        match array_column_items(payload@, columns@, id, count as nat, lanes as nat, w as nat) {
            Ok(items) => r is Ok && r->Ok_0@.len() == count && items.len() == count
                && forall|k: int| 0 <= k < count ==> (#[trigger] r->Ok_0@[k])@ == items[k],
            Err(d) => r is Err && error_matches(r->Err_0, d),
        },
{
    proof {
        reveal(array_column_items);
        assert(lanes * w <= 720) by (nonlinear_arith)
            requires lanes <= 180, w <= 4;
    }
    read_array_column(payload, columns, id, count, lanes, w)
}

fn read_chunk<'a>(reader: &'a BinaryTelemetryReader, entry: &IndexEntry, cluster: u16) -> (r: TelemetryResult<(ChunkHeader, Vec<ColumnEntry>, &'a [u8])>)
    ensures
        match chunk_read(reader.data(), *entry, cluster) {
            Ok((h, cols, ps, pe)) => r is Ok && r->Ok_0.0 == h && r->Ok_0.1@ == cols && r->Ok_0.2@ == reader.data().subrange(ps, pe),
            Err(d) => r is Err && error_matches(r->Err_0, d),
        },
{
    proof { reveal(chunk_read); }
    reader.read_chunk_raw(entry, cluster)
}

/// Reading all samples of `cluster` from the chunks `es` of the recording
/// `b`, decoding each chunk's payload with `dec`: chunks of other clusters
/// are skipped, the first failure is the result.
pub open spec fn spec_read_all<V>(
    b: Seq<u8>,
    es: Seq<IndexEntry>,
    cluster: u16,
    dec: spec_fn(Seq<u8>, Seq<ColumnEntry>, nat) -> Result<Seq<V>, ErrorDesc>,
) -> Result<Seq<V>, ErrorDesc>
    decreases es.len(),
{
    if es.len() == 0 {
        Ok(Seq::empty())
    } else {
        match spec_read_all(b, es.drop_last(), cluster, dec) {
            Err(d) => Err(d),
            Ok(acc) => if es.last().cluster_id != cluster {
                Ok(acc)
            } else {
                match chunk_read(b, es.last(), cluster) {
                    Err(d) => Err(d),
                    Ok((h, cols, ps, pe)) => match dec(b.subrange(ps, pe), cols, h.sample_count as nat) {
                        Err(d) => Err(d),
                        Ok(vs) => Ok(acc + vs),
                    },
                }
            },
        }
    }
}

/// Reading a cluster's samples reads only that cluster's chunks: with the
/// chunks of every other cluster left out of the index, the result is the
/// same.
pub proof fn lemma_read_all_only_its_cluster<V>(
    b: Seq<u8>,
    es: Seq<IndexEntry>,
    cluster: u16,
    dec: spec_fn(Seq<u8>, Seq<ColumnEntry>, nat) -> Result<Seq<V>, ErrorDesc>,
)
    ensures
        spec_read_all(b, es.filter(|e: IndexEntry| e.cluster_id == cluster), cluster, dec) == spec_read_all(b, es, cluster, dec),
    decreases es.len(),
{
    reveal(Seq::filter);
    let pred = |e: IndexEntry| e.cluster_id == cluster;
    if es.len() > 0 {
        lemma_read_all_only_its_cluster(b, es.drop_last(), cluster, dec);
        let f = es.drop_last().filter(pred);
        if pred(es.last()) {
            assert(es.filter(pred) == f.push(es.last()));
            assert(f.push(es.last()).drop_last() =~= f);
        } else {
            assert(es.filter(pred) == f);
        }
    }
}

/// Reading one more chunk extends what reading the ones before gave.
proof fn lemma_read_all_step<V>(
    b: Seq<u8>,
    es: Seq<IndexEntry>,
    i: int,
    cluster: u16,
    dec: spec_fn(Seq<u8>, Seq<ColumnEntry>, nat) -> Result<Seq<V>, ErrorDesc>,
)
    requires
        0 <= i < es.len(),
    ensures
        es.subrange(0, i + 1).drop_last() == es.subrange(0, i),
        es.subrange(0, i + 1).last() == es[i],
{
    assert(es.subrange(0, i + 1).drop_last() =~= es.subrange(0, i));
}

/// Once reading fails at some chunk, reading more chunks fails the same way.
proof fn lemma_read_all_error_persists<V>(
    b: Seq<u8>,
    es: Seq<IndexEntry>,
    i: int,
    n: int,
    cluster: u16,
    dec: spec_fn(Seq<u8>, Seq<ColumnEntry>, nat) -> Result<Seq<V>, ErrorDesc>,
)
    requires
        0 <= i <= n <= es.len(),
        spec_read_all(b, es.subrange(0, i), cluster, dec) is Err,
    ensures
        spec_read_all(b, es.subrange(0, n), cluster, dec) == spec_read_all(b, es.subrange(0, i), cluster, dec),
    decreases n - i,
{
    if i < n {
        lemma_read_all_error_persists(b, es, i, n - 1, cluster, dec);
        assert(es.subrange(0, n).drop_last() =~= es.subrange(0, n - 1));
    }
}

/// A sample of the controls cluster. Floating-point values are held as
/// their bit patterns.
#[derive(Debug, Clone)]
pub struct ControlSample {
    pub sample_tick: u64,
    pub timestamp_ns: u64,
    pub physics_packet_id: i32,
    pub graphics_packet_id: i32,
    pub speed_kmh: u32,
    pub gas: u32,
    pub brake: u32,
    pub clutch: u32,
    pub steer_angle: u32,
    pub gear: i32,
    pub rpms: i32,
    pub fuel: u32,
}

/// A sample of the controls cluster as plain values.
pub struct ControlSampleView {
    pub sample_tick: u64,
    pub timestamp_ns: u64,
    pub physics_packet_id: i32,
    pub graphics_packet_id: i32,
    pub speed_kmh: u32,
    pub gas: u32,
    pub brake: u32,
    pub clutch: u32,
    pub steer_angle: u32,
    pub gear: i32,
    pub rpms: i32,
    pub fuel: u32,
}

impl View for ControlSample {
    type V = ControlSampleView;

    open spec fn view(&self) -> ControlSampleView {
        ControlSampleView {
            sample_tick: self.sample_tick,
            timestamp_ns: self.timestamp_ns,
            physics_packet_id: self.physics_packet_id,
            graphics_packet_id: self.graphics_packet_id,
            speed_kmh: self.speed_kmh,
            gas: self.gas,
            brake: self.brake,
            clutch: self.clutch,
            steer_angle: self.steer_angle,
            gear: self.gear,
            rpms: self.rpms,
            fuel: self.fuel,
        }
    }
}

/// Sample `k` of a controls chunk whose columns all read.
pub open spec fn sample_at_controls(p: Seq<u8>, cols: Seq<ColumnEntry>, count: nat, k: int) -> ControlSampleView {
    ControlSampleView {
            sample_tick: column_words(p, cols, COL_SAMPLE_TICK, count, 8)->Ok_0[k],
            timestamp_ns: column_words(p, cols, COL_TIMESTAMP_NS, count, 8)->Ok_0[k],
            physics_packet_id: (match column_words(p, cols, COL_PHYSICS_PACKET_ID, count, 4) { Ok(ws) => (ws[k] as u32) as i32, Err(_) => 0 }),
            graphics_packet_id: (match column_words(p, cols, COL_GRAPHICS_PACKET_ID, count, 4) { Ok(ws) => (ws[k] as u32) as i32, Err(_) => 0 }),
            speed_kmh: column_words(p, cols, COL_SPEED_KMH, count, 4)->Ok_0[k] as u32,
            gas: column_words(p, cols, COL_GAS, count, 4)->Ok_0[k] as u32,
            brake: column_words(p, cols, COL_BRAKE, count, 4)->Ok_0[k] as u32,
            clutch: column_words(p, cols, COL_CLUTCH, count, 4)->Ok_0[k] as u32,
            steer_angle: column_words(p, cols, COL_STEER_ANGLE, count, 4)->Ok_0[k] as u32,
            gear: (column_words(p, cols, COL_GEAR, count, 4)->Ok_0[k] as u32) as i32,
            rpms: (column_words(p, cols, COL_RPMS, count, 4)->Ok_0[k] as u32) as i32,
            fuel: column_words(p, cols, COL_FUEL, count, 4)->Ok_0[k] as u32,
    }
}

/// The first failing column read of a controls chunk, in reading order.
pub open spec fn controls_error(p: Seq<u8>, cols: Seq<ColumnEntry>, count: nat) -> Option<ErrorDesc> {
    first_error(column_words(p, cols, COL_SAMPLE_TICK, count, 8),
        first_error(column_words(p, cols, COL_TIMESTAMP_NS, count, 8),
        first_error(column_words(p, cols, COL_SPEED_KMH, count, 4),
        first_error(column_words(p, cols, COL_GAS, count, 4),
        first_error(column_words(p, cols, COL_BRAKE, count, 4),
        first_error(column_words(p, cols, COL_CLUTCH, count, 4),
        first_error(column_words(p, cols, COL_STEER_ANGLE, count, 4),
        first_error(column_words(p, cols, COL_GEAR, count, 4),
        first_error(column_words(p, cols, COL_RPMS, count, 4),
        first_error(column_words(p, cols, COL_FUEL, count, 4),
        None))))))))))
}

/// What decoding a controls chunk's payload of `count` samples gives.
pub open spec fn spec_decode_controls(p: Seq<u8>, cols: Seq<ColumnEntry>, count: nat) -> Result<Seq<ControlSampleView>, ErrorDesc> {
    match controls_error(p, cols, count) {
        Some(d) => Err(d),
        None => Ok(Seq::new(count, |k: int| sample_at_controls(p, cols, count, k))),
    }
}

/// Each field of a decoded controls sample comes from the column with that
/// field's own id: sample `k` holds the `k`-th value of that column (for an
/// array field, its `k`-th item), read at the column's width.
pub proof fn lemma_controls_fields_from_own_columns(p: Seq<u8>, cols: Seq<ColumnEntry>, count: nat, k: int)
    requires
        spec_decode_controls(p, cols, count) is Ok,
        0 <= k < count,
    ensures
        ({
            let s = spec_decode_controls(p, cols, count)->Ok_0[k];
            &&& s.sample_tick == column_words(p, cols, COL_SAMPLE_TICK, count, 8)->Ok_0[k]
            &&& s.timestamp_ns == column_words(p, cols, COL_TIMESTAMP_NS, count, 8)->Ok_0[k]
            &&& s.physics_packet_id == (match column_words(p, cols, COL_PHYSICS_PACKET_ID, count, 4) { Ok(ws) => (ws[k] as u32) as i32, Err(_) => 0 })
            &&& s.graphics_packet_id == (match column_words(p, cols, COL_GRAPHICS_PACKET_ID, count, 4) { Ok(ws) => (ws[k] as u32) as i32, Err(_) => 0 })
            &&& s.speed_kmh == column_words(p, cols, COL_SPEED_KMH, count, 4)->Ok_0[k] as u32
            &&& s.gas == column_words(p, cols, COL_GAS, count, 4)->Ok_0[k] as u32
            &&& s.brake == column_words(p, cols, COL_BRAKE, count, 4)->Ok_0[k] as u32
            &&& s.clutch == column_words(p, cols, COL_CLUTCH, count, 4)->Ok_0[k] as u32
            &&& s.steer_angle == column_words(p, cols, COL_STEER_ANGLE, count, 4)->Ok_0[k] as u32
            &&& s.gear == (column_words(p, cols, COL_GEAR, count, 4)->Ok_0[k] as u32) as i32
            &&& s.rpms == (column_words(p, cols, COL_RPMS, count, 4)->Ok_0[k] as u32) as i32
            &&& s.fuel == column_words(p, cols, COL_FUEL, count, 4)->Ok_0[k] as u32
        }),
{
}

/// Decode a controls chunk's payload of `count` samples.
fn decode_controls_payload(payload: &[u8], columns: &[ColumnEntry], count: usize) -> (r: TelemetryResult<Vec<ControlSample>>)
    requires
        count <= u32::MAX,
    ensures
        samples_match(r, spec_decode_controls(payload@, columns@, count as nat)),
{
    let ghost p = payload@;
    let ghost cols = columns@;
    let c_ticks = match read_column(payload, columns, COL_SAMPLE_TICK, count, 8) { Ok(ws) => ws, Err(e) => { return Err(e); } };
    let c_timestamps = match read_column(payload, columns, COL_TIMESTAMP_NS, count, 8) { Ok(ws) => ws, Err(e) => { return Err(e); } };
    let c_speed = match read_column(payload, columns, COL_SPEED_KMH, count, 4) { Ok(ws) => ws, Err(e) => { return Err(e); } };
    let c_gas = match read_column(payload, columns, COL_GAS, count, 4) { Ok(ws) => ws, Err(e) => { return Err(e); } };
    let c_brake = match read_column(payload, columns, COL_BRAKE, count, 4) { Ok(ws) => ws, Err(e) => { return Err(e); } };
    let c_clutch = match read_column(payload, columns, COL_CLUTCH, count, 4) { Ok(ws) => ws, Err(e) => { return Err(e); } };
    let c_steer = match read_column(payload, columns, COL_STEER_ANGLE, count, 4) { Ok(ws) => ws, Err(e) => { return Err(e); } };
    let c_gear = match read_column(payload, columns, COL_GEAR, count, 4) { Ok(ws) => ws, Err(e) => { return Err(e); } };
    let c_rpms = match read_column(payload, columns, COL_RPMS, count, 4) { Ok(ws) => ws, Err(e) => { return Err(e); } };
    let c_fuel = match read_column(payload, columns, COL_FUEL, count, 4) { Ok(ws) => ws, Err(e) => { return Err(e); } };
    let c_phys_id = match read_column(payload, columns, COL_PHYSICS_PACKET_ID, count, 4) { Ok(ws) => Some(ws), Err(_) => None };
    let c_gfx_id = match read_column(payload, columns, COL_GRAPHICS_PACKET_ID, count, 4) { Ok(ws) => Some(ws), Err(_) => None };
    assert(controls_error(p, cols, count as nat) is None);
    let mut out: Vec<ControlSample> = Vec::new();
    let mut i: usize = 0;
    while i < count
        invariant
            p == payload@,
            cols == columns@,
            i <= count,
            controls_error(p, cols, count as nat) is None,
            column_words(p, cols, COL_SAMPLE_TICK, count as nat, 8) == Ok::<Seq<u64>, ErrorDesc>(c_ticks@),
            c_ticks@.len() == count,
            column_words(p, cols, COL_TIMESTAMP_NS, count as nat, 8) == Ok::<Seq<u64>, ErrorDesc>(c_timestamps@),
            c_timestamps@.len() == count,
            column_words(p, cols, COL_SPEED_KMH, count as nat, 4) == Ok::<Seq<u64>, ErrorDesc>(c_speed@),
            c_speed@.len() == count,
            column_words(p, cols, COL_GAS, count as nat, 4) == Ok::<Seq<u64>, ErrorDesc>(c_gas@),
            c_gas@.len() == count,
            column_words(p, cols, COL_BRAKE, count as nat, 4) == Ok::<Seq<u64>, ErrorDesc>(c_brake@),
            c_brake@.len() == count,
            column_words(p, cols, COL_CLUTCH, count as nat, 4) == Ok::<Seq<u64>, ErrorDesc>(c_clutch@),
            c_clutch@.len() == count,
            column_words(p, cols, COL_STEER_ANGLE, count as nat, 4) == Ok::<Seq<u64>, ErrorDesc>(c_steer@),
            c_steer@.len() == count,
            column_words(p, cols, COL_GEAR, count as nat, 4) == Ok::<Seq<u64>, ErrorDesc>(c_gear@),
            c_gear@.len() == count,
            column_words(p, cols, COL_RPMS, count as nat, 4) == Ok::<Seq<u64>, ErrorDesc>(c_rpms@),
            c_rpms@.len() == count,
            column_words(p, cols, COL_FUEL, count as nat, 4) == Ok::<Seq<u64>, ErrorDesc>(c_fuel@),
            c_fuel@.len() == count,
            match column_words(p, cols, COL_PHYSICS_PACKET_ID, count as nat, 4) { Ok(ws) => c_phys_id is Some && c_phys_id->Some_0@ == ws && ws.len() == count, Err(_) => c_phys_id is None },
            match column_words(p, cols, COL_GRAPHICS_PACKET_ID, count as nat, 4) { Ok(ws) => c_gfx_id is Some && c_gfx_id->Some_0@ == ws && ws.len() == count, Err(_) => c_gfx_id is None },
            out@.len() == i,
            forall|j: int| 0 <= j < i ==> (#[trigger] out@[j])@ == sample_at_controls(p, cols, count as nat, j),
        decreases count - i,
    {
        let s = ControlSample {
            sample_tick: c_ticks[i],
            timestamp_ns: c_timestamps[i],
            physics_packet_id: match &c_phys_id { Some(ws) => ws[i] as u32 as i32, None => 0 },
            graphics_packet_id: match &c_gfx_id { Some(ws) => ws[i] as u32 as i32, None => 0 },
            speed_kmh: c_speed[i] as u32,
            gas: c_gas[i] as u32,
            brake: c_brake[i] as u32,
            clutch: c_clutch[i] as u32,
            steer_angle: c_steer[i] as u32,
            gear: c_gear[i] as u32 as i32,
            rpms: c_rpms[i] as u32 as i32,
            fuel: c_fuel[i] as u32,
        };
        out.push(s);
        i = i + 1;
    }
    assert(spec_decode_controls(p, cols, count as nat) == Ok::<Seq<ControlSampleView>, ErrorDesc>(Seq::new(count as nat, |k: int| sample_at_controls(p, cols, count as nat, k))));
    Ok(out)
}

impl BinaryTelemetryReader {
    /// All controls samples of the recording, chunk by chunk in index order.
    pub fn read_all_controls(&self) -> (r: TelemetryResult<Vec<ControlSample>>)
        ensures
            samples_match(r, spec_read_all(self.data(), self.opened().2, CLUSTER_CONTROLS,
                |p: Seq<u8>, cols: Seq<ColumnEntry>, n: nat| spec_decode_controls(p, cols, n))),
    {
        let entries = self.chunk_index();
        let ghost es = entries@;
        let ghost dec = |p: Seq<u8>, cols: Seq<ColumnEntry>, n: nat| spec_decode_controls(p, cols, n);
        let mut out: Vec<ControlSample> = Vec::new();
        let mut i: usize = 0;
        while i < entries.len()
            invariant
                es == entries@,
                es == self.opened().2,
                dec == (|p: Seq<u8>, cols: Seq<ColumnEntry>, n: nat| spec_decode_controls(p, cols, n)),
                i <= es.len(),
                samples_match(Ok::<Vec<ControlSample>, TelemetryError>(out), spec_read_all(self.data(), es.subrange(0, i as int), CLUSTER_CONTROLS, dec)),
            decreases es.len() - i,
        {
            let ghost before = out@;
            proof { lemma_read_all_step(self.data(), es, i as int, CLUSTER_CONTROLS, dec); }
            if entries[i].cluster_id == CLUSTER_CONTROLS {
                let (header, cols, payload) = match read_chunk(self, &entries[i], CLUSTER_CONTROLS) {
                    Ok(c) => c,
                    Err(e) => {
                        proof {
                            lemma_read_all_error_persists(self.data(), es, (i + 1) as int, es.len() as int, CLUSTER_CONTROLS, dec);
                            assert(es.subrange(0, es.len() as int) =~= es);
                        }
                        return Err(e);
                    },
                };
                let samples = match decode_controls_payload(payload, cols.as_slice(), header.sample_count as usize) {
                    Ok(s) => s,
                    Err(e) => {
                        proof {
                            lemma_read_all_error_persists(self.data(), es, (i + 1) as int, es.len() as int, CLUSTER_CONTROLS, dec);
                            assert(es.subrange(0, es.len() as int) =~= es);
                        }
                        return Err(e);
                    },
                };
                let mut samples = samples;
                let ghost added = samples@;
                out.append(&mut samples);
                proof {
                    assert forall|j: int| 0 <= j < out@.len() implies (#[trigger] out@[j])@ == spec_read_all(self.data(), es.subrange(0, i + 1), CLUSTER_CONTROLS, dec)->Ok_0[j] by {
                        if j < before.len() {
                            assert(out@[j] == before[j]);
                        } else {
                            assert(out@[j] == added[j - before.len()]);
                        }
                    }
                }
            }
            i = i + 1;
        }
        assert(es.subrange(0, es.len() as int) =~= es);
        Ok(out)
    }
}

/// A sample of the session cluster. Floating-point values are held as
/// their bit patterns.
#[derive(Debug, Clone)]
pub struct SessionSample {
    pub sample_tick: u64,
    pub timestamp_ns: u64,
    pub status: i32,
    pub session: i32,
    pub session_index: i32,
    pub completed_laps: i32,
    pub position: i32,
    pub session_time_left: u32,
    pub number_of_laps: i32,
    pub current_sector_index: i32,
    pub normalized_car_position: u32,
    pub is_in_pit: i32,
    pub is_in_pit_lane: i32,
    pub mandatory_pit_done: i32,
    pub missing_mandatory_pits: i32,
    pub penalty_time: u32,
    pub penalty_type: i32,
    pub track_status: Vec<u16>,
    pub clock: u32,
    pub replay_time_multiplier: u32,
    pub is_valid_lap: i32,
    pub global_yellow: i32,
    pub global_yellow1: i32,
    pub global_yellow2: i32,
    pub global_yellow3: i32,
    pub global_white: i32,
    pub global_green: i32,
    pub global_chequered: i32,
    pub global_red: i32,
    pub gap_ahead_or_tail_value: i32,
}

/// A sample of the session cluster as plain values.
pub struct SessionSampleView {
    pub sample_tick: u64,
    pub timestamp_ns: u64,
    pub status: i32,
    pub session: i32,
    pub session_index: i32,
    pub completed_laps: i32,
    pub position: i32,
    pub session_time_left: u32,
    pub number_of_laps: i32,
    pub current_sector_index: i32,
    pub normalized_car_position: u32,
    pub is_in_pit: i32,
    pub is_in_pit_lane: i32,
    pub mandatory_pit_done: i32,
    pub missing_mandatory_pits: i32,
    pub penalty_time: u32,
    pub penalty_type: i32,
    pub track_status: Seq<u16>,
    pub clock: u32,
    pub replay_time_multiplier: u32,
    pub is_valid_lap: i32,
    pub global_yellow: i32,
    pub global_yellow1: i32,
    pub global_yellow2: i32,
    pub global_yellow3: i32,
    pub global_white: i32,
    pub global_green: i32,
    pub global_chequered: i32,
    pub global_red: i32,
    pub gap_ahead_or_tail_value: i32,
}

impl View for SessionSample {
    type V = SessionSampleView;

    open spec fn view(&self) -> SessionSampleView {
        SessionSampleView {
            sample_tick: self.sample_tick,
            timestamp_ns: self.timestamp_ns,
            status: self.status,
            session: self.session,
            session_index: self.session_index,
            completed_laps: self.completed_laps,
            position: self.position,
            session_time_left: self.session_time_left,
            number_of_laps: self.number_of_laps,
            current_sector_index: self.current_sector_index,
            normalized_car_position: self.normalized_car_position,
            is_in_pit: self.is_in_pit,
            is_in_pit_lane: self.is_in_pit_lane,
            mandatory_pit_done: self.mandatory_pit_done,
            missing_mandatory_pits: self.missing_mandatory_pits,
            penalty_time: self.penalty_time,
            penalty_type: self.penalty_type,
            track_status: self.track_status@,
            clock: self.clock,
            replay_time_multiplier: self.replay_time_multiplier,
            is_valid_lap: self.is_valid_lap,
            global_yellow: self.global_yellow,
            global_yellow1: self.global_yellow1,
            global_yellow2: self.global_yellow2,
            global_yellow3: self.global_yellow3,
            global_white: self.global_white,
            global_green: self.global_green,
            global_chequered: self.global_chequered,
            global_red: self.global_red,
            gap_ahead_or_tail_value: self.gap_ahead_or_tail_value,
        }
    }
}

/// Sample `k` of a session chunk whose columns all read.
pub open spec fn sample_at_session(p: Seq<u8>, cols: Seq<ColumnEntry>, count: nat, k: int) -> SessionSampleView {
    SessionSampleView {
            sample_tick: column_words(p, cols, COL_SAMPLE_TICK, count, 8)->Ok_0[k],
            timestamp_ns: column_words(p, cols, COL_TIMESTAMP_NS, count, 8)->Ok_0[k],
            status: (column_words(p, cols, COL_STATUS, count, 4)->Ok_0[k] as u32) as i32,
            session: (column_words(p, cols, COL_SESSION, count, 4)->Ok_0[k] as u32) as i32,
            session_index: (column_words(p, cols, COL_SESSION_INDEX, count, 4)->Ok_0[k] as u32) as i32,
            completed_laps: (column_words(p, cols, COL_COMPLETED_LAPS, count, 4)->Ok_0[k] as u32) as i32,
            position: (column_words(p, cols, COL_POSITION, count, 4)->Ok_0[k] as u32) as i32,
            session_time_left: column_words(p, cols, COL_SESSION_TIME_LEFT, count, 4)->Ok_0[k] as u32,
            number_of_laps: (column_words(p, cols, COL_NUMBER_OF_LAPS, count, 4)->Ok_0[k] as u32) as i32,
            current_sector_index: (column_words(p, cols, COL_CURRENT_SECTOR_INDEX, count, 4)->Ok_0[k] as u32) as i32,
            normalized_car_position: column_words(p, cols, COL_NORMALIZED_CAR_POSITION, count, 4)->Ok_0[k] as u32,
            is_in_pit: (column_words(p, cols, COL_IS_IN_PIT, count, 4)->Ok_0[k] as u32) as i32,
            is_in_pit_lane: (column_words(p, cols, COL_IS_IN_PIT_LANE, count, 4)->Ok_0[k] as u32) as i32,
            mandatory_pit_done: (column_words(p, cols, COL_MANDATORY_PIT_DONE, count, 4)->Ok_0[k] as u32) as i32,
            missing_mandatory_pits: (column_words(p, cols, COL_MISSING_MANDATORY_PITS, count, 4)->Ok_0[k] as u32) as i32,
            penalty_time: column_words(p, cols, COL_PENALTY_TIME, count, 4)->Ok_0[k] as u32,
            penalty_type: (column_words(p, cols, COL_PENALTY_TYPE, count, 4)->Ok_0[k] as u32) as i32,
            track_status: lanes_u16(array_column_items(p, cols, COL_TRACK_STATUS, count, 33, 2)->Ok_0[k]),
            clock: column_words(p, cols, COL_CLOCK, count, 4)->Ok_0[k] as u32,
            replay_time_multiplier: column_words(p, cols, COL_REPLAY_TIME_MULTIPLIER, count, 4)->Ok_0[k] as u32,
            is_valid_lap: (column_words(p, cols, COL_IS_VALID_LAP, count, 4)->Ok_0[k] as u32) as i32,
            global_yellow: (column_words(p, cols, COL_GLOBAL_YELLOW, count, 4)->Ok_0[k] as u32) as i32,
            global_yellow1: (column_words(p, cols, COL_GLOBAL_YELLOW1, count, 4)->Ok_0[k] as u32) as i32,
            global_yellow2: (column_words(p, cols, COL_GLOBAL_YELLOW2, count, 4)->Ok_0[k] as u32) as i32,
            global_yellow3: (column_words(p, cols, COL_GLOBAL_YELLOW3, count, 4)->Ok_0[k] as u32) as i32,
            global_white: (column_words(p, cols, COL_GLOBAL_WHITE, count, 4)->Ok_0[k] as u32) as i32,
            global_green: (column_words(p, cols, COL_GLOBAL_GREEN, count, 4)->Ok_0[k] as u32) as i32,
            global_chequered: (column_words(p, cols, COL_GLOBAL_CHEQUERED, count, 4)->Ok_0[k] as u32) as i32,
            global_red: (column_words(p, cols, COL_GLOBAL_RED, count, 4)->Ok_0[k] as u32) as i32,
            gap_ahead_or_tail_value: (column_words(p, cols, COL_GAP_AHEAD_OR_TAIL, count, 4)->Ok_0[k] as u32) as i32,
    }
}

/// The first failing column read of a session chunk, in reading order.
pub open spec fn session_error(p: Seq<u8>, cols: Seq<ColumnEntry>, count: nat) -> Option<ErrorDesc> {
    first_error(column_words(p, cols, COL_SAMPLE_TICK, count, 8),
        first_error(column_words(p, cols, COL_TIMESTAMP_NS, count, 8),
        first_error(column_words(p, cols, COL_STATUS, count, 4),
        first_error(column_words(p, cols, COL_SESSION, count, 4),
        first_error(column_words(p, cols, COL_SESSION_INDEX, count, 4),
        first_error(column_words(p, cols, COL_COMPLETED_LAPS, count, 4),
        first_error(column_words(p, cols, COL_POSITION, count, 4),
        first_error(column_words(p, cols, COL_SESSION_TIME_LEFT, count, 4),
        first_error(column_words(p, cols, COL_NUMBER_OF_LAPS, count, 4),
        first_error(column_words(p, cols, COL_CURRENT_SECTOR_INDEX, count, 4),
        first_error(column_words(p, cols, COL_NORMALIZED_CAR_POSITION, count, 4),
        first_error(column_words(p, cols, COL_IS_IN_PIT, count, 4),
        first_error(column_words(p, cols, COL_IS_IN_PIT_LANE, count, 4),
        first_error(column_words(p, cols, COL_MANDATORY_PIT_DONE, count, 4),
        first_error(column_words(p, cols, COL_MISSING_MANDATORY_PITS, count, 4),
        first_error(column_words(p, cols, COL_PENALTY_TIME, count, 4),
        first_error(column_words(p, cols, COL_PENALTY_TYPE, count, 4),
        first_error(array_column_items(p, cols, COL_TRACK_STATUS, count, 33, 2),
        first_error(column_words(p, cols, COL_CLOCK, count, 4),
        first_error(column_words(p, cols, COL_REPLAY_TIME_MULTIPLIER, count, 4),
        first_error(column_words(p, cols, COL_IS_VALID_LAP, count, 4),
        first_error(column_words(p, cols, COL_GLOBAL_YELLOW, count, 4),
        first_error(column_words(p, cols, COL_GLOBAL_YELLOW1, count, 4),
        first_error(column_words(p, cols, COL_GLOBAL_YELLOW2, count, 4),
        first_error(column_words(p, cols, COL_GLOBAL_YELLOW3, count, 4),
        first_error(column_words(p, cols, COL_GLOBAL_WHITE, count, 4),
        first_error(column_words(p, cols, COL_GLOBAL_GREEN, count, 4),
        first_error(column_words(p, cols, COL_GLOBAL_CHEQUERED, count, 4),
        first_error(column_words(p, cols, COL_GLOBAL_RED, count, 4),
        first_error(column_words(p, cols, COL_GAP_AHEAD_OR_TAIL, count, 4),
        None))))))))))))))))))))))))))))))
}

/// What decoding a session chunk's payload of `count` samples gives.
pub open spec fn spec_decode_session(p: Seq<u8>, cols: Seq<ColumnEntry>, count: nat) -> Result<Seq<SessionSampleView>, ErrorDesc> {
    match session_error(p, cols, count) {
        Some(d) => Err(d),
        None => Ok(Seq::new(count, |k: int| sample_at_session(p, cols, count, k))),
    }
}

/// Each field of a decoded session sample comes from the column with that
/// field's own id: sample `k` holds the `k`-th value of that column (for an
/// array field, its `k`-th item), read at the column's width.
pub proof fn lemma_session_fields_from_own_columns(p: Seq<u8>, cols: Seq<ColumnEntry>, count: nat, k: int)
    requires
        spec_decode_session(p, cols, count) is Ok,
        0 <= k < count,
    ensures
        ({
            let s = spec_decode_session(p, cols, count)->Ok_0[k];
            &&& s.sample_tick == column_words(p, cols, COL_SAMPLE_TICK, count, 8)->Ok_0[k]
            &&& s.timestamp_ns == column_words(p, cols, COL_TIMESTAMP_NS, count, 8)->Ok_0[k]
            &&& s.status == (column_words(p, cols, COL_STATUS, count, 4)->Ok_0[k] as u32) as i32
            &&& s.session == (column_words(p, cols, COL_SESSION, count, 4)->Ok_0[k] as u32) as i32
            &&& s.session_index == (column_words(p, cols, COL_SESSION_INDEX, count, 4)->Ok_0[k] as u32) as i32
            &&& s.completed_laps == (column_words(p, cols, COL_COMPLETED_LAPS, count, 4)->Ok_0[k] as u32) as i32
            &&& s.position == (column_words(p, cols, COL_POSITION, count, 4)->Ok_0[k] as u32) as i32
            &&& s.session_time_left == column_words(p, cols, COL_SESSION_TIME_LEFT, count, 4)->Ok_0[k] as u32
            &&& s.number_of_laps == (column_words(p, cols, COL_NUMBER_OF_LAPS, count, 4)->Ok_0[k] as u32) as i32
            &&& s.current_sector_index == (column_words(p, cols, COL_CURRENT_SECTOR_INDEX, count, 4)->Ok_0[k] as u32) as i32
            &&& s.normalized_car_position == column_words(p, cols, COL_NORMALIZED_CAR_POSITION, count, 4)->Ok_0[k] as u32
            &&& s.is_in_pit == (column_words(p, cols, COL_IS_IN_PIT, count, 4)->Ok_0[k] as u32) as i32
            &&& s.is_in_pit_lane == (column_words(p, cols, COL_IS_IN_PIT_LANE, count, 4)->Ok_0[k] as u32) as i32
            &&& s.mandatory_pit_done == (column_words(p, cols, COL_MANDATORY_PIT_DONE, count, 4)->Ok_0[k] as u32) as i32
            &&& s.missing_mandatory_pits == (column_words(p, cols, COL_MISSING_MANDATORY_PITS, count, 4)->Ok_0[k] as u32) as i32
            &&& s.penalty_time == column_words(p, cols, COL_PENALTY_TIME, count, 4)->Ok_0[k] as u32
            &&& s.penalty_type == (column_words(p, cols, COL_PENALTY_TYPE, count, 4)->Ok_0[k] as u32) as i32
            &&& s.track_status == lanes_u16(array_column_items(p, cols, COL_TRACK_STATUS, count, 33, 2)->Ok_0[k])
            &&& s.clock == column_words(p, cols, COL_CLOCK, count, 4)->Ok_0[k] as u32
            &&& s.replay_time_multiplier == column_words(p, cols, COL_REPLAY_TIME_MULTIPLIER, count, 4)->Ok_0[k] as u32
            &&& s.is_valid_lap == (column_words(p, cols, COL_IS_VALID_LAP, count, 4)->Ok_0[k] as u32) as i32
            &&& s.global_yellow == (column_words(p, cols, COL_GLOBAL_YELLOW, count, 4)->Ok_0[k] as u32) as i32
            &&& s.global_yellow1 == (column_words(p, cols, COL_GLOBAL_YELLOW1, count, 4)->Ok_0[k] as u32) as i32
            &&& s.global_yellow2 == (column_words(p, cols, COL_GLOBAL_YELLOW2, count, 4)->Ok_0[k] as u32) as i32
            &&& s.global_yellow3 == (column_words(p, cols, COL_GLOBAL_YELLOW3, count, 4)->Ok_0[k] as u32) as i32
            &&& s.global_white == (column_words(p, cols, COL_GLOBAL_WHITE, count, 4)->Ok_0[k] as u32) as i32
            &&& s.global_green == (column_words(p, cols, COL_GLOBAL_GREEN, count, 4)->Ok_0[k] as u32) as i32
            &&& s.global_chequered == (column_words(p, cols, COL_GLOBAL_CHEQUERED, count, 4)->Ok_0[k] as u32) as i32
            &&& s.global_red == (column_words(p, cols, COL_GLOBAL_RED, count, 4)->Ok_0[k] as u32) as i32
            &&& s.gap_ahead_or_tail_value == (column_words(p, cols, COL_GAP_AHEAD_OR_TAIL, count, 4)->Ok_0[k] as u32) as i32
        }),
{
}

/// Decode a session chunk's payload of `count` samples.
fn decode_session_payload(payload: &[u8], columns: &[ColumnEntry], count: usize) -> (r: TelemetryResult<Vec<SessionSample>>)
    requires
        count <= u32::MAX,
    ensures
        samples_match(r, spec_decode_session(payload@, columns@, count as nat)),
{
    let ghost p = payload@;
    let ghost cols = columns@;
    let c_ticks = match read_column(payload, columns, COL_SAMPLE_TICK, count, 8) { Ok(ws) => ws, Err(e) => { return Err(e); } };
    let c_timestamps = match read_column(payload, columns, COL_TIMESTAMP_NS, count, 8) { Ok(ws) => ws, Err(e) => { return Err(e); } };
    let c_status = match read_column(payload, columns, COL_STATUS, count, 4) { Ok(ws) => ws, Err(e) => { return Err(e); } };
    let c_session = match read_column(payload, columns, COL_SESSION, count, 4) { Ok(ws) => ws, Err(e) => { return Err(e); } };
    let c_session_index = match read_column(payload, columns, COL_SESSION_INDEX, count, 4) { Ok(ws) => ws, Err(e) => { return Err(e); } };
    let c_completed_laps = match read_column(payload, columns, COL_COMPLETED_LAPS, count, 4) { Ok(ws) => ws, Err(e) => { return Err(e); } };
    let c_position = match read_column(payload, columns, COL_POSITION, count, 4) { Ok(ws) => ws, Err(e) => { return Err(e); } };
    let c_session_time_left = match read_column(payload, columns, COL_SESSION_TIME_LEFT, count, 4) { Ok(ws) => ws, Err(e) => { return Err(e); } };
    let c_number_of_laps = match read_column(payload, columns, COL_NUMBER_OF_LAPS, count, 4) { Ok(ws) => ws, Err(e) => { return Err(e); } };
    let c_current_sector_index = match read_column(payload, columns, COL_CURRENT_SECTOR_INDEX, count, 4) { Ok(ws) => ws, Err(e) => { return Err(e); } };
    let c_normalized_car_position = match read_column(payload, columns, COL_NORMALIZED_CAR_POSITION, count, 4) { Ok(ws) => ws, Err(e) => { return Err(e); } };
    let c_is_in_pit = match read_column(payload, columns, COL_IS_IN_PIT, count, 4) { Ok(ws) => ws, Err(e) => { return Err(e); } };
    let c_is_in_pit_lane = match read_column(payload, columns, COL_IS_IN_PIT_LANE, count, 4) { Ok(ws) => ws, Err(e) => { return Err(e); } };
    let c_mandatory_pit_done = match read_column(payload, columns, COL_MANDATORY_PIT_DONE, count, 4) { Ok(ws) => ws, Err(e) => { return Err(e); } };
    let c_missing_mandatory_pits = match read_column(payload, columns, COL_MISSING_MANDATORY_PITS, count, 4) { Ok(ws) => ws, Err(e) => { return Err(e); } };
    let c_penalty_time = match read_column(payload, columns, COL_PENALTY_TIME, count, 4) { Ok(ws) => ws, Err(e) => { return Err(e); } };
    let c_penalty_type = match read_column(payload, columns, COL_PENALTY_TYPE, count, 4) { Ok(ws) => ws, Err(e) => { return Err(e); } };
    let c_track_status = match read_array(payload, columns, COL_TRACK_STATUS, count, 33, 2) { Ok(ws) => ws, Err(e) => { return Err(e); } };
    let c_clock = match read_column(payload, columns, COL_CLOCK, count, 4) { Ok(ws) => ws, Err(e) => { return Err(e); } };
    let c_replay_time_multiplier = match read_column(payload, columns, COL_REPLAY_TIME_MULTIPLIER, count, 4) { Ok(ws) => ws, Err(e) => { return Err(e); } };
    let c_is_valid_lap = match read_column(payload, columns, COL_IS_VALID_LAP, count, 4) { Ok(ws) => ws, Err(e) => { return Err(e); } };
    let c_global_yellow = match read_column(payload, columns, COL_GLOBAL_YELLOW, count, 4) { Ok(ws) => ws, Err(e) => { return Err(e); } };
    let c_global_yellow1 = match read_column(payload, columns, COL_GLOBAL_YELLOW1, count, 4) { Ok(ws) => ws, Err(e) => { return Err(e); } };
    let c_global_yellow2 = match read_column(payload, columns, COL_GLOBAL_YELLOW2, count, 4) { Ok(ws) => ws, Err(e) => { return Err(e); } };
    let c_global_yellow3 = match read_column(payload, columns, COL_GLOBAL_YELLOW3, count, 4) { Ok(ws) => ws, Err(e) => { return Err(e); } };
    let c_global_white = match read_column(payload, columns, COL_GLOBAL_WHITE, count, 4) { Ok(ws) => ws, Err(e) => { return Err(e); } };
    let c_global_green = match read_column(payload, columns, COL_GLOBAL_GREEN, count, 4) { Ok(ws) => ws, Err(e) => { return Err(e); } };
    let c_global_chequered = match read_column(payload, columns, COL_GLOBAL_CHEQUERED, count, 4) { Ok(ws) => ws, Err(e) => { return Err(e); } };
    let c_global_red = match read_column(payload, columns, COL_GLOBAL_RED, count, 4) { Ok(ws) => ws, Err(e) => { return Err(e); } };
    let c_gap_ahead_or_tail_value = match read_column(payload, columns, COL_GAP_AHEAD_OR_TAIL, count, 4) { Ok(ws) => ws, Err(e) => { return Err(e); } };
    assert(session_error(p, cols, count as nat) is None);
    let mut out: Vec<SessionSample> = Vec::new();
    let mut i: usize = 0;
    while i < count
        invariant
            p == payload@,
            cols == columns@,
            i <= count,
            session_error(p, cols, count as nat) is None,
            column_words(p, cols, COL_SAMPLE_TICK, count as nat, 8) == Ok::<Seq<u64>, ErrorDesc>(c_ticks@),
            c_ticks@.len() == count,
            column_words(p, cols, COL_TIMESTAMP_NS, count as nat, 8) == Ok::<Seq<u64>, ErrorDesc>(c_timestamps@),
            c_timestamps@.len() == count,
            column_words(p, cols, COL_STATUS, count as nat, 4) == Ok::<Seq<u64>, ErrorDesc>(c_status@),
            c_status@.len() == count,
            column_words(p, cols, COL_SESSION, count as nat, 4) == Ok::<Seq<u64>, ErrorDesc>(c_session@),
            c_session@.len() == count,
            column_words(p, cols, COL_SESSION_INDEX, count as nat, 4) == Ok::<Seq<u64>, ErrorDesc>(c_session_index@),
            c_session_index@.len() == count,
            column_words(p, cols, COL_COMPLETED_LAPS, count as nat, 4) == Ok::<Seq<u64>, ErrorDesc>(c_completed_laps@),
            c_completed_laps@.len() == count,
            column_words(p, cols, COL_POSITION, count as nat, 4) == Ok::<Seq<u64>, ErrorDesc>(c_position@),
            c_position@.len() == count,
            column_words(p, cols, COL_SESSION_TIME_LEFT, count as nat, 4) == Ok::<Seq<u64>, ErrorDesc>(c_session_time_left@),
            c_session_time_left@.len() == count,
            column_words(p, cols, COL_NUMBER_OF_LAPS, count as nat, 4) == Ok::<Seq<u64>, ErrorDesc>(c_number_of_laps@),
            c_number_of_laps@.len() == count,
            column_words(p, cols, COL_CURRENT_SECTOR_INDEX, count as nat, 4) == Ok::<Seq<u64>, ErrorDesc>(c_current_sector_index@),
            c_current_sector_index@.len() == count,
            column_words(p, cols, COL_NORMALIZED_CAR_POSITION, count as nat, 4) == Ok::<Seq<u64>, ErrorDesc>(c_normalized_car_position@),
            c_normalized_car_position@.len() == count,
            column_words(p, cols, COL_IS_IN_PIT, count as nat, 4) == Ok::<Seq<u64>, ErrorDesc>(c_is_in_pit@),
            c_is_in_pit@.len() == count,
            column_words(p, cols, COL_IS_IN_PIT_LANE, count as nat, 4) == Ok::<Seq<u64>, ErrorDesc>(c_is_in_pit_lane@),
            c_is_in_pit_lane@.len() == count,
            column_words(p, cols, COL_MANDATORY_PIT_DONE, count as nat, 4) == Ok::<Seq<u64>, ErrorDesc>(c_mandatory_pit_done@),
            c_mandatory_pit_done@.len() == count,
            column_words(p, cols, COL_MISSING_MANDATORY_PITS, count as nat, 4) == Ok::<Seq<u64>, ErrorDesc>(c_missing_mandatory_pits@),
            c_missing_mandatory_pits@.len() == count,
            column_words(p, cols, COL_PENALTY_TIME, count as nat, 4) == Ok::<Seq<u64>, ErrorDesc>(c_penalty_time@),
            c_penalty_time@.len() == count,
            column_words(p, cols, COL_PENALTY_TYPE, count as nat, 4) == Ok::<Seq<u64>, ErrorDesc>(c_penalty_type@),
            c_penalty_type@.len() == count,
            c_track_status@.len() == count,
            array_column_items(p, cols, COL_TRACK_STATUS, count as nat, 33, 2) is Ok,
            forall|j: int| 0 <= j < count ==> (#[trigger] c_track_status@[j])@ == array_column_items(p, cols, COL_TRACK_STATUS, count as nat, 33, 2)->Ok_0[j],
            column_words(p, cols, COL_CLOCK, count as nat, 4) == Ok::<Seq<u64>, ErrorDesc>(c_clock@),
            c_clock@.len() == count,
            column_words(p, cols, COL_REPLAY_TIME_MULTIPLIER, count as nat, 4) == Ok::<Seq<u64>, ErrorDesc>(c_replay_time_multiplier@),
            c_replay_time_multiplier@.len() == count,
            column_words(p, cols, COL_IS_VALID_LAP, count as nat, 4) == Ok::<Seq<u64>, ErrorDesc>(c_is_valid_lap@),
            c_is_valid_lap@.len() == count,
            column_words(p, cols, COL_GLOBAL_YELLOW, count as nat, 4) == Ok::<Seq<u64>, ErrorDesc>(c_global_yellow@),
            c_global_yellow@.len() == count,
            column_words(p, cols, COL_GLOBAL_YELLOW1, count as nat, 4) == Ok::<Seq<u64>, ErrorDesc>(c_global_yellow1@),
            c_global_yellow1@.len() == count,
            column_words(p, cols, COL_GLOBAL_YELLOW2, count as nat, 4) == Ok::<Seq<u64>, ErrorDesc>(c_global_yellow2@),
            c_global_yellow2@.len() == count,
            column_words(p, cols, COL_GLOBAL_YELLOW3, count as nat, 4) == Ok::<Seq<u64>, ErrorDesc>(c_global_yellow3@),
            c_global_yellow3@.len() == count,
            column_words(p, cols, COL_GLOBAL_WHITE, count as nat, 4) == Ok::<Seq<u64>, ErrorDesc>(c_global_white@),
            c_global_white@.len() == count,
            column_words(p, cols, COL_GLOBAL_GREEN, count as nat, 4) == Ok::<Seq<u64>, ErrorDesc>(c_global_green@),
            c_global_green@.len() == count,
            column_words(p, cols, COL_GLOBAL_CHEQUERED, count as nat, 4) == Ok::<Seq<u64>, ErrorDesc>(c_global_chequered@),
            c_global_chequered@.len() == count,
            column_words(p, cols, COL_GLOBAL_RED, count as nat, 4) == Ok::<Seq<u64>, ErrorDesc>(c_global_red@),
            c_global_red@.len() == count,
            column_words(p, cols, COL_GAP_AHEAD_OR_TAIL, count as nat, 4) == Ok::<Seq<u64>, ErrorDesc>(c_gap_ahead_or_tail_value@),
            c_gap_ahead_or_tail_value@.len() == count,
            out@.len() == i,
            forall|j: int| 0 <= j < i ==> (#[trigger] out@[j])@ == sample_at_session(p, cols, count as nat, j),
        decreases count - i,
    {
        let s = SessionSample {
            sample_tick: c_ticks[i],
            timestamp_ns: c_timestamps[i],
            status: c_status[i] as u32 as i32,
            session: c_session[i] as u32 as i32,
            session_index: c_session_index[i] as u32 as i32,
            completed_laps: c_completed_laps[i] as u32 as i32,
            position: c_position[i] as u32 as i32,
            session_time_left: c_session_time_left[i] as u32,
            number_of_laps: c_number_of_laps[i] as u32 as i32,
            current_sector_index: c_current_sector_index[i] as u32 as i32,
            normalized_car_position: c_normalized_car_position[i] as u32,
            is_in_pit: c_is_in_pit[i] as u32 as i32,
            is_in_pit_lane: c_is_in_pit_lane[i] as u32 as i32,
            mandatory_pit_done: c_mandatory_pit_done[i] as u32 as i32,
            missing_mandatory_pits: c_missing_mandatory_pits[i] as u32 as i32,
            penalty_time: c_penalty_time[i] as u32,
            penalty_type: c_penalty_type[i] as u32 as i32,
            track_status: words_to_u16(&c_track_status[i]),
            clock: c_clock[i] as u32,
            replay_time_multiplier: c_replay_time_multiplier[i] as u32,
            is_valid_lap: c_is_valid_lap[i] as u32 as i32,
            global_yellow: c_global_yellow[i] as u32 as i32,
            global_yellow1: c_global_yellow1[i] as u32 as i32,
            global_yellow2: c_global_yellow2[i] as u32 as i32,
            global_yellow3: c_global_yellow3[i] as u32 as i32,
            global_white: c_global_white[i] as u32 as i32,
            global_green: c_global_green[i] as u32 as i32,
            global_chequered: c_global_chequered[i] as u32 as i32,
            global_red: c_global_red[i] as u32 as i32,
            gap_ahead_or_tail_value: c_gap_ahead_or_tail_value[i] as u32 as i32,
        };
        out.push(s);
        i = i + 1;
    }
    assert(spec_decode_session(p, cols, count as nat) == Ok::<Seq<SessionSampleView>, ErrorDesc>(Seq::new(count as nat, |k: int| sample_at_session(p, cols, count as nat, k))));
    Ok(out)
}

impl BinaryTelemetryReader {
    /// All session samples of the recording, chunk by chunk in index order.
    pub fn read_all_session(&self) -> (r: TelemetryResult<Vec<SessionSample>>)
        ensures
            samples_match(r, spec_read_all(self.data(), self.opened().2, CLUSTER_SESSION,
                |p: Seq<u8>, cols: Seq<ColumnEntry>, n: nat| spec_decode_session(p, cols, n))),
    {
        let entries = self.chunk_index();
        let ghost es = entries@;
        let ghost dec = |p: Seq<u8>, cols: Seq<ColumnEntry>, n: nat| spec_decode_session(p, cols, n);
        let mut out: Vec<SessionSample> = Vec::new();
        let mut i: usize = 0;
        while i < entries.len()
            invariant
                es == entries@,
                es == self.opened().2,
                dec == (|p: Seq<u8>, cols: Seq<ColumnEntry>, n: nat| spec_decode_session(p, cols, n)),
                i <= es.len(),
                samples_match(Ok::<Vec<SessionSample>, TelemetryError>(out), spec_read_all(self.data(), es.subrange(0, i as int), CLUSTER_SESSION, dec)),
            decreases es.len() - i,
        {
            let ghost before = out@;
            proof { lemma_read_all_step(self.data(), es, i as int, CLUSTER_SESSION, dec); }
            if entries[i].cluster_id == CLUSTER_SESSION {
                let (header, cols, payload) = match read_chunk(self, &entries[i], CLUSTER_SESSION) {
                    Ok(c) => c,
                    Err(e) => {
                        proof {
                            lemma_read_all_error_persists(self.data(), es, (i + 1) as int, es.len() as int, CLUSTER_SESSION, dec);
                            assert(es.subrange(0, es.len() as int) =~= es);
                        }
                        return Err(e);
                    },
                };
                let samples = match decode_session_payload(payload, cols.as_slice(), header.sample_count as usize) {
                    Ok(s) => s,
                    Err(e) => {
                        proof {
                            lemma_read_all_error_persists(self.data(), es, (i + 1) as int, es.len() as int, CLUSTER_SESSION, dec);
                            assert(es.subrange(0, es.len() as int) =~= es);
                        }
                        return Err(e);
                    },
                };
                let mut samples = samples;
                let ghost added = samples@;
                out.append(&mut samples);
                proof {
                    assert forall|j: int| 0 <= j < out@.len() implies (#[trigger] out@[j])@ == spec_read_all(self.data(), es.subrange(0, i + 1), CLUSTER_SESSION, dec)->Ok_0[j] by {
                        if j < before.len() {
                            assert(out@[j] == before[j]);
                        } else {
                            assert(out@[j] == added[j - before.len()]);
                        }
                    }
                }
            }
            i = i + 1;
        }
        assert(es.subrange(0, es.len() as int) =~= es);
        Ok(out)
    }
}

/// A sample of the timing cluster. Floating-point values are held as
/// their bit patterns.
#[derive(Debug, Clone)]
pub struct TimingSample {
    pub sample_tick: u64,
    pub timestamp_ns: u64,
    pub i_current_time: i32,
    pub i_last_time: i32,
    pub i_best_time: i32,
    pub i_split: i32,
    pub last_sector_time: i32,
    pub i_delta_lap_time: i32,
    pub is_delta_positive: i32,
    pub i_estimated_lap_time: i32,
    pub fuel_estimated_laps: u32,
    pub fuel_x_lap: u32,
    pub used_fuel: u32,
    pub distance_traveled: u32,
    pub current_time_str: Vec<u16>,
    pub last_time_str: Vec<u16>,
    pub best_time_str: Vec<u16>,
    pub split_str: Vec<u16>,
    pub delta_lap_time_str: Vec<u16>,
    pub estimated_lap_time_str: Vec<u16>,
    pub observed_slot_before_i_split: i32,
}

/// A sample of the timing cluster as plain values.
pub struct TimingSampleView {
    pub sample_tick: u64,
    pub timestamp_ns: u64,
    pub i_current_time: i32,
    pub i_last_time: i32,
    pub i_best_time: i32,
    pub i_split: i32,
    pub last_sector_time: i32,
    pub i_delta_lap_time: i32,
    pub is_delta_positive: i32,
    pub i_estimated_lap_time: i32,
    pub fuel_estimated_laps: u32,
    pub fuel_x_lap: u32,
    pub used_fuel: u32,
    pub distance_traveled: u32,
    pub current_time_str: Seq<u16>,
    pub last_time_str: Seq<u16>,
    pub best_time_str: Seq<u16>,
    pub split_str: Seq<u16>,
    pub delta_lap_time_str: Seq<u16>,
    pub estimated_lap_time_str: Seq<u16>,
    pub observed_slot_before_i_split: i32,
}

impl View for TimingSample {
    type V = TimingSampleView;

    open spec fn view(&self) -> TimingSampleView {
        TimingSampleView {
            sample_tick: self.sample_tick,
            timestamp_ns: self.timestamp_ns,
            i_current_time: self.i_current_time,
            i_last_time: self.i_last_time,
            i_best_time: self.i_best_time,
            i_split: self.i_split,
            last_sector_time: self.last_sector_time,
            i_delta_lap_time: self.i_delta_lap_time,
            is_delta_positive: self.is_delta_positive,
            i_estimated_lap_time: self.i_estimated_lap_time,
            fuel_estimated_laps: self.fuel_estimated_laps,
            fuel_x_lap: self.fuel_x_lap,
            used_fuel: self.used_fuel,
            distance_traveled: self.distance_traveled,
            current_time_str: self.current_time_str@,
            last_time_str: self.last_time_str@,
            best_time_str: self.best_time_str@,
            split_str: self.split_str@,
            delta_lap_time_str: self.delta_lap_time_str@,
            estimated_lap_time_str: self.estimated_lap_time_str@,
            observed_slot_before_i_split: self.observed_slot_before_i_split,
        }
    }
}

/// Sample `k` of a timing chunk whose columns all read.
pub open spec fn sample_at_timing(p: Seq<u8>, cols: Seq<ColumnEntry>, count: nat, k: int) -> TimingSampleView {
    TimingSampleView {
            sample_tick: column_words(p, cols, COL_SAMPLE_TICK, count, 8)->Ok_0[k],
            timestamp_ns: column_words(p, cols, COL_TIMESTAMP_NS, count, 8)->Ok_0[k],
            i_current_time: (column_words(p, cols, COL_I_CURRENT_TIME, count, 4)->Ok_0[k] as u32) as i32,
            i_last_time: (column_words(p, cols, COL_I_LAST_TIME, count, 4)->Ok_0[k] as u32) as i32,
            i_best_time: (column_words(p, cols, COL_I_BEST_TIME, count, 4)->Ok_0[k] as u32) as i32,
            i_split: (column_words(p, cols, COL_I_SPLIT, count, 4)->Ok_0[k] as u32) as i32,
            last_sector_time: (column_words(p, cols, COL_LAST_SECTOR_TIME, count, 4)->Ok_0[k] as u32) as i32,
            i_delta_lap_time: (column_words(p, cols, COL_I_DELTA_LAP_TIME, count, 4)->Ok_0[k] as u32) as i32,
            is_delta_positive: (column_words(p, cols, COL_IS_DELTA_POSITIVE, count, 4)->Ok_0[k] as u32) as i32,
            i_estimated_lap_time: (column_words(p, cols, COL_I_ESTIMATED_LAP_TIME, count, 4)->Ok_0[k] as u32) as i32,
            fuel_estimated_laps: column_words(p, cols, COL_FUEL_ESTIMATED_LAPS, count, 4)->Ok_0[k] as u32,
            fuel_x_lap: column_words(p, cols, COL_FUEL_X_LAP, count, 4)->Ok_0[k] as u32,
            used_fuel: column_words(p, cols, COL_USED_FUEL, count, 4)->Ok_0[k] as u32,
            distance_traveled: column_words(p, cols, COL_DISTANCE_TRAVELED, count, 4)->Ok_0[k] as u32,
            current_time_str: lanes_u16(array_column_items(p, cols, COL_CURRENT_TIME_STR, count, 15, 2)->Ok_0[k]),
            last_time_str: lanes_u16(array_column_items(p, cols, COL_LAST_TIME_STR, count, 15, 2)->Ok_0[k]),
            best_time_str: lanes_u16(array_column_items(p, cols, COL_BEST_TIME_STR, count, 15, 2)->Ok_0[k]),
            split_str: lanes_u16(array_column_items(p, cols, COL_SPLIT_STR, count, 15, 2)->Ok_0[k]),
            delta_lap_time_str: lanes_u16(array_column_items(p, cols, COL_DELTA_LAP_TIME_STR, count, 15, 2)->Ok_0[k]),
            estimated_lap_time_str: lanes_u16(array_column_items(p, cols, COL_ESTIMATED_LAP_TIME_STR, count, 15, 2)->Ok_0[k]),
            observed_slot_before_i_split: (column_words(p, cols, COL_OBSERVED_SLOT_BEFORE_I_SPLIT, count, 4)->Ok_0[k] as u32) as i32,
    }
}

/// The first failing column read of a timing chunk, in reading order.
pub open spec fn timing_error(p: Seq<u8>, cols: Seq<ColumnEntry>, count: nat) -> Option<ErrorDesc> {
    first_error(column_words(p, cols, COL_SAMPLE_TICK, count, 8),
        first_error(column_words(p, cols, COL_TIMESTAMP_NS, count, 8),
        first_error(column_words(p, cols, COL_I_CURRENT_TIME, count, 4),
        first_error(column_words(p, cols, COL_I_LAST_TIME, count, 4),
        first_error(column_words(p, cols, COL_I_BEST_TIME, count, 4),
        first_error(column_words(p, cols, COL_I_SPLIT, count, 4),
        first_error(column_words(p, cols, COL_LAST_SECTOR_TIME, count, 4),
        first_error(column_words(p, cols, COL_I_DELTA_LAP_TIME, count, 4),
        first_error(column_words(p, cols, COL_IS_DELTA_POSITIVE, count, 4),
        first_error(column_words(p, cols, COL_I_ESTIMATED_LAP_TIME, count, 4),
        first_error(column_words(p, cols, COL_FUEL_ESTIMATED_LAPS, count, 4),
        first_error(column_words(p, cols, COL_FUEL_X_LAP, count, 4),
        first_error(column_words(p, cols, COL_USED_FUEL, count, 4),
        first_error(column_words(p, cols, COL_DISTANCE_TRAVELED, count, 4),
        first_error(array_column_items(p, cols, COL_CURRENT_TIME_STR, count, 15, 2),
        first_error(array_column_items(p, cols, COL_LAST_TIME_STR, count, 15, 2),
        first_error(array_column_items(p, cols, COL_BEST_TIME_STR, count, 15, 2),
        first_error(array_column_items(p, cols, COL_SPLIT_STR, count, 15, 2),
        first_error(array_column_items(p, cols, COL_DELTA_LAP_TIME_STR, count, 15, 2),
        first_error(array_column_items(p, cols, COL_ESTIMATED_LAP_TIME_STR, count, 15, 2),
        first_error(column_words(p, cols, COL_OBSERVED_SLOT_BEFORE_I_SPLIT, count, 4),
        None)))))))))))))))))))))
}

/// What decoding a timing chunk's payload of `count` samples gives.
pub open spec fn spec_decode_timing(p: Seq<u8>, cols: Seq<ColumnEntry>, count: nat) -> Result<Seq<TimingSampleView>, ErrorDesc> {
    match timing_error(p, cols, count) {
        Some(d) => Err(d),
        None => Ok(Seq::new(count, |k: int| sample_at_timing(p, cols, count, k))),
    }
}

/// Each field of a decoded timing sample comes from the column with that
/// field's own id: sample `k` holds the `k`-th value of that column (for an
/// array field, its `k`-th item), read at the column's width.
pub proof fn lemma_timing_fields_from_own_columns(p: Seq<u8>, cols: Seq<ColumnEntry>, count: nat, k: int)
    requires
        spec_decode_timing(p, cols, count) is Ok,
        0 <= k < count,
    ensures
        ({
            let s = spec_decode_timing(p, cols, count)->Ok_0[k];
            &&& s.sample_tick == column_words(p, cols, COL_SAMPLE_TICK, count, 8)->Ok_0[k]
            &&& s.timestamp_ns == column_words(p, cols, COL_TIMESTAMP_NS, count, 8)->Ok_0[k]
            &&& s.i_current_time == (column_words(p, cols, COL_I_CURRENT_TIME, count, 4)->Ok_0[k] as u32) as i32
            &&& s.i_last_time == (column_words(p, cols, COL_I_LAST_TIME, count, 4)->Ok_0[k] as u32) as i32
            &&& s.i_best_time == (column_words(p, cols, COL_I_BEST_TIME, count, 4)->Ok_0[k] as u32) as i32
            &&& s.i_split == (column_words(p, cols, COL_I_SPLIT, count, 4)->Ok_0[k] as u32) as i32
            &&& s.last_sector_time == (column_words(p, cols, COL_LAST_SECTOR_TIME, count, 4)->Ok_0[k] as u32) as i32
            &&& s.i_delta_lap_time == (column_words(p, cols, COL_I_DELTA_LAP_TIME, count, 4)->Ok_0[k] as u32) as i32
            &&& s.is_delta_positive == (column_words(p, cols, COL_IS_DELTA_POSITIVE, count, 4)->Ok_0[k] as u32) as i32
            &&& s.i_estimated_lap_time == (column_words(p, cols, COL_I_ESTIMATED_LAP_TIME, count, 4)->Ok_0[k] as u32) as i32
            &&& s.fuel_estimated_laps == column_words(p, cols, COL_FUEL_ESTIMATED_LAPS, count, 4)->Ok_0[k] as u32
            &&& s.fuel_x_lap == column_words(p, cols, COL_FUEL_X_LAP, count, 4)->Ok_0[k] as u32
            &&& s.used_fuel == column_words(p, cols, COL_USED_FUEL, count, 4)->Ok_0[k] as u32
            &&& s.distance_traveled == column_words(p, cols, COL_DISTANCE_TRAVELED, count, 4)->Ok_0[k] as u32
            &&& s.current_time_str == lanes_u16(array_column_items(p, cols, COL_CURRENT_TIME_STR, count, 15, 2)->Ok_0[k])
            &&& s.last_time_str == lanes_u16(array_column_items(p, cols, COL_LAST_TIME_STR, count, 15, 2)->Ok_0[k])
            &&& s.best_time_str == lanes_u16(array_column_items(p, cols, COL_BEST_TIME_STR, count, 15, 2)->Ok_0[k])
            &&& s.split_str == lanes_u16(array_column_items(p, cols, COL_SPLIT_STR, count, 15, 2)->Ok_0[k])
            &&& s.delta_lap_time_str == lanes_u16(array_column_items(p, cols, COL_DELTA_LAP_TIME_STR, count, 15, 2)->Ok_0[k])
            &&& s.estimated_lap_time_str == lanes_u16(array_column_items(p, cols, COL_ESTIMATED_LAP_TIME_STR, count, 15, 2)->Ok_0[k])
            &&& s.observed_slot_before_i_split == (column_words(p, cols, COL_OBSERVED_SLOT_BEFORE_I_SPLIT, count, 4)->Ok_0[k] as u32) as i32
        }),
{
}

/// Decode a timing chunk's payload of `count` samples.
fn decode_timing_payload(payload: &[u8], columns: &[ColumnEntry], count: usize) -> (r: TelemetryResult<Vec<TimingSample>>)
    requires
        count <= u32::MAX,
    ensures
        samples_match(r, spec_decode_timing(payload@, columns@, count as nat)),
{
    let ghost p = payload@;
    let ghost cols = columns@;
    let c_ticks = match read_column(payload, columns, COL_SAMPLE_TICK, count, 8) { Ok(ws) => ws, Err(e) => { return Err(e); } };
    let c_timestamps = match read_column(payload, columns, COL_TIMESTAMP_NS, count, 8) { Ok(ws) => ws, Err(e) => { return Err(e); } };
    let c_i_current_time = match read_column(payload, columns, COL_I_CURRENT_TIME, count, 4) { Ok(ws) => ws, Err(e) => { return Err(e); } };
    let c_i_last_time = match read_column(payload, columns, COL_I_LAST_TIME, count, 4) { Ok(ws) => ws, Err(e) => { return Err(e); } };
    let c_i_best_time = match read_column(payload, columns, COL_I_BEST_TIME, count, 4) { Ok(ws) => ws, Err(e) => { return Err(e); } };
    let c_i_split = match read_column(payload, columns, COL_I_SPLIT, count, 4) { Ok(ws) => ws, Err(e) => { return Err(e); } };
    let c_last_sector_time = match read_column(payload, columns, COL_LAST_SECTOR_TIME, count, 4) { Ok(ws) => ws, Err(e) => { return Err(e); } };
    let c_i_delta_lap_time = match read_column(payload, columns, COL_I_DELTA_LAP_TIME, count, 4) { Ok(ws) => ws, Err(e) => { return Err(e); } };
    let c_is_delta_positive = match read_column(payload, columns, COL_IS_DELTA_POSITIVE, count, 4) { Ok(ws) => ws, Err(e) => { return Err(e); } };
    let c_i_estimated_lap_time = match read_column(payload, columns, COL_I_ESTIMATED_LAP_TIME, count, 4) { Ok(ws) => ws, Err(e) => { return Err(e); } };
    let c_fuel_estimated_laps = match read_column(payload, columns, COL_FUEL_ESTIMATED_LAPS, count, 4) { Ok(ws) => ws, Err(e) => { return Err(e); } };
    let c_fuel_x_lap = match read_column(payload, columns, COL_FUEL_X_LAP, count, 4) { Ok(ws) => ws, Err(e) => { return Err(e); } };
    let c_used_fuel = match read_column(payload, columns, COL_USED_FUEL, count, 4) { Ok(ws) => ws, Err(e) => { return Err(e); } };
    let c_distance_traveled = match read_column(payload, columns, COL_DISTANCE_TRAVELED, count, 4) { Ok(ws) => ws, Err(e) => { return Err(e); } };
    let c_current_time_str = match read_array(payload, columns, COL_CURRENT_TIME_STR, count, 15, 2) { Ok(ws) => ws, Err(e) => { return Err(e); } };
    let c_last_time_str = match read_array(payload, columns, COL_LAST_TIME_STR, count, 15, 2) { Ok(ws) => ws, Err(e) => { return Err(e); } };
    let c_best_time_str = match read_array(payload, columns, COL_BEST_TIME_STR, count, 15, 2) { Ok(ws) => ws, Err(e) => { return Err(e); } };
    let c_split_str = match read_array(payload, columns, COL_SPLIT_STR, count, 15, 2) { Ok(ws) => ws, Err(e) => { return Err(e); } };
    let c_delta_lap_time_str = match read_array(payload, columns, COL_DELTA_LAP_TIME_STR, count, 15, 2) { Ok(ws) => ws, Err(e) => { return Err(e); } };
    let c_estimated_lap_time_str = match read_array(payload, columns, COL_ESTIMATED_LAP_TIME_STR, count, 15, 2) { Ok(ws) => ws, Err(e) => { return Err(e); } };
    let c_observed_slot_before_i_split = match read_column(payload, columns, COL_OBSERVED_SLOT_BEFORE_I_SPLIT, count, 4) { Ok(ws) => ws, Err(e) => { return Err(e); } };
    assert(timing_error(p, cols, count as nat) is None);
    let mut out: Vec<TimingSample> = Vec::new();
    let mut i: usize = 0;
    while i < count
        invariant
            p == payload@,
            cols == columns@,
            i <= count,
            timing_error(p, cols, count as nat) is None,
            column_words(p, cols, COL_SAMPLE_TICK, count as nat, 8) == Ok::<Seq<u64>, ErrorDesc>(c_ticks@),
            c_ticks@.len() == count,
            column_words(p, cols, COL_TIMESTAMP_NS, count as nat, 8) == Ok::<Seq<u64>, ErrorDesc>(c_timestamps@),
            c_timestamps@.len() == count,
            column_words(p, cols, COL_I_CURRENT_TIME, count as nat, 4) == Ok::<Seq<u64>, ErrorDesc>(c_i_current_time@),
            c_i_current_time@.len() == count,
            column_words(p, cols, COL_I_LAST_TIME, count as nat, 4) == Ok::<Seq<u64>, ErrorDesc>(c_i_last_time@),
            c_i_last_time@.len() == count,
            column_words(p, cols, COL_I_BEST_TIME, count as nat, 4) == Ok::<Seq<u64>, ErrorDesc>(c_i_best_time@),
            c_i_best_time@.len() == count,
            column_words(p, cols, COL_I_SPLIT, count as nat, 4) == Ok::<Seq<u64>, ErrorDesc>(c_i_split@),
            c_i_split@.len() == count,
            column_words(p, cols, COL_LAST_SECTOR_TIME, count as nat, 4) == Ok::<Seq<u64>, ErrorDesc>(c_last_sector_time@),
            c_last_sector_time@.len() == count,
            column_words(p, cols, COL_I_DELTA_LAP_TIME, count as nat, 4) == Ok::<Seq<u64>, ErrorDesc>(c_i_delta_lap_time@),
            c_i_delta_lap_time@.len() == count,
            column_words(p, cols, COL_IS_DELTA_POSITIVE, count as nat, 4) == Ok::<Seq<u64>, ErrorDesc>(c_is_delta_positive@),
            c_is_delta_positive@.len() == count,
            column_words(p, cols, COL_I_ESTIMATED_LAP_TIME, count as nat, 4) == Ok::<Seq<u64>, ErrorDesc>(c_i_estimated_lap_time@),
            c_i_estimated_lap_time@.len() == count,
            column_words(p, cols, COL_FUEL_ESTIMATED_LAPS, count as nat, 4) == Ok::<Seq<u64>, ErrorDesc>(c_fuel_estimated_laps@),
            c_fuel_estimated_laps@.len() == count,
            column_words(p, cols, COL_FUEL_X_LAP, count as nat, 4) == Ok::<Seq<u64>, ErrorDesc>(c_fuel_x_lap@),
            c_fuel_x_lap@.len() == count,
            column_words(p, cols, COL_USED_FUEL, count as nat, 4) == Ok::<Seq<u64>, ErrorDesc>(c_used_fuel@),
            c_used_fuel@.len() == count,
            column_words(p, cols, COL_DISTANCE_TRAVELED, count as nat, 4) == Ok::<Seq<u64>, ErrorDesc>(c_distance_traveled@),
            c_distance_traveled@.len() == count,
            c_current_time_str@.len() == count,
            array_column_items(p, cols, COL_CURRENT_TIME_STR, count as nat, 15, 2) is Ok,
            forall|j: int| 0 <= j < count ==> (#[trigger] c_current_time_str@[j])@ == array_column_items(p, cols, COL_CURRENT_TIME_STR, count as nat, 15, 2)->Ok_0[j],
            c_last_time_str@.len() == count,
            array_column_items(p, cols, COL_LAST_TIME_STR, count as nat, 15, 2) is Ok,
            forall|j: int| 0 <= j < count ==> (#[trigger] c_last_time_str@[j])@ == array_column_items(p, cols, COL_LAST_TIME_STR, count as nat, 15, 2)->Ok_0[j],
            c_best_time_str@.len() == count,
            array_column_items(p, cols, COL_BEST_TIME_STR, count as nat, 15, 2) is Ok,
            forall|j: int| 0 <= j < count ==> (#[trigger] c_best_time_str@[j])@ == array_column_items(p, cols, COL_BEST_TIME_STR, count as nat, 15, 2)->Ok_0[j],
            c_split_str@.len() == count,
            array_column_items(p, cols, COL_SPLIT_STR, count as nat, 15, 2) is Ok,
            forall|j: int| 0 <= j < count ==> (#[trigger] c_split_str@[j])@ == array_column_items(p, cols, COL_SPLIT_STR, count as nat, 15, 2)->Ok_0[j],
            c_delta_lap_time_str@.len() == count,
            array_column_items(p, cols, COL_DELTA_LAP_TIME_STR, count as nat, 15, 2) is Ok,
            forall|j: int| 0 <= j < count ==> (#[trigger] c_delta_lap_time_str@[j])@ == array_column_items(p, cols, COL_DELTA_LAP_TIME_STR, count as nat, 15, 2)->Ok_0[j],
            c_estimated_lap_time_str@.len() == count,
            array_column_items(p, cols, COL_ESTIMATED_LAP_TIME_STR, count as nat, 15, 2) is Ok,
            forall|j: int| 0 <= j < count ==> (#[trigger] c_estimated_lap_time_str@[j])@ == array_column_items(p, cols, COL_ESTIMATED_LAP_TIME_STR, count as nat, 15, 2)->Ok_0[j],
            column_words(p, cols, COL_OBSERVED_SLOT_BEFORE_I_SPLIT, count as nat, 4) == Ok::<Seq<u64>, ErrorDesc>(c_observed_slot_before_i_split@),
            c_observed_slot_before_i_split@.len() == count,
            out@.len() == i,
            forall|j: int| 0 <= j < i ==> (#[trigger] out@[j])@ == sample_at_timing(p, cols, count as nat, j),
        decreases count - i,
    {
        let s = TimingSample {
            sample_tick: c_ticks[i],
            timestamp_ns: c_timestamps[i],
            i_current_time: c_i_current_time[i] as u32 as i32,
            i_last_time: c_i_last_time[i] as u32 as i32,
            i_best_time: c_i_best_time[i] as u32 as i32,
            i_split: c_i_split[i] as u32 as i32,
            last_sector_time: c_last_sector_time[i] as u32 as i32,
            i_delta_lap_time: c_i_delta_lap_time[i] as u32 as i32,
            is_delta_positive: c_is_delta_positive[i] as u32 as i32,
            i_estimated_lap_time: c_i_estimated_lap_time[i] as u32 as i32,
            fuel_estimated_laps: c_fuel_estimated_laps[i] as u32,
            fuel_x_lap: c_fuel_x_lap[i] as u32,
            used_fuel: c_used_fuel[i] as u32,
            distance_traveled: c_distance_traveled[i] as u32,
            current_time_str: words_to_u16(&c_current_time_str[i]),
            last_time_str: words_to_u16(&c_last_time_str[i]),
            best_time_str: words_to_u16(&c_best_time_str[i]),
            split_str: words_to_u16(&c_split_str[i]),
            delta_lap_time_str: words_to_u16(&c_delta_lap_time_str[i]),
            estimated_lap_time_str: words_to_u16(&c_estimated_lap_time_str[i]),
            observed_slot_before_i_split: c_observed_slot_before_i_split[i] as u32 as i32,
        };
        out.push(s);
        i = i + 1;
    }
    assert(spec_decode_timing(p, cols, count as nat) == Ok::<Seq<TimingSampleView>, ErrorDesc>(Seq::new(count as nat, |k: int| sample_at_timing(p, cols, count as nat, k))));
    Ok(out)
}

impl BinaryTelemetryReader {
    /// All timing samples of the recording, chunk by chunk in index order.
    pub fn read_all_timing(&self) -> (r: TelemetryResult<Vec<TimingSample>>)
        ensures
            samples_match(r, spec_read_all(self.data(), self.opened().2, CLUSTER_TIMING,
                |p: Seq<u8>, cols: Seq<ColumnEntry>, n: nat| spec_decode_timing(p, cols, n))),
    {
        let entries = self.chunk_index();
        let ghost es = entries@;
        let ghost dec = |p: Seq<u8>, cols: Seq<ColumnEntry>, n: nat| spec_decode_timing(p, cols, n);
        let mut out: Vec<TimingSample> = Vec::new();
        let mut i: usize = 0;
        while i < entries.len()
            invariant
                es == entries@,
                es == self.opened().2,
                dec == (|p: Seq<u8>, cols: Seq<ColumnEntry>, n: nat| spec_decode_timing(p, cols, n)),
                i <= es.len(),
                samples_match(Ok::<Vec<TimingSample>, TelemetryError>(out), spec_read_all(self.data(), es.subrange(0, i as int), CLUSTER_TIMING, dec)),
            decreases es.len() - i,
        {
            let ghost before = out@;
            proof { lemma_read_all_step(self.data(), es, i as int, CLUSTER_TIMING, dec); }
            if entries[i].cluster_id == CLUSTER_TIMING {
                let (header, cols, payload) = match read_chunk(self, &entries[i], CLUSTER_TIMING) {
                    Ok(c) => c,
                    Err(e) => {
                        proof {
                            lemma_read_all_error_persists(self.data(), es, (i + 1) as int, es.len() as int, CLUSTER_TIMING, dec);
                            assert(es.subrange(0, es.len() as int) =~= es);
                        }
                        return Err(e);
                    },
                };
                let samples = match decode_timing_payload(payload, cols.as_slice(), header.sample_count as usize) {
                    Ok(s) => s,
                    Err(e) => {
                        proof {
                            lemma_read_all_error_persists(self.data(), es, (i + 1) as int, es.len() as int, CLUSTER_TIMING, dec);
                            assert(es.subrange(0, es.len() as int) =~= es);
                        }
                        return Err(e);
                    },
                };
                let mut samples = samples;
                let ghost added = samples@;
                out.append(&mut samples);
                proof {
                    assert forall|j: int| 0 <= j < out@.len() implies (#[trigger] out@[j])@ == spec_read_all(self.data(), es.subrange(0, i + 1), CLUSTER_TIMING, dec)->Ok_0[j] by {
                        if j < before.len() {
                            assert(out@[j] == before[j]);
                        } else {
                            assert(out@[j] == added[j - before.len()]);
                        }
                    }
                }
            }
            i = i + 1;
        }
        assert(es.subrange(0, es.len() as int) =~= es);
        Ok(out)
    }
}

/// A sample of the environment cluster. Floating-point values are held as
/// their bit patterns.
#[derive(Debug, Clone)]
pub struct EnvironmentSample {
    pub sample_tick: u64,
    pub timestamp_ns: u64,
    pub air_density: u32,
    pub air_temp: u32,
    pub road_temp: u32,
    pub wind_speed: u32,
    pub wind_direction: u32,
    pub surface_grip: u32,
    pub rain_intensity: i32,
    pub rain_intensity_in_10min: i32,
    pub rain_intensity_in_30min: i32,
}

/// A sample of the environment cluster as plain values.
pub struct EnvironmentSampleView {
    pub sample_tick: u64,
    pub timestamp_ns: u64,
    pub air_density: u32,
    pub air_temp: u32,
    pub road_temp: u32,
    pub wind_speed: u32,
    pub wind_direction: u32,
    pub surface_grip: u32,
    pub rain_intensity: i32,
    pub rain_intensity_in_10min: i32,
    pub rain_intensity_in_30min: i32,
}

impl View for EnvironmentSample {
    type V = EnvironmentSampleView;

    open spec fn view(&self) -> EnvironmentSampleView {
        EnvironmentSampleView {
            sample_tick: self.sample_tick,
            timestamp_ns: self.timestamp_ns,
            air_density: self.air_density,
            air_temp: self.air_temp,
            road_temp: self.road_temp,
            wind_speed: self.wind_speed,
            wind_direction: self.wind_direction,
            surface_grip: self.surface_grip,
            rain_intensity: self.rain_intensity,
            rain_intensity_in_10min: self.rain_intensity_in_10min,
            rain_intensity_in_30min: self.rain_intensity_in_30min,
        }
    }
}

/// Sample `k` of a environment chunk whose columns all read.
pub open spec fn sample_at_environment(p: Seq<u8>, cols: Seq<ColumnEntry>, count: nat, k: int) -> EnvironmentSampleView {
    EnvironmentSampleView {
            sample_tick: column_words(p, cols, COL_SAMPLE_TICK, count, 8)->Ok_0[k],
            timestamp_ns: column_words(p, cols, COL_TIMESTAMP_NS, count, 8)->Ok_0[k],
            air_density: column_words(p, cols, COL_AIR_DENSITY, count, 4)->Ok_0[k] as u32,
            air_temp: column_words(p, cols, COL_AIR_TEMP, count, 4)->Ok_0[k] as u32,
            road_temp: column_words(p, cols, COL_ROAD_TEMP, count, 4)->Ok_0[k] as u32,
            wind_speed: column_words(p, cols, COL_WIND_SPEED, count, 4)->Ok_0[k] as u32,
            wind_direction: column_words(p, cols, COL_WIND_DIRECTION, count, 4)->Ok_0[k] as u32,
            surface_grip: column_words(p, cols, COL_SURFACE_GRIP, count, 4)->Ok_0[k] as u32,
            rain_intensity: (column_words(p, cols, COL_RAIN_INTENSITY, count, 4)->Ok_0[k] as u32) as i32,
            rain_intensity_in_10min: (column_words(p, cols, COL_RAIN_INTENSITY_IN_10MIN, count, 4)->Ok_0[k] as u32) as i32,
            rain_intensity_in_30min: (column_words(p, cols, COL_RAIN_INTENSITY_IN_30MIN, count, 4)->Ok_0[k] as u32) as i32,
    }
}

/// The first failing column read of a environment chunk, in reading order.
pub open spec fn environment_error(p: Seq<u8>, cols: Seq<ColumnEntry>, count: nat) -> Option<ErrorDesc> {
    first_error(column_words(p, cols, COL_SAMPLE_TICK, count, 8),
        first_error(column_words(p, cols, COL_TIMESTAMP_NS, count, 8),
        first_error(column_words(p, cols, COL_AIR_DENSITY, count, 4),
        first_error(column_words(p, cols, COL_AIR_TEMP, count, 4),
        first_error(column_words(p, cols, COL_ROAD_TEMP, count, 4),
        first_error(column_words(p, cols, COL_WIND_SPEED, count, 4),
        first_error(column_words(p, cols, COL_WIND_DIRECTION, count, 4),
        first_error(column_words(p, cols, COL_SURFACE_GRIP, count, 4),
        first_error(column_words(p, cols, COL_RAIN_INTENSITY, count, 4),
        first_error(column_words(p, cols, COL_RAIN_INTENSITY_IN_10MIN, count, 4),
        first_error(column_words(p, cols, COL_RAIN_INTENSITY_IN_30MIN, count, 4),
        None)))))))))))
}

/// What decoding a environment chunk's payload of `count` samples gives.
pub open spec fn spec_decode_environment(p: Seq<u8>, cols: Seq<ColumnEntry>, count: nat) -> Result<Seq<EnvironmentSampleView>, ErrorDesc> {
    match environment_error(p, cols, count) {
        Some(d) => Err(d),
        None => Ok(Seq::new(count, |k: int| sample_at_environment(p, cols, count, k))),
    }
}

/// Each field of a decoded environment sample comes from the column with that
/// field's own id: sample `k` holds the `k`-th value of that column (for an
/// array field, its `k`-th item), read at the column's width.
pub proof fn lemma_environment_fields_from_own_columns(p: Seq<u8>, cols: Seq<ColumnEntry>, count: nat, k: int)
    requires
        spec_decode_environment(p, cols, count) is Ok,
        0 <= k < count,
    ensures
        ({
            let s = spec_decode_environment(p, cols, count)->Ok_0[k];
            &&& s.sample_tick == column_words(p, cols, COL_SAMPLE_TICK, count, 8)->Ok_0[k]
            &&& s.timestamp_ns == column_words(p, cols, COL_TIMESTAMP_NS, count, 8)->Ok_0[k]
            &&& s.air_density == column_words(p, cols, COL_AIR_DENSITY, count, 4)->Ok_0[k] as u32
            &&& s.air_temp == column_words(p, cols, COL_AIR_TEMP, count, 4)->Ok_0[k] as u32
            &&& s.road_temp == column_words(p, cols, COL_ROAD_TEMP, count, 4)->Ok_0[k] as u32
            &&& s.wind_speed == column_words(p, cols, COL_WIND_SPEED, count, 4)->Ok_0[k] as u32
            &&& s.wind_direction == column_words(p, cols, COL_WIND_DIRECTION, count, 4)->Ok_0[k] as u32
            &&& s.surface_grip == column_words(p, cols, COL_SURFACE_GRIP, count, 4)->Ok_0[k] as u32
            &&& s.rain_intensity == (column_words(p, cols, COL_RAIN_INTENSITY, count, 4)->Ok_0[k] as u32) as i32
            &&& s.rain_intensity_in_10min == (column_words(p, cols, COL_RAIN_INTENSITY_IN_10MIN, count, 4)->Ok_0[k] as u32) as i32
            &&& s.rain_intensity_in_30min == (column_words(p, cols, COL_RAIN_INTENSITY_IN_30MIN, count, 4)->Ok_0[k] as u32) as i32
        }),
{
}

/// Decode a environment chunk's payload of `count` samples.
fn decode_environment_payload(payload: &[u8], columns: &[ColumnEntry], count: usize) -> (r: TelemetryResult<Vec<EnvironmentSample>>)
    requires
        count <= u32::MAX,
    ensures
        samples_match(r, spec_decode_environment(payload@, columns@, count as nat)),
{
    let ghost p = payload@;
    let ghost cols = columns@;
    let c_ticks = match read_column(payload, columns, COL_SAMPLE_TICK, count, 8) { Ok(ws) => ws, Err(e) => { return Err(e); } };
    let c_timestamps = match read_column(payload, columns, COL_TIMESTAMP_NS, count, 8) { Ok(ws) => ws, Err(e) => { return Err(e); } };
    let c_air_density = match read_column(payload, columns, COL_AIR_DENSITY, count, 4) { Ok(ws) => ws, Err(e) => { return Err(e); } };
    let c_air_temp = match read_column(payload, columns, COL_AIR_TEMP, count, 4) { Ok(ws) => ws, Err(e) => { return Err(e); } };
    let c_road_temp = match read_column(payload, columns, COL_ROAD_TEMP, count, 4) { Ok(ws) => ws, Err(e) => { return Err(e); } };
    let c_wind_speed = match read_column(payload, columns, COL_WIND_SPEED, count, 4) { Ok(ws) => ws, Err(e) => { return Err(e); } };
    let c_wind_direction = match read_column(payload, columns, COL_WIND_DIRECTION, count, 4) { Ok(ws) => ws, Err(e) => { return Err(e); } };
    let c_surface_grip = match read_column(payload, columns, COL_SURFACE_GRIP, count, 4) { Ok(ws) => ws, Err(e) => { return Err(e); } };
    let c_rain_intensity = match read_column(payload, columns, COL_RAIN_INTENSITY, count, 4) { Ok(ws) => ws, Err(e) => { return Err(e); } };
    let c_rain_intensity_in_10min = match read_column(payload, columns, COL_RAIN_INTENSITY_IN_10MIN, count, 4) { Ok(ws) => ws, Err(e) => { return Err(e); } };
    let c_rain_intensity_in_30min = match read_column(payload, columns, COL_RAIN_INTENSITY_IN_30MIN, count, 4) { Ok(ws) => ws, Err(e) => { return Err(e); } };
    assert(environment_error(p, cols, count as nat) is None);
    let mut out: Vec<EnvironmentSample> = Vec::new();
    let mut i: usize = 0;
    while i < count
        invariant
            p == payload@,
            cols == columns@,
            i <= count,
            environment_error(p, cols, count as nat) is None,
            column_words(p, cols, COL_SAMPLE_TICK, count as nat, 8) == Ok::<Seq<u64>, ErrorDesc>(c_ticks@),
            c_ticks@.len() == count,
            column_words(p, cols, COL_TIMESTAMP_NS, count as nat, 8) == Ok::<Seq<u64>, ErrorDesc>(c_timestamps@),
            c_timestamps@.len() == count,
            column_words(p, cols, COL_AIR_DENSITY, count as nat, 4) == Ok::<Seq<u64>, ErrorDesc>(c_air_density@),
            c_air_density@.len() == count,
            column_words(p, cols, COL_AIR_TEMP, count as nat, 4) == Ok::<Seq<u64>, ErrorDesc>(c_air_temp@),
            c_air_temp@.len() == count,
            column_words(p, cols, COL_ROAD_TEMP, count as nat, 4) == Ok::<Seq<u64>, ErrorDesc>(c_road_temp@),
            c_road_temp@.len() == count,
            column_words(p, cols, COL_WIND_SPEED, count as nat, 4) == Ok::<Seq<u64>, ErrorDesc>(c_wind_speed@),
            c_wind_speed@.len() == count,
            column_words(p, cols, COL_WIND_DIRECTION, count as nat, 4) == Ok::<Seq<u64>, ErrorDesc>(c_wind_direction@),
            c_wind_direction@.len() == count,
            column_words(p, cols, COL_SURFACE_GRIP, count as nat, 4) == Ok::<Seq<u64>, ErrorDesc>(c_surface_grip@),
            c_surface_grip@.len() == count,
            column_words(p, cols, COL_RAIN_INTENSITY, count as nat, 4) == Ok::<Seq<u64>, ErrorDesc>(c_rain_intensity@),
            c_rain_intensity@.len() == count,
            column_words(p, cols, COL_RAIN_INTENSITY_IN_10MIN, count as nat, 4) == Ok::<Seq<u64>, ErrorDesc>(c_rain_intensity_in_10min@),
            c_rain_intensity_in_10min@.len() == count,
            column_words(p, cols, COL_RAIN_INTENSITY_IN_30MIN, count as nat, 4) == Ok::<Seq<u64>, ErrorDesc>(c_rain_intensity_in_30min@),
            c_rain_intensity_in_30min@.len() == count,
            out@.len() == i,
            forall|j: int| 0 <= j < i ==> (#[trigger] out@[j])@ == sample_at_environment(p, cols, count as nat, j),
        decreases count - i,
    {
        let s = EnvironmentSample {
            sample_tick: c_ticks[i],
            timestamp_ns: c_timestamps[i],
            air_density: c_air_density[i] as u32,
            air_temp: c_air_temp[i] as u32,
            road_temp: c_road_temp[i] as u32,
            wind_speed: c_wind_speed[i] as u32,
            wind_direction: c_wind_direction[i] as u32,
            surface_grip: c_surface_grip[i] as u32,
            rain_intensity: c_rain_intensity[i] as u32 as i32,
            rain_intensity_in_10min: c_rain_intensity_in_10min[i] as u32 as i32,
            rain_intensity_in_30min: c_rain_intensity_in_30min[i] as u32 as i32,
        };
        out.push(s);
        i = i + 1;
    }
    assert(spec_decode_environment(p, cols, count as nat) == Ok::<Seq<EnvironmentSampleView>, ErrorDesc>(Seq::new(count as nat, |k: int| sample_at_environment(p, cols, count as nat, k))));
    Ok(out)
}

impl BinaryTelemetryReader {
    /// All environment samples of the recording, chunk by chunk in index order.
    pub fn read_all_environment(&self) -> (r: TelemetryResult<Vec<EnvironmentSample>>)
        ensures
            samples_match(r, spec_read_all(self.data(), self.opened().2, CLUSTER_ENVIRONMENT,
                |p: Seq<u8>, cols: Seq<ColumnEntry>, n: nat| spec_decode_environment(p, cols, n))),
    {
        let entries = self.chunk_index();
        let ghost es = entries@;
        let ghost dec = |p: Seq<u8>, cols: Seq<ColumnEntry>, n: nat| spec_decode_environment(p, cols, n);
        let mut out: Vec<EnvironmentSample> = Vec::new();
        let mut i: usize = 0;
        while i < entries.len()
            invariant
                es == entries@,
                es == self.opened().2,
                dec == (|p: Seq<u8>, cols: Seq<ColumnEntry>, n: nat| spec_decode_environment(p, cols, n)),
                i <= es.len(),
                samples_match(Ok::<Vec<EnvironmentSample>, TelemetryError>(out), spec_read_all(self.data(), es.subrange(0, i as int), CLUSTER_ENVIRONMENT, dec)),
            decreases es.len() - i,
        {
            let ghost before = out@;
            proof { lemma_read_all_step(self.data(), es, i as int, CLUSTER_ENVIRONMENT, dec); }
            if entries[i].cluster_id == CLUSTER_ENVIRONMENT {
                let (header, cols, payload) = match read_chunk(self, &entries[i], CLUSTER_ENVIRONMENT) {
                    Ok(c) => c,
                    Err(e) => {
                        proof {
                            lemma_read_all_error_persists(self.data(), es, (i + 1) as int, es.len() as int, CLUSTER_ENVIRONMENT, dec);
                            assert(es.subrange(0, es.len() as int) =~= es);
                        }
                        return Err(e);
                    },
                };
                let samples = match decode_environment_payload(payload, cols.as_slice(), header.sample_count as usize) {
                    Ok(s) => s,
                    Err(e) => {
                        proof {
                            lemma_read_all_error_persists(self.data(), es, (i + 1) as int, es.len() as int, CLUSTER_ENVIRONMENT, dec);
                            assert(es.subrange(0, es.len() as int) =~= es);
                        }
                        return Err(e);
                    },
                };
                let mut samples = samples;
                let ghost added = samples@;
                out.append(&mut samples);
                proof {
                    assert forall|j: int| 0 <= j < out@.len() implies (#[trigger] out@[j])@ == spec_read_all(self.data(), es.subrange(0, i + 1), CLUSTER_ENVIRONMENT, dec)->Ok_0[j] by {
                        if j < before.len() {
                            assert(out@[j] == before[j]);
                        } else {
                            assert(out@[j] == added[j - before.len()]);
                        }
                    }
                }
            }
            i = i + 1;
        }
        assert(es.subrange(0, es.len() as int) =~= es);
        Ok(out)
    }
}

/// A sample of the motion cluster. Floating-point values are held as
/// their bit patterns.
#[derive(Debug, Clone)]
pub struct MotionSample {
    pub sample_tick: u64,
    pub timestamp_ns: u64,
    pub velocity: Vec<u32>,
    pub acc_g: Vec<u32>,
    pub local_velocity: Vec<u32>,
    pub local_angular_vel: Vec<u32>,
    pub heading: u32,
    pub pitch: u32,
    pub roll: u32,
}

/// A sample of the motion cluster as plain values.
pub struct MotionSampleView {
    pub sample_tick: u64,
    pub timestamp_ns: u64,
    pub velocity: Seq<u32>,
    pub acc_g: Seq<u32>,
    pub local_velocity: Seq<u32>,
    pub local_angular_vel: Seq<u32>,
    pub heading: u32,
    pub pitch: u32,
    pub roll: u32,
}

impl View for MotionSample {
    type V = MotionSampleView;

    open spec fn view(&self) -> MotionSampleView {
        MotionSampleView {
            sample_tick: self.sample_tick,
            timestamp_ns: self.timestamp_ns,
            velocity: self.velocity@,
            acc_g: self.acc_g@,
            local_velocity: self.local_velocity@,
            local_angular_vel: self.local_angular_vel@,
            heading: self.heading,
            pitch: self.pitch,
            roll: self.roll,
        }
    }
}

/// Sample `k` of a motion chunk whose columns all read.
pub open spec fn sample_at_motion(p: Seq<u8>, cols: Seq<ColumnEntry>, count: nat, k: int) -> MotionSampleView {
    MotionSampleView {
            sample_tick: column_words(p, cols, COL_SAMPLE_TICK, count, 8)->Ok_0[k],
            timestamp_ns: column_words(p, cols, COL_TIMESTAMP_NS, count, 8)->Ok_0[k],
            velocity: lanes_u32(array_column_items(p, cols, COL_VELOCITY, count, 3, 4)->Ok_0[k]),
            acc_g: lanes_u32(array_column_items(p, cols, COL_ACC_G, count, 3, 4)->Ok_0[k]),
            local_velocity: lanes_u32(array_column_items(p, cols, COL_LOCAL_VELOCITY, count, 3, 4)->Ok_0[k]),
            local_angular_vel: lanes_u32(array_column_items(p, cols, COL_LOCAL_ANGULAR_VEL, count, 3, 4)->Ok_0[k]),
            heading: column_words(p, cols, COL_HEADING, count, 4)->Ok_0[k] as u32,
            pitch: column_words(p, cols, COL_PITCH, count, 4)->Ok_0[k] as u32,
            roll: column_words(p, cols, COL_ROLL, count, 4)->Ok_0[k] as u32,
    }
}

/// The first failing column read of a motion chunk, in reading order.
pub open spec fn motion_error(p: Seq<u8>, cols: Seq<ColumnEntry>, count: nat) -> Option<ErrorDesc> {
    first_error(column_words(p, cols, COL_SAMPLE_TICK, count, 8),
        first_error(column_words(p, cols, COL_TIMESTAMP_NS, count, 8),
        first_error(array_column_items(p, cols, COL_VELOCITY, count, 3, 4),
        first_error(array_column_items(p, cols, COL_ACC_G, count, 3, 4),
        first_error(array_column_items(p, cols, COL_LOCAL_VELOCITY, count, 3, 4),
        first_error(array_column_items(p, cols, COL_LOCAL_ANGULAR_VEL, count, 3, 4),
        first_error(column_words(p, cols, COL_HEADING, count, 4),
        first_error(column_words(p, cols, COL_PITCH, count, 4),
        first_error(column_words(p, cols, COL_ROLL, count, 4),
        None)))))))))
}

/// What decoding a motion chunk's payload of `count` samples gives.
pub open spec fn spec_decode_motion(p: Seq<u8>, cols: Seq<ColumnEntry>, count: nat) -> Result<Seq<MotionSampleView>, ErrorDesc> {
    match motion_error(p, cols, count) {
        Some(d) => Err(d),
        None => Ok(Seq::new(count, |k: int| sample_at_motion(p, cols, count, k))),
    }
}

/// Each field of a decoded motion sample comes from the column with that
/// field's own id: sample `k` holds the `k`-th value of that column (for an
/// array field, its `k`-th item), read at the column's width.
pub proof fn lemma_motion_fields_from_own_columns(p: Seq<u8>, cols: Seq<ColumnEntry>, count: nat, k: int)
    requires
        spec_decode_motion(p, cols, count) is Ok,
        0 <= k < count,
    ensures
        ({
            let s = spec_decode_motion(p, cols, count)->Ok_0[k];
            &&& s.sample_tick == column_words(p, cols, COL_SAMPLE_TICK, count, 8)->Ok_0[k]
            &&& s.timestamp_ns == column_words(p, cols, COL_TIMESTAMP_NS, count, 8)->Ok_0[k]
            &&& s.velocity == lanes_u32(array_column_items(p, cols, COL_VELOCITY, count, 3, 4)->Ok_0[k])
            &&& s.acc_g == lanes_u32(array_column_items(p, cols, COL_ACC_G, count, 3, 4)->Ok_0[k])
            &&& s.local_velocity == lanes_u32(array_column_items(p, cols, COL_LOCAL_VELOCITY, count, 3, 4)->Ok_0[k])
            &&& s.local_angular_vel == lanes_u32(array_column_items(p, cols, COL_LOCAL_ANGULAR_VEL, count, 3, 4)->Ok_0[k])
            &&& s.heading == column_words(p, cols, COL_HEADING, count, 4)->Ok_0[k] as u32
            &&& s.pitch == column_words(p, cols, COL_PITCH, count, 4)->Ok_0[k] as u32
            &&& s.roll == column_words(p, cols, COL_ROLL, count, 4)->Ok_0[k] as u32
        }),
{
}

/// Decode a motion chunk's payload of `count` samples.
fn decode_motion_payload(payload: &[u8], columns: &[ColumnEntry], count: usize) -> (r: TelemetryResult<Vec<MotionSample>>)
    requires
        count <= u32::MAX,
    ensures
        samples_match(r, spec_decode_motion(payload@, columns@, count as nat)),
{
    let ghost p = payload@;
    let ghost cols = columns@;
    let c_ticks = match read_column(payload, columns, COL_SAMPLE_TICK, count, 8) { Ok(ws) => ws, Err(e) => { return Err(e); } };
    let c_timestamps = match read_column(payload, columns, COL_TIMESTAMP_NS, count, 8) { Ok(ws) => ws, Err(e) => { return Err(e); } };
    let c_velocity = match read_array(payload, columns, COL_VELOCITY, count, 3, 4) { Ok(ws) => ws, Err(e) => { return Err(e); } };
    let c_acc_g = match read_array(payload, columns, COL_ACC_G, count, 3, 4) { Ok(ws) => ws, Err(e) => { return Err(e); } };
    let c_local_velocity = match read_array(payload, columns, COL_LOCAL_VELOCITY, count, 3, 4) { Ok(ws) => ws, Err(e) => { return Err(e); } };
    let c_local_angular_vel = match read_array(payload, columns, COL_LOCAL_ANGULAR_VEL, count, 3, 4) { Ok(ws) => ws, Err(e) => { return Err(e); } };
    let c_heading = match read_column(payload, columns, COL_HEADING, count, 4) { Ok(ws) => ws, Err(e) => { return Err(e); } };
    let c_pitch = match read_column(payload, columns, COL_PITCH, count, 4) { Ok(ws) => ws, Err(e) => { return Err(e); } };
    let c_roll = match read_column(payload, columns, COL_ROLL, count, 4) { Ok(ws) => ws, Err(e) => { return Err(e); } };
    assert(motion_error(p, cols, count as nat) is None);
    let mut out: Vec<MotionSample> = Vec::new();
    let mut i: usize = 0;
    while i < count
        invariant
            p == payload@,
            cols == columns@,
            i <= count,
            motion_error(p, cols, count as nat) is None,
            column_words(p, cols, COL_SAMPLE_TICK, count as nat, 8) == Ok::<Seq<u64>, ErrorDesc>(c_ticks@),
            c_ticks@.len() == count,
            column_words(p, cols, COL_TIMESTAMP_NS, count as nat, 8) == Ok::<Seq<u64>, ErrorDesc>(c_timestamps@),
            c_timestamps@.len() == count,
            c_velocity@.len() == count,
            array_column_items(p, cols, COL_VELOCITY, count as nat, 3, 4) is Ok,
            forall|j: int| 0 <= j < count ==> (#[trigger] c_velocity@[j])@ == array_column_items(p, cols, COL_VELOCITY, count as nat, 3, 4)->Ok_0[j],
            c_acc_g@.len() == count,
            array_column_items(p, cols, COL_ACC_G, count as nat, 3, 4) is Ok,
            forall|j: int| 0 <= j < count ==> (#[trigger] c_acc_g@[j])@ == array_column_items(p, cols, COL_ACC_G, count as nat, 3, 4)->Ok_0[j],
            c_local_velocity@.len() == count,
            array_column_items(p, cols, COL_LOCAL_VELOCITY, count as nat, 3, 4) is Ok,
            forall|j: int| 0 <= j < count ==> (#[trigger] c_local_velocity@[j])@ == array_column_items(p, cols, COL_LOCAL_VELOCITY, count as nat, 3, 4)->Ok_0[j],
            c_local_angular_vel@.len() == count,
            array_column_items(p, cols, COL_LOCAL_ANGULAR_VEL, count as nat, 3, 4) is Ok,
            forall|j: int| 0 <= j < count ==> (#[trigger] c_local_angular_vel@[j])@ == array_column_items(p, cols, COL_LOCAL_ANGULAR_VEL, count as nat, 3, 4)->Ok_0[j],
            column_words(p, cols, COL_HEADING, count as nat, 4) == Ok::<Seq<u64>, ErrorDesc>(c_heading@),
            c_heading@.len() == count,
            column_words(p, cols, COL_PITCH, count as nat, 4) == Ok::<Seq<u64>, ErrorDesc>(c_pitch@),
            c_pitch@.len() == count,
            column_words(p, cols, COL_ROLL, count as nat, 4) == Ok::<Seq<u64>, ErrorDesc>(c_roll@),
            c_roll@.len() == count,
            out@.len() == i,
            forall|j: int| 0 <= j < i ==> (#[trigger] out@[j])@ == sample_at_motion(p, cols, count as nat, j),
        decreases count - i,
    {
        let s = MotionSample {
            sample_tick: c_ticks[i],
            timestamp_ns: c_timestamps[i],
            velocity: words_to_u32(&c_velocity[i]),
            acc_g: words_to_u32(&c_acc_g[i]),
            local_velocity: words_to_u32(&c_local_velocity[i]),
            local_angular_vel: words_to_u32(&c_local_angular_vel[i]),
            heading: c_heading[i] as u32,
            pitch: c_pitch[i] as u32,
            roll: c_roll[i] as u32,
        };
        out.push(s);
        i = i + 1;
    }
    assert(spec_decode_motion(p, cols, count as nat) == Ok::<Seq<MotionSampleView>, ErrorDesc>(Seq::new(count as nat, |k: int| sample_at_motion(p, cols, count as nat, k))));
    Ok(out)
}

impl BinaryTelemetryReader {
    /// All motion samples of the recording, chunk by chunk in index order.
    pub fn read_all_motion(&self) -> (r: TelemetryResult<Vec<MotionSample>>)
        ensures
            samples_match(r, spec_read_all(self.data(), self.opened().2, CLUSTER_MOTION,
                |p: Seq<u8>, cols: Seq<ColumnEntry>, n: nat| spec_decode_motion(p, cols, n))),
    {
        let entries = self.chunk_index();
        let ghost es = entries@;
        let ghost dec = |p: Seq<u8>, cols: Seq<ColumnEntry>, n: nat| spec_decode_motion(p, cols, n);
        let mut out: Vec<MotionSample> = Vec::new();
        let mut i: usize = 0;
        while i < entries.len()
            invariant
                es == entries@,
                es == self.opened().2,
                dec == (|p: Seq<u8>, cols: Seq<ColumnEntry>, n: nat| spec_decode_motion(p, cols, n)),
                i <= es.len(),
                samples_match(Ok::<Vec<MotionSample>, TelemetryError>(out), spec_read_all(self.data(), es.subrange(0, i as int), CLUSTER_MOTION, dec)),
            decreases es.len() - i,
        {
            let ghost before = out@;
            proof { lemma_read_all_step(self.data(), es, i as int, CLUSTER_MOTION, dec); }
            if entries[i].cluster_id == CLUSTER_MOTION {
                let (header, cols, payload) = match read_chunk(self, &entries[i], CLUSTER_MOTION) {
                    Ok(c) => c,
                    Err(e) => {
                        proof {
                            lemma_read_all_error_persists(self.data(), es, (i + 1) as int, es.len() as int, CLUSTER_MOTION, dec);
                            assert(es.subrange(0, es.len() as int) =~= es);
                        }
                        return Err(e);
                    },
                };
                let samples = match decode_motion_payload(payload, cols.as_slice(), header.sample_count as usize) {
                    Ok(s) => s,
                    Err(e) => {
                        proof {
                            lemma_read_all_error_persists(self.data(), es, (i + 1) as int, es.len() as int, CLUSTER_MOTION, dec);
                            assert(es.subrange(0, es.len() as int) =~= es);
                        }
                        return Err(e);
                    },
                };
                let mut samples = samples;
                let ghost added = samples@;
                out.append(&mut samples);
                proof {
                    assert forall|j: int| 0 <= j < out@.len() implies (#[trigger] out@[j])@ == spec_read_all(self.data(), es.subrange(0, i + 1), CLUSTER_MOTION, dec)->Ok_0[j] by {
                        if j < before.len() {
                            assert(out@[j] == before[j]);
                        } else {
                            assert(out@[j] == added[j - before.len()]);
                        }
                    }
                }
            }
            i = i + 1;
        }
        assert(es.subrange(0, es.len() as int) =~= es);
        Ok(out)
    }
}

/// A sample of the tyres cluster. Floating-point values are held as
/// their bit patterns.
#[derive(Debug, Clone)]
pub struct TyreSample {
    pub sample_tick: u64,
    pub timestamp_ns: u64,
    pub wheel_slip: Vec<u32>,
    pub wheel_load: Vec<u32>,
    pub wheels_pressure: Vec<u32>,
    pub wheel_angular_speed: Vec<u32>,
    pub tyre_wear: Vec<u32>,
    pub tyre_dirty_level: Vec<u32>,
    pub tyre_core_temperature: Vec<u32>,
    pub camber_rad: Vec<u32>,
    pub suspension_travel: Vec<u32>,
    pub slip_ratio: Vec<u32>,
    pub slip_angle: Vec<u32>,
    pub tyre_temp_i: Vec<u32>,
    pub tyre_temp_m: Vec<u32>,
    pub tyre_temp_o: Vec<u32>,
    pub tyre_temp: Vec<u32>,
    pub mz: Vec<u32>,
    pub fx: Vec<u32>,
    pub fy: Vec<u32>,
    pub suspension_damage: Vec<u32>,
    pub brake_temp: Vec<u32>,
    pub brake_pressure: Vec<u32>,
    pub pad_life: Vec<u32>,
    pub disc_life: Vec<u32>,
    pub tyre_contact_point: Vec<u32>,
    pub tyre_contact_normal: Vec<u32>,
    pub tyre_contact_heading: Vec<u32>,
    pub number_of_tyres_out: i32,
    pub front_brake_compound: i32,
    pub rear_brake_compound: i32,
}

/// A sample of the tyres cluster as plain values.
pub struct TyreSampleView {
    pub sample_tick: u64,
    pub timestamp_ns: u64,
    pub wheel_slip: Seq<u32>,
    pub wheel_load: Seq<u32>,
    pub wheels_pressure: Seq<u32>,
    pub wheel_angular_speed: Seq<u32>,
    pub tyre_wear: Seq<u32>,
    pub tyre_dirty_level: Seq<u32>,
    pub tyre_core_temperature: Seq<u32>,
    pub camber_rad: Seq<u32>,
    pub suspension_travel: Seq<u32>,
    pub slip_ratio: Seq<u32>,
    pub slip_angle: Seq<u32>,
    pub tyre_temp_i: Seq<u32>,
    pub tyre_temp_m: Seq<u32>,
    pub tyre_temp_o: Seq<u32>,
    pub tyre_temp: Seq<u32>,
    pub mz: Seq<u32>,
    pub fx: Seq<u32>,
    pub fy: Seq<u32>,
    pub suspension_damage: Seq<u32>,
    pub brake_temp: Seq<u32>,
    pub brake_pressure: Seq<u32>,
    pub pad_life: Seq<u32>,
    pub disc_life: Seq<u32>,
    pub tyre_contact_point: Seq<u32>,
    pub tyre_contact_normal: Seq<u32>,
    pub tyre_contact_heading: Seq<u32>,
    pub number_of_tyres_out: i32,
    pub front_brake_compound: i32,
    pub rear_brake_compound: i32,
}

impl View for TyreSample {
    type V = TyreSampleView;

    open spec fn view(&self) -> TyreSampleView {
        TyreSampleView {
            sample_tick: self.sample_tick,
            timestamp_ns: self.timestamp_ns,
            wheel_slip: self.wheel_slip@,
            wheel_load: self.wheel_load@,
            wheels_pressure: self.wheels_pressure@,
            wheel_angular_speed: self.wheel_angular_speed@,
            tyre_wear: self.tyre_wear@,
            tyre_dirty_level: self.tyre_dirty_level@,
            tyre_core_temperature: self.tyre_core_temperature@,
            camber_rad: self.camber_rad@,
            suspension_travel: self.suspension_travel@,
            slip_ratio: self.slip_ratio@,
            slip_angle: self.slip_angle@,
            tyre_temp_i: self.tyre_temp_i@,
            tyre_temp_m: self.tyre_temp_m@,
            tyre_temp_o: self.tyre_temp_o@,
            tyre_temp: self.tyre_temp@,
            mz: self.mz@,
            fx: self.fx@,
            fy: self.fy@,
            suspension_damage: self.suspension_damage@,
            brake_temp: self.brake_temp@,
            brake_pressure: self.brake_pressure@,
            pad_life: self.pad_life@,
            disc_life: self.disc_life@,
            tyre_contact_point: self.tyre_contact_point@,
            tyre_contact_normal: self.tyre_contact_normal@,
            tyre_contact_heading: self.tyre_contact_heading@,
            number_of_tyres_out: self.number_of_tyres_out,
            front_brake_compound: self.front_brake_compound,
            rear_brake_compound: self.rear_brake_compound,
        }
    }
}

/// Sample `k` of a tyres chunk whose columns all read.
pub open spec fn sample_at_tyres(p: Seq<u8>, cols: Seq<ColumnEntry>, count: nat, k: int) -> TyreSampleView {
    TyreSampleView {
            sample_tick: column_words(p, cols, COL_SAMPLE_TICK, count, 8)->Ok_0[k],
            timestamp_ns: column_words(p, cols, COL_TIMESTAMP_NS, count, 8)->Ok_0[k],
            wheel_slip: lanes_u32(array_column_items(p, cols, COL_WHEEL_SLIP, count, 4, 4)->Ok_0[k]),
            wheel_load: lanes_u32(array_column_items(p, cols, COL_WHEEL_LOAD, count, 4, 4)->Ok_0[k]),
            wheels_pressure: lanes_u32(array_column_items(p, cols, COL_WHEELS_PRESSURE, count, 4, 4)->Ok_0[k]),
            wheel_angular_speed: lanes_u32(array_column_items(p, cols, COL_WHEEL_ANGULAR_SPEED, count, 4, 4)->Ok_0[k]),
            tyre_wear: lanes_u32(array_column_items(p, cols, COL_TYRE_WEAR, count, 4, 4)->Ok_0[k]),
            tyre_dirty_level: lanes_u32(array_column_items(p, cols, COL_TYRE_DIRTY_LEVEL, count, 4, 4)->Ok_0[k]),
            tyre_core_temperature: lanes_u32(array_column_items(p, cols, COL_TYRE_CORE_TEMPERATURE, count, 4, 4)->Ok_0[k]),
            camber_rad: lanes_u32(array_column_items(p, cols, COL_CAMBER_RAD, count, 4, 4)->Ok_0[k]),
            suspension_travel: lanes_u32(array_column_items(p, cols, COL_SUSPENSION_TRAVEL, count, 4, 4)->Ok_0[k]),
            slip_ratio: lanes_u32(array_column_items(p, cols, COL_SLIP_RATIO, count, 4, 4)->Ok_0[k]),
            slip_angle: lanes_u32(array_column_items(p, cols, COL_SLIP_ANGLE, count, 4, 4)->Ok_0[k]),
            tyre_temp_i: lanes_u32(array_column_items(p, cols, COL_TYRE_TEMP_I, count, 4, 4)->Ok_0[k]),
            tyre_temp_m: lanes_u32(array_column_items(p, cols, COL_TYRE_TEMP_M, count, 4, 4)->Ok_0[k]),
            tyre_temp_o: lanes_u32(array_column_items(p, cols, COL_TYRE_TEMP_O, count, 4, 4)->Ok_0[k]),
            tyre_temp: lanes_u32(array_column_items(p, cols, COL_TYRE_TEMP, count, 4, 4)->Ok_0[k]),
            mz: lanes_u32(array_column_items(p, cols, COL_MZ, count, 4, 4)->Ok_0[k]),
            fx: lanes_u32(array_column_items(p, cols, COL_FX, count, 4, 4)->Ok_0[k]),
            fy: lanes_u32(array_column_items(p, cols, COL_FY, count, 4, 4)->Ok_0[k]),
            suspension_damage: lanes_u32(array_column_items(p, cols, COL_SUSPENSION_DAMAGE, count, 4, 4)->Ok_0[k]),
            brake_temp: lanes_u32(array_column_items(p, cols, COL_BRAKE_TEMP, count, 4, 4)->Ok_0[k]),
            brake_pressure: lanes_u32(array_column_items(p, cols, COL_BRAKE_PRESSURE, count, 4, 4)->Ok_0[k]),
            pad_life: lanes_u32(array_column_items(p, cols, COL_PAD_LIFE, count, 4, 4)->Ok_0[k]),
            disc_life: lanes_u32(array_column_items(p, cols, COL_DISC_LIFE, count, 4, 4)->Ok_0[k]),
            tyre_contact_point: lanes_u32(array_column_items(p, cols, COL_TYRE_CONTACT_POINT, count, 12, 4)->Ok_0[k]),
            tyre_contact_normal: lanes_u32(array_column_items(p, cols, COL_TYRE_CONTACT_NORMAL, count, 12, 4)->Ok_0[k]),
            tyre_contact_heading: lanes_u32(array_column_items(p, cols, COL_TYRE_CONTACT_HEADING, count, 12, 4)->Ok_0[k]),
            number_of_tyres_out: (column_words(p, cols, COL_NUMBER_OF_TYRES_OUT, count, 4)->Ok_0[k] as u32) as i32,
            front_brake_compound: (column_words(p, cols, COL_FRONT_BRAKE_COMPOUND, count, 4)->Ok_0[k] as u32) as i32,
            rear_brake_compound: (column_words(p, cols, COL_REAR_BRAKE_COMPOUND, count, 4)->Ok_0[k] as u32) as i32,
    }
}

/// The first failing column read of a tyres chunk, in reading order.
pub open spec fn tyres_error(p: Seq<u8>, cols: Seq<ColumnEntry>, count: nat) -> Option<ErrorDesc> {
    first_error(column_words(p, cols, COL_SAMPLE_TICK, count, 8),
        first_error(column_words(p, cols, COL_TIMESTAMP_NS, count, 8),
        first_error(array_column_items(p, cols, COL_WHEEL_SLIP, count, 4, 4),
        first_error(array_column_items(p, cols, COL_WHEEL_LOAD, count, 4, 4),
        first_error(array_column_items(p, cols, COL_WHEELS_PRESSURE, count, 4, 4),
        first_error(array_column_items(p, cols, COL_WHEEL_ANGULAR_SPEED, count, 4, 4),
        first_error(array_column_items(p, cols, COL_TYRE_WEAR, count, 4, 4),
        first_error(array_column_items(p, cols, COL_TYRE_DIRTY_LEVEL, count, 4, 4),
        first_error(array_column_items(p, cols, COL_TYRE_CORE_TEMPERATURE, count, 4, 4),
        first_error(array_column_items(p, cols, COL_CAMBER_RAD, count, 4, 4),
        first_error(array_column_items(p, cols, COL_SUSPENSION_TRAVEL, count, 4, 4),
        first_error(array_column_items(p, cols, COL_SLIP_RATIO, count, 4, 4),
        first_error(array_column_items(p, cols, COL_SLIP_ANGLE, count, 4, 4),
        first_error(array_column_items(p, cols, COL_TYRE_TEMP_I, count, 4, 4),
        first_error(array_column_items(p, cols, COL_TYRE_TEMP_M, count, 4, 4),
        first_error(array_column_items(p, cols, COL_TYRE_TEMP_O, count, 4, 4),
        first_error(array_column_items(p, cols, COL_TYRE_TEMP, count, 4, 4),
        first_error(array_column_items(p, cols, COL_MZ, count, 4, 4),
        first_error(array_column_items(p, cols, COL_FX, count, 4, 4),
        first_error(array_column_items(p, cols, COL_FY, count, 4, 4),
        first_error(array_column_items(p, cols, COL_SUSPENSION_DAMAGE, count, 4, 4),
        first_error(array_column_items(p, cols, COL_BRAKE_TEMP, count, 4, 4),
        first_error(array_column_items(p, cols, COL_BRAKE_PRESSURE, count, 4, 4),
        first_error(array_column_items(p, cols, COL_PAD_LIFE, count, 4, 4),
        first_error(array_column_items(p, cols, COL_DISC_LIFE, count, 4, 4),
        first_error(array_column_items(p, cols, COL_TYRE_CONTACT_POINT, count, 12, 4),
        first_error(array_column_items(p, cols, COL_TYRE_CONTACT_NORMAL, count, 12, 4),
        first_error(array_column_items(p, cols, COL_TYRE_CONTACT_HEADING, count, 12, 4),
        first_error(column_words(p, cols, COL_NUMBER_OF_TYRES_OUT, count, 4),
        first_error(column_words(p, cols, COL_FRONT_BRAKE_COMPOUND, count, 4),
        first_error(column_words(p, cols, COL_REAR_BRAKE_COMPOUND, count, 4),
        None)))))))))))))))))))))))))))))))
}

/// What decoding a tyres chunk's payload of `count` samples gives.
pub open spec fn spec_decode_tyres(p: Seq<u8>, cols: Seq<ColumnEntry>, count: nat) -> Result<Seq<TyreSampleView>, ErrorDesc> {
    match tyres_error(p, cols, count) {
        Some(d) => Err(d),
        None => Ok(Seq::new(count, |k: int| sample_at_tyres(p, cols, count, k))),
    }
}

/// Each field of a decoded tyres sample comes from the column with that
/// field's own id: sample `k` holds the `k`-th value of that column (for an
/// array field, its `k`-th item), read at the column's width.
pub proof fn lemma_tyres_fields_from_own_columns(p: Seq<u8>, cols: Seq<ColumnEntry>, count: nat, k: int)
    requires
        spec_decode_tyres(p, cols, count) is Ok,
        0 <= k < count,
    ensures
        ({
            let s = spec_decode_tyres(p, cols, count)->Ok_0[k];
            &&& s.sample_tick == column_words(p, cols, COL_SAMPLE_TICK, count, 8)->Ok_0[k]
            &&& s.timestamp_ns == column_words(p, cols, COL_TIMESTAMP_NS, count, 8)->Ok_0[k]
            &&& s.wheel_slip == lanes_u32(array_column_items(p, cols, COL_WHEEL_SLIP, count, 4, 4)->Ok_0[k])
            &&& s.wheel_load == lanes_u32(array_column_items(p, cols, COL_WHEEL_LOAD, count, 4, 4)->Ok_0[k])
            &&& s.wheels_pressure == lanes_u32(array_column_items(p, cols, COL_WHEELS_PRESSURE, count, 4, 4)->Ok_0[k])
            &&& s.wheel_angular_speed == lanes_u32(array_column_items(p, cols, COL_WHEEL_ANGULAR_SPEED, count, 4, 4)->Ok_0[k])
            &&& s.tyre_wear == lanes_u32(array_column_items(p, cols, COL_TYRE_WEAR, count, 4, 4)->Ok_0[k])
            &&& s.tyre_dirty_level == lanes_u32(array_column_items(p, cols, COL_TYRE_DIRTY_LEVEL, count, 4, 4)->Ok_0[k])
            &&& s.tyre_core_temperature == lanes_u32(array_column_items(p, cols, COL_TYRE_CORE_TEMPERATURE, count, 4, 4)->Ok_0[k])
            &&& s.camber_rad == lanes_u32(array_column_items(p, cols, COL_CAMBER_RAD, count, 4, 4)->Ok_0[k])
            &&& s.suspension_travel == lanes_u32(array_column_items(p, cols, COL_SUSPENSION_TRAVEL, count, 4, 4)->Ok_0[k])
            &&& s.slip_ratio == lanes_u32(array_column_items(p, cols, COL_SLIP_RATIO, count, 4, 4)->Ok_0[k])
            &&& s.slip_angle == lanes_u32(array_column_items(p, cols, COL_SLIP_ANGLE, count, 4, 4)->Ok_0[k])
            &&& s.tyre_temp_i == lanes_u32(array_column_items(p, cols, COL_TYRE_TEMP_I, count, 4, 4)->Ok_0[k])
            &&& s.tyre_temp_m == lanes_u32(array_column_items(p, cols, COL_TYRE_TEMP_M, count, 4, 4)->Ok_0[k])
            &&& s.tyre_temp_o == lanes_u32(array_column_items(p, cols, COL_TYRE_TEMP_O, count, 4, 4)->Ok_0[k])
            &&& s.tyre_temp == lanes_u32(array_column_items(p, cols, COL_TYRE_TEMP, count, 4, 4)->Ok_0[k])
            &&& s.mz == lanes_u32(array_column_items(p, cols, COL_MZ, count, 4, 4)->Ok_0[k])
            &&& s.fx == lanes_u32(array_column_items(p, cols, COL_FX, count, 4, 4)->Ok_0[k])
            &&& s.fy == lanes_u32(array_column_items(p, cols, COL_FY, count, 4, 4)->Ok_0[k])
            &&& s.suspension_damage == lanes_u32(array_column_items(p, cols, COL_SUSPENSION_DAMAGE, count, 4, 4)->Ok_0[k])
            &&& s.brake_temp == lanes_u32(array_column_items(p, cols, COL_BRAKE_TEMP, count, 4, 4)->Ok_0[k])
            &&& s.brake_pressure == lanes_u32(array_column_items(p, cols, COL_BRAKE_PRESSURE, count, 4, 4)->Ok_0[k])
            &&& s.pad_life == lanes_u32(array_column_items(p, cols, COL_PAD_LIFE, count, 4, 4)->Ok_0[k])
            &&& s.disc_life == lanes_u32(array_column_items(p, cols, COL_DISC_LIFE, count, 4, 4)->Ok_0[k])
            &&& s.tyre_contact_point == lanes_u32(array_column_items(p, cols, COL_TYRE_CONTACT_POINT, count, 12, 4)->Ok_0[k])
            &&& s.tyre_contact_normal == lanes_u32(array_column_items(p, cols, COL_TYRE_CONTACT_NORMAL, count, 12, 4)->Ok_0[k])
            &&& s.tyre_contact_heading == lanes_u32(array_column_items(p, cols, COL_TYRE_CONTACT_HEADING, count, 12, 4)->Ok_0[k])
            &&& s.number_of_tyres_out == (column_words(p, cols, COL_NUMBER_OF_TYRES_OUT, count, 4)->Ok_0[k] as u32) as i32
            &&& s.front_brake_compound == (column_words(p, cols, COL_FRONT_BRAKE_COMPOUND, count, 4)->Ok_0[k] as u32) as i32
            &&& s.rear_brake_compound == (column_words(p, cols, COL_REAR_BRAKE_COMPOUND, count, 4)->Ok_0[k] as u32) as i32
        }),
{
}

/// Decode a tyres chunk's payload of `count` samples.
fn decode_tyres_payload(payload: &[u8], columns: &[ColumnEntry], count: usize) -> (r: TelemetryResult<Vec<TyreSample>>)
    requires
        count <= u32::MAX,
    ensures
        samples_match(r, spec_decode_tyres(payload@, columns@, count as nat)),
{
    let ghost p = payload@;
    let ghost cols = columns@;
    let c_ticks = match read_column(payload, columns, COL_SAMPLE_TICK, count, 8) { Ok(ws) => ws, Err(e) => { return Err(e); } };
    let c_timestamps = match read_column(payload, columns, COL_TIMESTAMP_NS, count, 8) { Ok(ws) => ws, Err(e) => { return Err(e); } };
    let c_wheel_slip = match read_array(payload, columns, COL_WHEEL_SLIP, count, 4, 4) { Ok(ws) => ws, Err(e) => { return Err(e); } };
    let c_wheel_load = match read_array(payload, columns, COL_WHEEL_LOAD, count, 4, 4) { Ok(ws) => ws, Err(e) => { return Err(e); } };
    let c_wheels_pressure = match read_array(payload, columns, COL_WHEELS_PRESSURE, count, 4, 4) { Ok(ws) => ws, Err(e) => { return Err(e); } };
    let c_wheel_angular_speed = match read_array(payload, columns, COL_WHEEL_ANGULAR_SPEED, count, 4, 4) { Ok(ws) => ws, Err(e) => { return Err(e); } };
    let c_tyre_wear = match read_array(payload, columns, COL_TYRE_WEAR, count, 4, 4) { Ok(ws) => ws, Err(e) => { return Err(e); } };
    let c_tyre_dirty_level = match read_array(payload, columns, COL_TYRE_DIRTY_LEVEL, count, 4, 4) { Ok(ws) => ws, Err(e) => { return Err(e); } };
    let c_tyre_core_temperature = match read_array(payload, columns, COL_TYRE_CORE_TEMPERATURE, count, 4, 4) { Ok(ws) => ws, Err(e) => { return Err(e); } };
    let c_camber_rad = match read_array(payload, columns, COL_CAMBER_RAD, count, 4, 4) { Ok(ws) => ws, Err(e) => { return Err(e); } };
    let c_suspension_travel = match read_array(payload, columns, COL_SUSPENSION_TRAVEL, count, 4, 4) { Ok(ws) => ws, Err(e) => { return Err(e); } };
    let c_slip_ratio = match read_array(payload, columns, COL_SLIP_RATIO, count, 4, 4) { Ok(ws) => ws, Err(e) => { return Err(e); } };
    let c_slip_angle = match read_array(payload, columns, COL_SLIP_ANGLE, count, 4, 4) { Ok(ws) => ws, Err(e) => { return Err(e); } };
    let c_tyre_temp_i = match read_array(payload, columns, COL_TYRE_TEMP_I, count, 4, 4) { Ok(ws) => ws, Err(e) => { return Err(e); } };
    let c_tyre_temp_m = match read_array(payload, columns, COL_TYRE_TEMP_M, count, 4, 4) { Ok(ws) => ws, Err(e) => { return Err(e); } };
    let c_tyre_temp_o = match read_array(payload, columns, COL_TYRE_TEMP_O, count, 4, 4) { Ok(ws) => ws, Err(e) => { return Err(e); } };
    let c_tyre_temp = match read_array(payload, columns, COL_TYRE_TEMP, count, 4, 4) { Ok(ws) => ws, Err(e) => { return Err(e); } };
    let c_mz = match read_array(payload, columns, COL_MZ, count, 4, 4) { Ok(ws) => ws, Err(e) => { return Err(e); } };
    let c_fx = match read_array(payload, columns, COL_FX, count, 4, 4) { Ok(ws) => ws, Err(e) => { return Err(e); } };
    let c_fy = match read_array(payload, columns, COL_FY, count, 4, 4) { Ok(ws) => ws, Err(e) => { return Err(e); } };
    let c_suspension_damage = match read_array(payload, columns, COL_SUSPENSION_DAMAGE, count, 4, 4) { Ok(ws) => ws, Err(e) => { return Err(e); } };
    let c_brake_temp = match read_array(payload, columns, COL_BRAKE_TEMP, count, 4, 4) { Ok(ws) => ws, Err(e) => { return Err(e); } };
    let c_brake_pressure = match read_array(payload, columns, COL_BRAKE_PRESSURE, count, 4, 4) { Ok(ws) => ws, Err(e) => { return Err(e); } };
    let c_pad_life = match read_array(payload, columns, COL_PAD_LIFE, count, 4, 4) { Ok(ws) => ws, Err(e) => { return Err(e); } };
    let c_disc_life = match read_array(payload, columns, COL_DISC_LIFE, count, 4, 4) { Ok(ws) => ws, Err(e) => { return Err(e); } };
    let c_tyre_contact_point = match read_array(payload, columns, COL_TYRE_CONTACT_POINT, count, 12, 4) { Ok(ws) => ws, Err(e) => { return Err(e); } };
    let c_tyre_contact_normal = match read_array(payload, columns, COL_TYRE_CONTACT_NORMAL, count, 12, 4) { Ok(ws) => ws, Err(e) => { return Err(e); } };
    let c_tyre_contact_heading = match read_array(payload, columns, COL_TYRE_CONTACT_HEADING, count, 12, 4) { Ok(ws) => ws, Err(e) => { return Err(e); } };
    let c_number_of_tyres_out = match read_column(payload, columns, COL_NUMBER_OF_TYRES_OUT, count, 4) { Ok(ws) => ws, Err(e) => { return Err(e); } };
    let c_front_brake_compound = match read_column(payload, columns, COL_FRONT_BRAKE_COMPOUND, count, 4) { Ok(ws) => ws, Err(e) => { return Err(e); } };
    let c_rear_brake_compound = match read_column(payload, columns, COL_REAR_BRAKE_COMPOUND, count, 4) { Ok(ws) => ws, Err(e) => { return Err(e); } };
    assert(tyres_error(p, cols, count as nat) is None);
    let mut out: Vec<TyreSample> = Vec::new();
    let mut i: usize = 0;
    while i < count
        invariant
            p == payload@,
            cols == columns@,
            i <= count,
            tyres_error(p, cols, count as nat) is None,
            column_words(p, cols, COL_SAMPLE_TICK, count as nat, 8) == Ok::<Seq<u64>, ErrorDesc>(c_ticks@),
            c_ticks@.len() == count,
            column_words(p, cols, COL_TIMESTAMP_NS, count as nat, 8) == Ok::<Seq<u64>, ErrorDesc>(c_timestamps@),
            c_timestamps@.len() == count,
            c_wheel_slip@.len() == count,
            array_column_items(p, cols, COL_WHEEL_SLIP, count as nat, 4, 4) is Ok,
            forall|j: int| 0 <= j < count ==> (#[trigger] c_wheel_slip@[j])@ == array_column_items(p, cols, COL_WHEEL_SLIP, count as nat, 4, 4)->Ok_0[j],
            c_wheel_load@.len() == count,
            array_column_items(p, cols, COL_WHEEL_LOAD, count as nat, 4, 4) is Ok,
            forall|j: int| 0 <= j < count ==> (#[trigger] c_wheel_load@[j])@ == array_column_items(p, cols, COL_WHEEL_LOAD, count as nat, 4, 4)->Ok_0[j],
            c_wheels_pressure@.len() == count,
            array_column_items(p, cols, COL_WHEELS_PRESSURE, count as nat, 4, 4) is Ok,
            forall|j: int| 0 <= j < count ==> (#[trigger] c_wheels_pressure@[j])@ == array_column_items(p, cols, COL_WHEELS_PRESSURE, count as nat, 4, 4)->Ok_0[j],
            c_wheel_angular_speed@.len() == count,
            array_column_items(p, cols, COL_WHEEL_ANGULAR_SPEED, count as nat, 4, 4) is Ok,
            forall|j: int| 0 <= j < count ==> (#[trigger] c_wheel_angular_speed@[j])@ == array_column_items(p, cols, COL_WHEEL_ANGULAR_SPEED, count as nat, 4, 4)->Ok_0[j],
            c_tyre_wear@.len() == count,
            array_column_items(p, cols, COL_TYRE_WEAR, count as nat, 4, 4) is Ok,
            forall|j: int| 0 <= j < count ==> (#[trigger] c_tyre_wear@[j])@ == array_column_items(p, cols, COL_TYRE_WEAR, count as nat, 4, 4)->Ok_0[j],
            c_tyre_dirty_level@.len() == count,
            array_column_items(p, cols, COL_TYRE_DIRTY_LEVEL, count as nat, 4, 4) is Ok,
            forall|j: int| 0 <= j < count ==> (#[trigger] c_tyre_dirty_level@[j])@ == array_column_items(p, cols, COL_TYRE_DIRTY_LEVEL, count as nat, 4, 4)->Ok_0[j],
            c_tyre_core_temperature@.len() == count,
            array_column_items(p, cols, COL_TYRE_CORE_TEMPERATURE, count as nat, 4, 4) is Ok,
            forall|j: int| 0 <= j < count ==> (#[trigger] c_tyre_core_temperature@[j])@ == array_column_items(p, cols, COL_TYRE_CORE_TEMPERATURE, count as nat, 4, 4)->Ok_0[j],
            c_camber_rad@.len() == count,
            array_column_items(p, cols, COL_CAMBER_RAD, count as nat, 4, 4) is Ok,
            forall|j: int| 0 <= j < count ==> (#[trigger] c_camber_rad@[j])@ == array_column_items(p, cols, COL_CAMBER_RAD, count as nat, 4, 4)->Ok_0[j],
            c_suspension_travel@.len() == count,
            array_column_items(p, cols, COL_SUSPENSION_TRAVEL, count as nat, 4, 4) is Ok,
            forall|j: int| 0 <= j < count ==> (#[trigger] c_suspension_travel@[j])@ == array_column_items(p, cols, COL_SUSPENSION_TRAVEL, count as nat, 4, 4)->Ok_0[j],
            c_slip_ratio@.len() == count,
            array_column_items(p, cols, COL_SLIP_RATIO, count as nat, 4, 4) is Ok,
            forall|j: int| 0 <= j < count ==> (#[trigger] c_slip_ratio@[j])@ == array_column_items(p, cols, COL_SLIP_RATIO, count as nat, 4, 4)->Ok_0[j],
            c_slip_angle@.len() == count,
            array_column_items(p, cols, COL_SLIP_ANGLE, count as nat, 4, 4) is Ok,
            forall|j: int| 0 <= j < count ==> (#[trigger] c_slip_angle@[j])@ == array_column_items(p, cols, COL_SLIP_ANGLE, count as nat, 4, 4)->Ok_0[j],
            c_tyre_temp_i@.len() == count,
            array_column_items(p, cols, COL_TYRE_TEMP_I, count as nat, 4, 4) is Ok,
            forall|j: int| 0 <= j < count ==> (#[trigger] c_tyre_temp_i@[j])@ == array_column_items(p, cols, COL_TYRE_TEMP_I, count as nat, 4, 4)->Ok_0[j],
            c_tyre_temp_m@.len() == count,
            array_column_items(p, cols, COL_TYRE_TEMP_M, count as nat, 4, 4) is Ok,
            forall|j: int| 0 <= j < count ==> (#[trigger] c_tyre_temp_m@[j])@ == array_column_items(p, cols, COL_TYRE_TEMP_M, count as nat, 4, 4)->Ok_0[j],
            c_tyre_temp_o@.len() == count,
            array_column_items(p, cols, COL_TYRE_TEMP_O, count as nat, 4, 4) is Ok,
            forall|j: int| 0 <= j < count ==> (#[trigger] c_tyre_temp_o@[j])@ == array_column_items(p, cols, COL_TYRE_TEMP_O, count as nat, 4, 4)->Ok_0[j],
            c_tyre_temp@.len() == count,
            array_column_items(p, cols, COL_TYRE_TEMP, count as nat, 4, 4) is Ok,
            forall|j: int| 0 <= j < count ==> (#[trigger] c_tyre_temp@[j])@ == array_column_items(p, cols, COL_TYRE_TEMP, count as nat, 4, 4)->Ok_0[j],
            c_mz@.len() == count,
            array_column_items(p, cols, COL_MZ, count as nat, 4, 4) is Ok,
            forall|j: int| 0 <= j < count ==> (#[trigger] c_mz@[j])@ == array_column_items(p, cols, COL_MZ, count as nat, 4, 4)->Ok_0[j],
            c_fx@.len() == count,
            array_column_items(p, cols, COL_FX, count as nat, 4, 4) is Ok,
            forall|j: int| 0 <= j < count ==> (#[trigger] c_fx@[j])@ == array_column_items(p, cols, COL_FX, count as nat, 4, 4)->Ok_0[j],
            c_fy@.len() == count,
            array_column_items(p, cols, COL_FY, count as nat, 4, 4) is Ok,
            forall|j: int| 0 <= j < count ==> (#[trigger] c_fy@[j])@ == array_column_items(p, cols, COL_FY, count as nat, 4, 4)->Ok_0[j],
            c_suspension_damage@.len() == count,
            array_column_items(p, cols, COL_SUSPENSION_DAMAGE, count as nat, 4, 4) is Ok,
            forall|j: int| 0 <= j < count ==> (#[trigger] c_suspension_damage@[j])@ == array_column_items(p, cols, COL_SUSPENSION_DAMAGE, count as nat, 4, 4)->Ok_0[j],
            c_brake_temp@.len() == count,
            array_column_items(p, cols, COL_BRAKE_TEMP, count as nat, 4, 4) is Ok,
            forall|j: int| 0 <= j < count ==> (#[trigger] c_brake_temp@[j])@ == array_column_items(p, cols, COL_BRAKE_TEMP, count as nat, 4, 4)->Ok_0[j],
            c_brake_pressure@.len() == count,
            array_column_items(p, cols, COL_BRAKE_PRESSURE, count as nat, 4, 4) is Ok,
            forall|j: int| 0 <= j < count ==> (#[trigger] c_brake_pressure@[j])@ == array_column_items(p, cols, COL_BRAKE_PRESSURE, count as nat, 4, 4)->Ok_0[j],
            c_pad_life@.len() == count,
            array_column_items(p, cols, COL_PAD_LIFE, count as nat, 4, 4) is Ok,
            forall|j: int| 0 <= j < count ==> (#[trigger] c_pad_life@[j])@ == array_column_items(p, cols, COL_PAD_LIFE, count as nat, 4, 4)->Ok_0[j],
            c_disc_life@.len() == count,
            array_column_items(p, cols, COL_DISC_LIFE, count as nat, 4, 4) is Ok,
            forall|j: int| 0 <= j < count ==> (#[trigger] c_disc_life@[j])@ == array_column_items(p, cols, COL_DISC_LIFE, count as nat, 4, 4)->Ok_0[j],
            c_tyre_contact_point@.len() == count,
            array_column_items(p, cols, COL_TYRE_CONTACT_POINT, count as nat, 12, 4) is Ok,
            forall|j: int| 0 <= j < count ==> (#[trigger] c_tyre_contact_point@[j])@ == array_column_items(p, cols, COL_TYRE_CONTACT_POINT, count as nat, 12, 4)->Ok_0[j],
            c_tyre_contact_normal@.len() == count,
            array_column_items(p, cols, COL_TYRE_CONTACT_NORMAL, count as nat, 12, 4) is Ok,
            forall|j: int| 0 <= j < count ==> (#[trigger] c_tyre_contact_normal@[j])@ == array_column_items(p, cols, COL_TYRE_CONTACT_NORMAL, count as nat, 12, 4)->Ok_0[j],
            c_tyre_contact_heading@.len() == count,
            array_column_items(p, cols, COL_TYRE_CONTACT_HEADING, count as nat, 12, 4) is Ok,
            forall|j: int| 0 <= j < count ==> (#[trigger] c_tyre_contact_heading@[j])@ == array_column_items(p, cols, COL_TYRE_CONTACT_HEADING, count as nat, 12, 4)->Ok_0[j],
            column_words(p, cols, COL_NUMBER_OF_TYRES_OUT, count as nat, 4) == Ok::<Seq<u64>, ErrorDesc>(c_number_of_tyres_out@),
            c_number_of_tyres_out@.len() == count,
            column_words(p, cols, COL_FRONT_BRAKE_COMPOUND, count as nat, 4) == Ok::<Seq<u64>, ErrorDesc>(c_front_brake_compound@),
            c_front_brake_compound@.len() == count,
            column_words(p, cols, COL_REAR_BRAKE_COMPOUND, count as nat, 4) == Ok::<Seq<u64>, ErrorDesc>(c_rear_brake_compound@),
            c_rear_brake_compound@.len() == count,
            out@.len() == i,
            forall|j: int| 0 <= j < i ==> (#[trigger] out@[j])@ == sample_at_tyres(p, cols, count as nat, j),
        decreases count - i,
    {
        let s = TyreSample {
            sample_tick: c_ticks[i],
            timestamp_ns: c_timestamps[i],
            wheel_slip: words_to_u32(&c_wheel_slip[i]),
            wheel_load: words_to_u32(&c_wheel_load[i]),
            wheels_pressure: words_to_u32(&c_wheels_pressure[i]),
            wheel_angular_speed: words_to_u32(&c_wheel_angular_speed[i]),
            tyre_wear: words_to_u32(&c_tyre_wear[i]),
            tyre_dirty_level: words_to_u32(&c_tyre_dirty_level[i]),
            tyre_core_temperature: words_to_u32(&c_tyre_core_temperature[i]),
            camber_rad: words_to_u32(&c_camber_rad[i]),
            suspension_travel: words_to_u32(&c_suspension_travel[i]),
            slip_ratio: words_to_u32(&c_slip_ratio[i]),
            slip_angle: words_to_u32(&c_slip_angle[i]),
            tyre_temp_i: words_to_u32(&c_tyre_temp_i[i]),
            tyre_temp_m: words_to_u32(&c_tyre_temp_m[i]),
            tyre_temp_o: words_to_u32(&c_tyre_temp_o[i]),
            tyre_temp: words_to_u32(&c_tyre_temp[i]),
            mz: words_to_u32(&c_mz[i]),
            fx: words_to_u32(&c_fx[i]),
            fy: words_to_u32(&c_fy[i]),
            suspension_damage: words_to_u32(&c_suspension_damage[i]),
            brake_temp: words_to_u32(&c_brake_temp[i]),
            brake_pressure: words_to_u32(&c_brake_pressure[i]),
            pad_life: words_to_u32(&c_pad_life[i]),
            disc_life: words_to_u32(&c_disc_life[i]),
            tyre_contact_point: words_to_u32(&c_tyre_contact_point[i]),
            tyre_contact_normal: words_to_u32(&c_tyre_contact_normal[i]),
            tyre_contact_heading: words_to_u32(&c_tyre_contact_heading[i]),
            number_of_tyres_out: c_number_of_tyres_out[i] as u32 as i32,
            front_brake_compound: c_front_brake_compound[i] as u32 as i32,
            rear_brake_compound: c_rear_brake_compound[i] as u32 as i32,
        };
        out.push(s);
        i = i + 1;
    }
    assert(spec_decode_tyres(p, cols, count as nat) == Ok::<Seq<TyreSampleView>, ErrorDesc>(Seq::new(count as nat, |k: int| sample_at_tyres(p, cols, count as nat, k))));
    Ok(out)
}

impl BinaryTelemetryReader {
    /// All tyres samples of the recording, chunk by chunk in index order.
    pub fn read_all_tyres(&self) -> (r: TelemetryResult<Vec<TyreSample>>)
        ensures
            samples_match(r, spec_read_all(self.data(), self.opened().2, CLUSTER_TYRES,
                |p: Seq<u8>, cols: Seq<ColumnEntry>, n: nat| spec_decode_tyres(p, cols, n))),
    {
        let entries = self.chunk_index();
        let ghost es = entries@;
        let ghost dec = |p: Seq<u8>, cols: Seq<ColumnEntry>, n: nat| spec_decode_tyres(p, cols, n);
        let mut out: Vec<TyreSample> = Vec::new();
        let mut i: usize = 0;
        while i < entries.len()
            invariant
                es == entries@,
                es == self.opened().2,
                dec == (|p: Seq<u8>, cols: Seq<ColumnEntry>, n: nat| spec_decode_tyres(p, cols, n)),
                i <= es.len(),
                samples_match(Ok::<Vec<TyreSample>, TelemetryError>(out), spec_read_all(self.data(), es.subrange(0, i as int), CLUSTER_TYRES, dec)),
            decreases es.len() - i,
        {
            let ghost before = out@;
            proof { lemma_read_all_step(self.data(), es, i as int, CLUSTER_TYRES, dec); }
            if entries[i].cluster_id == CLUSTER_TYRES {
                let (header, cols, payload) = match read_chunk(self, &entries[i], CLUSTER_TYRES) {
                    Ok(c) => c,
                    Err(e) => {
                        proof {
                            lemma_read_all_error_persists(self.data(), es, (i + 1) as int, es.len() as int, CLUSTER_TYRES, dec);
                            assert(es.subrange(0, es.len() as int) =~= es);
                        }
                        return Err(e);
                    },
                };
                let samples = match decode_tyres_payload(payload, cols.as_slice(), header.sample_count as usize) {
                    Ok(s) => s,
                    Err(e) => {
                        proof {
                            lemma_read_all_error_persists(self.data(), es, (i + 1) as int, es.len() as int, CLUSTER_TYRES, dec);
                            assert(es.subrange(0, es.len() as int) =~= es);
                        }
                        return Err(e);
                    },
                };
                let mut samples = samples;
                let ghost added = samples@;
                out.append(&mut samples);
                proof {
                    assert forall|j: int| 0 <= j < out@.len() implies (#[trigger] out@[j])@ == spec_read_all(self.data(), es.subrange(0, i + 1), CLUSTER_TYRES, dec)->Ok_0[j] by {
                        if j < before.len() {
                            assert(out@[j] == before[j]);
                        } else {
                            assert(out@[j] == added[j - before.len()]);
                        }
                    }
                }
            }
            i = i + 1;
        }
        assert(es.subrange(0, es.len() as int) =~= es);
        Ok(out)
    }
}

/// A sample of the powertrain cluster. Floating-point values are held as
/// their bit patterns.
#[derive(Debug, Clone)]
pub struct PowertrainSample {
    pub sample_tick: u64,
    pub timestamp_ns: u64,
    pub turbo_boost: u32,
    pub ballast: u32,
    pub kers_charge: u32,
    pub kers_input: u32,
    pub kers_current_kj: u32,
    pub drs: u32,
    pub tc: u32,
    pub abs: u32,
    pub engine_brake: i32,
    pub ers_recovery_level: i32,
    pub ers_power_level: i32,
    pub ers_heat_charging: i32,
    pub ers_is_charging: i32,
    pub drs_available: i32,
    pub drs_enabled: i32,
    pub tc_in_action: i32,
    pub abs_in_action: i32,
    pub auto_shifter_on: i32,
    pub current_max_rpm: i32,
    pub p2p_activations: i32,
    pub p2p_status: i32,
    pub water_temp: u32,
}

/// A sample of the powertrain cluster as plain values.
pub struct PowertrainSampleView {
    pub sample_tick: u64,
    pub timestamp_ns: u64,
    pub turbo_boost: u32,
    pub ballast: u32,
    pub kers_charge: u32,
    pub kers_input: u32,
    pub kers_current_kj: u32,
    pub drs: u32,
    pub tc: u32,
    pub abs: u32,
    pub engine_brake: i32,
    pub ers_recovery_level: i32,
    pub ers_power_level: i32,
    pub ers_heat_charging: i32,
    pub ers_is_charging: i32,
    pub drs_available: i32,
    pub drs_enabled: i32,
    pub tc_in_action: i32,
    pub abs_in_action: i32,
    pub auto_shifter_on: i32,
    pub current_max_rpm: i32,
    pub p2p_activations: i32,
    pub p2p_status: i32,
    pub water_temp: u32,
}

impl View for PowertrainSample {
    type V = PowertrainSampleView;

    open spec fn view(&self) -> PowertrainSampleView {
        PowertrainSampleView {
            sample_tick: self.sample_tick,
            timestamp_ns: self.timestamp_ns,
            turbo_boost: self.turbo_boost,
            ballast: self.ballast,
            kers_charge: self.kers_charge,
            kers_input: self.kers_input,
            kers_current_kj: self.kers_current_kj,
            drs: self.drs,
            tc: self.tc,
            abs: self.abs,
            engine_brake: self.engine_brake,
            ers_recovery_level: self.ers_recovery_level,
            ers_power_level: self.ers_power_level,
            ers_heat_charging: self.ers_heat_charging,
            ers_is_charging: self.ers_is_charging,
            drs_available: self.drs_available,
            drs_enabled: self.drs_enabled,
            tc_in_action: self.tc_in_action,
            abs_in_action: self.abs_in_action,
            auto_shifter_on: self.auto_shifter_on,
            current_max_rpm: self.current_max_rpm,
            p2p_activations: self.p2p_activations,
            p2p_status: self.p2p_status,
            water_temp: self.water_temp,
        }
    }
}

/// Sample `k` of a powertrain chunk whose columns all read.
pub open spec fn sample_at_powertrain(p: Seq<u8>, cols: Seq<ColumnEntry>, count: nat, k: int) -> PowertrainSampleView {
    PowertrainSampleView {
            sample_tick: column_words(p, cols, COL_SAMPLE_TICK, count, 8)->Ok_0[k],
            timestamp_ns: column_words(p, cols, COL_TIMESTAMP_NS, count, 8)->Ok_0[k],
            turbo_boost: column_words(p, cols, COL_TURBO_BOOST, count, 4)->Ok_0[k] as u32,
            ballast: column_words(p, cols, COL_BALLAST, count, 4)->Ok_0[k] as u32,
            kers_charge: column_words(p, cols, COL_KERS_CHARGE, count, 4)->Ok_0[k] as u32,
            kers_input: column_words(p, cols, COL_KERS_INPUT, count, 4)->Ok_0[k] as u32,
            kers_current_kj: column_words(p, cols, COL_KERS_CURRENT_KJ, count, 4)->Ok_0[k] as u32,
            drs: column_words(p, cols, COL_DRS, count, 4)->Ok_0[k] as u32,
            tc: column_words(p, cols, COL_TC_PHYSICS, count, 4)->Ok_0[k] as u32,
            abs: column_words(p, cols, COL_ABS_PHYSICS, count, 4)->Ok_0[k] as u32,
            engine_brake: (column_words(p, cols, COL_ENGINE_BRAKE, count, 4)->Ok_0[k] as u32) as i32,
            ers_recovery_level: (column_words(p, cols, COL_ERS_RECOVERY_LEVEL, count, 4)->Ok_0[k] as u32) as i32,
            ers_power_level: (column_words(p, cols, COL_ERS_POWER_LEVEL, count, 4)->Ok_0[k] as u32) as i32,
            ers_heat_charging: (column_words(p, cols, COL_ERS_HEAT_CHARGING, count, 4)->Ok_0[k] as u32) as i32,
            ers_is_charging: (column_words(p, cols, COL_ERS_IS_CHARGING, count, 4)->Ok_0[k] as u32) as i32,
            drs_available: (column_words(p, cols, COL_DRS_AVAILABLE, count, 4)->Ok_0[k] as u32) as i32,
            drs_enabled: (column_words(p, cols, COL_DRS_ENABLED, count, 4)->Ok_0[k] as u32) as i32,
            tc_in_action: (column_words(p, cols, COL_TC_IN_ACTION, count, 4)->Ok_0[k] as u32) as i32,
            abs_in_action: (column_words(p, cols, COL_ABS_IN_ACTION, count, 4)->Ok_0[k] as u32) as i32,
            auto_shifter_on: (column_words(p, cols, COL_AUTO_SHIFTER_ON, count, 4)->Ok_0[k] as u32) as i32,
            current_max_rpm: (column_words(p, cols, COL_CURRENT_MAX_RPM, count, 4)->Ok_0[k] as u32) as i32,
            p2p_activations: (column_words(p, cols, COL_P2P_ACTIVATIONS, count, 4)->Ok_0[k] as u32) as i32,
            p2p_status: (column_words(p, cols, COL_P2P_STATUS, count, 4)->Ok_0[k] as u32) as i32,
            water_temp: column_words(p, cols, COL_WATER_TEMP, count, 4)->Ok_0[k] as u32,
    }
}

/// The first failing column read of a powertrain chunk, in reading order.
pub open spec fn powertrain_error(p: Seq<u8>, cols: Seq<ColumnEntry>, count: nat) -> Option<ErrorDesc> {
    first_error(column_words(p, cols, COL_SAMPLE_TICK, count, 8),
        first_error(column_words(p, cols, COL_TIMESTAMP_NS, count, 8),
        first_error(column_words(p, cols, COL_TURBO_BOOST, count, 4),
        first_error(column_words(p, cols, COL_BALLAST, count, 4),
        first_error(column_words(p, cols, COL_KERS_CHARGE, count, 4),
        first_error(column_words(p, cols, COL_KERS_INPUT, count, 4),
        first_error(column_words(p, cols, COL_KERS_CURRENT_KJ, count, 4),
        first_error(column_words(p, cols, COL_DRS, count, 4),
        first_error(column_words(p, cols, COL_TC_PHYSICS, count, 4),
        first_error(column_words(p, cols, COL_ABS_PHYSICS, count, 4),
        first_error(column_words(p, cols, COL_ENGINE_BRAKE, count, 4),
        first_error(column_words(p, cols, COL_ERS_RECOVERY_LEVEL, count, 4),
        first_error(column_words(p, cols, COL_ERS_POWER_LEVEL, count, 4),
        first_error(column_words(p, cols, COL_ERS_HEAT_CHARGING, count, 4),
        first_error(column_words(p, cols, COL_ERS_IS_CHARGING, count, 4),
        first_error(column_words(p, cols, COL_DRS_AVAILABLE, count, 4),
        first_error(column_words(p, cols, COL_DRS_ENABLED, count, 4),
        first_error(column_words(p, cols, COL_TC_IN_ACTION, count, 4),
        first_error(column_words(p, cols, COL_ABS_IN_ACTION, count, 4),
        first_error(column_words(p, cols, COL_AUTO_SHIFTER_ON, count, 4),
        first_error(column_words(p, cols, COL_CURRENT_MAX_RPM, count, 4),
        first_error(column_words(p, cols, COL_P2P_ACTIVATIONS, count, 4),
        first_error(column_words(p, cols, COL_P2P_STATUS, count, 4),
        first_error(column_words(p, cols, COL_WATER_TEMP, count, 4),
        None))))))))))))))))))))))))
}

/// What decoding a powertrain chunk's payload of `count` samples gives.
pub open spec fn spec_decode_powertrain(p: Seq<u8>, cols: Seq<ColumnEntry>, count: nat) -> Result<Seq<PowertrainSampleView>, ErrorDesc> {
    match powertrain_error(p, cols, count) {
        Some(d) => Err(d),
        None => Ok(Seq::new(count, |k: int| sample_at_powertrain(p, cols, count, k))),
    }
}

/// Each field of a decoded powertrain sample comes from the column with that
/// field's own id: sample `k` holds the `k`-th value of that column (for an
/// array field, its `k`-th item), read at the column's width.
pub proof fn lemma_powertrain_fields_from_own_columns(p: Seq<u8>, cols: Seq<ColumnEntry>, count: nat, k: int)
    requires
        spec_decode_powertrain(p, cols, count) is Ok,
        0 <= k < count,
    ensures
        ({
            let s = spec_decode_powertrain(p, cols, count)->Ok_0[k];
            &&& s.sample_tick == column_words(p, cols, COL_SAMPLE_TICK, count, 8)->Ok_0[k]
            &&& s.timestamp_ns == column_words(p, cols, COL_TIMESTAMP_NS, count, 8)->Ok_0[k]
            &&& s.turbo_boost == column_words(p, cols, COL_TURBO_BOOST, count, 4)->Ok_0[k] as u32
            &&& s.ballast == column_words(p, cols, COL_BALLAST, count, 4)->Ok_0[k] as u32
            &&& s.kers_charge == column_words(p, cols, COL_KERS_CHARGE, count, 4)->Ok_0[k] as u32
            &&& s.kers_input == column_words(p, cols, COL_KERS_INPUT, count, 4)->Ok_0[k] as u32
            &&& s.kers_current_kj == column_words(p, cols, COL_KERS_CURRENT_KJ, count, 4)->Ok_0[k] as u32
            &&& s.drs == column_words(p, cols, COL_DRS, count, 4)->Ok_0[k] as u32
            &&& s.tc == column_words(p, cols, COL_TC_PHYSICS, count, 4)->Ok_0[k] as u32
            &&& s.abs == column_words(p, cols, COL_ABS_PHYSICS, count, 4)->Ok_0[k] as u32
            &&& s.engine_brake == (column_words(p, cols, COL_ENGINE_BRAKE, count, 4)->Ok_0[k] as u32) as i32
            &&& s.ers_recovery_level == (column_words(p, cols, COL_ERS_RECOVERY_LEVEL, count, 4)->Ok_0[k] as u32) as i32
            &&& s.ers_power_level == (column_words(p, cols, COL_ERS_POWER_LEVEL, count, 4)->Ok_0[k] as u32) as i32
            &&& s.ers_heat_charging == (column_words(p, cols, COL_ERS_HEAT_CHARGING, count, 4)->Ok_0[k] as u32) as i32
            &&& s.ers_is_charging == (column_words(p, cols, COL_ERS_IS_CHARGING, count, 4)->Ok_0[k] as u32) as i32
            &&& s.drs_available == (column_words(p, cols, COL_DRS_AVAILABLE, count, 4)->Ok_0[k] as u32) as i32
            &&& s.drs_enabled == (column_words(p, cols, COL_DRS_ENABLED, count, 4)->Ok_0[k] as u32) as i32
            &&& s.tc_in_action == (column_words(p, cols, COL_TC_IN_ACTION, count, 4)->Ok_0[k] as u32) as i32
            &&& s.abs_in_action == (column_words(p, cols, COL_ABS_IN_ACTION, count, 4)->Ok_0[k] as u32) as i32
            &&& s.auto_shifter_on == (column_words(p, cols, COL_AUTO_SHIFTER_ON, count, 4)->Ok_0[k] as u32) as i32
            &&& s.current_max_rpm == (column_words(p, cols, COL_CURRENT_MAX_RPM, count, 4)->Ok_0[k] as u32) as i32
            &&& s.p2p_activations == (column_words(p, cols, COL_P2P_ACTIVATIONS, count, 4)->Ok_0[k] as u32) as i32
            &&& s.p2p_status == (column_words(p, cols, COL_P2P_STATUS, count, 4)->Ok_0[k] as u32) as i32
            &&& s.water_temp == column_words(p, cols, COL_WATER_TEMP, count, 4)->Ok_0[k] as u32
        }),
{
}

/// Decode a powertrain chunk's payload of `count` samples.
fn decode_powertrain_payload(payload: &[u8], columns: &[ColumnEntry], count: usize) -> (r: TelemetryResult<Vec<PowertrainSample>>)
    requires
        count <= u32::MAX,
    ensures
        samples_match(r, spec_decode_powertrain(payload@, columns@, count as nat)),
{
    let ghost p = payload@;
    let ghost cols = columns@;
    let c_ticks = match read_column(payload, columns, COL_SAMPLE_TICK, count, 8) { Ok(ws) => ws, Err(e) => { return Err(e); } };
    let c_timestamps = match read_column(payload, columns, COL_TIMESTAMP_NS, count, 8) { Ok(ws) => ws, Err(e) => { return Err(e); } };
    let c_turbo_boost = match read_column(payload, columns, COL_TURBO_BOOST, count, 4) { Ok(ws) => ws, Err(e) => { return Err(e); } };
    let c_ballast = match read_column(payload, columns, COL_BALLAST, count, 4) { Ok(ws) => ws, Err(e) => { return Err(e); } };
    let c_kers_charge = match read_column(payload, columns, COL_KERS_CHARGE, count, 4) { Ok(ws) => ws, Err(e) => { return Err(e); } };
    let c_kers_input = match read_column(payload, columns, COL_KERS_INPUT, count, 4) { Ok(ws) => ws, Err(e) => { return Err(e); } };
    let c_kers_current_kj = match read_column(payload, columns, COL_KERS_CURRENT_KJ, count, 4) { Ok(ws) => ws, Err(e) => { return Err(e); } };
    let c_drs = match read_column(payload, columns, COL_DRS, count, 4) { Ok(ws) => ws, Err(e) => { return Err(e); } };
    let c_tc = match read_column(payload, columns, COL_TC_PHYSICS, count, 4) { Ok(ws) => ws, Err(e) => { return Err(e); } };
    let c_abs = match read_column(payload, columns, COL_ABS_PHYSICS, count, 4) { Ok(ws) => ws, Err(e) => { return Err(e); } };
    let c_engine_brake = match read_column(payload, columns, COL_ENGINE_BRAKE, count, 4) { Ok(ws) => ws, Err(e) => { return Err(e); } };
    let c_ers_recovery_level = match read_column(payload, columns, COL_ERS_RECOVERY_LEVEL, count, 4) { Ok(ws) => ws, Err(e) => { return Err(e); } };
    let c_ers_power_level = match read_column(payload, columns, COL_ERS_POWER_LEVEL, count, 4) { Ok(ws) => ws, Err(e) => { return Err(e); } };
    let c_ers_heat_charging = match read_column(payload, columns, COL_ERS_HEAT_CHARGING, count, 4) { Ok(ws) => ws, Err(e) => { return Err(e); } };
    let c_ers_is_charging = match read_column(payload, columns, COL_ERS_IS_CHARGING, count, 4) { Ok(ws) => ws, Err(e) => { return Err(e); } };
    let c_drs_available = match read_column(payload, columns, COL_DRS_AVAILABLE, count, 4) { Ok(ws) => ws, Err(e) => { return Err(e); } };
    let c_drs_enabled = match read_column(payload, columns, COL_DRS_ENABLED, count, 4) { Ok(ws) => ws, Err(e) => { return Err(e); } };
    let c_tc_in_action = match read_column(payload, columns, COL_TC_IN_ACTION, count, 4) { Ok(ws) => ws, Err(e) => { return Err(e); } };
    let c_abs_in_action = match read_column(payload, columns, COL_ABS_IN_ACTION, count, 4) { Ok(ws) => ws, Err(e) => { return Err(e); } };
    let c_auto_shifter_on = match read_column(payload, columns, COL_AUTO_SHIFTER_ON, count, 4) { Ok(ws) => ws, Err(e) => { return Err(e); } };
    let c_current_max_rpm = match read_column(payload, columns, COL_CURRENT_MAX_RPM, count, 4) { Ok(ws) => ws, Err(e) => { return Err(e); } };
    let c_p2p_activations = match read_column(payload, columns, COL_P2P_ACTIVATIONS, count, 4) { Ok(ws) => ws, Err(e) => { return Err(e); } };
    let c_p2p_status = match read_column(payload, columns, COL_P2P_STATUS, count, 4) { Ok(ws) => ws, Err(e) => { return Err(e); } };
    let c_water_temp = match read_column(payload, columns, COL_WATER_TEMP, count, 4) { Ok(ws) => ws, Err(e) => { return Err(e); } };
    assert(powertrain_error(p, cols, count as nat) is None);
    let mut out: Vec<PowertrainSample> = Vec::new();
    let mut i: usize = 0;
    while i < count
        invariant
            p == payload@,
            cols == columns@,
            i <= count,
            powertrain_error(p, cols, count as nat) is None,
            column_words(p, cols, COL_SAMPLE_TICK, count as nat, 8) == Ok::<Seq<u64>, ErrorDesc>(c_ticks@),
            c_ticks@.len() == count,
            column_words(p, cols, COL_TIMESTAMP_NS, count as nat, 8) == Ok::<Seq<u64>, ErrorDesc>(c_timestamps@),
            c_timestamps@.len() == count,
            column_words(p, cols, COL_TURBO_BOOST, count as nat, 4) == Ok::<Seq<u64>, ErrorDesc>(c_turbo_boost@),
            c_turbo_boost@.len() == count,
            column_words(p, cols, COL_BALLAST, count as nat, 4) == Ok::<Seq<u64>, ErrorDesc>(c_ballast@),
            c_ballast@.len() == count,
            column_words(p, cols, COL_KERS_CHARGE, count as nat, 4) == Ok::<Seq<u64>, ErrorDesc>(c_kers_charge@),
            c_kers_charge@.len() == count,
            column_words(p, cols, COL_KERS_INPUT, count as nat, 4) == Ok::<Seq<u64>, ErrorDesc>(c_kers_input@),
            c_kers_input@.len() == count,
            column_words(p, cols, COL_KERS_CURRENT_KJ, count as nat, 4) == Ok::<Seq<u64>, ErrorDesc>(c_kers_current_kj@),
            c_kers_current_kj@.len() == count,
            column_words(p, cols, COL_DRS, count as nat, 4) == Ok::<Seq<u64>, ErrorDesc>(c_drs@),
            c_drs@.len() == count,
            column_words(p, cols, COL_TC_PHYSICS, count as nat, 4) == Ok::<Seq<u64>, ErrorDesc>(c_tc@),
            c_tc@.len() == count,
            column_words(p, cols, COL_ABS_PHYSICS, count as nat, 4) == Ok::<Seq<u64>, ErrorDesc>(c_abs@),
            c_abs@.len() == count,
            column_words(p, cols, COL_ENGINE_BRAKE, count as nat, 4) == Ok::<Seq<u64>, ErrorDesc>(c_engine_brake@),
            c_engine_brake@.len() == count,
            column_words(p, cols, COL_ERS_RECOVERY_LEVEL, count as nat, 4) == Ok::<Seq<u64>, ErrorDesc>(c_ers_recovery_level@),
            c_ers_recovery_level@.len() == count,
            column_words(p, cols, COL_ERS_POWER_LEVEL, count as nat, 4) == Ok::<Seq<u64>, ErrorDesc>(c_ers_power_level@),
            c_ers_power_level@.len() == count,
            column_words(p, cols, COL_ERS_HEAT_CHARGING, count as nat, 4) == Ok::<Seq<u64>, ErrorDesc>(c_ers_heat_charging@),
            c_ers_heat_charging@.len() == count,
            column_words(p, cols, COL_ERS_IS_CHARGING, count as nat, 4) == Ok::<Seq<u64>, ErrorDesc>(c_ers_is_charging@),
            c_ers_is_charging@.len() == count,
            column_words(p, cols, COL_DRS_AVAILABLE, count as nat, 4) == Ok::<Seq<u64>, ErrorDesc>(c_drs_available@),
            c_drs_available@.len() == count,
            column_words(p, cols, COL_DRS_ENABLED, count as nat, 4) == Ok::<Seq<u64>, ErrorDesc>(c_drs_enabled@),
            c_drs_enabled@.len() == count,
            column_words(p, cols, COL_TC_IN_ACTION, count as nat, 4) == Ok::<Seq<u64>, ErrorDesc>(c_tc_in_action@),
            c_tc_in_action@.len() == count,
            column_words(p, cols, COL_ABS_IN_ACTION, count as nat, 4) == Ok::<Seq<u64>, ErrorDesc>(c_abs_in_action@),
            c_abs_in_action@.len() == count,
            column_words(p, cols, COL_AUTO_SHIFTER_ON, count as nat, 4) == Ok::<Seq<u64>, ErrorDesc>(c_auto_shifter_on@),
            c_auto_shifter_on@.len() == count,
            column_words(p, cols, COL_CURRENT_MAX_RPM, count as nat, 4) == Ok::<Seq<u64>, ErrorDesc>(c_current_max_rpm@),
            c_current_max_rpm@.len() == count,
            column_words(p, cols, COL_P2P_ACTIVATIONS, count as nat, 4) == Ok::<Seq<u64>, ErrorDesc>(c_p2p_activations@),
            c_p2p_activations@.len() == count,
            column_words(p, cols, COL_P2P_STATUS, count as nat, 4) == Ok::<Seq<u64>, ErrorDesc>(c_p2p_status@),
            c_p2p_status@.len() == count,
            column_words(p, cols, COL_WATER_TEMP, count as nat, 4) == Ok::<Seq<u64>, ErrorDesc>(c_water_temp@),
            c_water_temp@.len() == count,
            out@.len() == i,
            forall|j: int| 0 <= j < i ==> (#[trigger] out@[j])@ == sample_at_powertrain(p, cols, count as nat, j),
        decreases count - i,
    {
        let s = PowertrainSample {
            sample_tick: c_ticks[i],
            timestamp_ns: c_timestamps[i],
            turbo_boost: c_turbo_boost[i] as u32,
            ballast: c_ballast[i] as u32,
            kers_charge: c_kers_charge[i] as u32,
            kers_input: c_kers_input[i] as u32,
            kers_current_kj: c_kers_current_kj[i] as u32,
            drs: c_drs[i] as u32,
            tc: c_tc[i] as u32,
            abs: c_abs[i] as u32,
            engine_brake: c_engine_brake[i] as u32 as i32,
            ers_recovery_level: c_ers_recovery_level[i] as u32 as i32,
            ers_power_level: c_ers_power_level[i] as u32 as i32,
            ers_heat_charging: c_ers_heat_charging[i] as u32 as i32,
            ers_is_charging: c_ers_is_charging[i] as u32 as i32,
            drs_available: c_drs_available[i] as u32 as i32,
            drs_enabled: c_drs_enabled[i] as u32 as i32,
            tc_in_action: c_tc_in_action[i] as u32 as i32,
            abs_in_action: c_abs_in_action[i] as u32 as i32,
            auto_shifter_on: c_auto_shifter_on[i] as u32 as i32,
            current_max_rpm: c_current_max_rpm[i] as u32 as i32,
            p2p_activations: c_p2p_activations[i] as u32 as i32,
            p2p_status: c_p2p_status[i] as u32 as i32,
            water_temp: c_water_temp[i] as u32,
        };
        out.push(s);
        i = i + 1;
    }
    assert(spec_decode_powertrain(p, cols, count as nat) == Ok::<Seq<PowertrainSampleView>, ErrorDesc>(Seq::new(count as nat, |k: int| sample_at_powertrain(p, cols, count as nat, k))));
    Ok(out)
}

impl BinaryTelemetryReader {
    /// All powertrain samples of the recording, chunk by chunk in index order.
    pub fn read_all_powertrain(&self) -> (r: TelemetryResult<Vec<PowertrainSample>>)
        ensures
            samples_match(r, spec_read_all(self.data(), self.opened().2, CLUSTER_POWERTRAIN,
                |p: Seq<u8>, cols: Seq<ColumnEntry>, n: nat| spec_decode_powertrain(p, cols, n))),
    {
        let entries = self.chunk_index();
        let ghost es = entries@;
        let ghost dec = |p: Seq<u8>, cols: Seq<ColumnEntry>, n: nat| spec_decode_powertrain(p, cols, n);
        let mut out: Vec<PowertrainSample> = Vec::new();
        let mut i: usize = 0;
        while i < entries.len()
            invariant
                es == entries@,
                es == self.opened().2,
                dec == (|p: Seq<u8>, cols: Seq<ColumnEntry>, n: nat| spec_decode_powertrain(p, cols, n)),
                i <= es.len(),
                samples_match(Ok::<Vec<PowertrainSample>, TelemetryError>(out), spec_read_all(self.data(), es.subrange(0, i as int), CLUSTER_POWERTRAIN, dec)),
            decreases es.len() - i,
        {
            let ghost before = out@;
            proof { lemma_read_all_step(self.data(), es, i as int, CLUSTER_POWERTRAIN, dec); }
            if entries[i].cluster_id == CLUSTER_POWERTRAIN {
                let (header, cols, payload) = match read_chunk(self, &entries[i], CLUSTER_POWERTRAIN) {
                    Ok(c) => c,
                    Err(e) => {
                        proof {
                            lemma_read_all_error_persists(self.data(), es, (i + 1) as int, es.len() as int, CLUSTER_POWERTRAIN, dec);
                            assert(es.subrange(0, es.len() as int) =~= es);
                        }
                        return Err(e);
                    },
                };
                let samples = match decode_powertrain_payload(payload, cols.as_slice(), header.sample_count as usize) {
                    Ok(s) => s,
                    Err(e) => {
                        proof {
                            lemma_read_all_error_persists(self.data(), es, (i + 1) as int, es.len() as int, CLUSTER_POWERTRAIN, dec);
                            assert(es.subrange(0, es.len() as int) =~= es);
                        }
                        return Err(e);
                    },
                };
                let mut samples = samples;
                let ghost added = samples@;
                out.append(&mut samples);
                proof {
                    assert forall|j: int| 0 <= j < out@.len() implies (#[trigger] out@[j])@ == spec_read_all(self.data(), es.subrange(0, i + 1), CLUSTER_POWERTRAIN, dec)->Ok_0[j] by {
                        if j < before.len() {
                            assert(out@[j] == before[j]);
                        } else {
                            assert(out@[j] == added[j - before.len()]);
                        }
                    }
                }
            }
            i = i + 1;
        }
        assert(es.subrange(0, es.len() as int) =~= es);
        Ok(out)
    }
}

/// A sample of the car_state cluster. Floating-point values are held as
/// their bit patterns.
#[derive(Debug, Clone)]
pub struct CarStateSample {
    pub sample_tick: u64,
    pub timestamp_ns: u64,
    pub car_damage: Vec<u32>,
    pub pit_limiter_on: i32,
    pub ride_height: Vec<u32>,
    pub ignition_on: i32,
    pub starter_engine_on: i32,
    pub is_engine_running: i32,
    pub is_ai_controlled: i32,
    pub cg_height: u32,
    pub brake_bias: u32,
    pub rain_lights: i32,
    pub flashing_lights: i32,
    pub lights_stage: i32,
    pub wiper_lv: i32,
    pub driver_stint_total_time_left: i32,
    pub driver_stint_time_left: i32,
    pub rain_tyres: i32,
    pub current_tyre_set: i32,
    pub strategy_tyre_set: i32,
    pub track_grip_status: i32,
    pub tyre_compound_str: Vec<u16>,
    pub mfd_tyre_set: i32,
    pub mfd_fuel_to_add: u32,
    pub mfd_tyre_pressure: Vec<u32>,
    pub ideal_line_on: i32,
    pub is_setup_menu_visible: i32,
    pub main_display_index: i32,
    pub secondary_display_index: i32,
    pub direction_lights_left: i32,
    pub direction_lights_right: i32,
    pub tc_level: i32,
    pub tc_cut: i32,
    pub engine_map: i32,
    pub abs_level: i32,
    pub exhaust_temperature: u32,
    pub final_ff: u32,
    pub performance_meter: u32,
    pub kerb_vibration: u32,
    pub slip_vibrations: u32,
    pub g_vibrations: u32,
    pub abs_vibrations: u32,
}

/// A sample of the car_state cluster as plain values.
pub struct CarStateSampleView {
    pub sample_tick: u64,
    pub timestamp_ns: u64,
    pub car_damage: Seq<u32>,
    pub pit_limiter_on: i32,
    pub ride_height: Seq<u32>,
    pub ignition_on: i32,
    pub starter_engine_on: i32,
    pub is_engine_running: i32,
    pub is_ai_controlled: i32,
    pub cg_height: u32,
    pub brake_bias: u32,
    pub rain_lights: i32,
    pub flashing_lights: i32,
    pub lights_stage: i32,
    pub wiper_lv: i32,
    pub driver_stint_total_time_left: i32,
    pub driver_stint_time_left: i32,
    pub rain_tyres: i32,
    pub current_tyre_set: i32,
    pub strategy_tyre_set: i32,
    pub track_grip_status: i32,
    pub tyre_compound_str: Seq<u16>,
    pub mfd_tyre_set: i32,
    pub mfd_fuel_to_add: u32,
    pub mfd_tyre_pressure: Seq<u32>,
    pub ideal_line_on: i32,
    pub is_setup_menu_visible: i32,
    pub main_display_index: i32,
    pub secondary_display_index: i32,
    pub direction_lights_left: i32,
    pub direction_lights_right: i32,
    pub tc_level: i32,
    pub tc_cut: i32,
    pub engine_map: i32,
    pub abs_level: i32,
    pub exhaust_temperature: u32,
    pub final_ff: u32,
    pub performance_meter: u32,
    pub kerb_vibration: u32,
    pub slip_vibrations: u32,
    pub g_vibrations: u32,
    pub abs_vibrations: u32,
}

impl View for CarStateSample {
    type V = CarStateSampleView;

    open spec fn view(&self) -> CarStateSampleView {
        CarStateSampleView {
            sample_tick: self.sample_tick,
            timestamp_ns: self.timestamp_ns,
            car_damage: self.car_damage@,
            pit_limiter_on: self.pit_limiter_on,
            ride_height: self.ride_height@,
            ignition_on: self.ignition_on,
            starter_engine_on: self.starter_engine_on,
            is_engine_running: self.is_engine_running,
            is_ai_controlled: self.is_ai_controlled,
            cg_height: self.cg_height,
            brake_bias: self.brake_bias,
            rain_lights: self.rain_lights,
            flashing_lights: self.flashing_lights,
            lights_stage: self.lights_stage,
            wiper_lv: self.wiper_lv,
            driver_stint_total_time_left: self.driver_stint_total_time_left,
            driver_stint_time_left: self.driver_stint_time_left,
            rain_tyres: self.rain_tyres,
            current_tyre_set: self.current_tyre_set,
            strategy_tyre_set: self.strategy_tyre_set,
            track_grip_status: self.track_grip_status,
            tyre_compound_str: self.tyre_compound_str@,
            mfd_tyre_set: self.mfd_tyre_set,
            mfd_fuel_to_add: self.mfd_fuel_to_add,
            mfd_tyre_pressure: self.mfd_tyre_pressure@,
            ideal_line_on: self.ideal_line_on,
            is_setup_menu_visible: self.is_setup_menu_visible,
            main_display_index: self.main_display_index,
            secondary_display_index: self.secondary_display_index,
            direction_lights_left: self.direction_lights_left,
            direction_lights_right: self.direction_lights_right,
            tc_level: self.tc_level,
            tc_cut: self.tc_cut,
            engine_map: self.engine_map,
            abs_level: self.abs_level,
            exhaust_temperature: self.exhaust_temperature,
            final_ff: self.final_ff,
            performance_meter: self.performance_meter,
            kerb_vibration: self.kerb_vibration,
            slip_vibrations: self.slip_vibrations,
            g_vibrations: self.g_vibrations,
            abs_vibrations: self.abs_vibrations,
        }
    }
}

/// Sample `k` of a car_state chunk whose columns all read.
pub open spec fn sample_at_car_state(p: Seq<u8>, cols: Seq<ColumnEntry>, count: nat, k: int) -> CarStateSampleView {
    CarStateSampleView {
            sample_tick: column_words(p, cols, COL_SAMPLE_TICK, count, 8)->Ok_0[k],
            timestamp_ns: column_words(p, cols, COL_TIMESTAMP_NS, count, 8)->Ok_0[k],
            car_damage: lanes_u32(array_column_items(p, cols, COL_CAR_DAMAGE, count, 5, 4)->Ok_0[k]),
            pit_limiter_on: (column_words(p, cols, COL_PIT_LIMITER_ON, count, 4)->Ok_0[k] as u32) as i32,
            ride_height: lanes_u32(array_column_items(p, cols, COL_RIDE_HEIGHT, count, 2, 4)->Ok_0[k]),
            ignition_on: (column_words(p, cols, COL_IGNITION_ON, count, 4)->Ok_0[k] as u32) as i32,
            starter_engine_on: (column_words(p, cols, COL_STARTER_ENGINE_ON, count, 4)->Ok_0[k] as u32) as i32,
            is_engine_running: (column_words(p, cols, COL_IS_ENGINE_RUNNING, count, 4)->Ok_0[k] as u32) as i32,
            is_ai_controlled: (column_words(p, cols, COL_IS_AI_CONTROLLED, count, 4)->Ok_0[k] as u32) as i32,
            cg_height: column_words(p, cols, COL_CG_HEIGHT, count, 4)->Ok_0[k] as u32,
            brake_bias: column_words(p, cols, COL_BRAKE_BIAS, count, 4)->Ok_0[k] as u32,
            rain_lights: (column_words(p, cols, COL_RAIN_LIGHTS, count, 4)->Ok_0[k] as u32) as i32,
            flashing_lights: (column_words(p, cols, COL_FLASHING_LIGHTS, count, 4)->Ok_0[k] as u32) as i32,
            lights_stage: (column_words(p, cols, COL_LIGHTS_STAGE, count, 4)->Ok_0[k] as u32) as i32,
            wiper_lv: (column_words(p, cols, COL_WIPER_LV, count, 4)->Ok_0[k] as u32) as i32,
            driver_stint_total_time_left: (column_words(p, cols, COL_DRIVER_STINT_TOTAL_TIME_LEFT, count, 4)->Ok_0[k] as u32) as i32,
            driver_stint_time_left: (column_words(p, cols, COL_DRIVER_STINT_TIME_LEFT, count, 4)->Ok_0[k] as u32) as i32,
            rain_tyres: (column_words(p, cols, COL_RAIN_TYRES, count, 4)->Ok_0[k] as u32) as i32,
            current_tyre_set: (column_words(p, cols, COL_CURRENT_TYRE_SET, count, 4)->Ok_0[k] as u32) as i32,
            strategy_tyre_set: (column_words(p, cols, COL_STRATEGY_TYRE_SET, count, 4)->Ok_0[k] as u32) as i32,
            track_grip_status: (column_words(p, cols, COL_TRACK_GRIP_STATUS, count, 4)->Ok_0[k] as u32) as i32,
            tyre_compound_str: lanes_u16(array_column_items(p, cols, COL_TYRE_COMPOUND_STR, count, 33, 2)->Ok_0[k]),
            mfd_tyre_set: (column_words(p, cols, COL_MFD_TYRE_SET, count, 4)->Ok_0[k] as u32) as i32,
            mfd_fuel_to_add: column_words(p, cols, COL_MFD_FUEL_TO_ADD, count, 4)->Ok_0[k] as u32,
            mfd_tyre_pressure: lanes_u32(array_column_items(p, cols, COL_MFD_TYRE_PRESSURE, count, 4, 4)->Ok_0[k]),
            ideal_line_on: (column_words(p, cols, COL_IDEAL_LINE_ON, count, 4)->Ok_0[k] as u32) as i32,
            is_setup_menu_visible: (column_words(p, cols, COL_IS_SETUP_MENU_VISIBLE, count, 4)->Ok_0[k] as u32) as i32,
            main_display_index: (column_words(p, cols, COL_MAIN_DISPLAY_INDEX, count, 4)->Ok_0[k] as u32) as i32,
            secondary_display_index: (column_words(p, cols, COL_SECONDARY_DISPLAY_INDEX, count, 4)->Ok_0[k] as u32) as i32,
            direction_lights_left: (column_words(p, cols, COL_DIRECTION_LIGHTS_LEFT, count, 4)->Ok_0[k] as u32) as i32,
            direction_lights_right: (column_words(p, cols, COL_DIRECTION_LIGHTS_RIGHT, count, 4)->Ok_0[k] as u32) as i32,
            tc_level: (column_words(p, cols, COL_TC_LEVEL, count, 4)->Ok_0[k] as u32) as i32,
            tc_cut: (column_words(p, cols, COL_TC_CUT, count, 4)->Ok_0[k] as u32) as i32,
            engine_map: (column_words(p, cols, COL_ENGINE_MAP, count, 4)->Ok_0[k] as u32) as i32,
            abs_level: (column_words(p, cols, COL_ABS_LEVEL, count, 4)->Ok_0[k] as u32) as i32,
            exhaust_temperature: column_words(p, cols, COL_EXHAUST_TEMPERATURE, count, 4)->Ok_0[k] as u32,
            final_ff: column_words(p, cols, COL_FINAL_FF, count, 4)->Ok_0[k] as u32,
            performance_meter: column_words(p, cols, COL_PERFORMANCE_METER, count, 4)->Ok_0[k] as u32,
            kerb_vibration: column_words(p, cols, COL_KERB_VIBRATION, count, 4)->Ok_0[k] as u32,
            slip_vibrations: column_words(p, cols, COL_SLIP_VIBRATIONS, count, 4)->Ok_0[k] as u32,
            g_vibrations: column_words(p, cols, COL_G_VIBRATIONS, count, 4)->Ok_0[k] as u32,
            abs_vibrations: column_words(p, cols, COL_ABS_VIBRATIONS, count, 4)->Ok_0[k] as u32,
    }
}

/// The first failing column read of a car_state chunk, in reading order.
pub open spec fn car_state_error(p: Seq<u8>, cols: Seq<ColumnEntry>, count: nat) -> Option<ErrorDesc> {
    first_error(column_words(p, cols, COL_SAMPLE_TICK, count, 8),
        first_error(column_words(p, cols, COL_TIMESTAMP_NS, count, 8),
        first_error(array_column_items(p, cols, COL_CAR_DAMAGE, count, 5, 4),
        first_error(column_words(p, cols, COL_PIT_LIMITER_ON, count, 4),
        first_error(array_column_items(p, cols, COL_RIDE_HEIGHT, count, 2, 4),
        first_error(column_words(p, cols, COL_IGNITION_ON, count, 4),
        first_error(column_words(p, cols, COL_STARTER_ENGINE_ON, count, 4),
        first_error(column_words(p, cols, COL_IS_ENGINE_RUNNING, count, 4),
        first_error(column_words(p, cols, COL_IS_AI_CONTROLLED, count, 4),
        first_error(column_words(p, cols, COL_CG_HEIGHT, count, 4),
        first_error(column_words(p, cols, COL_BRAKE_BIAS, count, 4),
        first_error(column_words(p, cols, COL_RAIN_LIGHTS, count, 4),
        first_error(column_words(p, cols, COL_FLASHING_LIGHTS, count, 4),
        first_error(column_words(p, cols, COL_LIGHTS_STAGE, count, 4),
        first_error(column_words(p, cols, COL_WIPER_LV, count, 4),
        first_error(column_words(p, cols, COL_DRIVER_STINT_TOTAL_TIME_LEFT, count, 4),
        first_error(column_words(p, cols, COL_DRIVER_STINT_TIME_LEFT, count, 4),
        first_error(column_words(p, cols, COL_RAIN_TYRES, count, 4),
        first_error(column_words(p, cols, COL_CURRENT_TYRE_SET, count, 4),
        first_error(column_words(p, cols, COL_STRATEGY_TYRE_SET, count, 4),
        first_error(column_words(p, cols, COL_TRACK_GRIP_STATUS, count, 4),
        first_error(array_column_items(p, cols, COL_TYRE_COMPOUND_STR, count, 33, 2),
        first_error(column_words(p, cols, COL_MFD_TYRE_SET, count, 4),
        first_error(column_words(p, cols, COL_MFD_FUEL_TO_ADD, count, 4),
        first_error(array_column_items(p, cols, COL_MFD_TYRE_PRESSURE, count, 4, 4),
        first_error(column_words(p, cols, COL_IDEAL_LINE_ON, count, 4),
        first_error(column_words(p, cols, COL_IS_SETUP_MENU_VISIBLE, count, 4),
        first_error(column_words(p, cols, COL_MAIN_DISPLAY_INDEX, count, 4),
        first_error(column_words(p, cols, COL_SECONDARY_DISPLAY_INDEX, count, 4),
        first_error(column_words(p, cols, COL_DIRECTION_LIGHTS_LEFT, count, 4),
        first_error(column_words(p, cols, COL_DIRECTION_LIGHTS_RIGHT, count, 4),
        first_error(column_words(p, cols, COL_TC_LEVEL, count, 4),
        first_error(column_words(p, cols, COL_TC_CUT, count, 4),
        first_error(column_words(p, cols, COL_ENGINE_MAP, count, 4),
        first_error(column_words(p, cols, COL_ABS_LEVEL, count, 4),
        first_error(column_words(p, cols, COL_EXHAUST_TEMPERATURE, count, 4),
        first_error(column_words(p, cols, COL_FINAL_FF, count, 4),
        first_error(column_words(p, cols, COL_PERFORMANCE_METER, count, 4),
        first_error(column_words(p, cols, COL_KERB_VIBRATION, count, 4),
        first_error(column_words(p, cols, COL_SLIP_VIBRATIONS, count, 4),
        first_error(column_words(p, cols, COL_G_VIBRATIONS, count, 4),
        first_error(column_words(p, cols, COL_ABS_VIBRATIONS, count, 4),
        None))))))))))))))))))))))))))))))))))))))))))
}

/// What decoding a car_state chunk's payload of `count` samples gives.
pub open spec fn spec_decode_car_state(p: Seq<u8>, cols: Seq<ColumnEntry>, count: nat) -> Result<Seq<CarStateSampleView>, ErrorDesc> {
    match car_state_error(p, cols, count) {
        Some(d) => Err(d),
        None => Ok(Seq::new(count, |k: int| sample_at_car_state(p, cols, count, k))),
    }
}

/// Each field of a decoded car state sample comes from the column with that
/// field's own id: sample `k` holds the `k`-th value of that column (for an
/// array field, its `k`-th item), read at the column's width.
pub proof fn lemma_car_state_fields_from_own_columns(p: Seq<u8>, cols: Seq<ColumnEntry>, count: nat, k: int)
    requires
        spec_decode_car_state(p, cols, count) is Ok,
        0 <= k < count,
    ensures
        ({
            let s = spec_decode_car_state(p, cols, count)->Ok_0[k];
            &&& s.sample_tick == column_words(p, cols, COL_SAMPLE_TICK, count, 8)->Ok_0[k]
            &&& s.timestamp_ns == column_words(p, cols, COL_TIMESTAMP_NS, count, 8)->Ok_0[k]
            &&& s.car_damage == lanes_u32(array_column_items(p, cols, COL_CAR_DAMAGE, count, 5, 4)->Ok_0[k])
            &&& s.pit_limiter_on == (column_words(p, cols, COL_PIT_LIMITER_ON, count, 4)->Ok_0[k] as u32) as i32
            &&& s.ride_height == lanes_u32(array_column_items(p, cols, COL_RIDE_HEIGHT, count, 2, 4)->Ok_0[k])
            &&& s.ignition_on == (column_words(p, cols, COL_IGNITION_ON, count, 4)->Ok_0[k] as u32) as i32
            &&& s.starter_engine_on == (column_words(p, cols, COL_STARTER_ENGINE_ON, count, 4)->Ok_0[k] as u32) as i32
            &&& s.is_engine_running == (column_words(p, cols, COL_IS_ENGINE_RUNNING, count, 4)->Ok_0[k] as u32) as i32
            &&& s.is_ai_controlled == (column_words(p, cols, COL_IS_AI_CONTROLLED, count, 4)->Ok_0[k] as u32) as i32
            &&& s.cg_height == column_words(p, cols, COL_CG_HEIGHT, count, 4)->Ok_0[k] as u32
            &&& s.brake_bias == column_words(p, cols, COL_BRAKE_BIAS, count, 4)->Ok_0[k] as u32
            &&& s.rain_lights == (column_words(p, cols, COL_RAIN_LIGHTS, count, 4)->Ok_0[k] as u32) as i32
            &&& s.flashing_lights == (column_words(p, cols, COL_FLASHING_LIGHTS, count, 4)->Ok_0[k] as u32) as i32
            &&& s.lights_stage == (column_words(p, cols, COL_LIGHTS_STAGE, count, 4)->Ok_0[k] as u32) as i32
            &&& s.wiper_lv == (column_words(p, cols, COL_WIPER_LV, count, 4)->Ok_0[k] as u32) as i32
            &&& s.driver_stint_total_time_left == (column_words(p, cols, COL_DRIVER_STINT_TOTAL_TIME_LEFT, count, 4)->Ok_0[k] as u32) as i32
            &&& s.driver_stint_time_left == (column_words(p, cols, COL_DRIVER_STINT_TIME_LEFT, count, 4)->Ok_0[k] as u32) as i32
            &&& s.rain_tyres == (column_words(p, cols, COL_RAIN_TYRES, count, 4)->Ok_0[k] as u32) as i32
            &&& s.current_tyre_set == (column_words(p, cols, COL_CURRENT_TYRE_SET, count, 4)->Ok_0[k] as u32) as i32
            &&& s.strategy_tyre_set == (column_words(p, cols, COL_STRATEGY_TYRE_SET, count, 4)->Ok_0[k] as u32) as i32
            &&& s.track_grip_status == (column_words(p, cols, COL_TRACK_GRIP_STATUS, count, 4)->Ok_0[k] as u32) as i32
            &&& s.tyre_compound_str == lanes_u16(array_column_items(p, cols, COL_TYRE_COMPOUND_STR, count, 33, 2)->Ok_0[k])
            &&& s.mfd_tyre_set == (column_words(p, cols, COL_MFD_TYRE_SET, count, 4)->Ok_0[k] as u32) as i32
            &&& s.mfd_fuel_to_add == column_words(p, cols, COL_MFD_FUEL_TO_ADD, count, 4)->Ok_0[k] as u32
            &&& s.mfd_tyre_pressure == lanes_u32(array_column_items(p, cols, COL_MFD_TYRE_PRESSURE, count, 4, 4)->Ok_0[k])
            &&& s.ideal_line_on == (column_words(p, cols, COL_IDEAL_LINE_ON, count, 4)->Ok_0[k] as u32) as i32
            &&& s.is_setup_menu_visible == (column_words(p, cols, COL_IS_SETUP_MENU_VISIBLE, count, 4)->Ok_0[k] as u32) as i32
            &&& s.main_display_index == (column_words(p, cols, COL_MAIN_DISPLAY_INDEX, count, 4)->Ok_0[k] as u32) as i32
            &&& s.secondary_display_index == (column_words(p, cols, COL_SECONDARY_DISPLAY_INDEX, count, 4)->Ok_0[k] as u32) as i32
            &&& s.direction_lights_left == (column_words(p, cols, COL_DIRECTION_LIGHTS_LEFT, count, 4)->Ok_0[k] as u32) as i32
            &&& s.direction_lights_right == (column_words(p, cols, COL_DIRECTION_LIGHTS_RIGHT, count, 4)->Ok_0[k] as u32) as i32
            &&& s.tc_level == (column_words(p, cols, COL_TC_LEVEL, count, 4)->Ok_0[k] as u32) as i32
            &&& s.tc_cut == (column_words(p, cols, COL_TC_CUT, count, 4)->Ok_0[k] as u32) as i32
            &&& s.engine_map == (column_words(p, cols, COL_ENGINE_MAP, count, 4)->Ok_0[k] as u32) as i32
            &&& s.abs_level == (column_words(p, cols, COL_ABS_LEVEL, count, 4)->Ok_0[k] as u32) as i32
            &&& s.exhaust_temperature == column_words(p, cols, COL_EXHAUST_TEMPERATURE, count, 4)->Ok_0[k] as u32
            &&& s.final_ff == column_words(p, cols, COL_FINAL_FF, count, 4)->Ok_0[k] as u32
            &&& s.performance_meter == column_words(p, cols, COL_PERFORMANCE_METER, count, 4)->Ok_0[k] as u32
            &&& s.kerb_vibration == column_words(p, cols, COL_KERB_VIBRATION, count, 4)->Ok_0[k] as u32
            &&& s.slip_vibrations == column_words(p, cols, COL_SLIP_VIBRATIONS, count, 4)->Ok_0[k] as u32
            &&& s.g_vibrations == column_words(p, cols, COL_G_VIBRATIONS, count, 4)->Ok_0[k] as u32
            &&& s.abs_vibrations == column_words(p, cols, COL_ABS_VIBRATIONS, count, 4)->Ok_0[k] as u32
        }),
{
}

/// Decode a car_state chunk's payload of `count` samples.
fn decode_car_state_payload(payload: &[u8], columns: &[ColumnEntry], count: usize) -> (r: TelemetryResult<Vec<CarStateSample>>)
    requires
        count <= u32::MAX,
    ensures
        samples_match(r, spec_decode_car_state(payload@, columns@, count as nat)),
{
    let ghost p = payload@;
    let ghost cols = columns@;
    let c_ticks = match read_column(payload, columns, COL_SAMPLE_TICK, count, 8) { Ok(ws) => ws, Err(e) => { return Err(e); } };
    let c_timestamps = match read_column(payload, columns, COL_TIMESTAMP_NS, count, 8) { Ok(ws) => ws, Err(e) => { return Err(e); } };
    let c_car_damage = match read_array(payload, columns, COL_CAR_DAMAGE, count, 5, 4) { Ok(ws) => ws, Err(e) => { return Err(e); } };
    let c_pit_limiter_on = match read_column(payload, columns, COL_PIT_LIMITER_ON, count, 4) { Ok(ws) => ws, Err(e) => { return Err(e); } };
    let c_ride_height = match read_array(payload, columns, COL_RIDE_HEIGHT, count, 2, 4) { Ok(ws) => ws, Err(e) => { return Err(e); } };
    let c_ignition_on = match read_column(payload, columns, COL_IGNITION_ON, count, 4) { Ok(ws) => ws, Err(e) => { return Err(e); } };
    let c_starter_engine_on = match read_column(payload, columns, COL_STARTER_ENGINE_ON, count, 4) { Ok(ws) => ws, Err(e) => { return Err(e); } };
    let c_is_engine_running = match read_column(payload, columns, COL_IS_ENGINE_RUNNING, count, 4) { Ok(ws) => ws, Err(e) => { return Err(e); } };
    let c_is_ai_controlled = match read_column(payload, columns, COL_IS_AI_CONTROLLED, count, 4) { Ok(ws) => ws, Err(e) => { return Err(e); } };
    let c_cg_height = match read_column(payload, columns, COL_CG_HEIGHT, count, 4) { Ok(ws) => ws, Err(e) => { return Err(e); } };
    let c_brake_bias = match read_column(payload, columns, COL_BRAKE_BIAS, count, 4) { Ok(ws) => ws, Err(e) => { return Err(e); } };
    let c_rain_lights = match read_column(payload, columns, COL_RAIN_LIGHTS, count, 4) { Ok(ws) => ws, Err(e) => { return Err(e); } };
    let c_flashing_lights = match read_column(payload, columns, COL_FLASHING_LIGHTS, count, 4) { Ok(ws) => ws, Err(e) => { return Err(e); } };
    let c_lights_stage = match read_column(payload, columns, COL_LIGHTS_STAGE, count, 4) { Ok(ws) => ws, Err(e) => { return Err(e); } };
    let c_wiper_lv = match read_column(payload, columns, COL_WIPER_LV, count, 4) { Ok(ws) => ws, Err(e) => { return Err(e); } };
    let c_driver_stint_total_time_left = match read_column(payload, columns, COL_DRIVER_STINT_TOTAL_TIME_LEFT, count, 4) { Ok(ws) => ws, Err(e) => { return Err(e); } };
    let c_driver_stint_time_left = match read_column(payload, columns, COL_DRIVER_STINT_TIME_LEFT, count, 4) { Ok(ws) => ws, Err(e) => { return Err(e); } };
    let c_rain_tyres = match read_column(payload, columns, COL_RAIN_TYRES, count, 4) { Ok(ws) => ws, Err(e) => { return Err(e); } };
    let c_current_tyre_set = match read_column(payload, columns, COL_CURRENT_TYRE_SET, count, 4) { Ok(ws) => ws, Err(e) => { return Err(e); } };
    let c_strategy_tyre_set = match read_column(payload, columns, COL_STRATEGY_TYRE_SET, count, 4) { Ok(ws) => ws, Err(e) => { return Err(e); } };
    let c_track_grip_status = match read_column(payload, columns, COL_TRACK_GRIP_STATUS, count, 4) { Ok(ws) => ws, Err(e) => { return Err(e); } };
    let c_tyre_compound_str = match read_array(payload, columns, COL_TYRE_COMPOUND_STR, count, 33, 2) { Ok(ws) => ws, Err(e) => { return Err(e); } };
    let c_mfd_tyre_set = match read_column(payload, columns, COL_MFD_TYRE_SET, count, 4) { Ok(ws) => ws, Err(e) => { return Err(e); } };
    let c_mfd_fuel_to_add = match read_column(payload, columns, COL_MFD_FUEL_TO_ADD, count, 4) { Ok(ws) => ws, Err(e) => { return Err(e); } };
    let c_mfd_tyre_pressure = match read_array(payload, columns, COL_MFD_TYRE_PRESSURE, count, 4, 4) { Ok(ws) => ws, Err(e) => { return Err(e); } };
    let c_ideal_line_on = match read_column(payload, columns, COL_IDEAL_LINE_ON, count, 4) { Ok(ws) => ws, Err(e) => { return Err(e); } };
    let c_is_setup_menu_visible = match read_column(payload, columns, COL_IS_SETUP_MENU_VISIBLE, count, 4) { Ok(ws) => ws, Err(e) => { return Err(e); } };
    let c_main_display_index = match read_column(payload, columns, COL_MAIN_DISPLAY_INDEX, count, 4) { Ok(ws) => ws, Err(e) => { return Err(e); } };
    let c_secondary_display_index = match read_column(payload, columns, COL_SECONDARY_DISPLAY_INDEX, count, 4) { Ok(ws) => ws, Err(e) => { return Err(e); } };
    let c_direction_lights_left = match read_column(payload, columns, COL_DIRECTION_LIGHTS_LEFT, count, 4) { Ok(ws) => ws, Err(e) => { return Err(e); } };
    let c_direction_lights_right = match read_column(payload, columns, COL_DIRECTION_LIGHTS_RIGHT, count, 4) { Ok(ws) => ws, Err(e) => { return Err(e); } };
    let c_tc_level = match read_column(payload, columns, COL_TC_LEVEL, count, 4) { Ok(ws) => ws, Err(e) => { return Err(e); } };
    let c_tc_cut = match read_column(payload, columns, COL_TC_CUT, count, 4) { Ok(ws) => ws, Err(e) => { return Err(e); } };
    let c_engine_map = match read_column(payload, columns, COL_ENGINE_MAP, count, 4) { Ok(ws) => ws, Err(e) => { return Err(e); } };
    let c_abs_level = match read_column(payload, columns, COL_ABS_LEVEL, count, 4) { Ok(ws) => ws, Err(e) => { return Err(e); } };
    let c_exhaust_temperature = match read_column(payload, columns, COL_EXHAUST_TEMPERATURE, count, 4) { Ok(ws) => ws, Err(e) => { return Err(e); } };
    let c_final_ff = match read_column(payload, columns, COL_FINAL_FF, count, 4) { Ok(ws) => ws, Err(e) => { return Err(e); } };
    let c_performance_meter = match read_column(payload, columns, COL_PERFORMANCE_METER, count, 4) { Ok(ws) => ws, Err(e) => { return Err(e); } };
    let c_kerb_vibration = match read_column(payload, columns, COL_KERB_VIBRATION, count, 4) { Ok(ws) => ws, Err(e) => { return Err(e); } };
    let c_slip_vibrations = match read_column(payload, columns, COL_SLIP_VIBRATIONS, count, 4) { Ok(ws) => ws, Err(e) => { return Err(e); } };
    let c_g_vibrations = match read_column(payload, columns, COL_G_VIBRATIONS, count, 4) { Ok(ws) => ws, Err(e) => { return Err(e); } };
    let c_abs_vibrations = match read_column(payload, columns, COL_ABS_VIBRATIONS, count, 4) { Ok(ws) => ws, Err(e) => { return Err(e); } };
    assert(car_state_error(p, cols, count as nat) is None);
    let mut out: Vec<CarStateSample> = Vec::new();
    let mut i: usize = 0;
    while i < count
        invariant
            p == payload@,
            cols == columns@,
            i <= count,
            car_state_error(p, cols, count as nat) is None,
            column_words(p, cols, COL_SAMPLE_TICK, count as nat, 8) == Ok::<Seq<u64>, ErrorDesc>(c_ticks@),
            c_ticks@.len() == count,
            column_words(p, cols, COL_TIMESTAMP_NS, count as nat, 8) == Ok::<Seq<u64>, ErrorDesc>(c_timestamps@),
            c_timestamps@.len() == count,
            c_car_damage@.len() == count,
            array_column_items(p, cols, COL_CAR_DAMAGE, count as nat, 5, 4) is Ok,
            forall|j: int| 0 <= j < count ==> (#[trigger] c_car_damage@[j])@ == array_column_items(p, cols, COL_CAR_DAMAGE, count as nat, 5, 4)->Ok_0[j],
            column_words(p, cols, COL_PIT_LIMITER_ON, count as nat, 4) == Ok::<Seq<u64>, ErrorDesc>(c_pit_limiter_on@),
            c_pit_limiter_on@.len() == count,
            c_ride_height@.len() == count,
            array_column_items(p, cols, COL_RIDE_HEIGHT, count as nat, 2, 4) is Ok,
            forall|j: int| 0 <= j < count ==> (#[trigger] c_ride_height@[j])@ == array_column_items(p, cols, COL_RIDE_HEIGHT, count as nat, 2, 4)->Ok_0[j],
            column_words(p, cols, COL_IGNITION_ON, count as nat, 4) == Ok::<Seq<u64>, ErrorDesc>(c_ignition_on@),
            c_ignition_on@.len() == count,
            column_words(p, cols, COL_STARTER_ENGINE_ON, count as nat, 4) == Ok::<Seq<u64>, ErrorDesc>(c_starter_engine_on@),
            c_starter_engine_on@.len() == count,
            column_words(p, cols, COL_IS_ENGINE_RUNNING, count as nat, 4) == Ok::<Seq<u64>, ErrorDesc>(c_is_engine_running@),
            c_is_engine_running@.len() == count,
            column_words(p, cols, COL_IS_AI_CONTROLLED, count as nat, 4) == Ok::<Seq<u64>, ErrorDesc>(c_is_ai_controlled@),
            c_is_ai_controlled@.len() == count,
            column_words(p, cols, COL_CG_HEIGHT, count as nat, 4) == Ok::<Seq<u64>, ErrorDesc>(c_cg_height@),
            c_cg_height@.len() == count,
            column_words(p, cols, COL_BRAKE_BIAS, count as nat, 4) == Ok::<Seq<u64>, ErrorDesc>(c_brake_bias@),
            c_brake_bias@.len() == count,
            column_words(p, cols, COL_RAIN_LIGHTS, count as nat, 4) == Ok::<Seq<u64>, ErrorDesc>(c_rain_lights@),
            c_rain_lights@.len() == count,
            column_words(p, cols, COL_FLASHING_LIGHTS, count as nat, 4) == Ok::<Seq<u64>, ErrorDesc>(c_flashing_lights@),
            c_flashing_lights@.len() == count,
            column_words(p, cols, COL_LIGHTS_STAGE, count as nat, 4) == Ok::<Seq<u64>, ErrorDesc>(c_lights_stage@),
            c_lights_stage@.len() == count,
            column_words(p, cols, COL_WIPER_LV, count as nat, 4) == Ok::<Seq<u64>, ErrorDesc>(c_wiper_lv@),
            c_wiper_lv@.len() == count,
            column_words(p, cols, COL_DRIVER_STINT_TOTAL_TIME_LEFT, count as nat, 4) == Ok::<Seq<u64>, ErrorDesc>(c_driver_stint_total_time_left@),
            c_driver_stint_total_time_left@.len() == count,
            column_words(p, cols, COL_DRIVER_STINT_TIME_LEFT, count as nat, 4) == Ok::<Seq<u64>, ErrorDesc>(c_driver_stint_time_left@),
            c_driver_stint_time_left@.len() == count,
            column_words(p, cols, COL_RAIN_TYRES, count as nat, 4) == Ok::<Seq<u64>, ErrorDesc>(c_rain_tyres@),
            c_rain_tyres@.len() == count,
            column_words(p, cols, COL_CURRENT_TYRE_SET, count as nat, 4) == Ok::<Seq<u64>, ErrorDesc>(c_current_tyre_set@),
            c_current_tyre_set@.len() == count,
            column_words(p, cols, COL_STRATEGY_TYRE_SET, count as nat, 4) == Ok::<Seq<u64>, ErrorDesc>(c_strategy_tyre_set@),
            c_strategy_tyre_set@.len() == count,
            column_words(p, cols, COL_TRACK_GRIP_STATUS, count as nat, 4) == Ok::<Seq<u64>, ErrorDesc>(c_track_grip_status@),
            c_track_grip_status@.len() == count,
            c_tyre_compound_str@.len() == count,
            array_column_items(p, cols, COL_TYRE_COMPOUND_STR, count as nat, 33, 2) is Ok,
            forall|j: int| 0 <= j < count ==> (#[trigger] c_tyre_compound_str@[j])@ == array_column_items(p, cols, COL_TYRE_COMPOUND_STR, count as nat, 33, 2)->Ok_0[j],
            column_words(p, cols, COL_MFD_TYRE_SET, count as nat, 4) == Ok::<Seq<u64>, ErrorDesc>(c_mfd_tyre_set@),
            c_mfd_tyre_set@.len() == count,
            column_words(p, cols, COL_MFD_FUEL_TO_ADD, count as nat, 4) == Ok::<Seq<u64>, ErrorDesc>(c_mfd_fuel_to_add@),
            c_mfd_fuel_to_add@.len() == count,
            c_mfd_tyre_pressure@.len() == count,
            array_column_items(p, cols, COL_MFD_TYRE_PRESSURE, count as nat, 4, 4) is Ok,
            forall|j: int| 0 <= j < count ==> (#[trigger] c_mfd_tyre_pressure@[j])@ == array_column_items(p, cols, COL_MFD_TYRE_PRESSURE, count as nat, 4, 4)->Ok_0[j],
            column_words(p, cols, COL_IDEAL_LINE_ON, count as nat, 4) == Ok::<Seq<u64>, ErrorDesc>(c_ideal_line_on@),
            c_ideal_line_on@.len() == count,
            column_words(p, cols, COL_IS_SETUP_MENU_VISIBLE, count as nat, 4) == Ok::<Seq<u64>, ErrorDesc>(c_is_setup_menu_visible@),
            c_is_setup_menu_visible@.len() == count,
            column_words(p, cols, COL_MAIN_DISPLAY_INDEX, count as nat, 4) == Ok::<Seq<u64>, ErrorDesc>(c_main_display_index@),
            c_main_display_index@.len() == count,
            column_words(p, cols, COL_SECONDARY_DISPLAY_INDEX, count as nat, 4) == Ok::<Seq<u64>, ErrorDesc>(c_secondary_display_index@),
            c_secondary_display_index@.len() == count,
            column_words(p, cols, COL_DIRECTION_LIGHTS_LEFT, count as nat, 4) == Ok::<Seq<u64>, ErrorDesc>(c_direction_lights_left@),
            c_direction_lights_left@.len() == count,
            column_words(p, cols, COL_DIRECTION_LIGHTS_RIGHT, count as nat, 4) == Ok::<Seq<u64>, ErrorDesc>(c_direction_lights_right@),
            c_direction_lights_right@.len() == count,
            column_words(p, cols, COL_TC_LEVEL, count as nat, 4) == Ok::<Seq<u64>, ErrorDesc>(c_tc_level@),
            c_tc_level@.len() == count,
            column_words(p, cols, COL_TC_CUT, count as nat, 4) == Ok::<Seq<u64>, ErrorDesc>(c_tc_cut@),
            c_tc_cut@.len() == count,
            column_words(p, cols, COL_ENGINE_MAP, count as nat, 4) == Ok::<Seq<u64>, ErrorDesc>(c_engine_map@),
            c_engine_map@.len() == count,
            column_words(p, cols, COL_ABS_LEVEL, count as nat, 4) == Ok::<Seq<u64>, ErrorDesc>(c_abs_level@),
            c_abs_level@.len() == count,
            column_words(p, cols, COL_EXHAUST_TEMPERATURE, count as nat, 4) == Ok::<Seq<u64>, ErrorDesc>(c_exhaust_temperature@),
            c_exhaust_temperature@.len() == count,
            column_words(p, cols, COL_FINAL_FF, count as nat, 4) == Ok::<Seq<u64>, ErrorDesc>(c_final_ff@),
            c_final_ff@.len() == count,
            column_words(p, cols, COL_PERFORMANCE_METER, count as nat, 4) == Ok::<Seq<u64>, ErrorDesc>(c_performance_meter@),
            c_performance_meter@.len() == count,
            column_words(p, cols, COL_KERB_VIBRATION, count as nat, 4) == Ok::<Seq<u64>, ErrorDesc>(c_kerb_vibration@),
            c_kerb_vibration@.len() == count,
            column_words(p, cols, COL_SLIP_VIBRATIONS, count as nat, 4) == Ok::<Seq<u64>, ErrorDesc>(c_slip_vibrations@),
            c_slip_vibrations@.len() == count,
            column_words(p, cols, COL_G_VIBRATIONS, count as nat, 4) == Ok::<Seq<u64>, ErrorDesc>(c_g_vibrations@),
            c_g_vibrations@.len() == count,
            column_words(p, cols, COL_ABS_VIBRATIONS, count as nat, 4) == Ok::<Seq<u64>, ErrorDesc>(c_abs_vibrations@),
            c_abs_vibrations@.len() == count,
            out@.len() == i,
            forall|j: int| 0 <= j < i ==> (#[trigger] out@[j])@ == sample_at_car_state(p, cols, count as nat, j),
        decreases count - i,
    {
        let s = CarStateSample {
            sample_tick: c_ticks[i],
            timestamp_ns: c_timestamps[i],
            car_damage: words_to_u32(&c_car_damage[i]),
            pit_limiter_on: c_pit_limiter_on[i] as u32 as i32,
            ride_height: words_to_u32(&c_ride_height[i]),
            ignition_on: c_ignition_on[i] as u32 as i32,
            starter_engine_on: c_starter_engine_on[i] as u32 as i32,
            is_engine_running: c_is_engine_running[i] as u32 as i32,
            is_ai_controlled: c_is_ai_controlled[i] as u32 as i32,
            cg_height: c_cg_height[i] as u32,
            brake_bias: c_brake_bias[i] as u32,
            rain_lights: c_rain_lights[i] as u32 as i32,
            flashing_lights: c_flashing_lights[i] as u32 as i32,
            lights_stage: c_lights_stage[i] as u32 as i32,
            wiper_lv: c_wiper_lv[i] as u32 as i32,
            driver_stint_total_time_left: c_driver_stint_total_time_left[i] as u32 as i32,
            driver_stint_time_left: c_driver_stint_time_left[i] as u32 as i32,
            rain_tyres: c_rain_tyres[i] as u32 as i32,
            current_tyre_set: c_current_tyre_set[i] as u32 as i32,
            strategy_tyre_set: c_strategy_tyre_set[i] as u32 as i32,
            track_grip_status: c_track_grip_status[i] as u32 as i32,
            tyre_compound_str: words_to_u16(&c_tyre_compound_str[i]),
            mfd_tyre_set: c_mfd_tyre_set[i] as u32 as i32,
            mfd_fuel_to_add: c_mfd_fuel_to_add[i] as u32,
            mfd_tyre_pressure: words_to_u32(&c_mfd_tyre_pressure[i]),
            ideal_line_on: c_ideal_line_on[i] as u32 as i32,
            is_setup_menu_visible: c_is_setup_menu_visible[i] as u32 as i32,
            main_display_index: c_main_display_index[i] as u32 as i32,
            secondary_display_index: c_secondary_display_index[i] as u32 as i32,
            direction_lights_left: c_direction_lights_left[i] as u32 as i32,
            direction_lights_right: c_direction_lights_right[i] as u32 as i32,
            tc_level: c_tc_level[i] as u32 as i32,
            tc_cut: c_tc_cut[i] as u32 as i32,
            engine_map: c_engine_map[i] as u32 as i32,
            abs_level: c_abs_level[i] as u32 as i32,
            exhaust_temperature: c_exhaust_temperature[i] as u32,
            final_ff: c_final_ff[i] as u32,
            performance_meter: c_performance_meter[i] as u32,
            kerb_vibration: c_kerb_vibration[i] as u32,
            slip_vibrations: c_slip_vibrations[i] as u32,
            g_vibrations: c_g_vibrations[i] as u32,
            abs_vibrations: c_abs_vibrations[i] as u32,
        };
        out.push(s);
        i = i + 1;
    }
    assert(spec_decode_car_state(p, cols, count as nat) == Ok::<Seq<CarStateSampleView>, ErrorDesc>(Seq::new(count as nat, |k: int| sample_at_car_state(p, cols, count as nat, k))));
    Ok(out)
}

impl BinaryTelemetryReader {
    /// All car_state samples of the recording, chunk by chunk in index order.
    pub fn read_all_car_state(&self) -> (r: TelemetryResult<Vec<CarStateSample>>)
        ensures
            samples_match(r, spec_read_all(self.data(), self.opened().2, CLUSTER_CAR_STATE,
                |p: Seq<u8>, cols: Seq<ColumnEntry>, n: nat| spec_decode_car_state(p, cols, n))),
    {
        let entries = self.chunk_index();
        let ghost es = entries@;
        let ghost dec = |p: Seq<u8>, cols: Seq<ColumnEntry>, n: nat| spec_decode_car_state(p, cols, n);
        let mut out: Vec<CarStateSample> = Vec::new();
        let mut i: usize = 0;
        while i < entries.len()
            invariant
                es == entries@,
                es == self.opened().2,
                dec == (|p: Seq<u8>, cols: Seq<ColumnEntry>, n: nat| spec_decode_car_state(p, cols, n)),
                i <= es.len(),
                samples_match(Ok::<Vec<CarStateSample>, TelemetryError>(out), spec_read_all(self.data(), es.subrange(0, i as int), CLUSTER_CAR_STATE, dec)),
            decreases es.len() - i,
        {
            let ghost before = out@;
            proof { lemma_read_all_step(self.data(), es, i as int, CLUSTER_CAR_STATE, dec); }
            if entries[i].cluster_id == CLUSTER_CAR_STATE {
                let (header, cols, payload) = match read_chunk(self, &entries[i], CLUSTER_CAR_STATE) {
                    Ok(c) => c,
                    Err(e) => {
                        proof {
                            lemma_read_all_error_persists(self.data(), es, (i + 1) as int, es.len() as int, CLUSTER_CAR_STATE, dec);
                            assert(es.subrange(0, es.len() as int) =~= es);
                        }
                        return Err(e);
                    },
                };
                let samples = match decode_car_state_payload(payload, cols.as_slice(), header.sample_count as usize) {
                    Ok(s) => s,
                    Err(e) => {
                        proof {
                            lemma_read_all_error_persists(self.data(), es, (i + 1) as int, es.len() as int, CLUSTER_CAR_STATE, dec);
                            assert(es.subrange(0, es.len() as int) =~= es);
                        }
                        return Err(e);
                    },
                };
                let mut samples = samples;
                let ghost added = samples@;
                out.append(&mut samples);
                proof {
                    assert forall|j: int| 0 <= j < out@.len() implies (#[trigger] out@[j])@ == spec_read_all(self.data(), es.subrange(0, i + 1), CLUSTER_CAR_STATE, dec)->Ok_0[j] by {
                        if j < before.len() {
                            assert(out@[j] == before[j]);
                        } else {
                            assert(out@[j] == added[j - before.len()]);
                        }
                    }
                }
            }
            i = i + 1;
        }
        assert(es.subrange(0, es.len() as int) =~= es);
        Ok(out)
    }
}

/// A sample of the other_cars cluster. Floating-point values are held as
/// their bit patterns.
#[derive(Debug, Clone)]
pub struct OtherCarsSample {
    pub sample_tick: u64,
    pub timestamp_ns: u64,
    pub active_cars: i32,
    pub player_car_id: i32,
    pub car_coordinates: Vec<u32>,
    pub car_id: Vec<i32>,
}

/// A sample of the other_cars cluster as plain values.
pub struct OtherCarsSampleView {
    pub sample_tick: u64,
    pub timestamp_ns: u64,
    pub active_cars: i32,
    pub player_car_id: i32,
    pub car_coordinates: Seq<u32>,
    pub car_id: Seq<i32>,
}

impl View for OtherCarsSample {
    type V = OtherCarsSampleView;

    open spec fn view(&self) -> OtherCarsSampleView {
        OtherCarsSampleView {
            sample_tick: self.sample_tick,
            timestamp_ns: self.timestamp_ns,
            active_cars: self.active_cars,
            player_car_id: self.player_car_id,
            car_coordinates: self.car_coordinates@,
            car_id: self.car_id@,
        }
    }
}

/// Sample `k` of a other_cars chunk whose columns all read.
pub open spec fn sample_at_other_cars(p: Seq<u8>, cols: Seq<ColumnEntry>, count: nat, k: int) -> OtherCarsSampleView {
    OtherCarsSampleView {
            sample_tick: column_words(p, cols, COL_SAMPLE_TICK, count, 8)->Ok_0[k],
            timestamp_ns: column_words(p, cols, COL_TIMESTAMP_NS, count, 8)->Ok_0[k],
            active_cars: (column_words(p, cols, COL_ACTIVE_CARS, count, 4)->Ok_0[k] as u32) as i32,
            player_car_id: (column_words(p, cols, COL_PLAYER_CAR_ID, count, 4)->Ok_0[k] as u32) as i32,
            car_coordinates: lanes_u32(array_column_items(p, cols, COL_CAR_COORDINATES, count, 180, 4)->Ok_0[k]),
            car_id: lanes_i32(array_column_items(p, cols, COL_CAR_ID, count, 60, 4)->Ok_0[k]),
    }
}

/// The first failing column read of a other_cars chunk, in reading order.
pub open spec fn other_cars_error(p: Seq<u8>, cols: Seq<ColumnEntry>, count: nat) -> Option<ErrorDesc> {
    first_error(column_words(p, cols, COL_SAMPLE_TICK, count, 8),
        first_error(column_words(p, cols, COL_TIMESTAMP_NS, count, 8),
        first_error(column_words(p, cols, COL_ACTIVE_CARS, count, 4),
        first_error(column_words(p, cols, COL_PLAYER_CAR_ID, count, 4),
        first_error(array_column_items(p, cols, COL_CAR_COORDINATES, count, 180, 4),
        first_error(array_column_items(p, cols, COL_CAR_ID, count, 60, 4),
        None))))))
}

/// What decoding a other_cars chunk's payload of `count` samples gives.
pub open spec fn spec_decode_other_cars(p: Seq<u8>, cols: Seq<ColumnEntry>, count: nat) -> Result<Seq<OtherCarsSampleView>, ErrorDesc> {
    match other_cars_error(p, cols, count) {
        Some(d) => Err(d),
        None => Ok(Seq::new(count, |k: int| sample_at_other_cars(p, cols, count, k))),
    }
}

/// Each field of a decoded other cars sample comes from the column with that
/// field's own id: sample `k` holds the `k`-th value of that column (for an
/// array field, its `k`-th item), read at the column's width.
pub proof fn lemma_other_cars_fields_from_own_columns(p: Seq<u8>, cols: Seq<ColumnEntry>, count: nat, k: int)
    requires
        spec_decode_other_cars(p, cols, count) is Ok,
        0 <= k < count,
    ensures
        ({
            let s = spec_decode_other_cars(p, cols, count)->Ok_0[k];
            &&& s.sample_tick == column_words(p, cols, COL_SAMPLE_TICK, count, 8)->Ok_0[k]
            &&& s.timestamp_ns == column_words(p, cols, COL_TIMESTAMP_NS, count, 8)->Ok_0[k]
            &&& s.active_cars == (column_words(p, cols, COL_ACTIVE_CARS, count, 4)->Ok_0[k] as u32) as i32
            &&& s.player_car_id == (column_words(p, cols, COL_PLAYER_CAR_ID, count, 4)->Ok_0[k] as u32) as i32
            &&& s.car_coordinates == lanes_u32(array_column_items(p, cols, COL_CAR_COORDINATES, count, 180, 4)->Ok_0[k])
            &&& s.car_id == lanes_i32(array_column_items(p, cols, COL_CAR_ID, count, 60, 4)->Ok_0[k])
        }),
{
}

/// Decode a other_cars chunk's payload of `count` samples.
fn decode_other_cars_payload(payload: &[u8], columns: &[ColumnEntry], count: usize) -> (r: TelemetryResult<Vec<OtherCarsSample>>)
    requires
        count <= u32::MAX,
    ensures
        samples_match(r, spec_decode_other_cars(payload@, columns@, count as nat)),
{
    let ghost p = payload@;
    let ghost cols = columns@;
    let c_ticks = match read_column(payload, columns, COL_SAMPLE_TICK, count, 8) { Ok(ws) => ws, Err(e) => { return Err(e); } };
    let c_timestamps = match read_column(payload, columns, COL_TIMESTAMP_NS, count, 8) { Ok(ws) => ws, Err(e) => { return Err(e); } };
    let c_active_cars = match read_column(payload, columns, COL_ACTIVE_CARS, count, 4) { Ok(ws) => ws, Err(e) => { return Err(e); } };
    let c_player_car_id = match read_column(payload, columns, COL_PLAYER_CAR_ID, count, 4) { Ok(ws) => ws, Err(e) => { return Err(e); } };
    let c_coords = match read_array(payload, columns, COL_CAR_COORDINATES, count, 180, 4) { Ok(ws) => ws, Err(e) => { return Err(e); } };
    let c_ids = match read_array(payload, columns, COL_CAR_ID, count, 60, 4) { Ok(ws) => ws, Err(e) => { return Err(e); } };
    assert(other_cars_error(p, cols, count as nat) is None);
    let mut out: Vec<OtherCarsSample> = Vec::new();
    let mut i: usize = 0;
    while i < count
        invariant
            p == payload@,
            cols == columns@,
            i <= count,
            other_cars_error(p, cols, count as nat) is None,
            column_words(p, cols, COL_SAMPLE_TICK, count as nat, 8) == Ok::<Seq<u64>, ErrorDesc>(c_ticks@),
            c_ticks@.len() == count,
            column_words(p, cols, COL_TIMESTAMP_NS, count as nat, 8) == Ok::<Seq<u64>, ErrorDesc>(c_timestamps@),
            c_timestamps@.len() == count,
            column_words(p, cols, COL_ACTIVE_CARS, count as nat, 4) == Ok::<Seq<u64>, ErrorDesc>(c_active_cars@),
            c_active_cars@.len() == count,
            column_words(p, cols, COL_PLAYER_CAR_ID, count as nat, 4) == Ok::<Seq<u64>, ErrorDesc>(c_player_car_id@),
            c_player_car_id@.len() == count,
            c_coords@.len() == count,
            array_column_items(p, cols, COL_CAR_COORDINATES, count as nat, 180, 4) is Ok,
            forall|j: int| 0 <= j < count ==> (#[trigger] c_coords@[j])@ == array_column_items(p, cols, COL_CAR_COORDINATES, count as nat, 180, 4)->Ok_0[j],
            c_ids@.len() == count,
            array_column_items(p, cols, COL_CAR_ID, count as nat, 60, 4) is Ok,
            forall|j: int| 0 <= j < count ==> (#[trigger] c_ids@[j])@ == array_column_items(p, cols, COL_CAR_ID, count as nat, 60, 4)->Ok_0[j],
            out@.len() == i,
            forall|j: int| 0 <= j < i ==> (#[trigger] out@[j])@ == sample_at_other_cars(p, cols, count as nat, j),
        decreases count - i,
    {
        let s = OtherCarsSample {
            sample_tick: c_ticks[i],
            timestamp_ns: c_timestamps[i],
            active_cars: c_active_cars[i] as u32 as i32,
            player_car_id: c_player_car_id[i] as u32 as i32,
            car_coordinates: words_to_u32(&c_coords[i]),
            car_id: words_to_i32(&c_ids[i]),
        };
        out.push(s);
        i = i + 1;
    }
    assert(spec_decode_other_cars(p, cols, count as nat) == Ok::<Seq<OtherCarsSampleView>, ErrorDesc>(Seq::new(count as nat, |k: int| sample_at_other_cars(p, cols, count as nat, k))));
    Ok(out)
}

impl BinaryTelemetryReader {
    /// All other_cars samples of the recording, chunk by chunk in index order.
    pub fn read_all_other_cars(&self) -> (r: TelemetryResult<Vec<OtherCarsSample>>)
        ensures
            samples_match(r, spec_read_all(self.data(), self.opened().2, CLUSTER_OTHER_CARS,
                |p: Seq<u8>, cols: Seq<ColumnEntry>, n: nat| spec_decode_other_cars(p, cols, n))),
    {
        let entries = self.chunk_index();
        let ghost es = entries@;
        let ghost dec = |p: Seq<u8>, cols: Seq<ColumnEntry>, n: nat| spec_decode_other_cars(p, cols, n);
        let mut out: Vec<OtherCarsSample> = Vec::new();
        let mut i: usize = 0;
        while i < entries.len()
            invariant
                es == entries@,
                es == self.opened().2,
                dec == (|p: Seq<u8>, cols: Seq<ColumnEntry>, n: nat| spec_decode_other_cars(p, cols, n)),
                i <= es.len(),
                samples_match(Ok::<Vec<OtherCarsSample>, TelemetryError>(out), spec_read_all(self.data(), es.subrange(0, i as int), CLUSTER_OTHER_CARS, dec)),
            decreases es.len() - i,
        {
            let ghost before = out@;
            proof { lemma_read_all_step(self.data(), es, i as int, CLUSTER_OTHER_CARS, dec); }
            if entries[i].cluster_id == CLUSTER_OTHER_CARS {
                let (header, cols, payload) = match read_chunk(self, &entries[i], CLUSTER_OTHER_CARS) {
                    Ok(c) => c,
                    Err(e) => {
                        proof {
                            lemma_read_all_error_persists(self.data(), es, (i + 1) as int, es.len() as int, CLUSTER_OTHER_CARS, dec);
                            assert(es.subrange(0, es.len() as int) =~= es);
                        }
                        return Err(e);
                    },
                };
                let samples = match decode_other_cars_payload(payload, cols.as_slice(), header.sample_count as usize) {
                    Ok(s) => s,
                    Err(e) => {
                        proof {
                            lemma_read_all_error_persists(self.data(), es, (i + 1) as int, es.len() as int, CLUSTER_OTHER_CARS, dec);
                            assert(es.subrange(0, es.len() as int) =~= es);
                        }
                        return Err(e);
                    },
                };
                let mut samples = samples;
                let ghost added = samples@;
                out.append(&mut samples);
                proof {
                    assert forall|j: int| 0 <= j < out@.len() implies (#[trigger] out@[j])@ == spec_read_all(self.data(), es.subrange(0, i + 1), CLUSTER_OTHER_CARS, dec)->Ok_0[j] by {
                        if j < before.len() {
                            assert(out@[j] == before[j]);
                        } else {
                            assert(out@[j] == added[j - before.len()]);
                        }
                    }
                }
            }
            i = i + 1;
        }
        assert(es.subrange(0, es.len() as int) =~= es);
        Ok(out)
    }
}
} // verus!
