//! The v1 chunked format (`.acctlm`): file, chunk, column and index
//! headers, the schema block and its column catalog, and the CRC-32 that
//! guards chunk payloads.

use vstd::prelude::*;
use vstd::bytes::*;
use vstd::string::*;
pub use crate::codec::read_u16;
use crate::codec::{
    get_i32, get_u16, get_u32, get_u64, i32_at, le_i32, lemma_at_in_window, lemma_le_roundtrip,
    lemma_read_written, put_bytes, put_i32, put_u16, put_u32, put_u64, put_zeros, u16_at,
    u32_at, u64_at, zeros, ByteReader,
};
pub use crate::codec::{crc32, read_i32, read_u32, read_u64};
use crate::codec::{encode_many, spec_crc32};
use vstd::slice::slice_subrange;
use crate::error::{error_matches, read_outcome, ErrorDesc, TelemetryError, TelemetryResult};
use crate::text::{decimal, text_with_number};

verus! {

pub const FORMAT_VERSION: u16 = 2;
pub const HEADER_SIZE: u16 = 128;
pub const TIMEBASE_HZ: u32 = 1_000_000_000;
pub const SCHEMA_HASH: u64 = 0x4143_544c_0000_0002;
pub const CHUNK_HEADER_SIZE: u16 = 72;
pub const COLUMN_ENTRY_SIZE: usize = 40;

pub const TYPE_U64: u8 = 1;
pub const TYPE_F32: u8 = 2;
pub const TYPE_I32: u8 = 3;
pub const TYPE_BYTES: u8 = 4;
pub const CODEC_PLAIN_LE: u8 = 0;

pub const CLUSTER_CONTROLS: u16 = 0x0100;
pub const CLUSTER_MOTION: u16 = 0x0200;
pub const CLUSTER_TYRES: u16 = 0x0300;
pub const CLUSTER_POWERTRAIN: u16 = 0x0400;
pub const CLUSTER_SESSION: u16 = 0x0500;
pub const CLUSTER_TIMING: u16 = 0x0600;
pub const CLUSTER_CAR_STATE: u16 = 0x0700;
pub const CLUSTER_ENVIRONMENT: u16 = 0x0800;
pub const CLUSTER_OTHER_CARS: u16 = 0x0900;
pub const COL_SAMPLE_TICK: u16 = 1;
pub const COL_TIMESTAMP_NS: u16 = 2;
pub const COL_PHYSICS_PACKET_ID: u16 = 3;
pub const COL_GRAPHICS_PACKET_ID: u16 = 4;
pub const COL_SPEED_KMH: u16 = 10;
pub const COL_GAS: u16 = 11;
pub const COL_BRAKE: u16 = 12;
pub const COL_CLUTCH: u16 = 13;
pub const COL_STEER_ANGLE: u16 = 14;
pub const COL_GEAR: u16 = 15;
pub const COL_RPMS: u16 = 16;
pub const COL_FUEL: u16 = 17;
pub const COL_VELOCITY: u16 = 20;
pub const COL_ACC_G: u16 = 21;
pub const COL_LOCAL_VELOCITY: u16 = 22;
pub const COL_LOCAL_ANGULAR_VEL: u16 = 23;
pub const COL_HEADING: u16 = 24;
pub const COL_PITCH: u16 = 25;
pub const COL_ROLL: u16 = 26;
pub const COL_WHEEL_SLIP: u16 = 30;
pub const COL_WHEEL_LOAD: u16 = 31;
pub const COL_WHEELS_PRESSURE: u16 = 32;
pub const COL_WHEEL_ANGULAR_SPEED: u16 = 33;
pub const COL_TYRE_WEAR: u16 = 34;
pub const COL_TYRE_DIRTY_LEVEL: u16 = 35;
pub const COL_TYRE_CORE_TEMPERATURE: u16 = 36;
pub const COL_CAMBER_RAD: u16 = 37;
pub const COL_SUSPENSION_TRAVEL: u16 = 38;
pub const COL_SLIP_RATIO: u16 = 39;
pub const COL_SLIP_ANGLE: u16 = 40;
pub const COL_TYRE_TEMP_I: u16 = 41;
pub const COL_TYRE_TEMP_M: u16 = 42;
pub const COL_TYRE_TEMP_O: u16 = 43;
pub const COL_TYRE_TEMP: u16 = 44;
pub const COL_MZ: u16 = 45;
pub const COL_FX: u16 = 46;
pub const COL_FY: u16 = 47;
pub const COL_SUSPENSION_DAMAGE: u16 = 48;
pub const COL_BRAKE_TEMP: u16 = 49;
pub const COL_BRAKE_PRESSURE: u16 = 50;
pub const COL_PAD_LIFE: u16 = 51;
pub const COL_DISC_LIFE: u16 = 52;
pub const COL_TYRE_CONTACT_POINT: u16 = 53;
pub const COL_TYRE_CONTACT_NORMAL: u16 = 54;
pub const COL_TYRE_CONTACT_HEADING: u16 = 55;
pub const COL_NUMBER_OF_TYRES_OUT: u16 = 56;
pub const COL_FRONT_BRAKE_COMPOUND: u16 = 57;
pub const COL_REAR_BRAKE_COMPOUND: u16 = 58;
pub const COL_TURBO_BOOST: u16 = 60;
pub const COL_BALLAST: u16 = 61;
pub const COL_KERS_CHARGE: u16 = 62;
pub const COL_KERS_INPUT: u16 = 63;
pub const COL_KERS_CURRENT_KJ: u16 = 64;
pub const COL_DRS: u16 = 65;
pub const COL_TC_PHYSICS: u16 = 66;
pub const COL_ABS_PHYSICS: u16 = 67;
pub const COL_ENGINE_BRAKE: u16 = 68;
pub const COL_ERS_RECOVERY_LEVEL: u16 = 69;
pub const COL_ERS_POWER_LEVEL: u16 = 70;
pub const COL_ERS_HEAT_CHARGING: u16 = 71;
pub const COL_ERS_IS_CHARGING: u16 = 72;
pub const COL_DRS_AVAILABLE: u16 = 73;
pub const COL_DRS_ENABLED: u16 = 74;
pub const COL_TC_IN_ACTION: u16 = 75;
pub const COL_ABS_IN_ACTION: u16 = 76;
pub const COL_AUTO_SHIFTER_ON: u16 = 77;
pub const COL_CURRENT_MAX_RPM: u16 = 78;
pub const COL_P2P_ACTIVATIONS: u16 = 79;
pub const COL_P2P_STATUS: u16 = 80;
pub const COL_WATER_TEMP: u16 = 81;
pub const COL_STATUS: u16 = 90;
pub const COL_SESSION: u16 = 91;
pub const COL_SESSION_INDEX: u16 = 92;
pub const COL_COMPLETED_LAPS: u16 = 93;
pub const COL_POSITION: u16 = 94;
pub const COL_SESSION_TIME_LEFT: u16 = 95;
pub const COL_NUMBER_OF_LAPS: u16 = 96;
pub const COL_CURRENT_SECTOR_INDEX: u16 = 97;
pub const COL_NORMALIZED_CAR_POSITION: u16 = 98;
pub const COL_IS_IN_PIT: u16 = 99;
pub const COL_IS_IN_PIT_LANE: u16 = 100;
pub const COL_MANDATORY_PIT_DONE: u16 = 101;
pub const COL_MISSING_MANDATORY_PITS: u16 = 102;
pub const COL_PENALTY_TIME: u16 = 103;
pub const COL_PENALTY_TYPE: u16 = 104;
pub const COL_TRACK_STATUS: u16 = 105;
pub const COL_CLOCK: u16 = 106;
pub const COL_REPLAY_TIME_MULTIPLIER: u16 = 107;
pub const COL_IS_VALID_LAP: u16 = 108;
pub const COL_GLOBAL_YELLOW: u16 = 109;
pub const COL_GLOBAL_YELLOW1: u16 = 110;
pub const COL_GLOBAL_YELLOW2: u16 = 111;
pub const COL_GLOBAL_YELLOW3: u16 = 112;
pub const COL_GLOBAL_WHITE: u16 = 113;
pub const COL_GLOBAL_GREEN: u16 = 114;
pub const COL_GLOBAL_CHEQUERED: u16 = 115;
pub const COL_GLOBAL_RED: u16 = 116;
pub const COL_GAP_AHEAD_OR_TAIL: u16 = 117;
pub const COL_I_CURRENT_TIME: u16 = 120;
pub const COL_I_LAST_TIME: u16 = 121;
pub const COL_I_BEST_TIME: u16 = 122;
pub const COL_I_SPLIT: u16 = 123;
pub const COL_LAST_SECTOR_TIME: u16 = 124;
pub const COL_I_DELTA_LAP_TIME: u16 = 125;
pub const COL_IS_DELTA_POSITIVE: u16 = 126;
pub const COL_I_ESTIMATED_LAP_TIME: u16 = 127;
pub const COL_FUEL_ESTIMATED_LAPS: u16 = 128;
pub const COL_FUEL_X_LAP: u16 = 129;
pub const COL_USED_FUEL: u16 = 130;
pub const COL_DISTANCE_TRAVELED: u16 = 131;
pub const COL_CURRENT_TIME_STR: u16 = 132;
pub const COL_LAST_TIME_STR: u16 = 133;
pub const COL_BEST_TIME_STR: u16 = 134;
pub const COL_SPLIT_STR: u16 = 135;
pub const COL_DELTA_LAP_TIME_STR: u16 = 136;
pub const COL_ESTIMATED_LAP_TIME_STR: u16 = 137;
pub const COL_OBSERVED_SLOT_BEFORE_I_SPLIT: u16 = 138;
pub const COL_CAR_DAMAGE: u16 = 150;
pub const COL_PIT_LIMITER_ON: u16 = 151;
pub const COL_RIDE_HEIGHT: u16 = 152;
pub const COL_IGNITION_ON: u16 = 153;
pub const COL_STARTER_ENGINE_ON: u16 = 154;
pub const COL_IS_ENGINE_RUNNING: u16 = 155;
pub const COL_IS_AI_CONTROLLED: u16 = 156;
pub const COL_CG_HEIGHT: u16 = 157;
pub const COL_BRAKE_BIAS: u16 = 158;
pub const COL_RAIN_LIGHTS: u16 = 159;
pub const COL_FLASHING_LIGHTS: u16 = 160;
pub const COL_LIGHTS_STAGE: u16 = 161;
pub const COL_WIPER_LV: u16 = 162;
pub const COL_DRIVER_STINT_TOTAL_TIME_LEFT: u16 = 163;
pub const COL_DRIVER_STINT_TIME_LEFT: u16 = 164;
pub const COL_RAIN_TYRES: u16 = 165;
pub const COL_CURRENT_TYRE_SET: u16 = 166;
pub const COL_STRATEGY_TYRE_SET: u16 = 167;
pub const COL_TRACK_GRIP_STATUS: u16 = 168;
pub const COL_TYRE_COMPOUND_STR: u16 = 169;
pub const COL_MFD_TYRE_SET: u16 = 170;
pub const COL_MFD_FUEL_TO_ADD: u16 = 171;
pub const COL_MFD_TYRE_PRESSURE: u16 = 172;
pub const COL_IDEAL_LINE_ON: u16 = 173;
pub const COL_IS_SETUP_MENU_VISIBLE: u16 = 174;
pub const COL_MAIN_DISPLAY_INDEX: u16 = 175;
pub const COL_SECONDARY_DISPLAY_INDEX: u16 = 176;
pub const COL_DIRECTION_LIGHTS_LEFT: u16 = 177;
pub const COL_DIRECTION_LIGHTS_RIGHT: u16 = 178;
pub const COL_TC_LEVEL: u16 = 179;
pub const COL_TC_CUT: u16 = 180;
pub const COL_ENGINE_MAP: u16 = 181;
pub const COL_ABS_LEVEL: u16 = 182;
pub const COL_EXHAUST_TEMPERATURE: u16 = 183;
pub const COL_FINAL_FF: u16 = 184;
pub const COL_PERFORMANCE_METER: u16 = 185;
pub const COL_KERB_VIBRATION: u16 = 186;
pub const COL_SLIP_VIBRATIONS: u16 = 187;
pub const COL_G_VIBRATIONS: u16 = 188;
pub const COL_ABS_VIBRATIONS: u16 = 189;
pub const COL_AIR_DENSITY: u16 = 200;
pub const COL_AIR_TEMP: u16 = 201;
pub const COL_ROAD_TEMP: u16 = 202;
pub const COL_WIND_SPEED: u16 = 203;
pub const COL_WIND_DIRECTION: u16 = 204;
pub const COL_SURFACE_GRIP: u16 = 205;
pub const COL_RAIN_INTENSITY: u16 = 206;
pub const COL_RAIN_INTENSITY_IN_10MIN: u16 = 207;
pub const COL_RAIN_INTENSITY_IN_30MIN: u16 = 208;
pub const COL_ACTIVE_CARS: u16 = 210;
pub const COL_PLAYER_CAR_ID: u16 = 211;
pub const COL_CAR_COORDINATES: u16 = 212;
pub const COL_CAR_ID: u16 = 213;

/// The eight magic bytes that open a v1 file: `ACTL\r\n\x1A\n`.
pub open spec fn file_magic() -> Seq<u8> {
    seq![65u8, 67u8, 84u8, 76u8, 13u8, 10u8, 26u8, 10u8]
}

/// The magic bytes that open a chunk (`CHNK`), the index (`INDX`), the
/// footer (`FOOT`), the metadata block (`META`) and the schema block (`SCHM`).
pub open spec fn chunk_magic() -> Seq<u8> { seq![67u8, 72u8, 78u8, 75u8] }
pub open spec fn index_magic() -> Seq<u8> { seq![73u8, 78u8, 68u8, 88u8] }
pub open spec fn footer_magic() -> Seq<u8> { seq![70u8, 79u8, 79u8, 84u8] }
pub open spec fn meta_magic() -> Seq<u8> { seq![77u8, 69u8, 84u8, 65u8] }
pub open spec fn schema_magic() -> Seq<u8> { seq![83u8, 67u8, 72u8, 77u8] }

/// A column of the v1 schema: its id, name and value type.
#[derive(Debug, Clone, Copy)]
pub struct ColumnSpec {
    pub id: u16,
    pub name: &'static str,
    pub value_type: u8,
}

impl ColumnSpec {
    /// A column with the given id, name and type.
    pub fn new(id: u16, name: &'static str, value_type: u8) -> (r: Self)
        ensures
            r == (ColumnSpec { id, name, value_type }),
    {
        ColumnSpec { id, name, value_type }
    }
}

/// The columns of the `control columns` cluster, in schema order.
pub open spec fn spec_control_columns() -> Seq<ColumnSpec> {
    seq![
        ColumnSpec { id: COL_SAMPLE_TICK, name: "sampleTick", value_type: TYPE_U64 },
        ColumnSpec { id: COL_TIMESTAMP_NS, name: "timestampNs", value_type: TYPE_U64 },
        ColumnSpec { id: COL_PHYSICS_PACKET_ID, name: "physicsPacketId", value_type: TYPE_I32 },
        ColumnSpec { id: COL_GRAPHICS_PACKET_ID, name: "graphicsPacketId", value_type: TYPE_I32 },
        ColumnSpec { id: COL_SPEED_KMH, name: "speedKmh", value_type: TYPE_F32 },
        ColumnSpec { id: COL_GAS, name: "gas", value_type: TYPE_F32 },
        ColumnSpec { id: COL_BRAKE, name: "brake", value_type: TYPE_F32 },
        ColumnSpec { id: COL_CLUTCH, name: "clutch", value_type: TYPE_F32 },
        ColumnSpec { id: COL_STEER_ANGLE, name: "steerAngle", value_type: TYPE_F32 },
        ColumnSpec { id: COL_GEAR, name: "gear", value_type: TYPE_I32 },
        ColumnSpec { id: COL_RPMS, name: "rpms", value_type: TYPE_I32 },
        ColumnSpec { id: COL_FUEL, name: "fuel", value_type: TYPE_F32 },
    ]
}

/// The columns of this cluster, in schema order.
pub fn control_columns() -> (r: Vec<ColumnSpec>)
    ensures
        r@ == spec_control_columns(),
{
    let r = vec![
        ColumnSpec { id: COL_SAMPLE_TICK, name: "sampleTick", value_type: TYPE_U64 },
        ColumnSpec { id: COL_TIMESTAMP_NS, name: "timestampNs", value_type: TYPE_U64 },
        ColumnSpec { id: COL_PHYSICS_PACKET_ID, name: "physicsPacketId", value_type: TYPE_I32 },
        ColumnSpec { id: COL_GRAPHICS_PACKET_ID, name: "graphicsPacketId", value_type: TYPE_I32 },
        ColumnSpec { id: COL_SPEED_KMH, name: "speedKmh", value_type: TYPE_F32 },
        ColumnSpec { id: COL_GAS, name: "gas", value_type: TYPE_F32 },
        ColumnSpec { id: COL_BRAKE, name: "brake", value_type: TYPE_F32 },
        ColumnSpec { id: COL_CLUTCH, name: "clutch", value_type: TYPE_F32 },
        ColumnSpec { id: COL_STEER_ANGLE, name: "steerAngle", value_type: TYPE_F32 },
        ColumnSpec { id: COL_GEAR, name: "gear", value_type: TYPE_I32 },
        ColumnSpec { id: COL_RPMS, name: "rpms", value_type: TYPE_I32 },
        ColumnSpec { id: COL_FUEL, name: "fuel", value_type: TYPE_F32 },
    ];
    assert(r@ =~= spec_control_columns());
    r
}

/// The columns of the `motion columns` cluster, in schema order.
pub open spec fn spec_motion_columns() -> Seq<ColumnSpec> {
    seq![
        ColumnSpec { id: COL_SAMPLE_TICK, name: "sampleTick", value_type: TYPE_U64 },
        ColumnSpec { id: COL_TIMESTAMP_NS, name: "timestampNs", value_type: TYPE_U64 },
        ColumnSpec { id: COL_VELOCITY, name: "velocity", value_type: TYPE_BYTES },
        ColumnSpec { id: COL_ACC_G, name: "accG", value_type: TYPE_BYTES },
        ColumnSpec { id: COL_LOCAL_VELOCITY, name: "localVelocity", value_type: TYPE_BYTES },
        ColumnSpec { id: COL_LOCAL_ANGULAR_VEL, name: "localAngularVel", value_type: TYPE_BYTES },
        ColumnSpec { id: COL_HEADING, name: "heading", value_type: TYPE_F32 },
        ColumnSpec { id: COL_PITCH, name: "pitch", value_type: TYPE_F32 },
    ]
}

/// The columns of this cluster, in schema order.
pub fn motion_columns() -> (r: Vec<ColumnSpec>)
    ensures
        r@ == spec_motion_columns(),
{
    let r = vec![
        ColumnSpec { id: COL_SAMPLE_TICK, name: "sampleTick", value_type: TYPE_U64 },
        ColumnSpec { id: COL_TIMESTAMP_NS, name: "timestampNs", value_type: TYPE_U64 },
        ColumnSpec { id: COL_VELOCITY, name: "velocity", value_type: TYPE_BYTES },
        ColumnSpec { id: COL_ACC_G, name: "accG", value_type: TYPE_BYTES },
        ColumnSpec { id: COL_LOCAL_VELOCITY, name: "localVelocity", value_type: TYPE_BYTES },
        ColumnSpec { id: COL_LOCAL_ANGULAR_VEL, name: "localAngularVel", value_type: TYPE_BYTES },
        ColumnSpec { id: COL_HEADING, name: "heading", value_type: TYPE_F32 },
        ColumnSpec { id: COL_PITCH, name: "pitch", value_type: TYPE_F32 },
    ];
    assert(r@ =~= spec_motion_columns());
    r
}

/// The columns of the `motion columns ex` cluster, in schema order.
pub open spec fn spec_motion_columns_ex() -> Seq<ColumnSpec> {
    seq![
        ColumnSpec { id: COL_SAMPLE_TICK, name: "sampleTick", value_type: TYPE_U64 },
        ColumnSpec { id: COL_TIMESTAMP_NS, name: "timestampNs", value_type: TYPE_U64 },
        ColumnSpec { id: COL_VELOCITY, name: "velocity", value_type: TYPE_BYTES },
        ColumnSpec { id: COL_ACC_G, name: "accG", value_type: TYPE_BYTES },
        ColumnSpec { id: COL_LOCAL_VELOCITY, name: "localVelocity", value_type: TYPE_BYTES },
        ColumnSpec { id: COL_LOCAL_ANGULAR_VEL, name: "localAngularVel", value_type: TYPE_BYTES },
        ColumnSpec { id: COL_HEADING, name: "heading", value_type: TYPE_F32 },
        ColumnSpec { id: COL_PITCH, name: "pitch", value_type: TYPE_F32 },
        ColumnSpec { id: COL_ROLL, name: "roll", value_type: TYPE_F32 },
    ]
}

/// The columns of this cluster, in schema order.
pub fn motion_columns_ex() -> (r: Vec<ColumnSpec>)
    ensures
        r@ == spec_motion_columns_ex(),
{
    let r = vec![
        ColumnSpec { id: COL_SAMPLE_TICK, name: "sampleTick", value_type: TYPE_U64 },
        ColumnSpec { id: COL_TIMESTAMP_NS, name: "timestampNs", value_type: TYPE_U64 },
        ColumnSpec { id: COL_VELOCITY, name: "velocity", value_type: TYPE_BYTES },
        ColumnSpec { id: COL_ACC_G, name: "accG", value_type: TYPE_BYTES },
        ColumnSpec { id: COL_LOCAL_VELOCITY, name: "localVelocity", value_type: TYPE_BYTES },
        ColumnSpec { id: COL_LOCAL_ANGULAR_VEL, name: "localAngularVel", value_type: TYPE_BYTES },
        ColumnSpec { id: COL_HEADING, name: "heading", value_type: TYPE_F32 },
        ColumnSpec { id: COL_PITCH, name: "pitch", value_type: TYPE_F32 },
        ColumnSpec { id: COL_ROLL, name: "roll", value_type: TYPE_F32 },
    ];
    assert(r@ =~= spec_motion_columns_ex());
    r
}

/// The columns of the `tyres columns` cluster, in schema order.
pub open spec fn spec_tyres_columns() -> Seq<ColumnSpec> {
    seq![
        ColumnSpec { id: COL_SAMPLE_TICK, name: "sampleTick", value_type: TYPE_U64 },
        ColumnSpec { id: COL_TIMESTAMP_NS, name: "timestampNs", value_type: TYPE_U64 },
        ColumnSpec { id: COL_WHEEL_SLIP, name: "wheelSlip", value_type: TYPE_BYTES },
        ColumnSpec { id: COL_WHEEL_LOAD, name: "wheelLoad", value_type: TYPE_BYTES },
        ColumnSpec { id: COL_WHEELS_PRESSURE, name: "wheelsPressure", value_type: TYPE_BYTES },
        ColumnSpec { id: COL_WHEEL_ANGULAR_SPEED, name: "wheelAngularSpeed", value_type: TYPE_BYTES },
        ColumnSpec { id: COL_TYRE_WEAR, name: "tyreWear", value_type: TYPE_BYTES },
        ColumnSpec { id: COL_TYRE_DIRTY_LEVEL, name: "tyreDirtyLevel", value_type: TYPE_BYTES },
        ColumnSpec { id: COL_TYRE_CORE_TEMPERATURE, name: "tyreCoreTemperature", value_type: TYPE_BYTES },
        ColumnSpec { id: COL_CAMBER_RAD, name: "camberRad", value_type: TYPE_BYTES },
        ColumnSpec { id: COL_SUSPENSION_TRAVEL, name: "suspensionTravel", value_type: TYPE_BYTES },
        ColumnSpec { id: COL_SLIP_RATIO, name: "slipRatio", value_type: TYPE_BYTES },
        ColumnSpec { id: COL_SLIP_ANGLE, name: "slipAngle", value_type: TYPE_BYTES },
        ColumnSpec { id: COL_TYRE_TEMP_I, name: "tyreTempI", value_type: TYPE_BYTES },
        ColumnSpec { id: COL_TYRE_TEMP_M, name: "tyreTempM", value_type: TYPE_BYTES },
        ColumnSpec { id: COL_TYRE_TEMP_O, name: "tyreTempO", value_type: TYPE_BYTES },
        ColumnSpec { id: COL_TYRE_TEMP, name: "tyreTemp", value_type: TYPE_BYTES },
        ColumnSpec { id: COL_MZ, name: "mz", value_type: TYPE_BYTES },
        ColumnSpec { id: COL_FX, name: "fx", value_type: TYPE_BYTES },
        ColumnSpec { id: COL_FY, name: "fy", value_type: TYPE_BYTES },
        ColumnSpec { id: COL_SUSPENSION_DAMAGE, name: "suspensionDamage", value_type: TYPE_BYTES },
        ColumnSpec { id: COL_BRAKE_TEMP, name: "brakeTemp", value_type: TYPE_BYTES },
        ColumnSpec { id: COL_BRAKE_PRESSURE, name: "brakePressure", value_type: TYPE_BYTES },
        ColumnSpec { id: COL_PAD_LIFE, name: "padLife", value_type: TYPE_BYTES },
        ColumnSpec { id: COL_DISC_LIFE, name: "discLife", value_type: TYPE_BYTES },
        ColumnSpec { id: COL_TYRE_CONTACT_POINT, name: "tyreContactPoint", value_type: TYPE_BYTES },
        ColumnSpec { id: COL_TYRE_CONTACT_NORMAL, name: "tyreContactNormal", value_type: TYPE_BYTES },
        ColumnSpec { id: COL_TYRE_CONTACT_HEADING, name: "tyreContactHeading", value_type: TYPE_BYTES },
        ColumnSpec { id: COL_NUMBER_OF_TYRES_OUT, name: "numberOfTyresOut", value_type: TYPE_I32 },
        ColumnSpec { id: COL_FRONT_BRAKE_COMPOUND, name: "frontBrakeCompound", value_type: TYPE_I32 },
        ColumnSpec { id: COL_REAR_BRAKE_COMPOUND, name: "rearBrakeCompound", value_type: TYPE_I32 },
    ]
}

/// The columns of this cluster, in schema order.
pub fn tyres_columns() -> (r: Vec<ColumnSpec>)
    ensures
        r@ == spec_tyres_columns(),
{
    let r = vec![
        ColumnSpec { id: COL_SAMPLE_TICK, name: "sampleTick", value_type: TYPE_U64 },
        ColumnSpec { id: COL_TIMESTAMP_NS, name: "timestampNs", value_type: TYPE_U64 },
        ColumnSpec { id: COL_WHEEL_SLIP, name: "wheelSlip", value_type: TYPE_BYTES },
        ColumnSpec { id: COL_WHEEL_LOAD, name: "wheelLoad", value_type: TYPE_BYTES },
        ColumnSpec { id: COL_WHEELS_PRESSURE, name: "wheelsPressure", value_type: TYPE_BYTES },
        ColumnSpec { id: COL_WHEEL_ANGULAR_SPEED, name: "wheelAngularSpeed", value_type: TYPE_BYTES },
        ColumnSpec { id: COL_TYRE_WEAR, name: "tyreWear", value_type: TYPE_BYTES },
        ColumnSpec { id: COL_TYRE_DIRTY_LEVEL, name: "tyreDirtyLevel", value_type: TYPE_BYTES },
        ColumnSpec { id: COL_TYRE_CORE_TEMPERATURE, name: "tyreCoreTemperature", value_type: TYPE_BYTES },
        ColumnSpec { id: COL_CAMBER_RAD, name: "camberRad", value_type: TYPE_BYTES },
        ColumnSpec { id: COL_SUSPENSION_TRAVEL, name: "suspensionTravel", value_type: TYPE_BYTES },
        ColumnSpec { id: COL_SLIP_RATIO, name: "slipRatio", value_type: TYPE_BYTES },
        ColumnSpec { id: COL_SLIP_ANGLE, name: "slipAngle", value_type: TYPE_BYTES },
        ColumnSpec { id: COL_TYRE_TEMP_I, name: "tyreTempI", value_type: TYPE_BYTES },
        ColumnSpec { id: COL_TYRE_TEMP_M, name: "tyreTempM", value_type: TYPE_BYTES },
        ColumnSpec { id: COL_TYRE_TEMP_O, name: "tyreTempO", value_type: TYPE_BYTES },
        ColumnSpec { id: COL_TYRE_TEMP, name: "tyreTemp", value_type: TYPE_BYTES },
        ColumnSpec { id: COL_MZ, name: "mz", value_type: TYPE_BYTES },
        ColumnSpec { id: COL_FX, name: "fx", value_type: TYPE_BYTES },
        ColumnSpec { id: COL_FY, name: "fy", value_type: TYPE_BYTES },
        ColumnSpec { id: COL_SUSPENSION_DAMAGE, name: "suspensionDamage", value_type: TYPE_BYTES },
        ColumnSpec { id: COL_BRAKE_TEMP, name: "brakeTemp", value_type: TYPE_BYTES },
        ColumnSpec { id: COL_BRAKE_PRESSURE, name: "brakePressure", value_type: TYPE_BYTES },
        ColumnSpec { id: COL_PAD_LIFE, name: "padLife", value_type: TYPE_BYTES },
        ColumnSpec { id: COL_DISC_LIFE, name: "discLife", value_type: TYPE_BYTES },
        ColumnSpec { id: COL_TYRE_CONTACT_POINT, name: "tyreContactPoint", value_type: TYPE_BYTES },
        ColumnSpec { id: COL_TYRE_CONTACT_NORMAL, name: "tyreContactNormal", value_type: TYPE_BYTES },
        ColumnSpec { id: COL_TYRE_CONTACT_HEADING, name: "tyreContactHeading", value_type: TYPE_BYTES },
        ColumnSpec { id: COL_NUMBER_OF_TYRES_OUT, name: "numberOfTyresOut", value_type: TYPE_I32 },
        ColumnSpec { id: COL_FRONT_BRAKE_COMPOUND, name: "frontBrakeCompound", value_type: TYPE_I32 },
        ColumnSpec { id: COL_REAR_BRAKE_COMPOUND, name: "rearBrakeCompound", value_type: TYPE_I32 },
    ];
    assert(r@ =~= spec_tyres_columns());
    r
}

/// The columns of the `powertrain columns` cluster, in schema order.
pub open spec fn spec_powertrain_columns() -> Seq<ColumnSpec> {
    seq![
        ColumnSpec { id: COL_SAMPLE_TICK, name: "sampleTick", value_type: TYPE_U64 },
        ColumnSpec { id: COL_TIMESTAMP_NS, name: "timestampNs", value_type: TYPE_U64 },
        ColumnSpec { id: COL_TURBO_BOOST, name: "turboBoost", value_type: TYPE_F32 },
        ColumnSpec { id: COL_BALLAST, name: "ballast", value_type: TYPE_F32 },
        ColumnSpec { id: COL_KERS_CHARGE, name: "kersCharge", value_type: TYPE_F32 },
        ColumnSpec { id: COL_KERS_INPUT, name: "kersInput", value_type: TYPE_F32 },
        ColumnSpec { id: COL_KERS_CURRENT_KJ, name: "kersCurrentKj", value_type: TYPE_F32 },
        ColumnSpec { id: COL_DRS, name: "drs", value_type: TYPE_F32 },
        ColumnSpec { id: COL_TC_PHYSICS, name: "tcPhysics", value_type: TYPE_F32 },
        ColumnSpec { id: COL_ABS_PHYSICS, name: "absPhysics", value_type: TYPE_F32 },
        ColumnSpec { id: COL_ENGINE_BRAKE, name: "engineBrake", value_type: TYPE_I32 },
        ColumnSpec { id: COL_ERS_RECOVERY_LEVEL, name: "ersRecoveryLevel", value_type: TYPE_I32 },
        ColumnSpec { id: COL_ERS_POWER_LEVEL, name: "ersPowerLevel", value_type: TYPE_I32 },
        ColumnSpec { id: COL_ERS_HEAT_CHARGING, name: "ersHeatCharging", value_type: TYPE_I32 },
        ColumnSpec { id: COL_ERS_IS_CHARGING, name: "ersIsCharging", value_type: TYPE_I32 },
        ColumnSpec { id: COL_DRS_AVAILABLE, name: "drsAvailable", value_type: TYPE_I32 },
        ColumnSpec { id: COL_DRS_ENABLED, name: "drsEnabled", value_type: TYPE_I32 },
        ColumnSpec { id: COL_TC_IN_ACTION, name: "tcInAction", value_type: TYPE_I32 },
        ColumnSpec { id: COL_ABS_IN_ACTION, name: "absInAction", value_type: TYPE_I32 },
        ColumnSpec { id: COL_AUTO_SHIFTER_ON, name: "autoShifterOn", value_type: TYPE_I32 },
        ColumnSpec { id: COL_CURRENT_MAX_RPM, name: "currentMaxRpm", value_type: TYPE_I32 },
        ColumnSpec { id: COL_P2P_ACTIVATIONS, name: "p2pActivations", value_type: TYPE_I32 },
        ColumnSpec { id: COL_P2P_STATUS, name: "p2pStatus", value_type: TYPE_I32 },
        ColumnSpec { id: COL_WATER_TEMP, name: "waterTemp", value_type: TYPE_F32 },
    ]
}

/// The columns of this cluster, in schema order.
pub fn powertrain_columns() -> (r: Vec<ColumnSpec>)
    ensures
        r@ == spec_powertrain_columns(),
{
    let r = vec![
        ColumnSpec { id: COL_SAMPLE_TICK, name: "sampleTick", value_type: TYPE_U64 },
        ColumnSpec { id: COL_TIMESTAMP_NS, name: "timestampNs", value_type: TYPE_U64 },
        ColumnSpec { id: COL_TURBO_BOOST, name: "turboBoost", value_type: TYPE_F32 },
        ColumnSpec { id: COL_BALLAST, name: "ballast", value_type: TYPE_F32 },
        ColumnSpec { id: COL_KERS_CHARGE, name: "kersCharge", value_type: TYPE_F32 },
        ColumnSpec { id: COL_KERS_INPUT, name: "kersInput", value_type: TYPE_F32 },
        ColumnSpec { id: COL_KERS_CURRENT_KJ, name: "kersCurrentKj", value_type: TYPE_F32 },
        ColumnSpec { id: COL_DRS, name: "drs", value_type: TYPE_F32 },
        ColumnSpec { id: COL_TC_PHYSICS, name: "tcPhysics", value_type: TYPE_F32 },
        ColumnSpec { id: COL_ABS_PHYSICS, name: "absPhysics", value_type: TYPE_F32 },
        ColumnSpec { id: COL_ENGINE_BRAKE, name: "engineBrake", value_type: TYPE_I32 },
        ColumnSpec { id: COL_ERS_RECOVERY_LEVEL, name: "ersRecoveryLevel", value_type: TYPE_I32 },
        ColumnSpec { id: COL_ERS_POWER_LEVEL, name: "ersPowerLevel", value_type: TYPE_I32 },
        ColumnSpec { id: COL_ERS_HEAT_CHARGING, name: "ersHeatCharging", value_type: TYPE_I32 },
        ColumnSpec { id: COL_ERS_IS_CHARGING, name: "ersIsCharging", value_type: TYPE_I32 },
        ColumnSpec { id: COL_DRS_AVAILABLE, name: "drsAvailable", value_type: TYPE_I32 },
        ColumnSpec { id: COL_DRS_ENABLED, name: "drsEnabled", value_type: TYPE_I32 },
        ColumnSpec { id: COL_TC_IN_ACTION, name: "tcInAction", value_type: TYPE_I32 },
        ColumnSpec { id: COL_ABS_IN_ACTION, name: "absInAction", value_type: TYPE_I32 },
        ColumnSpec { id: COL_AUTO_SHIFTER_ON, name: "autoShifterOn", value_type: TYPE_I32 },
        ColumnSpec { id: COL_CURRENT_MAX_RPM, name: "currentMaxRpm", value_type: TYPE_I32 },
        ColumnSpec { id: COL_P2P_ACTIVATIONS, name: "p2pActivations", value_type: TYPE_I32 },
        ColumnSpec { id: COL_P2P_STATUS, name: "p2pStatus", value_type: TYPE_I32 },
        ColumnSpec { id: COL_WATER_TEMP, name: "waterTemp", value_type: TYPE_F32 },
    ];
    assert(r@ =~= spec_powertrain_columns());
    r
}

/// The columns of the `session columns` cluster, in schema order.
pub open spec fn spec_session_columns() -> Seq<ColumnSpec> {
    seq![
        ColumnSpec { id: COL_SAMPLE_TICK, name: "sampleTick", value_type: TYPE_U64 },
        ColumnSpec { id: COL_TIMESTAMP_NS, name: "timestampNs", value_type: TYPE_U64 },
        ColumnSpec { id: COL_STATUS, name: "status", value_type: TYPE_I32 },
        ColumnSpec { id: COL_SESSION, name: "session", value_type: TYPE_I32 },
        ColumnSpec { id: COL_SESSION_INDEX, name: "sessionIndex", value_type: TYPE_I32 },
        ColumnSpec { id: COL_COMPLETED_LAPS, name: "completedLaps", value_type: TYPE_I32 },
        ColumnSpec { id: COL_POSITION, name: "position", value_type: TYPE_I32 },
        ColumnSpec { id: COL_SESSION_TIME_LEFT, name: "sessionTimeLeft", value_type: TYPE_F32 },
        ColumnSpec { id: COL_NUMBER_OF_LAPS, name: "numberOfLaps", value_type: TYPE_I32 },
        ColumnSpec { id: COL_CURRENT_SECTOR_INDEX, name: "currentSectorIndex", value_type: TYPE_I32 },
        ColumnSpec { id: COL_NORMALIZED_CAR_POSITION, name: "normalizedCarPosition", value_type: TYPE_F32 },
        ColumnSpec { id: COL_IS_IN_PIT, name: "isInPit", value_type: TYPE_I32 },
        ColumnSpec { id: COL_IS_IN_PIT_LANE, name: "isInPitLane", value_type: TYPE_I32 },
        ColumnSpec { id: COL_MANDATORY_PIT_DONE, name: "mandatoryPitDone", value_type: TYPE_I32 },
        ColumnSpec { id: COL_MISSING_MANDATORY_PITS, name: "missingMandatoryPits", value_type: TYPE_I32 },
        ColumnSpec { id: COL_PENALTY_TIME, name: "penaltyTime", value_type: TYPE_F32 },
        ColumnSpec { id: COL_PENALTY_TYPE, name: "penaltyType", value_type: TYPE_I32 },
        ColumnSpec { id: COL_TRACK_STATUS, name: "trackStatus", value_type: TYPE_BYTES },
        ColumnSpec { id: COL_CLOCK, name: "clock", value_type: TYPE_F32 },
        ColumnSpec { id: COL_REPLAY_TIME_MULTIPLIER, name: "replayTimeMultiplier", value_type: TYPE_F32 },
        ColumnSpec { id: COL_IS_VALID_LAP, name: "isValidLap", value_type: TYPE_I32 },
        ColumnSpec { id: COL_GLOBAL_YELLOW, name: "globalYellow", value_type: TYPE_I32 },
        ColumnSpec { id: COL_GLOBAL_YELLOW1, name: "globalYellow1", value_type: TYPE_I32 },
        ColumnSpec { id: COL_GLOBAL_YELLOW2, name: "globalYellow2", value_type: TYPE_I32 },
        ColumnSpec { id: COL_GLOBAL_YELLOW3, name: "globalYellow3", value_type: TYPE_I32 },
        ColumnSpec { id: COL_GLOBAL_WHITE, name: "globalWhite", value_type: TYPE_I32 },
        ColumnSpec { id: COL_GLOBAL_GREEN, name: "globalGreen", value_type: TYPE_I32 },
        ColumnSpec { id: COL_GLOBAL_CHEQUERED, name: "globalChequered", value_type: TYPE_I32 },
        ColumnSpec { id: COL_GLOBAL_RED, name: "globalRed", value_type: TYPE_I32 },
        ColumnSpec { id: COL_GAP_AHEAD_OR_TAIL, name: "gapAheadOrTailValue", value_type: TYPE_I32 },
    ]
}

/// The columns of this cluster, in schema order.
pub fn session_columns() -> (r: Vec<ColumnSpec>)
    ensures
        r@ == spec_session_columns(),
{
    let r = vec![
        ColumnSpec { id: COL_SAMPLE_TICK, name: "sampleTick", value_type: TYPE_U64 },
        ColumnSpec { id: COL_TIMESTAMP_NS, name: "timestampNs", value_type: TYPE_U64 },
        ColumnSpec { id: COL_STATUS, name: "status", value_type: TYPE_I32 },
        ColumnSpec { id: COL_SESSION, name: "session", value_type: TYPE_I32 },
        ColumnSpec { id: COL_SESSION_INDEX, name: "sessionIndex", value_type: TYPE_I32 },
        ColumnSpec { id: COL_COMPLETED_LAPS, name: "completedLaps", value_type: TYPE_I32 },
        ColumnSpec { id: COL_POSITION, name: "position", value_type: TYPE_I32 },
        ColumnSpec { id: COL_SESSION_TIME_LEFT, name: "sessionTimeLeft", value_type: TYPE_F32 },
        ColumnSpec { id: COL_NUMBER_OF_LAPS, name: "numberOfLaps", value_type: TYPE_I32 },
        ColumnSpec { id: COL_CURRENT_SECTOR_INDEX, name: "currentSectorIndex", value_type: TYPE_I32 },
        ColumnSpec { id: COL_NORMALIZED_CAR_POSITION, name: "normalizedCarPosition", value_type: TYPE_F32 },
        ColumnSpec { id: COL_IS_IN_PIT, name: "isInPit", value_type: TYPE_I32 },
        ColumnSpec { id: COL_IS_IN_PIT_LANE, name: "isInPitLane", value_type: TYPE_I32 },
        ColumnSpec { id: COL_MANDATORY_PIT_DONE, name: "mandatoryPitDone", value_type: TYPE_I32 },
        ColumnSpec { id: COL_MISSING_MANDATORY_PITS, name: "missingMandatoryPits", value_type: TYPE_I32 },
        ColumnSpec { id: COL_PENALTY_TIME, name: "penaltyTime", value_type: TYPE_F32 },
        ColumnSpec { id: COL_PENALTY_TYPE, name: "penaltyType", value_type: TYPE_I32 },
        ColumnSpec { id: COL_TRACK_STATUS, name: "trackStatus", value_type: TYPE_BYTES },
        ColumnSpec { id: COL_CLOCK, name: "clock", value_type: TYPE_F32 },
        ColumnSpec { id: COL_REPLAY_TIME_MULTIPLIER, name: "replayTimeMultiplier", value_type: TYPE_F32 },
        ColumnSpec { id: COL_IS_VALID_LAP, name: "isValidLap", value_type: TYPE_I32 },
        ColumnSpec { id: COL_GLOBAL_YELLOW, name: "globalYellow", value_type: TYPE_I32 },
        ColumnSpec { id: COL_GLOBAL_YELLOW1, name: "globalYellow1", value_type: TYPE_I32 },
        ColumnSpec { id: COL_GLOBAL_YELLOW2, name: "globalYellow2", value_type: TYPE_I32 },
        ColumnSpec { id: COL_GLOBAL_YELLOW3, name: "globalYellow3", value_type: TYPE_I32 },
        ColumnSpec { id: COL_GLOBAL_WHITE, name: "globalWhite", value_type: TYPE_I32 },
        ColumnSpec { id: COL_GLOBAL_GREEN, name: "globalGreen", value_type: TYPE_I32 },
        ColumnSpec { id: COL_GLOBAL_CHEQUERED, name: "globalChequered", value_type: TYPE_I32 },
        ColumnSpec { id: COL_GLOBAL_RED, name: "globalRed", value_type: TYPE_I32 },
        ColumnSpec { id: COL_GAP_AHEAD_OR_TAIL, name: "gapAheadOrTailValue", value_type: TYPE_I32 },
    ];
    assert(r@ =~= spec_session_columns());
    r
}

/// The columns of the `timing columns` cluster, in schema order.
pub open spec fn spec_timing_columns() -> Seq<ColumnSpec> {
    seq![
        ColumnSpec { id: COL_SAMPLE_TICK, name: "sampleTick", value_type: TYPE_U64 },
        ColumnSpec { id: COL_TIMESTAMP_NS, name: "timestampNs", value_type: TYPE_U64 },
        ColumnSpec { id: COL_I_CURRENT_TIME, name: "iCurrentTime", value_type: TYPE_I32 },
        ColumnSpec { id: COL_I_LAST_TIME, name: "iLastTime", value_type: TYPE_I32 },
        ColumnSpec { id: COL_I_BEST_TIME, name: "iBestTime", value_type: TYPE_I32 },
        ColumnSpec { id: COL_I_SPLIT, name: "iSplit", value_type: TYPE_I32 },
        ColumnSpec { id: COL_LAST_SECTOR_TIME, name: "lastSectorTime", value_type: TYPE_I32 },
        ColumnSpec { id: COL_I_DELTA_LAP_TIME, name: "iDeltaLapTime", value_type: TYPE_I32 },
        ColumnSpec { id: COL_IS_DELTA_POSITIVE, name: "isDeltaPositive", value_type: TYPE_I32 },
        ColumnSpec { id: COL_I_ESTIMATED_LAP_TIME, name: "iEstimatedLapTime", value_type: TYPE_I32 },
        ColumnSpec { id: COL_FUEL_ESTIMATED_LAPS, name: "fuelEstimatedLaps", value_type: TYPE_F32 },
        ColumnSpec { id: COL_FUEL_X_LAP, name: "fuelXLap", value_type: TYPE_F32 },
        ColumnSpec { id: COL_USED_FUEL, name: "usedFuel", value_type: TYPE_F32 },
        ColumnSpec { id: COL_DISTANCE_TRAVELED, name: "distanceTraveled", value_type: TYPE_F32 },
        ColumnSpec { id: COL_CURRENT_TIME_STR, name: "currentTimeStr", value_type: TYPE_BYTES },
        ColumnSpec { id: COL_LAST_TIME_STR, name: "lastTimeStr", value_type: TYPE_BYTES },
        ColumnSpec { id: COL_BEST_TIME_STR, name: "bestTimeStr", value_type: TYPE_BYTES },
        ColumnSpec { id: COL_SPLIT_STR, name: "splitStr", value_type: TYPE_BYTES },
        ColumnSpec { id: COL_DELTA_LAP_TIME_STR, name: "deltaLapTimeStr", value_type: TYPE_BYTES },
        ColumnSpec { id: COL_ESTIMATED_LAP_TIME_STR, name: "estimatedLapTimeStr", value_type: TYPE_BYTES },
        ColumnSpec { id: COL_OBSERVED_SLOT_BEFORE_I_SPLIT, name: "observedSlotBeforeISplit", value_type: TYPE_I32 },
    ]
}

/// The columns of this cluster, in schema order.
pub fn timing_columns() -> (r: Vec<ColumnSpec>)
    ensures
        r@ == spec_timing_columns(),
{
    let r = vec![
        ColumnSpec { id: COL_SAMPLE_TICK, name: "sampleTick", value_type: TYPE_U64 },
        ColumnSpec { id: COL_TIMESTAMP_NS, name: "timestampNs", value_type: TYPE_U64 },
        ColumnSpec { id: COL_I_CURRENT_TIME, name: "iCurrentTime", value_type: TYPE_I32 },
        ColumnSpec { id: COL_I_LAST_TIME, name: "iLastTime", value_type: TYPE_I32 },
        ColumnSpec { id: COL_I_BEST_TIME, name: "iBestTime", value_type: TYPE_I32 },
        ColumnSpec { id: COL_I_SPLIT, name: "iSplit", value_type: TYPE_I32 },
        ColumnSpec { id: COL_LAST_SECTOR_TIME, name: "lastSectorTime", value_type: TYPE_I32 },
        ColumnSpec { id: COL_I_DELTA_LAP_TIME, name: "iDeltaLapTime", value_type: TYPE_I32 },
        ColumnSpec { id: COL_IS_DELTA_POSITIVE, name: "isDeltaPositive", value_type: TYPE_I32 },
        ColumnSpec { id: COL_I_ESTIMATED_LAP_TIME, name: "iEstimatedLapTime", value_type: TYPE_I32 },
        ColumnSpec { id: COL_FUEL_ESTIMATED_LAPS, name: "fuelEstimatedLaps", value_type: TYPE_F32 },
        ColumnSpec { id: COL_FUEL_X_LAP, name: "fuelXLap", value_type: TYPE_F32 },
        ColumnSpec { id: COL_USED_FUEL, name: "usedFuel", value_type: TYPE_F32 },
        ColumnSpec { id: COL_DISTANCE_TRAVELED, name: "distanceTraveled", value_type: TYPE_F32 },
        ColumnSpec { id: COL_CURRENT_TIME_STR, name: "currentTimeStr", value_type: TYPE_BYTES },
        ColumnSpec { id: COL_LAST_TIME_STR, name: "lastTimeStr", value_type: TYPE_BYTES },
        ColumnSpec { id: COL_BEST_TIME_STR, name: "bestTimeStr", value_type: TYPE_BYTES },
        ColumnSpec { id: COL_SPLIT_STR, name: "splitStr", value_type: TYPE_BYTES },
        ColumnSpec { id: COL_DELTA_LAP_TIME_STR, name: "deltaLapTimeStr", value_type: TYPE_BYTES },
        ColumnSpec { id: COL_ESTIMATED_LAP_TIME_STR, name: "estimatedLapTimeStr", value_type: TYPE_BYTES },
        ColumnSpec { id: COL_OBSERVED_SLOT_BEFORE_I_SPLIT, name: "observedSlotBeforeISplit", value_type: TYPE_I32 },
    ];
    assert(r@ =~= spec_timing_columns());
    r
}

/// The columns of the `car state columns` cluster, in schema order.
pub open spec fn spec_car_state_columns() -> Seq<ColumnSpec> {
    seq![
        ColumnSpec { id: COL_SAMPLE_TICK, name: "sampleTick", value_type: TYPE_U64 },
        ColumnSpec { id: COL_TIMESTAMP_NS, name: "timestampNs", value_type: TYPE_U64 },
        ColumnSpec { id: COL_CAR_DAMAGE, name: "carDamage", value_type: TYPE_BYTES },
        ColumnSpec { id: COL_PIT_LIMITER_ON, name: "pitLimiterOn", value_type: TYPE_I32 },
        ColumnSpec { id: COL_RIDE_HEIGHT, name: "rideHeight", value_type: TYPE_BYTES },
        ColumnSpec { id: COL_IGNITION_ON, name: "ignitionOn", value_type: TYPE_I32 },
        ColumnSpec { id: COL_STARTER_ENGINE_ON, name: "starterEngineOn", value_type: TYPE_I32 },
        ColumnSpec { id: COL_IS_ENGINE_RUNNING, name: "isEngineRunning", value_type: TYPE_I32 },
        ColumnSpec { id: COL_IS_AI_CONTROLLED, name: "isAiControlled", value_type: TYPE_I32 },
        ColumnSpec { id: COL_CG_HEIGHT, name: "cgHeight", value_type: TYPE_F32 },
        ColumnSpec { id: COL_BRAKE_BIAS, name: "brakeBias", value_type: TYPE_F32 },
        ColumnSpec { id: COL_RAIN_LIGHTS, name: "rainLights", value_type: TYPE_I32 },
        ColumnSpec { id: COL_FLASHING_LIGHTS, name: "flashingLights", value_type: TYPE_I32 },
        ColumnSpec { id: COL_LIGHTS_STAGE, name: "lightsStage", value_type: TYPE_I32 },
        ColumnSpec { id: COL_WIPER_LV, name: "wiperLv", value_type: TYPE_I32 },
        ColumnSpec { id: COL_DRIVER_STINT_TOTAL_TIME_LEFT, name: "driverStintTotalTimeLeft", value_type: TYPE_I32 },
        ColumnSpec { id: COL_DRIVER_STINT_TIME_LEFT, name: "driverStintTimeLeft", value_type: TYPE_I32 },
        ColumnSpec { id: COL_RAIN_TYRES, name: "rainTyres", value_type: TYPE_I32 },
        ColumnSpec { id: COL_CURRENT_TYRE_SET, name: "currentTyreSet", value_type: TYPE_I32 },
        ColumnSpec { id: COL_STRATEGY_TYRE_SET, name: "strategyTyreSet", value_type: TYPE_I32 },
        ColumnSpec { id: COL_TRACK_GRIP_STATUS, name: "trackGripStatus", value_type: TYPE_I32 },
        ColumnSpec { id: COL_TYRE_COMPOUND_STR, name: "tyreCompoundStr", value_type: TYPE_BYTES },
        ColumnSpec { id: COL_MFD_TYRE_SET, name: "mfdTyreSet", value_type: TYPE_I32 },
        ColumnSpec { id: COL_MFD_FUEL_TO_ADD, name: "mfdFuelToAdd", value_type: TYPE_F32 },
        ColumnSpec { id: COL_MFD_TYRE_PRESSURE, name: "mfdTyrePressure", value_type: TYPE_BYTES },
        ColumnSpec { id: COL_IDEAL_LINE_ON, name: "idealLineOn", value_type: TYPE_I32 },
        ColumnSpec { id: COL_IS_SETUP_MENU_VISIBLE, name: "isSetupMenuVisible", value_type: TYPE_I32 },
        ColumnSpec { id: COL_MAIN_DISPLAY_INDEX, name: "mainDisplayIndex", value_type: TYPE_I32 },
        ColumnSpec { id: COL_SECONDARY_DISPLAY_INDEX, name: "secondaryDisplayIndex", value_type: TYPE_I32 },
        ColumnSpec { id: COL_DIRECTION_LIGHTS_LEFT, name: "directionLightsLeft", value_type: TYPE_I32 },
        ColumnSpec { id: COL_DIRECTION_LIGHTS_RIGHT, name: "directionLightsRight", value_type: TYPE_I32 },
        ColumnSpec { id: COL_TC_LEVEL, name: "tcLevel", value_type: TYPE_I32 },
        ColumnSpec { id: COL_TC_CUT, name: "tcCut", value_type: TYPE_I32 },
        ColumnSpec { id: COL_ENGINE_MAP, name: "engineMap", value_type: TYPE_I32 },
        ColumnSpec { id: COL_ABS_LEVEL, name: "absLevel", value_type: TYPE_I32 },
        ColumnSpec { id: COL_EXHAUST_TEMPERATURE, name: "exhaustTemperature", value_type: TYPE_F32 },
        ColumnSpec { id: COL_FINAL_FF, name: "finalFf", value_type: TYPE_F32 },
        ColumnSpec { id: COL_PERFORMANCE_METER, name: "performanceMeter", value_type: TYPE_F32 },
        ColumnSpec { id: COL_KERB_VIBRATION, name: "kerbVibration", value_type: TYPE_F32 },
        ColumnSpec { id: COL_SLIP_VIBRATIONS, name: "slipVibrations", value_type: TYPE_F32 },
        ColumnSpec { id: COL_G_VIBRATIONS, name: "gVibrations", value_type: TYPE_F32 },
        ColumnSpec { id: COL_ABS_VIBRATIONS, name: "absVibrations", value_type: TYPE_F32 },
    ]
}

/// The columns of this cluster, in schema order.
pub fn car_state_columns() -> (r: Vec<ColumnSpec>)
    ensures
        r@ == spec_car_state_columns(),
{
    let r = vec![
        ColumnSpec { id: COL_SAMPLE_TICK, name: "sampleTick", value_type: TYPE_U64 },
        ColumnSpec { id: COL_TIMESTAMP_NS, name: "timestampNs", value_type: TYPE_U64 },
        ColumnSpec { id: COL_CAR_DAMAGE, name: "carDamage", value_type: TYPE_BYTES },
        ColumnSpec { id: COL_PIT_LIMITER_ON, name: "pitLimiterOn", value_type: TYPE_I32 },
        ColumnSpec { id: COL_RIDE_HEIGHT, name: "rideHeight", value_type: TYPE_BYTES },
        ColumnSpec { id: COL_IGNITION_ON, name: "ignitionOn", value_type: TYPE_I32 },
        ColumnSpec { id: COL_STARTER_ENGINE_ON, name: "starterEngineOn", value_type: TYPE_I32 },
        ColumnSpec { id: COL_IS_ENGINE_RUNNING, name: "isEngineRunning", value_type: TYPE_I32 },
        ColumnSpec { id: COL_IS_AI_CONTROLLED, name: "isAiControlled", value_type: TYPE_I32 },
        ColumnSpec { id: COL_CG_HEIGHT, name: "cgHeight", value_type: TYPE_F32 },
        ColumnSpec { id: COL_BRAKE_BIAS, name: "brakeBias", value_type: TYPE_F32 },
        ColumnSpec { id: COL_RAIN_LIGHTS, name: "rainLights", value_type: TYPE_I32 },
        ColumnSpec { id: COL_FLASHING_LIGHTS, name: "flashingLights", value_type: TYPE_I32 },
        ColumnSpec { id: COL_LIGHTS_STAGE, name: "lightsStage", value_type: TYPE_I32 },
        ColumnSpec { id: COL_WIPER_LV, name: "wiperLv", value_type: TYPE_I32 },
        ColumnSpec { id: COL_DRIVER_STINT_TOTAL_TIME_LEFT, name: "driverStintTotalTimeLeft", value_type: TYPE_I32 },
        ColumnSpec { id: COL_DRIVER_STINT_TIME_LEFT, name: "driverStintTimeLeft", value_type: TYPE_I32 },
        ColumnSpec { id: COL_RAIN_TYRES, name: "rainTyres", value_type: TYPE_I32 },
        ColumnSpec { id: COL_CURRENT_TYRE_SET, name: "currentTyreSet", value_type: TYPE_I32 },
        ColumnSpec { id: COL_STRATEGY_TYRE_SET, name: "strategyTyreSet", value_type: TYPE_I32 },
        ColumnSpec { id: COL_TRACK_GRIP_STATUS, name: "trackGripStatus", value_type: TYPE_I32 },
        ColumnSpec { id: COL_TYRE_COMPOUND_STR, name: "tyreCompoundStr", value_type: TYPE_BYTES },
        ColumnSpec { id: COL_MFD_TYRE_SET, name: "mfdTyreSet", value_type: TYPE_I32 },
        ColumnSpec { id: COL_MFD_FUEL_TO_ADD, name: "mfdFuelToAdd", value_type: TYPE_F32 },
        ColumnSpec { id: COL_MFD_TYRE_PRESSURE, name: "mfdTyrePressure", value_type: TYPE_BYTES },
        ColumnSpec { id: COL_IDEAL_LINE_ON, name: "idealLineOn", value_type: TYPE_I32 },
        ColumnSpec { id: COL_IS_SETUP_MENU_VISIBLE, name: "isSetupMenuVisible", value_type: TYPE_I32 },
        ColumnSpec { id: COL_MAIN_DISPLAY_INDEX, name: "mainDisplayIndex", value_type: TYPE_I32 },
        ColumnSpec { id: COL_SECONDARY_DISPLAY_INDEX, name: "secondaryDisplayIndex", value_type: TYPE_I32 },
        ColumnSpec { id: COL_DIRECTION_LIGHTS_LEFT, name: "directionLightsLeft", value_type: TYPE_I32 },
        ColumnSpec { id: COL_DIRECTION_LIGHTS_RIGHT, name: "directionLightsRight", value_type: TYPE_I32 },
        ColumnSpec { id: COL_TC_LEVEL, name: "tcLevel", value_type: TYPE_I32 },
        ColumnSpec { id: COL_TC_CUT, name: "tcCut", value_type: TYPE_I32 },
        ColumnSpec { id: COL_ENGINE_MAP, name: "engineMap", value_type: TYPE_I32 },
        ColumnSpec { id: COL_ABS_LEVEL, name: "absLevel", value_type: TYPE_I32 },
        ColumnSpec { id: COL_EXHAUST_TEMPERATURE, name: "exhaustTemperature", value_type: TYPE_F32 },
        ColumnSpec { id: COL_FINAL_FF, name: "finalFf", value_type: TYPE_F32 },
        ColumnSpec { id: COL_PERFORMANCE_METER, name: "performanceMeter", value_type: TYPE_F32 },
        ColumnSpec { id: COL_KERB_VIBRATION, name: "kerbVibration", value_type: TYPE_F32 },
        ColumnSpec { id: COL_SLIP_VIBRATIONS, name: "slipVibrations", value_type: TYPE_F32 },
        ColumnSpec { id: COL_G_VIBRATIONS, name: "gVibrations", value_type: TYPE_F32 },
        ColumnSpec { id: COL_ABS_VIBRATIONS, name: "absVibrations", value_type: TYPE_F32 },
    ];
    assert(r@ =~= spec_car_state_columns());
    r
}

/// The columns of the `environment columns` cluster, in schema order.
pub open spec fn spec_environment_columns() -> Seq<ColumnSpec> {
    seq![
        ColumnSpec { id: COL_SAMPLE_TICK, name: "sampleTick", value_type: TYPE_U64 },
        ColumnSpec { id: COL_TIMESTAMP_NS, name: "timestampNs", value_type: TYPE_U64 },
        ColumnSpec { id: COL_AIR_DENSITY, name: "airDensity", value_type: TYPE_F32 },
        ColumnSpec { id: COL_AIR_TEMP, name: "airTemp", value_type: TYPE_F32 },
        ColumnSpec { id: COL_ROAD_TEMP, name: "roadTemp", value_type: TYPE_F32 },
        ColumnSpec { id: COL_WIND_SPEED, name: "windSpeed", value_type: TYPE_F32 },
        ColumnSpec { id: COL_WIND_DIRECTION, name: "windDirection", value_type: TYPE_F32 },
        ColumnSpec { id: COL_SURFACE_GRIP, name: "surfaceGrip", value_type: TYPE_F32 },
        ColumnSpec { id: COL_RAIN_INTENSITY, name: "rainIntensity", value_type: TYPE_I32 },
        ColumnSpec { id: COL_RAIN_INTENSITY_IN_10MIN, name: "rainIntensityIn10min", value_type: TYPE_I32 },
        ColumnSpec { id: COL_RAIN_INTENSITY_IN_30MIN, name: "rainIntensityIn30min", value_type: TYPE_I32 },
    ]
}

/// The columns of this cluster, in schema order.
pub fn environment_columns() -> (r: Vec<ColumnSpec>)
    ensures
        r@ == spec_environment_columns(),
{
    let r = vec![
        ColumnSpec { id: COL_SAMPLE_TICK, name: "sampleTick", value_type: TYPE_U64 },
        ColumnSpec { id: COL_TIMESTAMP_NS, name: "timestampNs", value_type: TYPE_U64 },
        ColumnSpec { id: COL_AIR_DENSITY, name: "airDensity", value_type: TYPE_F32 },
        ColumnSpec { id: COL_AIR_TEMP, name: "airTemp", value_type: TYPE_F32 },
        ColumnSpec { id: COL_ROAD_TEMP, name: "roadTemp", value_type: TYPE_F32 },
        ColumnSpec { id: COL_WIND_SPEED, name: "windSpeed", value_type: TYPE_F32 },
        ColumnSpec { id: COL_WIND_DIRECTION, name: "windDirection", value_type: TYPE_F32 },
        ColumnSpec { id: COL_SURFACE_GRIP, name: "surfaceGrip", value_type: TYPE_F32 },
        ColumnSpec { id: COL_RAIN_INTENSITY, name: "rainIntensity", value_type: TYPE_I32 },
        ColumnSpec { id: COL_RAIN_INTENSITY_IN_10MIN, name: "rainIntensityIn10min", value_type: TYPE_I32 },
        ColumnSpec { id: COL_RAIN_INTENSITY_IN_30MIN, name: "rainIntensityIn30min", value_type: TYPE_I32 },
    ];
    assert(r@ =~= spec_environment_columns());
    r
}

/// The columns of the `other cars columns` cluster, in schema order.
pub open spec fn spec_other_cars_columns() -> Seq<ColumnSpec> {
    seq![
        ColumnSpec { id: COL_SAMPLE_TICK, name: "sampleTick", value_type: TYPE_U64 },
        ColumnSpec { id: COL_TIMESTAMP_NS, name: "timestampNs", value_type: TYPE_U64 },
        ColumnSpec { id: COL_ACTIVE_CARS, name: "activeCars", value_type: TYPE_I32 },
        ColumnSpec { id: COL_PLAYER_CAR_ID, name: "playerCarId", value_type: TYPE_I32 },
        ColumnSpec { id: COL_CAR_COORDINATES, name: "carCoordinates", value_type: TYPE_BYTES },
        ColumnSpec { id: COL_CAR_ID, name: "carId", value_type: TYPE_BYTES },
    ]
}

/// The columns of this cluster, in schema order.
pub fn other_cars_columns() -> (r: Vec<ColumnSpec>)
    ensures
        r@ == spec_other_cars_columns(),
{
    let r = vec![
        ColumnSpec { id: COL_SAMPLE_TICK, name: "sampleTick", value_type: TYPE_U64 },
        ColumnSpec { id: COL_TIMESTAMP_NS, name: "timestampNs", value_type: TYPE_U64 },
        ColumnSpec { id: COL_ACTIVE_CARS, name: "activeCars", value_type: TYPE_I32 },
        ColumnSpec { id: COL_PLAYER_CAR_ID, name: "playerCarId", value_type: TYPE_I32 },
        ColumnSpec { id: COL_CAR_COORDINATES, name: "carCoordinates", value_type: TYPE_BYTES },
        ColumnSpec { id: COL_CAR_ID, name: "carId", value_type: TYPE_BYTES },
    ];
    assert(r@ =~= spec_other_cars_columns());
    r
}

} // verus!

verus! {

/// `s` starts with the bytes of `m`.
pub open spec fn starts_with(s: Seq<u8>, m: Seq<u8>) -> bool {
    s.len() >= m.len() && s.subrange(0, m.len() as int) == m
}

fn push_seq4(writer: &mut Vec<u8>, a: u8, b: u8, c: u8, d: u8)
    ensures
        final(writer)@ == old(writer)@ + seq![a, b, c, d],
{
    writer.push(a);
    writer.push(b);
    writer.push(c);
    writer.push(d);
    assert(final(writer)@ =~= old(writer)@ + seq![a, b, c, d]);
}

// ---------------------------------------------------------------------------
// FileHeader
// ---------------------------------------------------------------------------

/// The 128-byte v1 file header.
#[derive(Debug, Clone, Copy, PartialEq, Eq)]
pub struct FileHeader {
    pub version: u16,
    pub flags: u32,
    pub schema_offset: u64,
    pub metadata_offset: u64,
    pub first_chunk_offset: u64,
    pub footer_offset: u64,
    pub created_unix_ns: u64,
    pub timebase_hz: u32,
    pub poll_hz_x1000: u32,
}

impl FileHeader {
    /// A fresh header: current version, the schema right after the header,
    /// other offsets zero, the nanosecond time base, and the given polling
    /// rate in thousandths of a hertz.
    pub fn new(created_unix_ns: u64, poll_hz_x1000: u32) -> (h: Self)
        ensures
            h == (FileHeader {
                version: FORMAT_VERSION,
                flags: 0,
                schema_offset: HEADER_SIZE as u64,
                metadata_offset: 0,
                first_chunk_offset: 0,
                footer_offset: 0,
                created_unix_ns,
                timebase_hz: TIMEBASE_HZ,
                poll_hz_x1000,
            }),
    {
        FileHeader {
            version: FORMAT_VERSION,
            flags: 0,
            schema_offset: HEADER_SIZE as u64,
            metadata_offset: 0,
            first_chunk_offset: 0,
            footer_offset: 0,
            created_unix_ns,
            timebase_hz: TIMEBASE_HZ,
            poll_hz_x1000,
        }
    }

    /// Layout: magic, version, header size, flags, the five offsets and
    /// times, time base, polling rate, 64 zero bytes.
    pub open spec fn spec_bytes(self) -> Seq<u8> {
        file_magic() + spec_u16_to_le_bytes(self.version) + spec_u16_to_le_bytes(HEADER_SIZE)
            + spec_u32_to_le_bytes(self.flags) + spec_u64_to_le_bytes(self.schema_offset)
            + spec_u64_to_le_bytes(self.metadata_offset) + spec_u64_to_le_bytes(self.first_chunk_offset)
            + spec_u64_to_le_bytes(self.footer_offset) + spec_u64_to_le_bytes(self.created_unix_ns)
            + spec_u32_to_le_bytes(self.timebase_hz) + spec_u32_to_le_bytes(self.poll_hz_x1000) + zeros(64)
    }

    /// What reading a header from `s` gives: magic, then a version of 1 or
    /// 2, then a header size of 128, then the remaining 116 bytes.
    pub open spec fn spec_read(s: Seq<u8>) -> Result<(FileHeader, nat), ErrorDesc> {
        if s.len() < 8 {
            Err(ErrorDesc::Eof)
        } else if !starts_with(s, file_magic()) {
            Err(ErrorDesc::Format("bad ACTL magic"@))
        } else if s.len() < 10 {
            Err(ErrorDesc::Eof)
        } else if u16_at(s, 8) != 1 && u16_at(s, 8) != FORMAT_VERSION {
            Err(ErrorDesc::Unsupported(u16_at(s, 8)))
        } else if s.len() < 12 {
            Err(ErrorDesc::Eof)
        } else if u16_at(s, 10) != HEADER_SIZE {
            Err(ErrorDesc::Format("unexpected header size "@ + decimal(u16_at(s, 10) as nat)))
        } else if s.len() < 128 {
            Err(ErrorDesc::Eof)
        } else {
            Ok((FileHeader {
                version: u16_at(s, 8),
                flags: u32_at(s, 12),
                schema_offset: u64_at(s, 16),
                metadata_offset: u64_at(s, 24),
                first_chunk_offset: u64_at(s, 32),
                footer_offset: u64_at(s, 40),
                created_unix_ns: u64_at(s, 48),
                timebase_hz: u32_at(s, 56),
                poll_hz_x1000: u32_at(s, 60),
            }, 128))
        }
    }

    /// Append the 128 header bytes.
    pub fn write_to(&self, writer: &mut Vec<u8>) -> (r: TelemetryResult<()>)
        ensures
            r is Ok,
            final(writer)@ == old(writer)@ + self.spec_bytes(),
    {
        let ghost start = writer@;
        push_seq4(writer, 65, 67, 84, 76);
        push_seq4(writer, 13, 10, 26, 10);
        assert(writer@ =~= start + file_magic());
        put_u16(writer, self.version);
        put_u16(writer, HEADER_SIZE);
        put_u32(writer, self.flags);
        put_u64(writer, self.schema_offset);
        put_u64(writer, self.metadata_offset);
        put_u64(writer, self.first_chunk_offset);
        put_u64(writer, self.footer_offset);
        put_u64(writer, self.created_unix_ns);
        put_u32(writer, self.timebase_hz);
        put_u32(writer, self.poll_hz_x1000);
        put_zeros(writer, 64);
        assert(writer@ =~= start + self.spec_bytes());
        Ok(())
    }

    /// Read a header.
    pub fn read_from(reader: &mut ByteReader) -> (r: TelemetryResult<Self>)
        ensures
            read_outcome(r, old(reader).rest(), final(reader).rest(), Self::spec_read(old(reader).rest())),
    {
        let ghost s = reader.rest();
        let m = reader.read_exact(8)?;
        if !(m[0] == 65 && m[1] == 67 && m[2] == 84 && m[3] == 76 && m[4] == 13 && m[5] == 10 && m[6] == 26 && m[7] == 10) {
            proof {
                if starts_with(s, file_magic()) {
                    assert(m@ == s.subrange(0, 8));
                    assert(m@[0] == file_magic()[0]);
                    assert(m@[7] == file_magic()[7]);
                }
            }
            return Err(TelemetryError::invalid_format("bad ACTL magic"));
        }
        assert(s.subrange(0, 8) =~= file_magic());
        let version = read_u16(reader)?;
        proof { lemma_advance(s, 8, 2); }
        if version != 1 && version != FORMAT_VERSION {
            return Err(TelemetryError::UnsupportedVersion(version));
        }
        let header_size = read_u16(reader)?;
        proof { lemma_advance(s, 10, 2); }
        if header_size != HEADER_SIZE {
            return Err(TelemetryError::InvalidFormat(text_with_number("unexpected header size ", header_size as u64)));
        }
        let b = reader.read_exact(116)?;
        proof {
            lemma_advance(s, 12, 116);
            lemma_at_in_window(s, 12, 128);
        }
        Ok(FileHeader {
            version,
            flags: get_u32(b, 0),
            schema_offset: get_u64(b, 4),
            metadata_offset: get_u64(b, 12),
            first_chunk_offset: get_u64(b, 20),
            footer_offset: get_u64(b, 28),
            created_unix_ns: get_u64(b, 36),
            timebase_hz: get_u32(b, 44),
            poll_hz_x1000: get_u32(b, 48),
        })
    }
}

/// A reader whose rest is a suffix of `s` advanced by `n` is a further suffix.
proof fn lemma_advance(s: Seq<u8>, k: int, n: int)
    requires
        0 <= k,
        0 <= n,
        k + n <= s.len(),
    ensures
        s.subrange(k, s.len() as int).subrange(0, n) == s.subrange(k, k + n),
        s.subrange(k, s.len() as int).subrange(n, s.len() - k) == s.subrange(k + n, s.len() as int),
{
    assert(s.subrange(k, s.len() as int).subrange(0, n) =~= s.subrange(k, k + n));
    assert(s.subrange(k, s.len() as int).subrange(n, s.len() - k) =~= s.subrange(k + n, s.len() as int));
}

/// Reading a written header gives it back when its version is one this
/// reader accepts (1 or 2).
pub proof fn lemma_file_header_roundtrip(h: FileHeader, rest: Seq<u8>)
    requires
        h.version == 1 || h.version == FORMAT_VERSION,
    ensures
        h.spec_bytes().len() == 128,
        FileHeader::spec_read(h.spec_bytes() + rest) == Ok::<(FileHeader, nat), ErrorDesc>((h, 128)),
{
    lemma_le_roundtrip(rest);
    let s = h.spec_bytes() + rest;
    assert(s.subrange(0, 8) =~= file_magic());
    lemma_read_written(s, 8);
    lemma_read_written(s, 10);
    lemma_read_written(s, 12);
    lemma_read_written(s, 16);
    lemma_read_written(s, 24);
    lemma_read_written(s, 32);
    lemma_read_written(s, 40);
    lemma_read_written(s, 48);
    lemma_read_written(s, 56);
    lemma_read_written(s, 60);
    assert(s.subrange(8, 10) =~= spec_u16_to_le_bytes(h.version));
    assert(s.subrange(10, 12) =~= spec_u16_to_le_bytes(HEADER_SIZE));
    assert(s.subrange(12, 16) =~= spec_u32_to_le_bytes(h.flags));
    assert(s.subrange(16, 24) =~= spec_u64_to_le_bytes(h.schema_offset));
    assert(s.subrange(24, 32) =~= spec_u64_to_le_bytes(h.metadata_offset));
    assert(s.subrange(32, 40) =~= spec_u64_to_le_bytes(h.first_chunk_offset));
    assert(s.subrange(40, 48) =~= spec_u64_to_le_bytes(h.footer_offset));
    assert(s.subrange(48, 56) =~= spec_u64_to_le_bytes(h.created_unix_ns));
    assert(s.subrange(56, 60) =~= spec_u32_to_le_bytes(h.timebase_hz));
    assert(s.subrange(60, 64) =~= spec_u32_to_le_bytes(h.poll_hz_x1000));
}

} // verus!

verus! {

// ---------------------------------------------------------------------------
// ChunkHeader
// ---------------------------------------------------------------------------

/// The 72-byte header of a v1 chunk.
#[derive(Debug, Clone, Copy, PartialEq, Eq)]
pub struct ChunkHeader {
    pub cluster_id: u16,
    pub chunk_seq: u32,
    pub schema_hash: u64,
    pub base_sample_tick: u64,
    pub sample_stride: u32,
    pub sample_count: u32,
    pub start_time_ns: u64,
    pub end_time_ns: u64,
    pub start_lap: i32,
    pub end_lap: i32,
    pub column_count: u16,
    pub flags: u16,
    pub payload_len: u32,
    pub payload_crc32: u32,
}

impl ChunkHeader {
    /// Size of a chunk's header block: the fixed header plus one 40-byte
    /// entry per column.
    pub fn byte_len(column_count: usize) -> (n: usize)
        requires
            72 + 40 * column_count <= usize::MAX,
        ensures
            n == 72 + 40 * column_count,
    {
        CHUNK_HEADER_SIZE as usize + column_count * COLUMN_ENTRY_SIZE
    }

    /// Layout: `CHNK`, the header size 72, then the fields in order.
    pub open spec fn spec_bytes(self) -> Seq<u8> {
        chunk_magic() + spec_u16_to_le_bytes(CHUNK_HEADER_SIZE) + spec_u16_to_le_bytes(self.cluster_id)
            + spec_u32_to_le_bytes(self.chunk_seq) + spec_u64_to_le_bytes(self.schema_hash)
            + spec_u64_to_le_bytes(self.base_sample_tick) + spec_u32_to_le_bytes(self.sample_stride)
            + spec_u32_to_le_bytes(self.sample_count) + spec_u64_to_le_bytes(self.start_time_ns)
            + spec_u64_to_le_bytes(self.end_time_ns) + le_i32(self.start_lap) + le_i32(self.end_lap)
            + spec_u16_to_le_bytes(self.column_count) + spec_u16_to_le_bytes(self.flags)
            + spec_u32_to_le_bytes(self.payload_len) + spec_u32_to_le_bytes(self.payload_crc32)
    }

    /// What reading a chunk header from `s` gives: magic, then a header size
    /// of 72, then 66 bytes of fields.
    pub open spec fn spec_read(s: Seq<u8>) -> Result<(ChunkHeader, nat), ErrorDesc> {
        if s.len() < 4 {
            Err(ErrorDesc::Eof)
        } else if !starts_with(s, chunk_magic()) {
            Err(ErrorDesc::Format("bad chunk magic"@))
        } else if s.len() < 6 {
            Err(ErrorDesc::Eof)
        } else if u16_at(s, 4) != CHUNK_HEADER_SIZE {
            Err(ErrorDesc::Format("unexpected chunk header size "@ + decimal(u16_at(s, 4) as nat)))
        } else if s.len() < 72 {
            Err(ErrorDesc::Eof)
        } else {
            Ok((ChunkHeader {
                cluster_id: u16_at(s, 6),
                chunk_seq: u32_at(s, 8),
                schema_hash: u64_at(s, 12),
                base_sample_tick: u64_at(s, 20),
                sample_stride: u32_at(s, 28),
                sample_count: u32_at(s, 32),
                start_time_ns: u64_at(s, 36),
                end_time_ns: u64_at(s, 44),
                start_lap: i32_at(s, 52),
                end_lap: i32_at(s, 56),
                column_count: u16_at(s, 60),
                flags: u16_at(s, 62),
                payload_len: u32_at(s, 64),
                payload_crc32: u32_at(s, 68),
            }, 72))
        }
    }

    /// Append the 72 header bytes.
    pub fn write_to(&self, writer: &mut Vec<u8>) -> (r: TelemetryResult<()>)
        ensures
            r is Ok,
            final(writer)@ == old(writer)@ + self.spec_bytes(),
    {
        let ghost start = writer@;
        push_seq4(writer, 67, 72, 78, 75);
        put_u16(writer, CHUNK_HEADER_SIZE);
        put_u16(writer, self.cluster_id);
        put_u32(writer, self.chunk_seq);
        put_u64(writer, self.schema_hash);
        put_u64(writer, self.base_sample_tick);
        put_u32(writer, self.sample_stride);
        put_u32(writer, self.sample_count);
        put_u64(writer, self.start_time_ns);
        put_u64(writer, self.end_time_ns);
        put_i32(writer, self.start_lap);
        put_i32(writer, self.end_lap);
        put_u16(writer, self.column_count);
        put_u16(writer, self.flags);
        put_u32(writer, self.payload_len);
        put_u32(writer, self.payload_crc32);
        assert(writer@ =~= start + self.spec_bytes());
        Ok(())
    }

    /// Read a chunk header.
    pub fn read_from(reader: &mut ByteReader) -> (r: TelemetryResult<Self>)
        ensures
            read_outcome(r, old(reader).rest(), final(reader).rest(), Self::spec_read(old(reader).rest())),
    {
        let ghost s = reader.rest();
        let m = reader.read_exact(4)?;
        if !(m[0] == 67 && m[1] == 72 && m[2] == 78 && m[3] == 75) {
            proof {
                if starts_with(s, chunk_magic()) {
                    assert(m@ == s.subrange(0, 4));
                    assert(m@[0] == chunk_magic()[0]);
                }
            }
            return Err(TelemetryError::invalid_format("bad chunk magic"));
        }
        assert(s.subrange(0, 4) =~= chunk_magic());
        let header_size = read_u16(reader)?;
        proof { lemma_advance(s, 4, 2); }
        if header_size != CHUNK_HEADER_SIZE {
            return Err(TelemetryError::InvalidFormat(text_with_number("unexpected chunk header size ", header_size as u64)));
        }
        let b = reader.read_exact(66)?;
        proof {
            lemma_advance(s, 6, 66);
            lemma_at_in_window(s, 6, 72);
        }
        Ok(ChunkHeader {
            cluster_id: get_u16(b, 0),
            chunk_seq: get_u32(b, 2),
            schema_hash: get_u64(b, 6),
            base_sample_tick: get_u64(b, 14),
            sample_stride: get_u32(b, 22),
            sample_count: get_u32(b, 26),
            start_time_ns: get_u64(b, 30),
            end_time_ns: get_u64(b, 38),
            start_lap: get_i32(b, 46),
            end_lap: get_i32(b, 50),
            column_count: get_u16(b, 54),
            flags: get_u16(b, 56),
            payload_len: get_u32(b, 58),
            payload_crc32: get_u32(b, 62),
        })
    }
}

/// Reading a written chunk header gives it back.
pub proof fn lemma_chunk_header_roundtrip(h: ChunkHeader, rest: Seq<u8>)
    ensures
        h.spec_bytes().len() == 72,
        ChunkHeader::spec_read(h.spec_bytes() + rest) == Ok::<(ChunkHeader, nat), ErrorDesc>((h, 72)),
{
    lemma_le_roundtrip(rest);
    let s = h.spec_bytes() + rest;
    assert(s.subrange(0, 4) =~= chunk_magic());
    lemma_read_written(s, 4);
    lemma_read_written(s, 6);
    lemma_read_written(s, 8);
    lemma_read_written(s, 12);
    lemma_read_written(s, 20);
    lemma_read_written(s, 28);
    lemma_read_written(s, 32);
    lemma_read_written(s, 36);
    lemma_read_written(s, 44);
    lemma_read_written(s, 52);
    lemma_read_written(s, 56);
    lemma_read_written(s, 60);
    lemma_read_written(s, 62);
    lemma_read_written(s, 64);
    lemma_read_written(s, 68);
    assert(s.subrange(4, 6) =~= spec_u16_to_le_bytes(CHUNK_HEADER_SIZE));
    assert(s.subrange(6, 8) =~= spec_u16_to_le_bytes(h.cluster_id));
    assert(s.subrange(8, 12) =~= spec_u32_to_le_bytes(h.chunk_seq));
    assert(s.subrange(12, 20) =~= spec_u64_to_le_bytes(h.schema_hash));
    assert(s.subrange(20, 28) =~= spec_u64_to_le_bytes(h.base_sample_tick));
    assert(s.subrange(28, 32) =~= spec_u32_to_le_bytes(h.sample_stride));
    assert(s.subrange(32, 36) =~= spec_u32_to_le_bytes(h.sample_count));
    assert(s.subrange(36, 44) =~= spec_u64_to_le_bytes(h.start_time_ns));
    assert(s.subrange(44, 52) =~= spec_u64_to_le_bytes(h.end_time_ns));
    assert(s.subrange(52, 56) =~= le_i32(h.start_lap));
    assert(s.subrange(56, 60) =~= le_i32(h.end_lap));
    assert(s.subrange(60, 62) =~= spec_u16_to_le_bytes(h.column_count));
    assert(s.subrange(62, 64) =~= spec_u16_to_le_bytes(h.flags));
    assert(s.subrange(64, 68) =~= spec_u32_to_le_bytes(h.payload_len));
    assert(s.subrange(68, 72) =~= spec_u32_to_le_bytes(h.payload_crc32));
}

// ---------------------------------------------------------------------------
// ColumnEntry
// ---------------------------------------------------------------------------

/// A v1 column entry (40 bytes). The range bounds are kept as the bit
/// patterns of the `f64` values the file stores.
#[derive(Debug, Clone, Copy, PartialEq, Eq)]
pub struct ColumnEntry {
    pub column_id: u16,
    pub codec: u8,
    pub value_type: u8,
    pub lane_count: u8,
    pub flags: u8,
    pub offset: u32,
    pub byte_len: u32,
    pub null_offset: u32,
    pub min_value_bits: u64,
    pub max_value_bits: u64,
}

impl ColumnEntry {
    /// Layout: id, four meta bytes, offset, length, null offset, the two
    /// bounds, six zero bytes.
    pub open spec fn spec_bytes(self) -> Seq<u8> {
        spec_u16_to_le_bytes(self.column_id) + seq![self.codec, self.value_type, self.lane_count, self.flags]
            + spec_u32_to_le_bytes(self.offset) + spec_u32_to_le_bytes(self.byte_len)
            + spec_u32_to_le_bytes(self.null_offset) + spec_u64_to_le_bytes(self.min_value_bits)
            + spec_u64_to_le_bytes(self.max_value_bits) + zeros(6)
    }

    /// The entry in the first 40 bytes of `s`.
    pub open spec fn spec_decode(s: Seq<u8>) -> ColumnEntry {
        ColumnEntry {
            column_id: u16_at(s, 0),
            codec: s[2],
            value_type: s[3],
            lane_count: s[4],
            flags: s[5],
            offset: u32_at(s, 6),
            byte_len: u32_at(s, 10),
            null_offset: u32_at(s, 14),
            min_value_bits: u64_at(s, 18),
            max_value_bits: u64_at(s, 26),
        }
    }

    /// What reading an entry from `s` gives.
    pub open spec fn spec_read(s: Seq<u8>) -> Result<(ColumnEntry, nat), ErrorDesc> {
        if s.len() < 40 { Err(ErrorDesc::Eof) } else { Ok((Self::spec_decode(s), 40)) }
    }

    /// Append the 40 entry bytes.
    pub fn write_to(&self, writer: &mut Vec<u8>) -> (r: TelemetryResult<()>)
        ensures
            r is Ok,
            final(writer)@ == old(writer)@ + self.spec_bytes(),
    {
        let ghost start = writer@;
        put_u16(writer, self.column_id);
        push_seq4(writer, self.codec, self.value_type, self.lane_count, self.flags);
        put_u32(writer, self.offset);
        put_u32(writer, self.byte_len);
        put_u32(writer, self.null_offset);
        put_u64(writer, self.min_value_bits);
        put_u64(writer, self.max_value_bits);
        put_zeros(writer, 6);
        assert(writer@ =~= start + self.spec_bytes());
        Ok(())
    }

    /// Read an entry.
    pub fn read_from(reader: &mut ByteReader) -> (r: TelemetryResult<Self>)
        ensures
            read_outcome(r, old(reader).rest(), final(reader).rest(), Self::spec_read(old(reader).rest())),
    {
        let ghost s = reader.rest();
        let b = reader.read_exact(40)?;
        proof { lemma_at_in_window(s, 0, 40); }
        Ok(ColumnEntry {
            column_id: get_u16(b, 0),
            codec: b[2],
            value_type: b[3],
            lane_count: b[4],
            flags: b[5],
            offset: get_u32(b, 6),
            byte_len: get_u32(b, 10),
            null_offset: get_u32(b, 14),
            min_value_bits: get_u64(b, 18),
            max_value_bits: get_u64(b, 26),
        })
    }
}

/// Reading a written column entry gives it back.
pub proof fn lemma_column_entry_roundtrip(e: ColumnEntry, rest: Seq<u8>)
    ensures
        e.spec_bytes().len() == COLUMN_ENTRY_SIZE,
        ColumnEntry::spec_read(e.spec_bytes() + rest) == Ok::<(ColumnEntry, nat), ErrorDesc>((e, 40)),
{
    lemma_le_roundtrip(rest);
    let s = e.spec_bytes() + rest;
    lemma_read_written(s, 0);
    lemma_read_written(s, 6);
    lemma_read_written(s, 10);
    lemma_read_written(s, 14);
    lemma_read_written(s, 18);
    lemma_read_written(s, 26);
    assert(s.subrange(0, 2) =~= spec_u16_to_le_bytes(e.column_id));
    assert(s.subrange(6, 10) =~= spec_u32_to_le_bytes(e.offset));
    assert(s.subrange(10, 14) =~= spec_u32_to_le_bytes(e.byte_len));
    assert(s.subrange(14, 18) =~= spec_u32_to_le_bytes(e.null_offset));
    assert(s.subrange(18, 26) =~= spec_u64_to_le_bytes(e.min_value_bits));
    assert(s.subrange(26, 34) =~= spec_u64_to_le_bytes(e.max_value_bits));
}

// ---------------------------------------------------------------------------
// IndexEntry
// ---------------------------------------------------------------------------

/// A v1 chunk-index entry (56 bytes).
#[derive(Debug, Clone, Copy, PartialEq, Eq)]
pub struct IndexEntry {
    pub cluster_id: u16,
    pub chunk_seq: u32,
    pub file_offset: u64,
    pub byte_len: u32,
    pub start_time_ns: u64,
    pub end_time_ns: u64,
    pub start_tick: u64,
    pub end_tick: u64,
}

impl IndexEntry {
    pub const BYTE_LEN: usize = 56;

    /// Layout: cluster, two zero bytes, sequence, offset, length, four zero
    /// bytes, the two times and the two ticks.
    pub open spec fn spec_bytes(self) -> Seq<u8> {
        spec_u16_to_le_bytes(self.cluster_id) + zeros(2) + spec_u32_to_le_bytes(self.chunk_seq)
            + spec_u64_to_le_bytes(self.file_offset) + spec_u32_to_le_bytes(self.byte_len) + zeros(4)
            + spec_u64_to_le_bytes(self.start_time_ns) + spec_u64_to_le_bytes(self.end_time_ns)
            + spec_u64_to_le_bytes(self.start_tick) + spec_u64_to_le_bytes(self.end_tick)
    }

    /// The entry in the first 56 bytes of `s`; the reserved bytes are ignored.
    pub open spec fn spec_decode(s: Seq<u8>) -> IndexEntry {
        IndexEntry {
            cluster_id: u16_at(s, 0),
            chunk_seq: u32_at(s, 4),
            file_offset: u64_at(s, 8),
            byte_len: u32_at(s, 16),
            start_time_ns: u64_at(s, 24),
            end_time_ns: u64_at(s, 32),
            start_tick: u64_at(s, 40),
            end_tick: u64_at(s, 48),
        }
    }

    /// What reading an entry from `s` gives.
    pub open spec fn spec_read(s: Seq<u8>) -> Result<(IndexEntry, nat), ErrorDesc> {
        if s.len() < 56 { Err(ErrorDesc::Eof) } else { Ok((Self::spec_decode(s), 56)) }
    }

    /// Append the 56 entry bytes.
    pub fn write_to(&self, writer: &mut Vec<u8>) -> (r: TelemetryResult<()>)
        ensures
            r is Ok,
            final(writer)@ == old(writer)@ + self.spec_bytes(),
    {
        let ghost start = writer@;
        put_u16(writer, self.cluster_id);
        put_zeros(writer, 2);
        put_u32(writer, self.chunk_seq);
        put_u64(writer, self.file_offset);
        put_u32(writer, self.byte_len);
        put_zeros(writer, 4);
        put_u64(writer, self.start_time_ns);
        put_u64(writer, self.end_time_ns);
        put_u64(writer, self.start_tick);
        put_u64(writer, self.end_tick);
        assert(writer@ =~= start + self.spec_bytes());
        Ok(())
    }

    /// Read an entry.
    pub fn read_from(reader: &mut ByteReader) -> (r: TelemetryResult<Self>)
        ensures
            read_outcome(r, old(reader).rest(), final(reader).rest(), Self::spec_read(old(reader).rest())),
    {
        let ghost s = reader.rest();
        let b = reader.read_exact(56)?;
        proof { lemma_at_in_window(s, 0, 56); }
        Ok(IndexEntry {
            cluster_id: get_u16(b, 0),
            chunk_seq: get_u32(b, 4),
            file_offset: get_u64(b, 8),
            byte_len: get_u32(b, 16),
            start_time_ns: get_u64(b, 24),
            end_time_ns: get_u64(b, 32),
            start_tick: get_u64(b, 40),
            end_tick: get_u64(b, 48),
        })
    }
}

/// Reading a written index entry gives it back.
pub proof fn lemma_index_entry_roundtrip(e: IndexEntry, rest: Seq<u8>)
    ensures
        e.spec_bytes().len() == IndexEntry::BYTE_LEN,
        IndexEntry::spec_read(e.spec_bytes() + rest) == Ok::<(IndexEntry, nat), ErrorDesc>((e, 56)),
{
    lemma_le_roundtrip(rest);
    let s = e.spec_bytes() + rest;
    lemma_read_written(s, 0);
    lemma_read_written(s, 4);
    lemma_read_written(s, 8);
    lemma_read_written(s, 16);
    lemma_read_written(s, 24);
    lemma_read_written(s, 32);
    lemma_read_written(s, 40);
    lemma_read_written(s, 48);
    assert(s.subrange(0, 2) =~= spec_u16_to_le_bytes(e.cluster_id));
    assert(s.subrange(4, 8) =~= spec_u32_to_le_bytes(e.chunk_seq));
    assert(s.subrange(8, 16) =~= spec_u64_to_le_bytes(e.file_offset));
    assert(s.subrange(16, 20) =~= spec_u32_to_le_bytes(e.byte_len));
    assert(s.subrange(24, 32) =~= spec_u64_to_le_bytes(e.start_time_ns));
    assert(s.subrange(32, 40) =~= spec_u64_to_le_bytes(e.end_time_ns));
    assert(s.subrange(40, 48) =~= spec_u64_to_le_bytes(e.start_tick));
    assert(s.subrange(48, 56) =~= spec_u64_to_le_bytes(e.end_tick));
}

} // verus!

verus! {

// ---------------------------------------------------------------------------
// Schema block
// ---------------------------------------------------------------------------

/// Layout of one column in the schema: id, type, name length (truncated to
/// a byte), name bytes.
pub open spec fn column_spec_bytes(c: ColumnSpec) -> Seq<u8> {
    spec_u16_to_le_bytes(c.id) + seq![c.value_type, c.name.spec_bytes().len() as u8] + c.name.spec_bytes()
}

/// Layout of one cluster: id, column count (truncated to 16 bits), columns.
pub open spec fn cluster_bytes(cluster_id: u16, cols: Seq<ColumnSpec>) -> Seq<u8> {
    spec_u16_to_le_bytes(cluster_id) + spec_u16_to_le_bytes(cols.len() as u16)
        + encode_many(cols, |c: ColumnSpec| column_spec_bytes(c))
}

/// The schema block: `SCHM`, the schema hash, the cluster count 9, then the
/// nine clusters in order.
pub open spec fn spec_schema() -> Seq<u8> {
    schema_magic() + spec_u64_to_le_bytes(SCHEMA_HASH) + spec_u16_to_le_bytes(9)
        + cluster_bytes(CLUSTER_CONTROLS, spec_control_columns())
        + cluster_bytes(CLUSTER_MOTION, spec_motion_columns())
        + cluster_bytes(CLUSTER_TYRES, spec_tyres_columns())
        + cluster_bytes(CLUSTER_POWERTRAIN, spec_powertrain_columns())
        + cluster_bytes(CLUSTER_SESSION, spec_session_columns())
        + cluster_bytes(CLUSTER_TIMING, spec_timing_columns())
        + cluster_bytes(CLUSTER_CAR_STATE, spec_car_state_columns())
        + cluster_bytes(CLUSTER_ENVIRONMENT, spec_environment_columns())
        + cluster_bytes(CLUSTER_OTHER_CARS, spec_other_cars_columns())
}

fn write_schema_cluster(out: &mut Vec<u8>, cluster_id: u16, columns: &[ColumnSpec])
    ensures
        final(out)@ == old(out)@ + cluster_bytes(cluster_id, columns@),
{
    let ghost start = out@;
    put_u16(out, cluster_id);
    put_u16(out, columns.len() as u16);
    let ghost fixed = out@;
    let n = columns.len();
    let mut i: usize = 0;
    while i < n
        invariant
            n == columns@.len(),
            i <= n,
            out@ == fixed + encode_many(columns@.subrange(0, i as int), |c: ColumnSpec| column_spec_bytes(c)),
        decreases n - i,
    {
        let column = columns[i];
        put_u16(out, column.id);
        out.push(column.value_type);
        let name = column.name.as_bytes();
        out.push(name.len() as u8);
        put_bytes(out, name);
        proof {
            let pre = columns@.subrange(0, i as int);
            let next = columns@.subrange(0, i + 1);
            assert(next.drop_last() =~= pre);
            assert(next.last() == column);
        }
        i = i + 1;
        assert(out@ =~= fixed + encode_many(columns@.subrange(0, i as int), |c: ColumnSpec| column_spec_bytes(c)));
    }
    assert(columns@.subrange(0, n as int) =~= columns@);
    assert(out@ =~= start + cluster_bytes(cluster_id, columns@));
}

/// Encode the schema block that registers all nine clusters.
pub fn encode_schema() -> (out: Vec<u8>)
    ensures
        out@ == spec_schema(),
{
    let mut out: Vec<u8> = Vec::new();
    push_seq4(&mut out, 83, 67, 72, 77);
    put_u64(&mut out, SCHEMA_HASH);
    put_u16(&mut out, 9);
    write_schema_cluster(&mut out, CLUSTER_CONTROLS, control_columns().as_slice());
    write_schema_cluster(&mut out, CLUSTER_MOTION, motion_columns().as_slice());
    write_schema_cluster(&mut out, CLUSTER_TYRES, tyres_columns().as_slice());
    write_schema_cluster(&mut out, CLUSTER_POWERTRAIN, powertrain_columns().as_slice());
    write_schema_cluster(&mut out, CLUSTER_SESSION, session_columns().as_slice());
    write_schema_cluster(&mut out, CLUSTER_TIMING, timing_columns().as_slice());
    write_schema_cluster(&mut out, CLUSTER_CAR_STATE, car_state_columns().as_slice());
    write_schema_cluster(&mut out, CLUSTER_ENVIRONMENT, environment_columns().as_slice());
    write_schema_cluster(&mut out, CLUSTER_OTHER_CARS, other_cars_columns().as_slice());
    assert(out@ =~= spec_schema());
    out
}

/// Whether `bytes` is a schema block this reader accepts: at least 14
/// bytes, the `SCHM` magic, and the expected schema hash.
pub open spec fn schema_accepted(bytes: Seq<u8>) -> Result<(), ErrorDesc> {
    if bytes.len() < 14 || bytes.subrange(0, 4) != schema_magic() {
        Err(ErrorDesc::Format("bad schema block"@))
    } else if u64_at(bytes, 4) != SCHEMA_HASH {
        Err(ErrorDesc::Format("schema hash mismatch"@))
    } else {
        Ok(())
    }
}

/// Check the start of a schema block.
pub fn validate_schema(bytes: &[u8]) -> (r: TelemetryResult<()>)
    ensures
        match schema_accepted(bytes@) {
            Ok(()) => r is Ok,
            Err(d) => r is Err && error_matches(r->Err_0, d),
        },
{
    if bytes.len() < 14 || !(bytes[0] == 83 && bytes[1] == 67 && bytes[2] == 72 && bytes[3] == 77) {
        proof {
            if bytes@.len() >= 14 && bytes@.subrange(0, 4) == schema_magic() {
                assert(bytes@.subrange(0, 4)[0] == bytes@[0]);
                assert(bytes@.subrange(0, 4)[1] == bytes@[1]);
                assert(bytes@.subrange(0, 4)[2] == bytes@[2]);
                assert(bytes@.subrange(0, 4)[3] == bytes@[3]);
            }
        }
        return Err(TelemetryError::invalid_format("bad schema block"));
    }
    assert(bytes@.subrange(0, 4) =~= schema_magic());
    let hash = get_u64(bytes, 4);
    if hash != SCHEMA_HASH {
        return Err(TelemetryError::invalid_format("schema hash mismatch"));
    }
    Ok(())
}

/// The schema block this library writes is one it accepts.
pub proof fn lemma_encoded_schema_accepted()
    ensures
        schema_accepted(spec_schema()) == Ok::<(), ErrorDesc>(()),
{
    lemma_le_roundtrip(Seq::empty());
    let s = spec_schema();
    assert(spec_u16_to_le_bytes(CLUSTER_CONTROLS).len() == 2);
    assert(spec_u16_to_le_bytes(9).len() == 2);
    assert(s.len() >= 14);
    assert(s.subrange(0, 4) =~= schema_magic());
    lemma_read_written(s, 4);
    assert(s.subrange(4, 12) =~= spec_u64_to_le_bytes(SCHEMA_HASH));
}

} // verus!
