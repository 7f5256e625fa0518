//! Samples read straight from the game's shared-memory pages: each field
//! of a sample sits at a fixed offset of the physics or graphics page, as
//! a little-endian `i32`, the bit pattern of an `f32`, or a run of them.

use vstd::prelude::*;
use crate::codec::{get_i32, get_u16, get_u32, i32_at, u16_at, u32_at};
use crate::samples::{
    CarStateSample, CarStateSampleView, ControlSample, ControlSampleView, EnvironmentSample, EnvironmentSampleView,
    MotionSample, MotionSampleView, OtherCarsSample, OtherCarsSampleView, PowertrainSample, PowertrainSampleView,
    SessionSample, SessionSampleView, TimingSample, TimingSampleView, TyreSample, TyreSampleView,
};

verus! {

/// `n` consecutive four-byte words of `p` from `off`.
pub open spec fn words_at(p: Seq<u8>, off: int, n: nat) -> Seq<u32> {
    Seq::new(n, |i: int| u32_at(p, off + 4 * i))
}

/// `n` consecutive little-endian `i32`s of `p` from `off`.
pub open spec fn ints_at(p: Seq<u8>, off: int, n: nat) -> Seq<i32> {
    Seq::new(n, |i: int| i32_at(p, off + 4 * i))
}

/// `n` consecutive little-endian `u16`s of `p` from `off`.
pub open spec fn halves_at(p: Seq<u8>, off: int, n: nat) -> Seq<u16> {
    Seq::new(n, |i: int| u16_at(p, off + 2 * i))
}

fn read_words(p: &[u8], off: usize, n: usize) -> (r: Vec<u32>)
    requires
        off + 4 * n <= p@.len(),
    ensures
        r@ == words_at(p@, off as int, n as nat),
{
    let mut v: Vec<u32> = Vec::new();
    let len = p.len();
    let mut i: usize = 0;
    while i < n
        invariant
            i <= n,
            len == p@.len(),
            off + 4 * n <= p@.len(),
            v@ == words_at(p@, off as int, i as nat),
        decreases n - i,
    {
        v.push(get_u32(p, off + 4 * i));
        i = i + 1;
        assert(v@ =~= words_at(p@, off as int, i as nat));
    }
    v
}

fn read_ints(p: &[u8], off: usize, n: usize) -> (r: Vec<i32>)
    requires
        off + 4 * n <= p@.len(),
    ensures
        r@ == ints_at(p@, off as int, n as nat),
{
    let mut v: Vec<i32> = Vec::new();
    let len = p.len();
    let mut i: usize = 0;
    while i < n
        invariant
            i <= n,
            len == p@.len(),
            off + 4 * n <= p@.len(),
            v@ == ints_at(p@, off as int, i as nat),
        decreases n - i,
    {
        v.push(get_i32(p, off + 4 * i));
        i = i + 1;
        assert(v@ =~= ints_at(p@, off as int, i as nat));
    }
    v
}

fn read_halves(p: &[u8], off: usize, n: usize) -> (r: Vec<u16>)
    requires
        off + 2 * n <= p@.len(),
    ensures
        r@ == halves_at(p@, off as int, n as nat),
{
    let mut v: Vec<u16> = Vec::new();
    let len = p.len();
    let mut i: usize = 0;
    while i < n
        invariant
            i <= n,
            len == p@.len(),
            off + 2 * n <= p@.len(),
            v@ == halves_at(p@, off as int, i as nat),
        decreases n - i,
    {
        v.push(get_u16(p, off + 2 * i));
        i = i + 1;
        assert(v@ =~= halves_at(p@, off as int, i as nat));
    }
    v
}

/// The controls sample at `tick` and `ts` that the physics page hold.
pub open spec fn raw_controls_sample(tick: u64, ts: u64, phys: Seq<u8>) -> ControlSampleView {
    ControlSampleView {
        sample_tick: tick,
        timestamp_ns: ts,
        physics_packet_id: i32_at(phys, 0),
        graphics_packet_id: 0,
        speed_kmh: u32_at(phys, 28),
        gas: u32_at(phys, 4),
        brake: u32_at(phys, 8),
        clutch: u32_at(phys, 364),
        steer_angle: u32_at(phys, 24),
        gear: i32_at(phys, 16),
        rpms: i32_at(phys, 20),
        fuel: u32_at(phys, 12)
    }
}

/// The layout of a controls sample in the shared-memory pages: each field is
/// read from its own offset of the page it belongs to, and the tick and
/// time are the ones given.
pub proof fn lemma_controls_page_layout(tick: u64, ts: u64, phys: Seq<u8>)
    ensures
        ({
            let s = raw_controls_sample(tick, ts, phys);
            &&& s.sample_tick == tick
            &&& s.timestamp_ns == ts
            &&& s.physics_packet_id == i32_at(phys, 0)
            &&& s.graphics_packet_id == 0
            &&& s.speed_kmh == u32_at(phys, 28)
            &&& s.gas == u32_at(phys, 4)
            &&& s.brake == u32_at(phys, 8)
            &&& s.clutch == u32_at(phys, 364)
            &&& s.steer_angle == u32_at(phys, 24)
            &&& s.gear == i32_at(phys, 16)
            &&& s.rpms == i32_at(phys, 20)
            &&& s.fuel == u32_at(phys, 12)
        }),
{
}

/// Read a controls sample from the physics page.
pub fn parse_controls_sample(tick: u64, ts: u64, phys: &[u8]) -> (s: ControlSample)
    requires
        phys@.len() >= 368,
    ensures
        s@ == raw_controls_sample(tick, ts, phys@),
{
    ControlSample {
        sample_tick: tick,
        timestamp_ns: ts,
        physics_packet_id: get_i32(phys, 0),
        graphics_packet_id: 0,
        speed_kmh: get_u32(phys, 28),
        gas: get_u32(phys, 4),
        brake: get_u32(phys, 8),
        clutch: get_u32(phys, 364),
        steer_angle: get_u32(phys, 24),
        gear: get_i32(phys, 16),
        rpms: get_i32(phys, 20),
        fuel: get_u32(phys, 12)
    }
}

/// The motion sample at `tick` and `ts` that the physics page hold.
pub open spec fn raw_motion_sample(tick: u64, ts: u64, phys: Seq<u8>) -> MotionSampleView {
    MotionSampleView {
        sample_tick: tick,
        timestamp_ns: ts,
        velocity: words_at(phys, 32, 3),
        acc_g: words_at(phys, 44, 3),
        local_velocity: words_at(phys, 568, 3),
        local_angular_vel: words_at(phys, 296, 3),
        heading: u32_at(phys, 208),
        pitch: u32_at(phys, 212),
        roll: u32_at(phys, 216)
    }
}

/// The layout of a motion sample in the shared-memory pages: each field is
/// read from its own offset of the page it belongs to, and the tick and
/// time are the ones given.
pub proof fn lemma_motion_page_layout(tick: u64, ts: u64, phys: Seq<u8>)
    ensures
        ({
            let s = raw_motion_sample(tick, ts, phys);
            &&& s.sample_tick == tick
            &&& s.timestamp_ns == ts
            &&& s.velocity == words_at(phys, 32, 3)
            &&& s.acc_g == words_at(phys, 44, 3)
            &&& s.local_velocity == words_at(phys, 568, 3)
            &&& s.local_angular_vel == words_at(phys, 296, 3)
            &&& s.heading == u32_at(phys, 208)
            &&& s.pitch == u32_at(phys, 212)
            &&& s.roll == u32_at(phys, 216)
        }),
{
}

/// Read a motion sample from the physics page.
pub fn parse_motion_sample(tick: u64, ts: u64, phys: &[u8]) -> (s: MotionSample)
    requires
        phys@.len() >= 580,
    ensures
        s@ == raw_motion_sample(tick, ts, phys@),
{
    MotionSample {
        sample_tick: tick,
        timestamp_ns: ts,
        velocity: read_words(phys, 32, 3),
        acc_g: read_words(phys, 44, 3),
        local_velocity: read_words(phys, 568, 3),
        local_angular_vel: read_words(phys, 296, 3),
        heading: get_u32(phys, 208),
        pitch: get_u32(phys, 212),
        roll: get_u32(phys, 216)
    }
}

/// The tyres sample at `tick` and `ts` that the physics page hold.
pub open spec fn raw_tyres_sample(tick: u64, ts: u64, phys: Seq<u8>) -> TyreSampleView {
    TyreSampleView {
        sample_tick: tick,
        timestamp_ns: ts,
        wheel_slip: words_at(phys, 56, 4),
        wheel_load: words_at(phys, 72, 4),
        wheels_pressure: words_at(phys, 88, 4),
        wheel_angular_speed: words_at(phys, 104, 4),
        tyre_wear: words_at(phys, 120, 4),
        tyre_dirty_level: words_at(phys, 136, 4),
        tyre_core_temperature: words_at(phys, 152, 4),
        camber_rad: words_at(phys, 168, 4),
        suspension_travel: words_at(phys, 184, 4),
        slip_ratio: words_at(phys, 640, 4),
        slip_angle: words_at(phys, 656, 4),
        tyre_temp_i: words_at(phys, 368, 4),
        tyre_temp_m: words_at(phys, 384, 4),
        tyre_temp_o: words_at(phys, 400, 4),
        tyre_temp: words_at(phys, 696, 4),
        mz: words_at(phys, 592, 4),
        fx: words_at(phys, 608, 4),
        fy: words_at(phys, 624, 4),
        suspension_damage: words_at(phys, 680, 4),
        brake_temp: words_at(phys, 348, 4),
        brake_pressure: words_at(phys, 716, 4),
        pad_life: words_at(phys, 740, 4),
        disc_life: words_at(phys, 756, 4),
        tyre_contact_point: words_at(phys, 420, 12),
        tyre_contact_normal: words_at(phys, 468, 12),
        tyre_contact_heading: words_at(phys, 516, 12),
        number_of_tyres_out: i32_at(phys, 244),
        front_brake_compound: i32_at(phys, 732),
        rear_brake_compound: i32_at(phys, 736)
    }
}

/// The layout of a tyres sample in the shared-memory pages: each field is
/// read from its own offset of the page it belongs to, and the tick and
/// time are the ones given.
pub proof fn lemma_tyres_page_layout(tick: u64, ts: u64, phys: Seq<u8>)
    ensures
        ({
            let s = raw_tyres_sample(tick, ts, phys);
            &&& s.sample_tick == tick
            &&& s.timestamp_ns == ts
            &&& s.wheel_slip == words_at(phys, 56, 4)
            &&& s.wheel_load == words_at(phys, 72, 4)
            &&& s.wheels_pressure == words_at(phys, 88, 4)
            &&& s.wheel_angular_speed == words_at(phys, 104, 4)
            &&& s.tyre_wear == words_at(phys, 120, 4)
            &&& s.tyre_dirty_level == words_at(phys, 136, 4)
            &&& s.tyre_core_temperature == words_at(phys, 152, 4)
            &&& s.camber_rad == words_at(phys, 168, 4)
            &&& s.suspension_travel == words_at(phys, 184, 4)
            &&& s.slip_ratio == words_at(phys, 640, 4)
            &&& s.slip_angle == words_at(phys, 656, 4)
            &&& s.tyre_temp_i == words_at(phys, 368, 4)
            &&& s.tyre_temp_m == words_at(phys, 384, 4)
            &&& s.tyre_temp_o == words_at(phys, 400, 4)
            &&& s.tyre_temp == words_at(phys, 696, 4)
            &&& s.mz == words_at(phys, 592, 4)
            &&& s.fx == words_at(phys, 608, 4)
            &&& s.fy == words_at(phys, 624, 4)
            &&& s.suspension_damage == words_at(phys, 680, 4)
            &&& s.brake_temp == words_at(phys, 348, 4)
            &&& s.brake_pressure == words_at(phys, 716, 4)
            &&& s.pad_life == words_at(phys, 740, 4)
            &&& s.disc_life == words_at(phys, 756, 4)
            &&& s.tyre_contact_point == words_at(phys, 420, 12)
            &&& s.tyre_contact_normal == words_at(phys, 468, 12)
            &&& s.tyre_contact_heading == words_at(phys, 516, 12)
            &&& s.number_of_tyres_out == i32_at(phys, 244)
            &&& s.front_brake_compound == i32_at(phys, 732)
            &&& s.rear_brake_compound == i32_at(phys, 736)
        }),
{
}

/// Read a tyres sample from the physics page.
pub fn parse_tyres_sample(tick: u64, ts: u64, phys: &[u8]) -> (s: TyreSample)
    requires
        phys@.len() >= 772,
    ensures
        s@ == raw_tyres_sample(tick, ts, phys@),
{
    TyreSample {
        sample_tick: tick,
        timestamp_ns: ts,
        wheel_slip: read_words(phys, 56, 4),
        wheel_load: read_words(phys, 72, 4),
        wheels_pressure: read_words(phys, 88, 4),
        wheel_angular_speed: read_words(phys, 104, 4),
        tyre_wear: read_words(phys, 120, 4),
        tyre_dirty_level: read_words(phys, 136, 4),
        tyre_core_temperature: read_words(phys, 152, 4),
        camber_rad: read_words(phys, 168, 4),
        suspension_travel: read_words(phys, 184, 4),
        slip_ratio: read_words(phys, 640, 4),
        slip_angle: read_words(phys, 656, 4),
        tyre_temp_i: read_words(phys, 368, 4),
        tyre_temp_m: read_words(phys, 384, 4),
        tyre_temp_o: read_words(phys, 400, 4),
        tyre_temp: read_words(phys, 696, 4),
        mz: read_words(phys, 592, 4),
        fx: read_words(phys, 608, 4),
        fy: read_words(phys, 624, 4),
        suspension_damage: read_words(phys, 680, 4),
        brake_temp: read_words(phys, 348, 4),
        brake_pressure: read_words(phys, 716, 4),
        pad_life: read_words(phys, 740, 4),
        disc_life: read_words(phys, 756, 4),
        tyre_contact_point: read_words(phys, 420, 12),
        tyre_contact_normal: read_words(phys, 468, 12),
        tyre_contact_heading: read_words(phys, 516, 12),
        number_of_tyres_out: get_i32(phys, 244),
        front_brake_compound: get_i32(phys, 732),
        rear_brake_compound: get_i32(phys, 736)
    }
}

/// The powertrain sample at `tick` and `ts` that the physics page hold.
pub open spec fn raw_powertrain_sample(tick: u64, ts: u64, phys: Seq<u8>) -> PowertrainSampleView {
    PowertrainSampleView {
        sample_tick: tick,
        timestamp_ns: ts,
        turbo_boost: u32_at(phys, 276),
        ballast: u32_at(phys, 280),
        kers_charge: u32_at(phys, 256),
        kers_input: u32_at(phys, 260),
        kers_current_kj: u32_at(phys, 336),
        drs: u32_at(phys, 200),
        tc: u32_at(phys, 204),
        abs: u32_at(phys, 252),
        engine_brake: i32_at(phys, 316),
        ers_recovery_level: i32_at(phys, 320),
        ers_power_level: i32_at(phys, 324),
        ers_heat_charging: i32_at(phys, 328),
        ers_is_charging: i32_at(phys, 332),
        drs_available: i32_at(phys, 340),
        drs_enabled: i32_at(phys, 344),
        tc_in_action: i32_at(phys, 672),
        abs_in_action: i32_at(phys, 676),
        auto_shifter_on: i32_at(phys, 264),
        current_max_rpm: i32_at(phys, 588),
        p2p_activations: i32_at(phys, 580),
        p2p_status: i32_at(phys, 584),
        water_temp: u32_at(phys, 712)
    }
}

/// The layout of a powertrain sample in the shared-memory pages: each field is
/// read from its own offset of the page it belongs to, and the tick and
/// time are the ones given.
pub proof fn lemma_powertrain_page_layout(tick: u64, ts: u64, phys: Seq<u8>)
    ensures
        ({
            let s = raw_powertrain_sample(tick, ts, phys);
            &&& s.sample_tick == tick
            &&& s.timestamp_ns == ts
            &&& s.turbo_boost == u32_at(phys, 276)
            &&& s.ballast == u32_at(phys, 280)
            &&& s.kers_charge == u32_at(phys, 256)
            &&& s.kers_input == u32_at(phys, 260)
            &&& s.kers_current_kj == u32_at(phys, 336)
            &&& s.drs == u32_at(phys, 200)
            &&& s.tc == u32_at(phys, 204)
            &&& s.abs == u32_at(phys, 252)
            &&& s.engine_brake == i32_at(phys, 316)
            &&& s.ers_recovery_level == i32_at(phys, 320)
            &&& s.ers_power_level == i32_at(phys, 324)
            &&& s.ers_heat_charging == i32_at(phys, 328)
            &&& s.ers_is_charging == i32_at(phys, 332)
            &&& s.drs_available == i32_at(phys, 340)
            &&& s.drs_enabled == i32_at(phys, 344)
            &&& s.tc_in_action == i32_at(phys, 672)
            &&& s.abs_in_action == i32_at(phys, 676)
            &&& s.auto_shifter_on == i32_at(phys, 264)
            &&& s.current_max_rpm == i32_at(phys, 588)
            &&& s.p2p_activations == i32_at(phys, 580)
            &&& s.p2p_status == i32_at(phys, 584)
            &&& s.water_temp == u32_at(phys, 712)
        }),
{
}

/// Read a powertrain sample from the physics page.
pub fn parse_powertrain_sample(tick: u64, ts: u64, phys: &[u8]) -> (s: PowertrainSample)
    requires
        phys@.len() >= 716,
    ensures
        s@ == raw_powertrain_sample(tick, ts, phys@),
{
    PowertrainSample {
        sample_tick: tick,
        timestamp_ns: ts,
        turbo_boost: get_u32(phys, 276),
        ballast: get_u32(phys, 280),
        kers_charge: get_u32(phys, 256),
        kers_input: get_u32(phys, 260),
        kers_current_kj: get_u32(phys, 336),
        drs: get_u32(phys, 200),
        tc: get_u32(phys, 204),
        abs: get_u32(phys, 252),
        engine_brake: get_i32(phys, 316),
        ers_recovery_level: get_i32(phys, 320),
        ers_power_level: get_i32(phys, 324),
        ers_heat_charging: get_i32(phys, 328),
        ers_is_charging: get_i32(phys, 332),
        drs_available: get_i32(phys, 340),
        drs_enabled: get_i32(phys, 344),
        tc_in_action: get_i32(phys, 672),
        abs_in_action: get_i32(phys, 676),
        auto_shifter_on: get_i32(phys, 264),
        current_max_rpm: get_i32(phys, 588),
        p2p_activations: get_i32(phys, 580),
        p2p_status: get_i32(phys, 584),
        water_temp: get_u32(phys, 712)
    }
}

/// The session sample at `tick` and `ts` that the graphics page hold.
pub open spec fn raw_session_sample(tick: u64, ts: u64, gfx: Seq<u8>) -> SessionSampleView {
    SessionSampleView {
        sample_tick: tick,
        timestamp_ns: ts,
        status: i32_at(gfx, 4),
        session: i32_at(gfx, 8),
        session_index: i32_at(gfx, 1316),
        completed_laps: i32_at(gfx, 132),
        position: i32_at(gfx, 136),
        session_time_left: u32_at(gfx, 152),
        number_of_laps: i32_at(gfx, 172),
        current_sector_index: i32_at(gfx, 164),
        normalized_car_position: u32_at(gfx, 248),
        is_in_pit: i32_at(gfx, 160),
        is_in_pit_lane: i32_at(gfx, 1232),
        mandatory_pit_done: i32_at(gfx, 1240),
        missing_mandatory_pits: i32_at(gfx, 1484),
        penalty_time: u32_at(gfx, 1220),
        penalty_type: i32_at(gfx, 1224),
        track_status: halves_at(gfx, 1416, 33),
        clock: u32_at(gfx, 1488),
        replay_time_multiplier: u32_at(gfx, 244),
        is_valid_lap: i32_at(gfx, 1408),
        global_yellow: i32_at(gfx, 1500),
        global_yellow1: i32_at(gfx, 1504),
        global_yellow2: i32_at(gfx, 1508),
        global_yellow3: i32_at(gfx, 1512),
        global_white: i32_at(gfx, 1516),
        global_green: i32_at(gfx, 1520),
        global_chequered: i32_at(gfx, 1524),
        global_red: i32_at(gfx, 1528),
        gap_ahead_or_tail_value: i32_at(gfx, 1580)
    }
}

/// The layout of a session sample in the shared-memory pages: each field is
/// read from its own offset of the page it belongs to, and the tick and
/// time are the ones given.
pub proof fn lemma_session_page_layout(tick: u64, ts: u64, gfx: Seq<u8>)
    ensures
        ({
            let s = raw_session_sample(tick, ts, gfx);
            &&& s.sample_tick == tick
            &&& s.timestamp_ns == ts
            &&& s.status == i32_at(gfx, 4)
            &&& s.session == i32_at(gfx, 8)
            &&& s.session_index == i32_at(gfx, 1316)
            &&& s.completed_laps == i32_at(gfx, 132)
            &&& s.position == i32_at(gfx, 136)
            &&& s.session_time_left == u32_at(gfx, 152)
            &&& s.number_of_laps == i32_at(gfx, 172)
            &&& s.current_sector_index == i32_at(gfx, 164)
            &&& s.normalized_car_position == u32_at(gfx, 248)
            &&& s.is_in_pit == i32_at(gfx, 160)
            &&& s.is_in_pit_lane == i32_at(gfx, 1232)
            &&& s.mandatory_pit_done == i32_at(gfx, 1240)
            &&& s.missing_mandatory_pits == i32_at(gfx, 1484)
            &&& s.penalty_time == u32_at(gfx, 1220)
            &&& s.penalty_type == i32_at(gfx, 1224)
            &&& s.track_status == halves_at(gfx, 1416, 33)
            &&& s.clock == u32_at(gfx, 1488)
            &&& s.replay_time_multiplier == u32_at(gfx, 244)
            &&& s.is_valid_lap == i32_at(gfx, 1408)
            &&& s.global_yellow == i32_at(gfx, 1500)
            &&& s.global_yellow1 == i32_at(gfx, 1504)
            &&& s.global_yellow2 == i32_at(gfx, 1508)
            &&& s.global_yellow3 == i32_at(gfx, 1512)
            &&& s.global_white == i32_at(gfx, 1516)
            &&& s.global_green == i32_at(gfx, 1520)
            &&& s.global_chequered == i32_at(gfx, 1524)
            &&& s.global_red == i32_at(gfx, 1528)
            &&& s.gap_ahead_or_tail_value == i32_at(gfx, 1580)
        }),
{
}

/// Read a session sample from the graphics page.
pub fn parse_session_sample(tick: u64, ts: u64, gfx: &[u8]) -> (s: SessionSample)
    requires
        gfx@.len() >= 1584,
    ensures
        s@ == raw_session_sample(tick, ts, gfx@),
{
    SessionSample {
        sample_tick: tick,
        timestamp_ns: ts,
        status: get_i32(gfx, 4),
        session: get_i32(gfx, 8),
        session_index: get_i32(gfx, 1316),
        completed_laps: get_i32(gfx, 132),
        position: get_i32(gfx, 136),
        session_time_left: get_u32(gfx, 152),
        number_of_laps: get_i32(gfx, 172),
        current_sector_index: get_i32(gfx, 164),
        normalized_car_position: get_u32(gfx, 248),
        is_in_pit: get_i32(gfx, 160),
        is_in_pit_lane: get_i32(gfx, 1232),
        mandatory_pit_done: get_i32(gfx, 1240),
        missing_mandatory_pits: get_i32(gfx, 1484),
        penalty_time: get_u32(gfx, 1220),
        penalty_type: get_i32(gfx, 1224),
        track_status: read_halves(gfx, 1416, 33),
        clock: get_u32(gfx, 1488),
        replay_time_multiplier: get_u32(gfx, 244),
        is_valid_lap: get_i32(gfx, 1408),
        global_yellow: get_i32(gfx, 1500),
        global_yellow1: get_i32(gfx, 1504),
        global_yellow2: get_i32(gfx, 1508),
        global_yellow3: get_i32(gfx, 1512),
        global_white: get_i32(gfx, 1516),
        global_green: get_i32(gfx, 1520),
        global_chequered: get_i32(gfx, 1524),
        global_red: get_i32(gfx, 1528),
        gap_ahead_or_tail_value: get_i32(gfx, 1580)
    }
}

/// The timing sample at `tick` and `ts` that the graphics page hold.
pub open spec fn raw_timing_sample(tick: u64, ts: u64, gfx: Seq<u8>) -> TimingSampleView {
    TimingSampleView {
        sample_tick: tick,
        timestamp_ns: ts,
        i_current_time: i32_at(gfx, 140),
        i_last_time: i32_at(gfx, 144),
        i_best_time: i32_at(gfx, 148),
        i_split: i32_at(gfx, 1404),
        last_sector_time: i32_at(gfx, 168),
        i_delta_lap_time: i32_at(gfx, 1356),
        is_delta_positive: i32_at(gfx, 1396),
        i_estimated_lap_time: i32_at(gfx, 1392),
        fuel_estimated_laps: u32_at(gfx, 1412),
        fuel_x_lap: u32_at(gfx, 1280),
        used_fuel: u32_at(gfx, 1320),
        distance_traveled: u32_at(gfx, 156),
        current_time_str: halves_at(gfx, 12, 15),
        last_time_str: halves_at(gfx, 42, 15),
        best_time_str: halves_at(gfx, 72, 15),
        split_str: halves_at(gfx, 102, 15),
        delta_lap_time_str: halves_at(gfx, 1324, 15),
        estimated_lap_time_str: halves_at(gfx, 1360, 15),
        observed_slot_before_i_split: i32_at(gfx, 1400)
    }
}

/// The layout of a timing sample in the shared-memory pages: each field is
/// read from its own offset of the page it belongs to, and the tick and
/// time are the ones given.
pub proof fn lemma_timing_page_layout(tick: u64, ts: u64, gfx: Seq<u8>)
    ensures
        ({
            let s = raw_timing_sample(tick, ts, gfx);
            &&& s.sample_tick == tick
            &&& s.timestamp_ns == ts
            &&& s.i_current_time == i32_at(gfx, 140)
            &&& s.i_last_time == i32_at(gfx, 144)
            &&& s.i_best_time == i32_at(gfx, 148)
            &&& s.i_split == i32_at(gfx, 1404)
            &&& s.last_sector_time == i32_at(gfx, 168)
            &&& s.i_delta_lap_time == i32_at(gfx, 1356)
            &&& s.is_delta_positive == i32_at(gfx, 1396)
            &&& s.i_estimated_lap_time == i32_at(gfx, 1392)
            &&& s.fuel_estimated_laps == u32_at(gfx, 1412)
            &&& s.fuel_x_lap == u32_at(gfx, 1280)
            &&& s.used_fuel == u32_at(gfx, 1320)
            &&& s.distance_traveled == u32_at(gfx, 156)
            &&& s.current_time_str == halves_at(gfx, 12, 15)
            &&& s.last_time_str == halves_at(gfx, 42, 15)
            &&& s.best_time_str == halves_at(gfx, 72, 15)
            &&& s.split_str == halves_at(gfx, 102, 15)
            &&& s.delta_lap_time_str == halves_at(gfx, 1324, 15)
            &&& s.estimated_lap_time_str == halves_at(gfx, 1360, 15)
            &&& s.observed_slot_before_i_split == i32_at(gfx, 1400)
        }),
{
}

/// Read a timing sample from the graphics page.
pub fn parse_timing_sample(tick: u64, ts: u64, gfx: &[u8]) -> (s: TimingSample)
    requires
        gfx@.len() >= 1416,
    ensures
        s@ == raw_timing_sample(tick, ts, gfx@),
{
    TimingSample {
        sample_tick: tick,
        timestamp_ns: ts,
        i_current_time: get_i32(gfx, 140),
        i_last_time: get_i32(gfx, 144),
        i_best_time: get_i32(gfx, 148),
        i_split: get_i32(gfx, 1404),
        last_sector_time: get_i32(gfx, 168),
        i_delta_lap_time: get_i32(gfx, 1356),
        is_delta_positive: get_i32(gfx, 1396),
        i_estimated_lap_time: get_i32(gfx, 1392),
        fuel_estimated_laps: get_u32(gfx, 1412),
        fuel_x_lap: get_u32(gfx, 1280),
        used_fuel: get_u32(gfx, 1320),
        distance_traveled: get_u32(gfx, 156),
        current_time_str: read_halves(gfx, 12, 15),
        last_time_str: read_halves(gfx, 42, 15),
        best_time_str: read_halves(gfx, 72, 15),
        split_str: read_halves(gfx, 102, 15),
        delta_lap_time_str: read_halves(gfx, 1324, 15),
        estimated_lap_time_str: read_halves(gfx, 1360, 15),
        observed_slot_before_i_split: get_i32(gfx, 1400)
    }
}

/// The car state sample at `tick` and `ts` that the physics page and graphics page hold.
pub open spec fn raw_car_state_sample(tick: u64, ts: u64, phys: Seq<u8>, gfx: Seq<u8>) -> CarStateSampleView {
    CarStateSampleView {
        sample_tick: tick,
        timestamp_ns: ts,
        car_damage: words_at(phys, 224, 5),
        pit_limiter_on: i32_at(phys, 248),
        ride_height: words_at(phys, 268, 2),
        ignition_on: i32_at(phys, 772),
        starter_engine_on: i32_at(phys, 776),
        is_engine_running: i32_at(phys, 780),
        is_ai_controlled: i32_at(phys, 416),
        cg_height: u32_at(phys, 220),
        brake_bias: u32_at(phys, 564),
        rain_lights: i32_at(gfx, 1284),
        flashing_lights: i32_at(gfx, 1288),
        lights_stage: i32_at(gfx, 1292),
        wiper_lv: i32_at(gfx, 1300),
        driver_stint_total_time_left: i32_at(gfx, 1304),
        driver_stint_time_left: i32_at(gfx, 1308),
        rain_tyres: i32_at(gfx, 1312),
        current_tyre_set: i32_at(gfx, 1572),
        strategy_tyre_set: i32_at(gfx, 1576),
        track_grip_status: i32_at(gfx, 1556),
        tyre_compound_str: halves_at(gfx, 176, 33),
        mfd_tyre_set: i32_at(gfx, 1532),
        mfd_fuel_to_add: u32_at(gfx, 1536),
        mfd_tyre_pressure: words_at(gfx, 1540, 4),
        ideal_line_on: i32_at(gfx, 1228),
        is_setup_menu_visible: i32_at(gfx, 1252),
        main_display_index: i32_at(gfx, 1256),
        secondary_display_index: i32_at(gfx, 1260),
        direction_lights_left: i32_at(gfx, 1492),
        direction_lights_right: i32_at(gfx, 1496),
        tc_level: i32_at(gfx, 1264),
        tc_cut: i32_at(gfx, 1268),
        engine_map: i32_at(gfx, 1272),
        abs_level: i32_at(gfx, 1276),
        exhaust_temperature: u32_at(gfx, 1296),
        final_ff: u32_at(phys, 308),
        performance_meter: u32_at(phys, 312),
        kerb_vibration: u32_at(phys, 784),
        slip_vibrations: u32_at(phys, 788),
        g_vibrations: u32_at(phys, 792),
        abs_vibrations: u32_at(phys, 796)
    }
}

/// The layout of a car state sample in the shared-memory pages: each field is
/// read from its own offset of the page it belongs to, and the tick and
/// time are the ones given.
pub proof fn lemma_car_state_page_layout(tick: u64, ts: u64, phys: Seq<u8>, gfx: Seq<u8>)
    ensures
        ({
            let s = raw_car_state_sample(tick, ts, phys, gfx);
            &&& s.sample_tick == tick
            &&& s.timestamp_ns == ts
            &&& s.car_damage == words_at(phys, 224, 5)
            &&& s.pit_limiter_on == i32_at(phys, 248)
            &&& s.ride_height == words_at(phys, 268, 2)
            &&& s.ignition_on == i32_at(phys, 772)
            &&& s.starter_engine_on == i32_at(phys, 776)
            &&& s.is_engine_running == i32_at(phys, 780)
            &&& s.is_ai_controlled == i32_at(phys, 416)
            &&& s.cg_height == u32_at(phys, 220)
            &&& s.brake_bias == u32_at(phys, 564)
            &&& s.rain_lights == i32_at(gfx, 1284)
            &&& s.flashing_lights == i32_at(gfx, 1288)
            &&& s.lights_stage == i32_at(gfx, 1292)
            &&& s.wiper_lv == i32_at(gfx, 1300)
            &&& s.driver_stint_total_time_left == i32_at(gfx, 1304)
            &&& s.driver_stint_time_left == i32_at(gfx, 1308)
            &&& s.rain_tyres == i32_at(gfx, 1312)
            &&& s.current_tyre_set == i32_at(gfx, 1572)
            &&& s.strategy_tyre_set == i32_at(gfx, 1576)
            &&& s.track_grip_status == i32_at(gfx, 1556)
            &&& s.tyre_compound_str == halves_at(gfx, 176, 33)
            &&& s.mfd_tyre_set == i32_at(gfx, 1532)
            &&& s.mfd_fuel_to_add == u32_at(gfx, 1536)
            &&& s.mfd_tyre_pressure == words_at(gfx, 1540, 4)
            &&& s.ideal_line_on == i32_at(gfx, 1228)
            &&& s.is_setup_menu_visible == i32_at(gfx, 1252)
            &&& s.main_display_index == i32_at(gfx, 1256)
            &&& s.secondary_display_index == i32_at(gfx, 1260)
            &&& s.direction_lights_left == i32_at(gfx, 1492)
            &&& s.direction_lights_right == i32_at(gfx, 1496)
            &&& s.tc_level == i32_at(gfx, 1264)
            &&& s.tc_cut == i32_at(gfx, 1268)
            &&& s.engine_map == i32_at(gfx, 1272)
            &&& s.abs_level == i32_at(gfx, 1276)
            &&& s.exhaust_temperature == u32_at(gfx, 1296)
            &&& s.final_ff == u32_at(phys, 308)
            &&& s.performance_meter == u32_at(phys, 312)
            &&& s.kerb_vibration == u32_at(phys, 784)
            &&& s.slip_vibrations == u32_at(phys, 788)
            &&& s.g_vibrations == u32_at(phys, 792)
            &&& s.abs_vibrations == u32_at(phys, 796)
        }),
{
}

/// Read a car state sample from the physics page and graphics page.
pub fn parse_car_state_sample(tick: u64, ts: u64, phys: &[u8], gfx: &[u8]) -> (s: CarStateSample)
    requires
        phys@.len() >= 800,
        gfx@.len() >= 1580,
    ensures
        s@ == raw_car_state_sample(tick, ts, phys@, gfx@),
{
    CarStateSample {
        sample_tick: tick,
        timestamp_ns: ts,
        car_damage: read_words(phys, 224, 5),
        pit_limiter_on: get_i32(phys, 248),
        ride_height: read_words(phys, 268, 2),
        ignition_on: get_i32(phys, 772),
        starter_engine_on: get_i32(phys, 776),
        is_engine_running: get_i32(phys, 780),
        is_ai_controlled: get_i32(phys, 416),
        cg_height: get_u32(phys, 220),
        brake_bias: get_u32(phys, 564),
        rain_lights: get_i32(gfx, 1284),
        flashing_lights: get_i32(gfx, 1288),
        lights_stage: get_i32(gfx, 1292),
        wiper_lv: get_i32(gfx, 1300),
        driver_stint_total_time_left: get_i32(gfx, 1304),
        driver_stint_time_left: get_i32(gfx, 1308),
        rain_tyres: get_i32(gfx, 1312),
        current_tyre_set: get_i32(gfx, 1572),
        strategy_tyre_set: get_i32(gfx, 1576),
        track_grip_status: get_i32(gfx, 1556),
        tyre_compound_str: read_halves(gfx, 176, 33),
        mfd_tyre_set: get_i32(gfx, 1532),
        mfd_fuel_to_add: get_u32(gfx, 1536),
        mfd_tyre_pressure: read_words(gfx, 1540, 4),
        ideal_line_on: get_i32(gfx, 1228),
        is_setup_menu_visible: get_i32(gfx, 1252),
        main_display_index: get_i32(gfx, 1256),
        secondary_display_index: get_i32(gfx, 1260),
        direction_lights_left: get_i32(gfx, 1492),
        direction_lights_right: get_i32(gfx, 1496),
        tc_level: get_i32(gfx, 1264),
        tc_cut: get_i32(gfx, 1268),
        engine_map: get_i32(gfx, 1272),
        abs_level: get_i32(gfx, 1276),
        exhaust_temperature: get_u32(gfx, 1296),
        final_ff: get_u32(phys, 308),
        performance_meter: get_u32(phys, 312),
        kerb_vibration: get_u32(phys, 784),
        slip_vibrations: get_u32(phys, 788),
        g_vibrations: get_u32(phys, 792),
        abs_vibrations: get_u32(phys, 796)
    }
}

/// The environment sample at `tick` and `ts` that the physics page and graphics page hold.
pub open spec fn raw_environment_sample(tick: u64, ts: u64, phys: Seq<u8>, gfx: Seq<u8>) -> EnvironmentSampleView {
    EnvironmentSampleView {
        sample_tick: tick,
        timestamp_ns: ts,
        air_density: u32_at(phys, 284),
        air_temp: u32_at(phys, 288),
        road_temp: u32_at(phys, 292),
        wind_speed: u32_at(gfx, 1244),
        wind_direction: u32_at(gfx, 1248),
        surface_grip: u32_at(gfx, 1236),
        rain_intensity: i32_at(gfx, 1560),
        rain_intensity_in_10min: i32_at(gfx, 1564),
        rain_intensity_in_30min: i32_at(gfx, 1568)
    }
}

/// The layout of a environment sample in the shared-memory pages: each field is
/// read from its own offset of the page it belongs to, and the tick and
/// time are the ones given.
pub proof fn lemma_environment_page_layout(tick: u64, ts: u64, phys: Seq<u8>, gfx: Seq<u8>)
    ensures
        ({
            let s = raw_environment_sample(tick, ts, phys, gfx);
            &&& s.sample_tick == tick
            &&& s.timestamp_ns == ts
            &&& s.air_density == u32_at(phys, 284)
            &&& s.air_temp == u32_at(phys, 288)
            &&& s.road_temp == u32_at(phys, 292)
            &&& s.wind_speed == u32_at(gfx, 1244)
            &&& s.wind_direction == u32_at(gfx, 1248)
            &&& s.surface_grip == u32_at(gfx, 1236)
            &&& s.rain_intensity == i32_at(gfx, 1560)
            &&& s.rain_intensity_in_10min == i32_at(gfx, 1564)
            &&& s.rain_intensity_in_30min == i32_at(gfx, 1568)
        }),
{
}

/// Read a environment sample from the physics page and graphics page.
pub fn parse_environment_sample(tick: u64, ts: u64, phys: &[u8], gfx: &[u8]) -> (s: EnvironmentSample)
    requires
        phys@.len() >= 296,
        gfx@.len() >= 1572,
    ensures
        s@ == raw_environment_sample(tick, ts, phys@, gfx@),
{
    EnvironmentSample {
        sample_tick: tick,
        timestamp_ns: ts,
        air_density: get_u32(phys, 284),
        air_temp: get_u32(phys, 288),
        road_temp: get_u32(phys, 292),
        wind_speed: get_u32(gfx, 1244),
        wind_direction: get_u32(gfx, 1248),
        surface_grip: get_u32(gfx, 1236),
        rain_intensity: get_i32(gfx, 1560),
        rain_intensity_in_10min: get_i32(gfx, 1564),
        rain_intensity_in_30min: get_i32(gfx, 1568)
    }
}

/// The other cars sample at `tick` and `ts` that the graphics page hold.
pub open spec fn raw_other_cars_sample(tick: u64, ts: u64, gfx: Seq<u8>) -> OtherCarsSampleView {
    OtherCarsSampleView {
        sample_tick: tick,
        timestamp_ns: ts,
        active_cars: i32_at(gfx, 252),
        player_car_id: i32_at(gfx, 1216),
        car_coordinates: words_at(gfx, 256, 180),
        car_id: ints_at(gfx, 976, 60)
    }
}

/// The layout of a other cars sample in the shared-memory pages: each field is
/// read from its own offset of the page it belongs to, and the tick and
/// time are the ones given.
pub proof fn lemma_other_cars_page_layout(tick: u64, ts: u64, gfx: Seq<u8>)
    ensures
        ({
            let s = raw_other_cars_sample(tick, ts, gfx);
            &&& s.sample_tick == tick
            &&& s.timestamp_ns == ts
            &&& s.active_cars == i32_at(gfx, 252)
            &&& s.player_car_id == i32_at(gfx, 1216)
            &&& s.car_coordinates == words_at(gfx, 256, 180)
            &&& s.car_id == ints_at(gfx, 976, 60)
        }),
{
}

/// Read a other cars sample from the graphics page.
pub fn parse_other_cars_sample(tick: u64, ts: u64, gfx: &[u8]) -> (s: OtherCarsSample)
    requires
        gfx@.len() >= 1220,
    ensures
        s@ == raw_other_cars_sample(tick, ts, gfx@),
{
    OtherCarsSample {
        sample_tick: tick,
        timestamp_ns: ts,
        active_cars: get_i32(gfx, 252),
        player_car_id: get_i32(gfx, 1216),
        car_coordinates: read_words(gfx, 256, 180),
        car_id: read_ints(gfx, 976, 60)
    }
}

} // verus!
