//! Reading support for the v2 format that does not depend on how column
//! values are represented: field-path lookup and row-group scanning.

use vstd::prelude::*;
use vstd::string::*;
use crate::format_v2::ColumnId;
use crate::text::str_equal;

verus! {

/// The last dot-separated segment of a field path: everything after the
/// last `.`, or the whole path when it has none.
pub open spec fn path_leaf(p: Seq<char>) -> Seq<char>
    decreases p.len(),
{
    if p.len() == 0 {
        p
    } else if p.last() == '.' {
        Seq::empty()
    } else {
        path_leaf(p.drop_last()).push(p.last())
    }
}

/// The column that a field name (the last path segment) names, including
/// the aliases `tc` and `abs`.
pub open spec fn column_for_leaf(leaf: Seq<char>) -> Option<ColumnId> {
    if leaf == "speed_kmh"@ {
        Some(ColumnId::SpeedKmh)
    }     else if leaf == "gas"@ {
        Some(ColumnId::Gas)
    }     else if leaf == "brake"@ {
        Some(ColumnId::Brake)
    }     else if leaf == "clutch"@ {
        Some(ColumnId::Clutch)
    }     else if leaf == "steer_angle"@ {
        Some(ColumnId::SteerAngle)
    }     else if leaf == "gear"@ {
        Some(ColumnId::Gear)
    }     else if leaf == "rpms"@ {
        Some(ColumnId::Rpms)
    }     else if leaf == "fuel"@ {
        Some(ColumnId::Fuel)
    }     else if leaf == "velocity"@ {
        Some(ColumnId::Velocity)
    }     else if leaf == "acc_g"@ {
        Some(ColumnId::AccG)
    }     else if leaf == "local_velocity"@ {
        Some(ColumnId::LocalVelocity)
    }     else if leaf == "local_angular_vel"@ {
        Some(ColumnId::LocalAngularVel)
    }     else if leaf == "heading"@ {
        Some(ColumnId::Heading)
    }     else if leaf == "pitch"@ {
        Some(ColumnId::Pitch)
    }     else if leaf == "roll"@ {
        Some(ColumnId::Roll)
    }     else if leaf == "wheel_slip"@ {
        Some(ColumnId::WheelSlip)
    }     else if leaf == "wheel_load"@ {
        Some(ColumnId::WheelLoad)
    }     else if leaf == "wheels_pressure"@ {
        Some(ColumnId::WheelsPressure)
    }     else if leaf == "wheel_angular_speed"@ {
        Some(ColumnId::WheelAngularSpeed)
    }     else if leaf == "tyre_wear"@ {
        Some(ColumnId::TyreWear)
    }     else if leaf == "tyre_dirty_level"@ {
        Some(ColumnId::TyreDirtyLevel)
    }     else if leaf == "tyre_core_temperature"@ {
        Some(ColumnId::TyreCoreTemperature)
    }     else if leaf == "camber_rad"@ {
        Some(ColumnId::CamberRad)
    }     else if leaf == "suspension_travel"@ {
        Some(ColumnId::SuspensionTravel)
    }     else if leaf == "slip_ratio"@ {
        Some(ColumnId::SlipRatio)
    }     else if leaf == "slip_angle"@ {
        Some(ColumnId::SlipAngle)
    }     else if leaf == "tyre_temp_i"@ {
        Some(ColumnId::TyreTempI)
    }     else if leaf == "tyre_temp_m"@ {
        Some(ColumnId::TyreTempM)
    }     else if leaf == "tyre_temp_o"@ {
        Some(ColumnId::TyreTempO)
    }     else if leaf == "tyre_temp"@ {
        Some(ColumnId::TyreTemp)
    }     else if leaf == "mz"@ {
        Some(ColumnId::Mz)
    }     else if leaf == "fx"@ {
        Some(ColumnId::Fx)
    }     else if leaf == "fy"@ {
        Some(ColumnId::Fy)
    }     else if leaf == "suspension_damage"@ {
        Some(ColumnId::SuspensionDamage)
    }     else if leaf == "brake_temp"@ {
        Some(ColumnId::BrakeTemp)
    }     else if leaf == "brake_pressure"@ {
        Some(ColumnId::BrakePressure)
    }     else if leaf == "pad_life"@ {
        Some(ColumnId::PadLife)
    }     else if leaf == "disc_life"@ {
        Some(ColumnId::DiscLife)
    }     else if leaf == "tyre_contact_point"@ {
        Some(ColumnId::TyreContactPoint)
    }     else if leaf == "tyre_contact_normal"@ {
        Some(ColumnId::TyreContactNormal)
    }     else if leaf == "tyre_contact_heading"@ {
        Some(ColumnId::TyreContactHeading)
    }     else if leaf == "number_of_tyres_out"@ {
        Some(ColumnId::NumberOfTyresOut)
    }     else if leaf == "front_brake_compound"@ {
        Some(ColumnId::FrontBrakeCompound)
    }     else if leaf == "rear_brake_compound"@ {
        Some(ColumnId::RearBrakeCompound)
    }     else if leaf == "turbo_boost"@ {
        Some(ColumnId::TurboBoost)
    }     else if leaf == "ballast"@ {
        Some(ColumnId::Ballast)
    }     else if leaf == "kers_charge"@ {
        Some(ColumnId::KersCharge)
    }     else if leaf == "kers_input"@ {
        Some(ColumnId::KersInput)
    }     else if leaf == "kers_current_kj"@ {
        Some(ColumnId::KersCurrentKj)
    }     else if leaf == "drs"@ {
        Some(ColumnId::Drs)
    }     else if leaf == "tc"@ {
        Some(ColumnId::TcPhysics)
    }     else if leaf == "tc_physics"@ {
        Some(ColumnId::TcPhysics)
    }     else if leaf == "abs"@ {
        Some(ColumnId::AbsPhysics)
    }     else if leaf == "abs_physics"@ {
        Some(ColumnId::AbsPhysics)
    }     else if leaf == "engine_brake"@ {
        Some(ColumnId::EngineBrake)
    }     else if leaf == "ers_recovery_level"@ {
        Some(ColumnId::ErsRecoveryLevel)
    }     else if leaf == "ers_power_level"@ {
        Some(ColumnId::ErsPowerLevel)
    }     else if leaf == "ers_heat_charging"@ {
        Some(ColumnId::ErsHeatCharging)
    }     else if leaf == "ers_is_charging"@ {
        Some(ColumnId::ErsIsCharging)
    }     else if leaf == "drs_available"@ {
        Some(ColumnId::DrsAvailable)
    }     else if leaf == "drs_enabled"@ {
        Some(ColumnId::DrsEnabled)
    }     else if leaf == "tc_in_action"@ {
        Some(ColumnId::TcInAction)
    }     else if leaf == "abs_in_action"@ {
        Some(ColumnId::AbsInAction)
    }     else if leaf == "auto_shifter_on"@ {
        Some(ColumnId::AutoShifterOn)
    }     else if leaf == "current_max_rpm"@ {
        Some(ColumnId::CurrentMaxRpm)
    }     else if leaf == "p2p_activations"@ {
        Some(ColumnId::P2pActivations)
    }     else if leaf == "p2p_status"@ {
        Some(ColumnId::P2pStatus)
    }     else if leaf == "water_temp"@ {
        Some(ColumnId::WaterTemp)
    }     else if leaf == "status"@ {
        Some(ColumnId::Status)
    }     else if leaf == "session"@ {
        Some(ColumnId::Session)
    }     else if leaf == "session_index"@ {
        Some(ColumnId::SessionIndex)
    }     else if leaf == "completed_laps"@ {
        Some(ColumnId::CompletedLaps)
    }     else if leaf == "position"@ {
        Some(ColumnId::Position)
    }     else if leaf == "session_time_left"@ {
        Some(ColumnId::SessionTimeLeft)
    }     else if leaf == "number_of_laps"@ {
        Some(ColumnId::NumberOfLaps)
    }     else if leaf == "current_sector_index"@ {
        Some(ColumnId::CurrentSectorIndex)
    }     else if leaf == "normalized_car_position"@ {
        Some(ColumnId::NormalizedCarPosition)
    }     else if leaf == "is_in_pit"@ {
        Some(ColumnId::IsInPit)
    }     else if leaf == "is_in_pit_lane"@ {
        Some(ColumnId::IsInPitLane)
    }     else if leaf == "mandatory_pit_done"@ {
        Some(ColumnId::MandatoryPitDone)
    }     else if leaf == "missing_mandatory_pits"@ {
        Some(ColumnId::MissingMandatoryPits)
    }     else if leaf == "penalty_time"@ {
        Some(ColumnId::PenaltyTime)
    }     else if leaf == "penalty_type"@ {
        Some(ColumnId::PenaltyType)
    }     else if leaf == "track_status"@ {
        Some(ColumnId::TrackStatus)
    }     else if leaf == "clock"@ {
        Some(ColumnId::Clock)
    }     else if leaf == "replay_time_multiplier"@ {
        Some(ColumnId::ReplayTimeMultiplier)
    }     else if leaf == "is_valid_lap"@ {
        Some(ColumnId::IsValidLap)
    }     else if leaf == "global_yellow"@ {
        Some(ColumnId::GlobalYellow)
    }     else if leaf == "global_yellow1"@ {
        Some(ColumnId::GlobalYellow1)
    }     else if leaf == "global_yellow2"@ {
        Some(ColumnId::GlobalYellow2)
    }     else if leaf == "global_yellow3"@ {
        Some(ColumnId::GlobalYellow3)
    }     else if leaf == "global_white"@ {
        Some(ColumnId::GlobalWhite)
    }     else if leaf == "global_green"@ {
        Some(ColumnId::GlobalGreen)
    }     else if leaf == "global_chequered"@ {
        Some(ColumnId::GlobalChequered)
    }     else if leaf == "global_red"@ {
        Some(ColumnId::GlobalRed)
    }     else if leaf == "gap_ahead_or_tail_value"@ {
        Some(ColumnId::GapAheadOrTailValue)
    }     else if leaf == "flag"@ {
        Some(ColumnId::Flag)
    }     else if leaf == "gap_behind"@ {
        Some(ColumnId::GapBehind)
    }     else if leaf == "i_current_time"@ {
        Some(ColumnId::ICurrentTime)
    }     else if leaf == "i_last_time"@ {
        Some(ColumnId::ILastTime)
    }     else if leaf == "i_best_time"@ {
        Some(ColumnId::IBestTime)
    }     else if leaf == "i_split"@ {
        Some(ColumnId::ISplit)
    }     else if leaf == "last_sector_time"@ {
        Some(ColumnId::LastSectorTime)
    }     else if leaf == "i_delta_lap_time"@ {
        Some(ColumnId::IDeltaLapTime)
    }     else if leaf == "is_delta_positive"@ {
        Some(ColumnId::IsDeltaPositive)
    }     else if leaf == "i_estimated_lap_time"@ {
        Some(ColumnId::IEstimatedLapTime)
    }     else if leaf == "fuel_estimated_laps"@ {
        Some(ColumnId::FuelEstimatedLaps)
    }     else if leaf == "fuel_x_lap"@ {
        Some(ColumnId::FuelXLap)
    }     else if leaf == "used_fuel"@ {
        Some(ColumnId::UsedFuel)
    }     else if leaf == "distance_traveled"@ {
        Some(ColumnId::DistanceTraveled)
    }     else if leaf == "current_time_str"@ {
        Some(ColumnId::CurrentTimeStr)
    }     else if leaf == "last_time_str"@ {
        Some(ColumnId::LastTimeStr)
    }     else if leaf == "best_time_str"@ {
        Some(ColumnId::BestTimeStr)
    }     else if leaf == "split_str"@ {
        Some(ColumnId::SplitStr)
    }     else if leaf == "delta_lap_time_str"@ {
        Some(ColumnId::DeltaLapTimeStr)
    }     else if leaf == "estimated_lap_time_str"@ {
        Some(ColumnId::EstimatedLapTimeStr)
    }     else if leaf == "observed_slot_before_i_split"@ {
        Some(ColumnId::ObservedSlotBeforeISplit)
    }     else if leaf == "car_damage"@ {
        Some(ColumnId::CarDamage)
    }     else if leaf == "pit_limiter_on"@ {
        Some(ColumnId::PitLimiterOn)
    }     else if leaf == "ride_height"@ {
        Some(ColumnId::RideHeight)
    }     else if leaf == "ignition_on"@ {
        Some(ColumnId::IgnitionOn)
    }     else if leaf == "starter_engine_on"@ {
        Some(ColumnId::StarterEngineOn)
    }     else if leaf == "is_engine_running"@ {
        Some(ColumnId::IsEngineRunning)
    }     else if leaf == "is_ai_controlled"@ {
        Some(ColumnId::IsAiControlled)
    }     else if leaf == "cg_height"@ {
        Some(ColumnId::CgHeight)
    }     else if leaf == "brake_bias"@ {
        Some(ColumnId::BrakeBias)
    }     else if leaf == "rain_lights"@ {
        Some(ColumnId::RainLights)
    }     else if leaf == "flashing_lights"@ {
        Some(ColumnId::FlashingLights)
    }     else if leaf == "lights_stage"@ {
        Some(ColumnId::LightsStage)
    }     else if leaf == "wiper_lv"@ {
        Some(ColumnId::WiperLv)
    }     else if leaf == "driver_stint_total_time_left"@ {
        Some(ColumnId::DriverStintTotalTimeLeft)
    }     else if leaf == "driver_stint_time_left"@ {
        Some(ColumnId::DriverStintTimeLeft)
    }     else if leaf == "rain_tyres"@ {
        Some(ColumnId::RainTyres)
    }     else if leaf == "current_tyre_set"@ {
        Some(ColumnId::CurrentTyreSet)
    }     else if leaf == "strategy_tyre_set"@ {
        Some(ColumnId::StrategyTyreSet)
    }     else if leaf == "track_grip_status"@ {
        Some(ColumnId::TrackGripStatus)
    }     else if leaf == "tyre_compound_str"@ {
        Some(ColumnId::TyreCompoundStr)
    }     else if leaf == "mfd_tyre_set"@ {
        Some(ColumnId::MfdTyreSet)
    }     else if leaf == "mfd_fuel_to_add"@ {
        Some(ColumnId::MfdFuelToAdd)
    }     else if leaf == "mfd_tyre_pressure"@ {
        Some(ColumnId::MfdTyrePressure)
    }     else if leaf == "ideal_line_on"@ {
        Some(ColumnId::IdealLineOn)
    }     else if leaf == "is_setup_menu_visible"@ {
        Some(ColumnId::IsSetupMenuVisible)
    }     else if leaf == "main_display_index"@ {
        Some(ColumnId::MainDisplayIndex)
    }     else if leaf == "secondary_display_index"@ {
        Some(ColumnId::SecondaryDisplayIndex)
    }     else if leaf == "direction_lights_left"@ {
        Some(ColumnId::DirectionLightsLeft)
    }     else if leaf == "direction_lights_right"@ {
        Some(ColumnId::DirectionLightsRight)
    }     else if leaf == "tc_level"@ {
        Some(ColumnId::TcLevel)
    }     else if leaf == "tc_cut"@ {
        Some(ColumnId::TcCut)
    }     else if leaf == "engine_map"@ {
        Some(ColumnId::EngineMap)
    }     else if leaf == "abs_level"@ {
        Some(ColumnId::AbsLevel)
    }     else if leaf == "exhaust_temperature"@ {
        Some(ColumnId::ExhaustTemperature)
    }     else if leaf == "final_ff"@ {
        Some(ColumnId::FinalFf)
    }     else if leaf == "performance_meter"@ {
        Some(ColumnId::PerformanceMeter)
    }     else if leaf == "kerb_vibration"@ {
        Some(ColumnId::KerbVibration)
    }     else if leaf == "slip_vibrations"@ {
        Some(ColumnId::SlipVibrations)
    }     else if leaf == "g_vibrations"@ {
        Some(ColumnId::GVibrations)
    }     else if leaf == "abs_vibrations"@ {
        Some(ColumnId::AbsVibrations)
    }     else if leaf == "air_density"@ {
        Some(ColumnId::AirDensity)
    }     else if leaf == "air_temp"@ {
        Some(ColumnId::AirTemp)
    }     else if leaf == "road_temp"@ {
        Some(ColumnId::RoadTemp)
    }     else if leaf == "wind_speed"@ {
        Some(ColumnId::WindSpeed)
    }     else if leaf == "wind_direction"@ {
        Some(ColumnId::WindDirection)
    }     else if leaf == "surface_grip"@ {
        Some(ColumnId::SurfaceGrip)
    }     else if leaf == "rain_intensity"@ {
        Some(ColumnId::RainIntensity)
    }     else if leaf == "rain_intensity_in_10min"@ {
        Some(ColumnId::RainIntensityIn10min)
    }     else if leaf == "rain_intensity_in_30min"@ {
        Some(ColumnId::RainIntensityIn30min)
    }     else if leaf == "active_cars"@ {
        Some(ColumnId::ActiveCars)
    }     else if leaf == "player_car_id"@ {
        Some(ColumnId::PlayerCarId)
    }     else if leaf == "car_coordinates"@ {
        Some(ColumnId::CarCoordinates)
    }     else if leaf == "car_id"@ {
        Some(ColumnId::CarId)
    }     else if leaf == "sample_tick"@ {
        Some(ColumnId::SampleTick)
    }     else if leaf == "timestamp_ns"@ {
        Some(ColumnId::TimestampNs)
    }     else if leaf == "physics_packet_id"@ {
        Some(ColumnId::PhysicsPacketId)
    }     else if leaf == "graphics_packet_id"@ {
        Some(ColumnId::GraphicsPacketId)
    } else {
        None
    }
}

/// Whether `leaf` is a name of column `c`: the column's own field name, or
/// one of the aliases `tc` and `abs`.
pub open spec fn is_name_of_column(leaf: Seq<char>, c: ColumnId) -> bool {
    match c {
        ColumnId::SpeedKmh => leaf == "speed_kmh"@,
        ColumnId::Gas => leaf == "gas"@,
        ColumnId::Brake => leaf == "brake"@,
        ColumnId::Clutch => leaf == "clutch"@,
        ColumnId::SteerAngle => leaf == "steer_angle"@,
        ColumnId::Gear => leaf == "gear"@,
        ColumnId::Rpms => leaf == "rpms"@,
        ColumnId::Fuel => leaf == "fuel"@,
        ColumnId::Velocity => leaf == "velocity"@,
        ColumnId::AccG => leaf == "acc_g"@,
        ColumnId::LocalVelocity => leaf == "local_velocity"@,
        ColumnId::LocalAngularVel => leaf == "local_angular_vel"@,
        ColumnId::Heading => leaf == "heading"@,
        ColumnId::Pitch => leaf == "pitch"@,
        ColumnId::Roll => leaf == "roll"@,
        ColumnId::WheelSlip => leaf == "wheel_slip"@,
        ColumnId::WheelLoad => leaf == "wheel_load"@,
        ColumnId::WheelsPressure => leaf == "wheels_pressure"@,
        ColumnId::WheelAngularSpeed => leaf == "wheel_angular_speed"@,
        ColumnId::TyreWear => leaf == "tyre_wear"@,
        ColumnId::TyreDirtyLevel => leaf == "tyre_dirty_level"@,
        ColumnId::TyreCoreTemperature => leaf == "tyre_core_temperature"@,
        ColumnId::CamberRad => leaf == "camber_rad"@,
        ColumnId::SuspensionTravel => leaf == "suspension_travel"@,
        ColumnId::SlipRatio => leaf == "slip_ratio"@,
        ColumnId::SlipAngle => leaf == "slip_angle"@,
        ColumnId::TyreTempI => leaf == "tyre_temp_i"@,
        ColumnId::TyreTempM => leaf == "tyre_temp_m"@,
        ColumnId::TyreTempO => leaf == "tyre_temp_o"@,
        ColumnId::TyreTemp => leaf == "tyre_temp"@,
        ColumnId::Mz => leaf == "mz"@,
        ColumnId::Fx => leaf == "fx"@,
        ColumnId::Fy => leaf == "fy"@,
        ColumnId::SuspensionDamage => leaf == "suspension_damage"@,
        ColumnId::BrakeTemp => leaf == "brake_temp"@,
        ColumnId::BrakePressure => leaf == "brake_pressure"@,
        ColumnId::PadLife => leaf == "pad_life"@,
        ColumnId::DiscLife => leaf == "disc_life"@,
        ColumnId::TyreContactPoint => leaf == "tyre_contact_point"@,
        ColumnId::TyreContactNormal => leaf == "tyre_contact_normal"@,
        ColumnId::TyreContactHeading => leaf == "tyre_contact_heading"@,
        ColumnId::NumberOfTyresOut => leaf == "number_of_tyres_out"@,
        ColumnId::FrontBrakeCompound => leaf == "front_brake_compound"@,
        ColumnId::RearBrakeCompound => leaf == "rear_brake_compound"@,
        ColumnId::TurboBoost => leaf == "turbo_boost"@,
        ColumnId::Ballast => leaf == "ballast"@,
        ColumnId::KersCharge => leaf == "kers_charge"@,
        ColumnId::KersInput => leaf == "kers_input"@,
        ColumnId::KersCurrentKj => leaf == "kers_current_kj"@,
        ColumnId::Drs => leaf == "drs"@,
        ColumnId::TcPhysics => leaf == "tc"@ || leaf == "tc_physics"@,
        ColumnId::AbsPhysics => leaf == "abs"@ || leaf == "abs_physics"@,
        ColumnId::EngineBrake => leaf == "engine_brake"@,
        ColumnId::ErsRecoveryLevel => leaf == "ers_recovery_level"@,
        ColumnId::ErsPowerLevel => leaf == "ers_power_level"@,
        ColumnId::ErsHeatCharging => leaf == "ers_heat_charging"@,
        ColumnId::ErsIsCharging => leaf == "ers_is_charging"@,
        ColumnId::DrsAvailable => leaf == "drs_available"@,
        ColumnId::DrsEnabled => leaf == "drs_enabled"@,
        ColumnId::TcInAction => leaf == "tc_in_action"@,
        ColumnId::AbsInAction => leaf == "abs_in_action"@,
        ColumnId::AutoShifterOn => leaf == "auto_shifter_on"@,
        ColumnId::CurrentMaxRpm => leaf == "current_max_rpm"@,
        ColumnId::P2pActivations => leaf == "p2p_activations"@,
        ColumnId::P2pStatus => leaf == "p2p_status"@,
        ColumnId::WaterTemp => leaf == "water_temp"@,
        ColumnId::Status => leaf == "status"@,
        ColumnId::Session => leaf == "session"@,
        ColumnId::SessionIndex => leaf == "session_index"@,
        ColumnId::CompletedLaps => leaf == "completed_laps"@,
        ColumnId::Position => leaf == "position"@,
        ColumnId::SessionTimeLeft => leaf == "session_time_left"@,
        ColumnId::NumberOfLaps => leaf == "number_of_laps"@,
        ColumnId::CurrentSectorIndex => leaf == "current_sector_index"@,
        ColumnId::NormalizedCarPosition => leaf == "normalized_car_position"@,
        ColumnId::IsInPit => leaf == "is_in_pit"@,
        ColumnId::IsInPitLane => leaf == "is_in_pit_lane"@,
        ColumnId::MandatoryPitDone => leaf == "mandatory_pit_done"@,
        ColumnId::MissingMandatoryPits => leaf == "missing_mandatory_pits"@,
        ColumnId::PenaltyTime => leaf == "penalty_time"@,
        ColumnId::PenaltyType => leaf == "penalty_type"@,
        ColumnId::TrackStatus => leaf == "track_status"@,
        ColumnId::Clock => leaf == "clock"@,
        ColumnId::ReplayTimeMultiplier => leaf == "replay_time_multiplier"@,
        ColumnId::IsValidLap => leaf == "is_valid_lap"@,
        ColumnId::GlobalYellow => leaf == "global_yellow"@,
        ColumnId::GlobalYellow1 => leaf == "global_yellow1"@,
        ColumnId::GlobalYellow2 => leaf == "global_yellow2"@,
        ColumnId::GlobalYellow3 => leaf == "global_yellow3"@,
        ColumnId::GlobalWhite => leaf == "global_white"@,
        ColumnId::GlobalGreen => leaf == "global_green"@,
        ColumnId::GlobalChequered => leaf == "global_chequered"@,
        ColumnId::GlobalRed => leaf == "global_red"@,
        ColumnId::GapAheadOrTailValue => leaf == "gap_ahead_or_tail_value"@,
        ColumnId::Flag => leaf == "flag"@,
        ColumnId::GapBehind => leaf == "gap_behind"@,
        ColumnId::ICurrentTime => leaf == "i_current_time"@,
        ColumnId::ILastTime => leaf == "i_last_time"@,
        ColumnId::IBestTime => leaf == "i_best_time"@,
        ColumnId::ISplit => leaf == "i_split"@,
        ColumnId::LastSectorTime => leaf == "last_sector_time"@,
        ColumnId::IDeltaLapTime => leaf == "i_delta_lap_time"@,
        ColumnId::IsDeltaPositive => leaf == "is_delta_positive"@,
        ColumnId::IEstimatedLapTime => leaf == "i_estimated_lap_time"@,
        ColumnId::FuelEstimatedLaps => leaf == "fuel_estimated_laps"@,
        ColumnId::FuelXLap => leaf == "fuel_x_lap"@,
        ColumnId::UsedFuel => leaf == "used_fuel"@,
        ColumnId::DistanceTraveled => leaf == "distance_traveled"@,
        ColumnId::CurrentTimeStr => leaf == "current_time_str"@,
        ColumnId::LastTimeStr => leaf == "last_time_str"@,
        ColumnId::BestTimeStr => leaf == "best_time_str"@,
        ColumnId::SplitStr => leaf == "split_str"@,
        ColumnId::DeltaLapTimeStr => leaf == "delta_lap_time_str"@,
        ColumnId::EstimatedLapTimeStr => leaf == "estimated_lap_time_str"@,
        ColumnId::ObservedSlotBeforeISplit => leaf == "observed_slot_before_i_split"@,
        ColumnId::CarDamage => leaf == "car_damage"@,
        ColumnId::PitLimiterOn => leaf == "pit_limiter_on"@,
        ColumnId::RideHeight => leaf == "ride_height"@,
        ColumnId::IgnitionOn => leaf == "ignition_on"@,
        ColumnId::StarterEngineOn => leaf == "starter_engine_on"@,
        ColumnId::IsEngineRunning => leaf == "is_engine_running"@,
        ColumnId::IsAiControlled => leaf == "is_ai_controlled"@,
        ColumnId::CgHeight => leaf == "cg_height"@,
        ColumnId::BrakeBias => leaf == "brake_bias"@,
        ColumnId::RainLights => leaf == "rain_lights"@,
        ColumnId::FlashingLights => leaf == "flashing_lights"@,
        ColumnId::LightsStage => leaf == "lights_stage"@,
        ColumnId::WiperLv => leaf == "wiper_lv"@,
        ColumnId::DriverStintTotalTimeLeft => leaf == "driver_stint_total_time_left"@,
        ColumnId::DriverStintTimeLeft => leaf == "driver_stint_time_left"@,
        ColumnId::RainTyres => leaf == "rain_tyres"@,
        ColumnId::CurrentTyreSet => leaf == "current_tyre_set"@,
        ColumnId::StrategyTyreSet => leaf == "strategy_tyre_set"@,
        ColumnId::TrackGripStatus => leaf == "track_grip_status"@,
        ColumnId::TyreCompoundStr => leaf == "tyre_compound_str"@,
        ColumnId::MfdTyreSet => leaf == "mfd_tyre_set"@,
        ColumnId::MfdFuelToAdd => leaf == "mfd_fuel_to_add"@,
        ColumnId::MfdTyrePressure => leaf == "mfd_tyre_pressure"@,
        ColumnId::IdealLineOn => leaf == "ideal_line_on"@,
        ColumnId::IsSetupMenuVisible => leaf == "is_setup_menu_visible"@,
        ColumnId::MainDisplayIndex => leaf == "main_display_index"@,
        ColumnId::SecondaryDisplayIndex => leaf == "secondary_display_index"@,
        ColumnId::DirectionLightsLeft => leaf == "direction_lights_left"@,
        ColumnId::DirectionLightsRight => leaf == "direction_lights_right"@,
        ColumnId::TcLevel => leaf == "tc_level"@,
        ColumnId::TcCut => leaf == "tc_cut"@,
        ColumnId::EngineMap => leaf == "engine_map"@,
        ColumnId::AbsLevel => leaf == "abs_level"@,
        ColumnId::ExhaustTemperature => leaf == "exhaust_temperature"@,
        ColumnId::FinalFf => leaf == "final_ff"@,
        ColumnId::PerformanceMeter => leaf == "performance_meter"@,
        ColumnId::KerbVibration => leaf == "kerb_vibration"@,
        ColumnId::SlipVibrations => leaf == "slip_vibrations"@,
        ColumnId::GVibrations => leaf == "g_vibrations"@,
        ColumnId::AbsVibrations => leaf == "abs_vibrations"@,
        ColumnId::AirDensity => leaf == "air_density"@,
        ColumnId::AirTemp => leaf == "air_temp"@,
        ColumnId::RoadTemp => leaf == "road_temp"@,
        ColumnId::WindSpeed => leaf == "wind_speed"@,
        ColumnId::WindDirection => leaf == "wind_direction"@,
        ColumnId::SurfaceGrip => leaf == "surface_grip"@,
        ColumnId::RainIntensity => leaf == "rain_intensity"@,
        ColumnId::RainIntensityIn10min => leaf == "rain_intensity_in_10min"@,
        ColumnId::RainIntensityIn30min => leaf == "rain_intensity_in_30min"@,
        ColumnId::ActiveCars => leaf == "active_cars"@,
        ColumnId::PlayerCarId => leaf == "player_car_id"@,
        ColumnId::CarCoordinates => leaf == "car_coordinates"@,
        ColumnId::CarId => leaf == "car_id"@,
        ColumnId::SampleTick => leaf == "sample_tick"@,
        ColumnId::TimestampNs => leaf == "timestamp_ns"@,
        ColumnId::PhysicsPacketId => leaf == "physics_packet_id"@,
        ColumnId::GraphicsPacketId => leaf == "graphics_packet_id"@,
    }
}

/// A field path names a column only by one of that column's names: the
/// last segment of the path is the column's field name or alias.
pub proof fn lemma_path_names_its_column(path: Seq<char>)
    ensures
        column_for_leaf(path_leaf(path)) matches Some(c) ==> is_name_of_column(path_leaf(path), c),
{
}

/// The last dot-separated segment of `path`.
fn leaf_of(path: &str) -> (leaf: &str)
    ensures
        leaf@ == path_leaf(path@),
{
    let n = path.unicode_len();
    let mut i = n;
    assert(path@.subrange(0, n as int) =~= path@);
    assert(path_leaf(path@) =~= path_leaf(path@.subrange(0, n as int)) + path@.subrange(n as int, n as int));
    while i > 0
        invariant
            i <= n,
            n == path@.len(),
            path_leaf(path@) == path_leaf(path@.subrange(0, i as int)) + path@.subrange(i as int, n as int),
        ensures
            i <= n,
            path_leaf(path@) == path_leaf(path@.subrange(0, i as int)) + path@.subrange(i as int, n as int),
            i == 0 || path@[i - 1] == '.',
        decreases i,
    {
        if path.get_char(i - 1) == '.' {
            break;
        }
        proof {
            let pre = path@.subrange(0, i as int);
            assert(pre.drop_last() =~= path@.subrange(0, i - 1));
            assert(pre.last() == path@[i - 1]);
            assert(path@.subrange(i - 1, n as int) =~= seq![path@[i - 1]] + path@.subrange(i as int, n as int));
            assert(path_leaf(pre) == path_leaf(path@.subrange(0, i - 1)).push(path@[i - 1]));
            assert(path_leaf(pre) + path@.subrange(i as int, n as int) =~= path_leaf(path@.subrange(0, i - 1)) + path@.subrange(i - 1, n as int));
        }
        i = i - 1;
    }
    proof {
        let pre = path@.subrange(0, i as int);
        if i > 0 {
            assert(pre.last() == path@[i - 1]);
        }
        assert(path_leaf(pre) =~= Seq::<char>::empty());
        assert(path_leaf(path@) =~= path@.subrange(i as int, n as int));
    }
    path.substring_char(i, n)
}

/// The column that a field path names. Both `controls.speed_kmh` and
/// `speed_kmh` name the speed column: only the last segment counts.
pub fn path_to_column_id(path: &str) -> (r: Option<ColumnId>)
    ensures
        r == column_for_leaf(path_leaf(path@)),
{
    let leaf = leaf_of(path);
    if str_equal(leaf, "speed_kmh") {
        Some(ColumnId::SpeedKmh)
    }     else if str_equal(leaf, "gas") {
        Some(ColumnId::Gas)
    }     else if str_equal(leaf, "brake") {
        Some(ColumnId::Brake)
    }     else if str_equal(leaf, "clutch") {
        Some(ColumnId::Clutch)
    }     else if str_equal(leaf, "steer_angle") {
        Some(ColumnId::SteerAngle)
    }     else if str_equal(leaf, "gear") {
        Some(ColumnId::Gear)
    }     else if str_equal(leaf, "rpms") {
        Some(ColumnId::Rpms)
    }     else if str_equal(leaf, "fuel") {
        Some(ColumnId::Fuel)
    }     else if str_equal(leaf, "velocity") {
        Some(ColumnId::Velocity)
    }     else if str_equal(leaf, "acc_g") {
        Some(ColumnId::AccG)
    }     else if str_equal(leaf, "local_velocity") {
        Some(ColumnId::LocalVelocity)
    }     else if str_equal(leaf, "local_angular_vel") {
        Some(ColumnId::LocalAngularVel)
    }     else if str_equal(leaf, "heading") {
        Some(ColumnId::Heading)
    }     else if str_equal(leaf, "pitch") {
        Some(ColumnId::Pitch)
    }     else if str_equal(leaf, "roll") {
        Some(ColumnId::Roll)
    }     else if str_equal(leaf, "wheel_slip") {
        Some(ColumnId::WheelSlip)
    }     else if str_equal(leaf, "wheel_load") {
        Some(ColumnId::WheelLoad)
    }     else if str_equal(leaf, "wheels_pressure") {
        Some(ColumnId::WheelsPressure)
    }     else if str_equal(leaf, "wheel_angular_speed") {
        Some(ColumnId::WheelAngularSpeed)
    }     else if str_equal(leaf, "tyre_wear") {
        Some(ColumnId::TyreWear)
    }     else if str_equal(leaf, "tyre_dirty_level") {
        Some(ColumnId::TyreDirtyLevel)
    }     else if str_equal(leaf, "tyre_core_temperature") {
        Some(ColumnId::TyreCoreTemperature)
    }     else if str_equal(leaf, "camber_rad") {
        Some(ColumnId::CamberRad)
    }     else if str_equal(leaf, "suspension_travel") {
        Some(ColumnId::SuspensionTravel)
    }     else if str_equal(leaf, "slip_ratio") {
        Some(ColumnId::SlipRatio)
    }     else if str_equal(leaf, "slip_angle") {
        Some(ColumnId::SlipAngle)
    }     else if str_equal(leaf, "tyre_temp_i") {
        Some(ColumnId::TyreTempI)
    }     else if str_equal(leaf, "tyre_temp_m") {
        Some(ColumnId::TyreTempM)
    }     else if str_equal(leaf, "tyre_temp_o") {
        Some(ColumnId::TyreTempO)
    }     else if str_equal(leaf, "tyre_temp") {
        Some(ColumnId::TyreTemp)
    }     else if str_equal(leaf, "mz") {
        Some(ColumnId::Mz)
    }     else if str_equal(leaf, "fx") {
        Some(ColumnId::Fx)
    }     else if str_equal(leaf, "fy") {
        Some(ColumnId::Fy)
    }     else if str_equal(leaf, "suspension_damage") {
        Some(ColumnId::SuspensionDamage)
    }     else if str_equal(leaf, "brake_temp") {
        Some(ColumnId::BrakeTemp)
    }     else if str_equal(leaf, "brake_pressure") {
        Some(ColumnId::BrakePressure)
    }     else if str_equal(leaf, "pad_life") {
        Some(ColumnId::PadLife)
    }     else if str_equal(leaf, "disc_life") {
        Some(ColumnId::DiscLife)
    }     else if str_equal(leaf, "tyre_contact_point") {
        Some(ColumnId::TyreContactPoint)
    }     else if str_equal(leaf, "tyre_contact_normal") {
        Some(ColumnId::TyreContactNormal)
    }     else if str_equal(leaf, "tyre_contact_heading") {
        Some(ColumnId::TyreContactHeading)
    }     else if str_equal(leaf, "number_of_tyres_out") {
        Some(ColumnId::NumberOfTyresOut)
    }     else if str_equal(leaf, "front_brake_compound") {
        Some(ColumnId::FrontBrakeCompound)
    }     else if str_equal(leaf, "rear_brake_compound") {
        Some(ColumnId::RearBrakeCompound)
    }     else if str_equal(leaf, "turbo_boost") {
        Some(ColumnId::TurboBoost)
    }     else if str_equal(leaf, "ballast") {
        Some(ColumnId::Ballast)
    }     else if str_equal(leaf, "kers_charge") {
        Some(ColumnId::KersCharge)
    }     else if str_equal(leaf, "kers_input") {
        Some(ColumnId::KersInput)
    }     else if str_equal(leaf, "kers_current_kj") {
        Some(ColumnId::KersCurrentKj)
    }     else if str_equal(leaf, "drs") {
        Some(ColumnId::Drs)
    }     else if str_equal(leaf, "tc") {
        Some(ColumnId::TcPhysics)
    }     else if str_equal(leaf, "tc_physics") {
        Some(ColumnId::TcPhysics)
    }     else if str_equal(leaf, "abs") {
        Some(ColumnId::AbsPhysics)
    }     else if str_equal(leaf, "abs_physics") {
        Some(ColumnId::AbsPhysics)
    }     else if str_equal(leaf, "engine_brake") {
        Some(ColumnId::EngineBrake)
    }     else if str_equal(leaf, "ers_recovery_level") {
        Some(ColumnId::ErsRecoveryLevel)
    }     else if str_equal(leaf, "ers_power_level") {
        Some(ColumnId::ErsPowerLevel)
    }     else if str_equal(leaf, "ers_heat_charging") {
        Some(ColumnId::ErsHeatCharging)
    }     else if str_equal(leaf, "ers_is_charging") {
        Some(ColumnId::ErsIsCharging)
    }     else if str_equal(leaf, "drs_available") {
        Some(ColumnId::DrsAvailable)
    }     else if str_equal(leaf, "drs_enabled") {
        Some(ColumnId::DrsEnabled)
    }     else if str_equal(leaf, "tc_in_action") {
        Some(ColumnId::TcInAction)
    }     else if str_equal(leaf, "abs_in_action") {
        Some(ColumnId::AbsInAction)
    }     else if str_equal(leaf, "auto_shifter_on") {
        Some(ColumnId::AutoShifterOn)
    }     else if str_equal(leaf, "current_max_rpm") {
        Some(ColumnId::CurrentMaxRpm)
    }     else if str_equal(leaf, "p2p_activations") {
        Some(ColumnId::P2pActivations)
    }     else if str_equal(leaf, "p2p_status") {
        Some(ColumnId::P2pStatus)
    }     else if str_equal(leaf, "water_temp") {
        Some(ColumnId::WaterTemp)
    }     else if str_equal(leaf, "status") {
        Some(ColumnId::Status)
    }     else if str_equal(leaf, "session") {
        Some(ColumnId::Session)
    }     else if str_equal(leaf, "session_index") {
        Some(ColumnId::SessionIndex)
    }     else if str_equal(leaf, "completed_laps") {
        Some(ColumnId::CompletedLaps)
    }     else if str_equal(leaf, "position") {
        Some(ColumnId::Position)
    }     else if str_equal(leaf, "session_time_left") {
        Some(ColumnId::SessionTimeLeft)
    }     else if str_equal(leaf, "number_of_laps") {
        Some(ColumnId::NumberOfLaps)
    }     else if str_equal(leaf, "current_sector_index") {
        Some(ColumnId::CurrentSectorIndex)
    }     else if str_equal(leaf, "normalized_car_position") {
        Some(ColumnId::NormalizedCarPosition)
    }     else if str_equal(leaf, "is_in_pit") {
        Some(ColumnId::IsInPit)
    }     else if str_equal(leaf, "is_in_pit_lane") {
        Some(ColumnId::IsInPitLane)
    }     else if str_equal(leaf, "mandatory_pit_done") {
        Some(ColumnId::MandatoryPitDone)
    }     else if str_equal(leaf, "missing_mandatory_pits") {
        Some(ColumnId::MissingMandatoryPits)
    }     else if str_equal(leaf, "penalty_time") {
        Some(ColumnId::PenaltyTime)
    }     else if str_equal(leaf, "penalty_type") {
        Some(ColumnId::PenaltyType)
    }     else if str_equal(leaf, "track_status") {
        Some(ColumnId::TrackStatus)
    }     else if str_equal(leaf, "clock") {
        Some(ColumnId::Clock)
    }     else if str_equal(leaf, "replay_time_multiplier") {
        Some(ColumnId::ReplayTimeMultiplier)
    }     else if str_equal(leaf, "is_valid_lap") {
        Some(ColumnId::IsValidLap)
    }     else if str_equal(leaf, "global_yellow") {
        Some(ColumnId::GlobalYellow)
    }     else if str_equal(leaf, "global_yellow1") {
        Some(ColumnId::GlobalYellow1)
    }     else if str_equal(leaf, "global_yellow2") {
        Some(ColumnId::GlobalYellow2)
    }     else if str_equal(leaf, "global_yellow3") {
        Some(ColumnId::GlobalYellow3)
    }     else if str_equal(leaf, "global_white") {
        Some(ColumnId::GlobalWhite)
    }     else if str_equal(leaf, "global_green") {
        Some(ColumnId::GlobalGreen)
    }     else if str_equal(leaf, "global_chequered") {
        Some(ColumnId::GlobalChequered)
    }     else if str_equal(leaf, "global_red") {
        Some(ColumnId::GlobalRed)
    }     else if str_equal(leaf, "gap_ahead_or_tail_value") {
        Some(ColumnId::GapAheadOrTailValue)
    }     else if str_equal(leaf, "flag") {
        Some(ColumnId::Flag)
    }     else if str_equal(leaf, "gap_behind") {
        Some(ColumnId::GapBehind)
    }     else if str_equal(leaf, "i_current_time") {
        Some(ColumnId::ICurrentTime)
    }     else if str_equal(leaf, "i_last_time") {
        Some(ColumnId::ILastTime)
    }     else if str_equal(leaf, "i_best_time") {
        Some(ColumnId::IBestTime)
    }     else if str_equal(leaf, "i_split") {
        Some(ColumnId::ISplit)
    }     else if str_equal(leaf, "last_sector_time") {
        Some(ColumnId::LastSectorTime)
    }     else if str_equal(leaf, "i_delta_lap_time") {
        Some(ColumnId::IDeltaLapTime)
    }     else if str_equal(leaf, "is_delta_positive") {
        Some(ColumnId::IsDeltaPositive)
    }     else if str_equal(leaf, "i_estimated_lap_time") {
        Some(ColumnId::IEstimatedLapTime)
    }     else if str_equal(leaf, "fuel_estimated_laps") {
        Some(ColumnId::FuelEstimatedLaps)
    }     else if str_equal(leaf, "fuel_x_lap") {
        Some(ColumnId::FuelXLap)
    }     else if str_equal(leaf, "used_fuel") {
        Some(ColumnId::UsedFuel)
    }     else if str_equal(leaf, "distance_traveled") {
        Some(ColumnId::DistanceTraveled)
    }     else if str_equal(leaf, "current_time_str") {
        Some(ColumnId::CurrentTimeStr)
    }     else if str_equal(leaf, "last_time_str") {
        Some(ColumnId::LastTimeStr)
    }     else if str_equal(leaf, "best_time_str") {
        Some(ColumnId::BestTimeStr)
    }     else if str_equal(leaf, "split_str") {
        Some(ColumnId::SplitStr)
    }     else if str_equal(leaf, "delta_lap_time_str") {
        Some(ColumnId::DeltaLapTimeStr)
    }     else if str_equal(leaf, "estimated_lap_time_str") {
        Some(ColumnId::EstimatedLapTimeStr)
    }     else if str_equal(leaf, "observed_slot_before_i_split") {
        Some(ColumnId::ObservedSlotBeforeISplit)
    }     else if str_equal(leaf, "car_damage") {
        Some(ColumnId::CarDamage)
    }     else if str_equal(leaf, "pit_limiter_on") {
        Some(ColumnId::PitLimiterOn)
    }     else if str_equal(leaf, "ride_height") {
        Some(ColumnId::RideHeight)
    }     else if str_equal(leaf, "ignition_on") {
        Some(ColumnId::IgnitionOn)
    }     else if str_equal(leaf, "starter_engine_on") {
        Some(ColumnId::StarterEngineOn)
    }     else if str_equal(leaf, "is_engine_running") {
        Some(ColumnId::IsEngineRunning)
    }     else if str_equal(leaf, "is_ai_controlled") {
        Some(ColumnId::IsAiControlled)
    }     else if str_equal(leaf, "cg_height") {
        Some(ColumnId::CgHeight)
    }     else if str_equal(leaf, "brake_bias") {
        Some(ColumnId::BrakeBias)
    }     else if str_equal(leaf, "rain_lights") {
        Some(ColumnId::RainLights)
    }     else if str_equal(leaf, "flashing_lights") {
        Some(ColumnId::FlashingLights)
    }     else if str_equal(leaf, "lights_stage") {
        Some(ColumnId::LightsStage)
    }     else if str_equal(leaf, "wiper_lv") {
        Some(ColumnId::WiperLv)
    }     else if str_equal(leaf, "driver_stint_total_time_left") {
        Some(ColumnId::DriverStintTotalTimeLeft)
    }     else if str_equal(leaf, "driver_stint_time_left") {
        Some(ColumnId::DriverStintTimeLeft)
    }     else if str_equal(leaf, "rain_tyres") {
        Some(ColumnId::RainTyres)
    }     else if str_equal(leaf, "current_tyre_set") {
        Some(ColumnId::CurrentTyreSet)
    }     else if str_equal(leaf, "strategy_tyre_set") {
        Some(ColumnId::StrategyTyreSet)
    }     else if str_equal(leaf, "track_grip_status") {
        Some(ColumnId::TrackGripStatus)
    }     else if str_equal(leaf, "tyre_compound_str") {
        Some(ColumnId::TyreCompoundStr)
    }     else if str_equal(leaf, "mfd_tyre_set") {
        Some(ColumnId::MfdTyreSet)
    }     else if str_equal(leaf, "mfd_fuel_to_add") {
        Some(ColumnId::MfdFuelToAdd)
    }     else if str_equal(leaf, "mfd_tyre_pressure") {
        Some(ColumnId::MfdTyrePressure)
    }     else if str_equal(leaf, "ideal_line_on") {
        Some(ColumnId::IdealLineOn)
    }     else if str_equal(leaf, "is_setup_menu_visible") {
        Some(ColumnId::IsSetupMenuVisible)
    }     else if str_equal(leaf, "main_display_index") {
        Some(ColumnId::MainDisplayIndex)
    }     else if str_equal(leaf, "secondary_display_index") {
        Some(ColumnId::SecondaryDisplayIndex)
    }     else if str_equal(leaf, "direction_lights_left") {
        Some(ColumnId::DirectionLightsLeft)
    }     else if str_equal(leaf, "direction_lights_right") {
        Some(ColumnId::DirectionLightsRight)
    }     else if str_equal(leaf, "tc_level") {
        Some(ColumnId::TcLevel)
    }     else if str_equal(leaf, "tc_cut") {
        Some(ColumnId::TcCut)
    }     else if str_equal(leaf, "engine_map") {
        Some(ColumnId::EngineMap)
    }     else if str_equal(leaf, "abs_level") {
        Some(ColumnId::AbsLevel)
    }     else if str_equal(leaf, "exhaust_temperature") {
        Some(ColumnId::ExhaustTemperature)
    }     else if str_equal(leaf, "final_ff") {
        Some(ColumnId::FinalFf)
    }     else if str_equal(leaf, "performance_meter") {
        Some(ColumnId::PerformanceMeter)
    }     else if str_equal(leaf, "kerb_vibration") {
        Some(ColumnId::KerbVibration)
    }     else if str_equal(leaf, "slip_vibrations") {
        Some(ColumnId::SlipVibrations)
    }     else if str_equal(leaf, "g_vibrations") {
        Some(ColumnId::GVibrations)
    }     else if str_equal(leaf, "abs_vibrations") {
        Some(ColumnId::AbsVibrations)
    }     else if str_equal(leaf, "air_density") {
        Some(ColumnId::AirDensity)
    }     else if str_equal(leaf, "air_temp") {
        Some(ColumnId::AirTemp)
    }     else if str_equal(leaf, "road_temp") {
        Some(ColumnId::RoadTemp)
    }     else if str_equal(leaf, "wind_speed") {
        Some(ColumnId::WindSpeed)
    }     else if str_equal(leaf, "wind_direction") {
        Some(ColumnId::WindDirection)
    }     else if str_equal(leaf, "surface_grip") {
        Some(ColumnId::SurfaceGrip)
    }     else if str_equal(leaf, "rain_intensity") {
        Some(ColumnId::RainIntensity)
    }     else if str_equal(leaf, "rain_intensity_in_10min") {
        Some(ColumnId::RainIntensityIn10min)
    }     else if str_equal(leaf, "rain_intensity_in_30min") {
        Some(ColumnId::RainIntensityIn30min)
    }     else if str_equal(leaf, "active_cars") {
        Some(ColumnId::ActiveCars)
    }     else if str_equal(leaf, "player_car_id") {
        Some(ColumnId::PlayerCarId)
    }     else if str_equal(leaf, "car_coordinates") {
        Some(ColumnId::CarCoordinates)
    }     else if str_equal(leaf, "car_id") {
        Some(ColumnId::CarId)
    }     else if str_equal(leaf, "sample_tick") {
        Some(ColumnId::SampleTick)
    }     else if str_equal(leaf, "timestamp_ns") {
        Some(ColumnId::TimestampNs)
    }     else if str_equal(leaf, "physics_packet_id") {
        Some(ColumnId::PhysicsPacketId)
    }     else if str_equal(leaf, "graphics_packet_id") {
        Some(ColumnId::GraphicsPacketId)
    } else {
        None
    }
}

} // verus!

use vstd::slice::slice_subrange;
use vstd::utf8::{decode_utf8, valid_utf8};
use crate::codec::{get_i32, get_u16, get_u32, get_u64, i32_at, u16_at, u32_at, u64_at, ByteReader};
use crate::error::{error_matches, ErrorDesc, TelemetryError, TelemetryResult};
use crate::format_v2::{
    spec_read_lap_entries, spec_read_row_group_header, spec_read_schema_block, spec_read_skip_entries,
    ColumnEntryV2, FileHeaderV2, FooterV2, GroupEntryV2, GroupId, LapIndexEntryV2, RowGroupHeader, SchemaBlockV2,
    SchemaGroupView, SkipIndexEntry,
};
use crate::encode_v2::{decode_column, spec_decode_column, DecodedColumn};
use crate::item_key::{ItemKey, ItemType};
use crate::reader::{lossy_read, magic_at, magic_is, metadata_versions, read_lossy, string_from_utf8_lossy,
    utf8_lossy_text, RecordingSummary};

verus! {

/// A four-byte read at `pos` that never fails: the integer, or 0 and the
/// end when it runs past it.
pub open spec fn lossy_u32(b: Seq<u8>, pos: int) -> (u32, int) {
    if pos + 4 <= b.len() { (u32_at(b, pos), pos + 4) } else { (0, b.len() as int) }
}

/// An eight-byte read at `pos` that never fails.
pub open spec fn lossy_u64(b: Seq<u8>, pos: int) -> (u64, int) {
    if pos + 8 <= b.len() { (u64_at(b, pos), pos + 8) } else { (0, b.len() as int) }
}

fn read_u32_lossy(b: &[u8], pos: usize) -> (r: (u32, usize))
    requires
        pos <= b@.len(),
    ensures
        r.0 == lossy_u32(b@, pos as int).0,
        r.1 as int == lossy_u32(b@, pos as int).1,
{
    if b.len() - pos >= 4 { (get_u32(b, pos), pos + 4) } else { (0, b.len()) }
}

fn read_u64_lossy(b: &[u8], pos: usize) -> (r: (u64, usize))
    requires
        pos <= b@.len(),
    ensures
        r.0 == lossy_u64(b@, pos as int).0,
        r.1 as int == lossy_u64(b@, pos as int).1,
{
    if b.len() - pos >= 8 { (get_u64(b, pos), pos + 8) } else { (0, b.len()) }
}

/// The metadata block of a v2 recording. The three static maxima are kept
/// as the bit patterns of the `f64` values the block stores, the polling
/// rate in thousandths of a hertz.
#[derive(Debug, Clone)]
pub struct SessionMetadataV2 {
    pub track_name: String,
    pub car_model: String,
    pub created_unix_ns: u64,
    pub poll_hz_x1000: u32,
    pub chunk_rows: usize,
    pub sm_version: String,
    pub ac_version: String,
    pub number_of_sessions: i32,
    pub num_cars: i32,
    pub sector_count: i32,
    pub max_rpm: i32,
    pub max_torque_bits: u64,
    pub max_power_bits: u64,
    pub max_fuel_bits: u64,
    pub penalties_enabled: i32,
    pub raw_static_bytes: Vec<u8>,
    pub session_type: Option<i32>,
}

/// The v2 metadata as plain values.
pub struct MetadataV2View {
    pub track_name: Seq<char>,
    pub car_model: Seq<char>,
    pub created_unix_ns: u64,
    pub poll_hz_x1000: u32,
    pub chunk_rows: nat,
    pub sm_version: Seq<char>,
    pub ac_version: Seq<char>,
    pub number_of_sessions: i32,
    pub num_cars: i32,
    pub sector_count: i32,
    pub max_rpm: i32,
    pub max_torque_bits: u64,
    pub max_power_bits: u64,
    pub max_fuel_bits: u64,
    pub penalties_enabled: i32,
    pub raw_static_bytes: Seq<u8>,
    pub session_type: Option<i32>,
}

impl View for SessionMetadataV2 {
    type V = MetadataV2View;

    open spec fn view(&self) -> MetadataV2View {
        MetadataV2View {
            track_name: self.track_name@,
            car_model: self.car_model@,
            created_unix_ns: self.created_unix_ns,
            poll_hz_x1000: self.poll_hz_x1000,
            chunk_rows: self.chunk_rows as nat,
            sm_version: self.sm_version@,
            ac_version: self.ac_version@,
            number_of_sessions: self.number_of_sessions,
            num_cars: self.num_cars,
            sector_count: self.sector_count,
            max_rpm: self.max_rpm,
            max_torque_bits: self.max_torque_bits,
            max_power_bits: self.max_power_bits,
            max_fuel_bits: self.max_fuel_bits,
            penalties_enabled: self.penalties_enabled,
            raw_static_bytes: self.raw_static_bytes@,
            session_type: self.session_type,
        }
    }
}

/// The static scalars of a v2 metadata block at `p` and where reading
/// stopped: present when 24 bytes remain, each read giving 0 past the end.
pub open spec fn metadata_v2_scalars(b: Seq<u8>, p: int) -> (i32, i32, u64, u64, u64, i32, int) {
    if b.len() - p >= 24 {
        let (sc, q1) = lossy_u32(b, p);
        let (mr, q2) = lossy_u32(b, q1);
        let (mt, q3) = lossy_u64(b, q2);
        let (mp, q4) = lossy_u64(b, q3);
        let (mf, q5) = lossy_u64(b, q4);
        let (pe, q6) = lossy_u32(b, q5);
        (sc as i32, mr as i32, mt, mp, mf, pe as i32, q6)
    } else {
        (0, 0, 0, 0, 0, 0, p)
    }
}

/// The raw static bytes at `p` and where reading stopped: a length that
/// must fit what remains, then the bytes.
pub open spec fn metadata_v2_raw(b: Seq<u8>, p: int) -> (Seq<u8>, int) {
    if b.len() - p >= 4 {
        let raw_len = u32_at(b, p) as int;
        if raw_len > 0 && raw_len <= b.len() - p - 4 {
            (b.subrange(p + 4, p + 4 + raw_len), p + 4 + raw_len)
        } else {
            (Seq::empty(), p + 4)
        }
    } else {
        (Seq::empty(), p)
    }
}

/// The optional session type at `p`: a flag and the type, when eight bytes
/// remain and the flag is set.
pub open spec fn metadata_v2_session_type(b: Seq<u8>, p: int) -> Option<i32> {
    if b.len() - p >= 8 && i32_at(b, p) != 0 { Some(i32_at(b, p + 4)) } else { None }
}

/// What decoding a v2 metadata block gives: the v1 layout up to the
/// version strings, then eight-byte maxima, the raw static bytes and the
/// session type.
pub open spec fn spec_decode_metadata_v2(b: Seq<u8>) -> Result<MetadataV2View, ErrorDesc> {
    if b.len() < 4 {
        Err(ErrorDesc::Eof)
    } else if !magic_at(b, 0, seq![77u8, 69u8, 84u8, 65u8]) {
        Err(ErrorDesc::Format("bad metadata block"@))
    } else if b.len() < 24 {
        Err(ErrorDesc::Eof)
    } else {
        let tl = u16_at(b, 20) as int;
        let cl = u16_at(b, 22) as int;
        if b.len() < 24 + tl + cl {
            Err(ErrorDesc::Eof)
        } else {
            let p = 24 + tl + cl;
            let (smv, acv, ns, nc, p2) = metadata_versions(b, p);
            let (sc, mr, mt, mp, mf, pe, p3) = metadata_v2_scalars(b, p2);
            let (raw, p4) = metadata_v2_raw(b, p3);
            Ok(MetadataV2View {
                track_name: utf8_lossy_text(b.subrange(24, 24 + tl)),
                car_model: utf8_lossy_text(b.subrange(24 + tl, p)),
                created_unix_ns: u64_at(b, 4),
                poll_hz_x1000: u32_at(b, 12),
                chunk_rows: u32_at(b, 16) as nat,
                sm_version: smv,
                ac_version: acv,
                number_of_sessions: ns,
                num_cars: nc,
                sector_count: sc,
                max_rpm: mr,
                max_torque_bits: mt,
                max_power_bits: mp,
                max_fuel_bits: mf,
                penalties_enabled: pe,
                raw_static_bytes: raw,
                session_type: metadata_v2_session_type(b, p4),
            })
        }
    }
}

/// A complete v2 metadata block reads back field for field: after the
/// `META` magic come the creation time (at 4), the polling rate (at 12),
/// the chunk rows (at 16) and the two name lengths (at 20 and 22); after
/// the names, the two version lengths, the session count and the car
/// count, then the two version strings; after them the sector count, the
/// maximum rpm, the eight-byte maxima of torque, power and fuel in that
/// order, and the penalties flag.
pub proof fn lemma_metadata_v2_layout(b: Seq<u8>)
    requires
        b.len() >= 24,
        b[0] == 77u8 && b[1] == 69u8 && b[2] == 84u8 && b[3] == 65u8,
        24 + u16_at(b, 20) + u16_at(b, 22) + 12 <= b.len(),
        ({
            let p = 24 + u16_at(b, 20) + u16_at(b, 22);
            p + 12 + u16_at(b, p) + u16_at(b, p + 2) + 36 <= b.len()
        }),
    ensures
        ({
            let p = 24 + u16_at(b, 20) + u16_at(b, 22);
            let q = p + 12 + u16_at(b, p) + u16_at(b, p + 2);
            spec_decode_metadata_v2(b) matches Ok(m)
                && m.created_unix_ns == u64_at(b, 4)
                && m.poll_hz_x1000 == u32_at(b, 12)
                && m.chunk_rows == u32_at(b, 16) as nat
                && m.number_of_sessions == i32_at(b, p + 4)
                && m.num_cars == i32_at(b, p + 8)
                && m.sector_count == i32_at(b, q)
                && m.max_rpm == i32_at(b, q + 4)
                && m.max_torque_bits == u64_at(b, q + 8)
                && m.max_power_bits == u64_at(b, q + 16)
                && m.max_fuel_bits == u64_at(b, q + 24)
                && m.penalties_enabled == i32_at(b, q + 32)
        }),
{
    assert(b.subrange(0, 4) =~= seq![77u8, 69u8, 84u8, 65u8]);
}

/// Decode a v2 metadata block.
fn decode_metadata_v2(bytes: &[u8]) -> (r: TelemetryResult<SessionMetadataV2>)
    ensures
        match spec_decode_metadata_v2(bytes@) {
            Ok(m) => r is Ok && r->Ok_0@ == m,
            Err(d) => r is Err && error_matches(r->Err_0, d),
        },
{
    let len = bytes.len();
    if len < 4 {
        return Err(TelemetryError::eof());
    }
    if !magic_is(bytes, 0, 77, 69, 84, 65) {
        return Err(TelemetryError::invalid_format("bad metadata block"));
    }
    if len < 24 {
        return Err(TelemetryError::eof());
    }
    let created_unix_ns = get_u64(bytes, 4);
    let poll_hz_x1000 = get_u32(bytes, 12);
    let chunk_rows = get_u32(bytes, 16) as usize;
    let tl = get_u16(bytes, 20) as usize;
    let cl = get_u16(bytes, 22) as usize;
    if len - 24 < tl + cl {
        return Err(TelemetryError::eof());
    }
    let p = 24 + tl + cl;
    let track_name = string_from_utf8_lossy(slice_subrange(bytes, 24, 24 + tl));
    let car_model = string_from_utf8_lossy(slice_subrange(bytes, 24 + tl, p));
    let (sm_version, ac_version, number_of_sessions, num_cars, p2) = if len - p >= 12 {
        let sm_len = get_u16(bytes, p) as usize;
        let ac_len = get_u16(bytes, p + 2) as usize;
        let ns = get_i32(bytes, p + 4);
        let nc = get_i32(bytes, p + 8);
        let (sm, q1) = read_lossy(bytes, p + 12, sm_len);
        let (ac, q2) = read_lossy(bytes, q1, ac_len);
        (string_from_utf8_lossy(sm.as_slice()), string_from_utf8_lossy(ac.as_slice()), ns, nc, q2)
    } else {
        (String::new(), String::new(), 0, 0, p)
    };
    let (sector_count, max_rpm, max_torque_bits, max_power_bits, max_fuel_bits, penalties_enabled, p3) = if len - p2 >= 24 {
        let (sc, q1) = read_u32_lossy(bytes, p2);
        let (mr, q2) = read_u32_lossy(bytes, q1);
        let (mt, q3) = read_u64_lossy(bytes, q2);
        let (mp, q4) = read_u64_lossy(bytes, q3);
        let (mf, q5) = read_u64_lossy(bytes, q4);
        let (pe, q6) = read_u32_lossy(bytes, q5);
        (sc as i32, mr as i32, mt, mp, mf, pe as i32, q6)
    } else {
        (0, 0, 0, 0, 0, 0, p2)
    };
    let (raw_static_bytes, p4) = if len - p3 >= 4 {
        let raw_len = get_u32(bytes, p3) as usize;
        if raw_len > 0 && raw_len <= len - p3 - 4 {
            (vstd::slice::slice_to_vec(slice_subrange(bytes, p3 + 4, p3 + 4 + raw_len)), p3 + 4 + raw_len)
        } else {
            (Vec::new(), p3 + 4)
        }
    } else {
        (Vec::new(), p3)
    };
    let session_type = if len - p4 >= 8 && get_i32(bytes, p4) != 0 { Some(get_i32(bytes, p4 + 4)) } else { None };
    let m = SessionMetadataV2 {
        track_name,
        car_model,
        created_unix_ns,
        poll_hz_x1000,
        chunk_rows,
        sm_version,
        ac_version,
        number_of_sessions,
        num_cars,
        sector_count,
        max_rpm,
        max_torque_bits,
        max_power_bits,
        max_fuel_bits,
        penalties_enabled,
        raw_static_bytes,
        session_type,
    };
    assert(m@.raw_static_bytes =~= spec_decode_metadata_v2(bytes@)->Ok_0.raw_static_bytes);
    Ok(m)
}

/// Where the groups of a row group at `pos` end, over its first `k` group
/// entries: the furthest group end, starting from `pos`. A group end past
/// the largest `usize` or past the file is an error.
pub open spec fn spec_row_group_end(len: int, pos: int, groups: Seq<crate::format_v2::GroupEntryV2>, k: int) -> Result<int, ErrorDesc>
    decreases k,
{
    if k <= 0 {
        Ok(pos)
    } else {
        match spec_row_group_end(len, pos, groups, k - 1) {
            Err(d) => Err(d),
            Ok(end) => {
                let g = groups[k - 1];
                let group_end = pos + g.offset + g.byte_len;
                if group_end > usize::MAX {
                    Err(ErrorDesc::Format("row group offset overflow"@))
                } else if group_end > len {
                    Err(ErrorDesc::Format("row group extends past file end"@))
                } else if group_end > end {
                    Ok(group_end)
                } else {
                    Ok(end)
                }
            },
        }
    }
}

/// Scanning the row groups from `pos`, having found `offsets` holding
/// `total` rows: stop at the end or at anything that is not a row group;
/// a malformed or empty row group is an error. Row counts add up modulo
/// 2^64.
pub open spec fn spec_scan_row_groups(d: Seq<u8>, pos: int, offsets: Seq<u64>, total: u64) -> Result<(Seq<u64>, u64), ErrorDesc>
    decreases d.len() - pos,
{
    if pos < 0 || pos + 4 > d.len() || !magic_at(d, pos, seq![82u8, 71u8, 72u8, 68u8]) {
        Ok((offsets, total))
    } else {
        match spec_read_row_group_header(d.subrange(pos, d.len() as int)) {
            Err(e) => Err(e),
            Ok((h, _)) => match spec_row_group_end(d.len() as int, pos, h.groups, h.groups.len() as int) {
                Err(e) => Err(e),
                Ok(end) => if end <= pos {
                    Err(ErrorDesc::Format("row group has zero or negative size"@))
                } else {
                    proof {
                        lemma_row_group_end_within(d.len() as int, pos, h.groups, h.groups.len() as int);
                    }
                    spec_scan_row_groups(d, end, offsets.push(pos as u64), vstd::wrapping::u64_specs::wrapping_add(total, h.row_count as u64))
                },
            },
        }
    }
}

/// Scanning the row groups from `pos` with nothing found yet.
pub open spec fn spec_scan_row_groups_from(d: Seq<u8>, pos: int) -> Result<(Seq<u64>, u64), ErrorDesc> {
    spec_scan_row_groups(d, pos, Seq::empty(), 0)
}

/// The offsets of the row groups from `first_offset` on, and their total
/// row count.
fn scan_row_groups(data: &[u8], first_offset: usize) -> (r: TelemetryResult<(Vec<u64>, u64)>)
    requires
        first_offset <= data@.len(),
    ensures
        match spec_scan_row_groups_from(data@, first_offset as int) {
            Ok((offs, t)) => r is Ok && r->Ok_0.0@ == offs && r->Ok_0.1 == t,
            Err(d) => r is Err && error_matches(r->Err_0, d),
        },
{
    let len = data.len();
    let ghost goal = spec_scan_row_groups_from(data@, first_offset as int);
    let mut offsets: Vec<u64> = Vec::new();
    let mut total: u64 = 0;
    let mut pos = first_offset;
    loop
        invariant_except_break
            goal == spec_scan_row_groups_from(data@, first_offset as int),
            len == data@.len(),
            pos <= len,
            spec_scan_row_groups(data@, pos as int, offsets@, total) == goal,
        ensures
            goal == Ok::<(Seq<u64>, u64), ErrorDesc>((offsets@, total)),
        decreases len - pos,
    {
        if len - pos < 4 || !magic_is(data, pos, 82, 71, 72, 68) {
            break;
        }
        let mut reader = ByteReader::new(slice_subrange(data, pos, len));
        let h = match RowGroupHeader::read_from(&mut reader) {
            Ok(h) => h,
            Err(e) => {
                return Err(e);
            },
        };
        let ghost groups = h.groups@;
        let mut end = pos;
        let mut k: usize = 0;
        while k < h.groups.len()
            invariant
                goal == spec_scan_row_groups_from(data@, first_offset as int),
                spec_scan_row_groups(data@, pos as int, offsets@, total) == goal,
                len - pos >= 4,
                magic_at(data@, pos as int, seq![82u8, 71u8, 72u8, 68u8]),
                spec_read_row_group_header(data@.subrange(pos as int, len as int)) matches Ok((v, _)) && v == h@,
                len == data@.len(),
                pos <= end <= len,
                groups == h.groups@,
                k <= groups.len(),
                spec_row_group_end(len as int, pos as int, groups, k as int) == Ok::<int, ErrorDesc>(end as int),
            decreases groups.len() - k,
        {
            let g = h.groups[k];
            let span: u64 = g.offset as u64 + g.byte_len as u64;
            if span > (usize::MAX - pos) as u64 {
                proof { lemma_row_group_end_error_persists(len as int, pos as int, groups, k + 1, groups.len() as int); }
                return Err(TelemetryError::invalid_format("row group offset overflow"));
            }
            let group_end = pos + span as usize;
            if group_end > len {
                proof { lemma_row_group_end_error_persists(len as int, pos as int, groups, k + 1, groups.len() as int); }
                return Err(TelemetryError::invalid_format("row group extends past file end"));
            }
            if group_end > end {
                end = group_end;
            }
            k = k + 1;
        }
        if end <= pos {
            return Err(TelemetryError::invalid_format("row group has zero or negative size"));
        }
        offsets.push(pos as u64);
        total = total.wrapping_add(h.row_count as u64);
        pos = end;
    }
    Ok((offsets, total))
}

/// A group end that is not an error lies between `pos` and the file end.
pub proof fn lemma_row_group_end_within(len: int, pos: int, groups: Seq<crate::format_v2::GroupEntryV2>, k: int)
    requires
        pos <= len,
    ensures
        spec_row_group_end(len, pos, groups, k) matches Ok(end) ==> pos <= end <= len,
    decreases k,
{
    if k > 0 {
        lemma_row_group_end_within(len, pos, groups, k - 1);
    }
}

/// Once a group end is an error, later group entries do not change it.
pub proof fn lemma_row_group_end_error_persists(len: int, pos: int, groups: Seq<crate::format_v2::GroupEntryV2>, j: int, k: int)
    requires
        0 <= j <= k,
        spec_row_group_end(len, pos, groups, j) is Err,
    ensures
        spec_row_group_end(len, pos, groups, k) == spec_row_group_end(len, pos, groups, j),
    decreases k - j,
{
    if j < k {
        lemma_row_group_end_error_persists(len, pos, groups, j, k - 1);
    }
}

/// What the footer at `fo` gives: its skip-index and lap-index entries,
/// read one after the other behind it.
pub open spec fn spec_read_footer_v2(b: Seq<u8>, fo: int) -> Result<(Seq<SkipIndexEntry>, Seq<LapIndexEntryV2>), ErrorDesc> {
    let s = b.subrange(fo, b.len() as int);
    match FooterV2::spec_read(s) {
        Err(d) => Err(d),
        Ok((f, n)) => {
            let s2 = s.subrange(n as int, s.len() as int);
            match spec_read_skip_entries(s2, f.skip_index_count as nat) {
                Err(d) => Err(d),
                Ok((skip, m)) => {
                    let s3 = s2.subrange(m as int, s2.len() as int);
                    match spec_read_lap_entries(s3, f.lap_index_count as nat) {
                        Err(d) => Err(d),
                        Ok((laps, _)) => Ok((skip, laps)),
                    }
                },
            }
        },
    }
}

/// Everything that opening a v2 recording reads from it.
pub struct OpenedV2 {
    pub metadata: MetadataV2View,
    pub schema: Seq<SchemaGroupView>,
    pub skip_entries: Seq<SkipIndexEntry>,
    pub lap_entries: Seq<LapIndexEntryV2>,
    pub summary: RecordingSummary,
    pub row_group_offsets: Seq<u64>,
    pub total_samples: u64,
}

/// What opening a v2 recording held in `b` gives. The header comes first;
/// then the schema block at its offset; then the metadata block, which
/// must lie before the first row group and inside the file; then the
/// footer, read only when its offset is set and its 20 bytes fit; then the
/// row groups, scanned from the first one.
pub open spec fn spec_open_v2(b: Seq<u8>) -> Result<OpenedV2, ErrorDesc> {
    if b.len() < 64 {
        Err(ErrorDesc::Format("file too short for v2 header"@))
    } else {
        match FileHeaderV2::spec_read(b) {
            Err(d) => Err(d),
            Ok((h, _)) => if h.schema_offset >= b.len() {
                Err(ErrorDesc::Format("schema_offset past eof"@))
            } else {
                match spec_read_schema_block(b.subrange(h.schema_offset as int, b.len() as int)) {
                    Err(d) => Err(d),
                    Ok((schema, _)) => if h.metadata_offset >= b.len() {
                        Err(ErrorDesc::Format("metadata_offset past eof"@))
                    } else if h.metadata_offset >= h.first_row_group_offset {
                        Err(ErrorDesc::Format("metadata_offset >= first_row_group_offset"@))
                    } else if h.first_row_group_offset > b.len() {
                        Err(ErrorDesc::Format("first_row_group_offset past eof"@))
                    } else {
                        match spec_decode_metadata_v2(b.subrange(h.metadata_offset as int, h.first_row_group_offset as int)) {
                            Err(d) => Err(d),
                            Ok(m) => {
                                let has_footer = h.footer_offset > 0 && h.footer_offset + 20 <= b.len();
                                let footer = if has_footer {
                                    spec_read_footer_v2(b, h.footer_offset as int)
                                } else {
                                    Ok((Seq::<SkipIndexEntry>::empty(), Seq::<LapIndexEntryV2>::empty()))
                                };
                                match footer {
                                    Err(d) => Err(d),
                                    Ok((skip, laps)) => match spec_scan_row_groups_from(b, h.first_row_group_offset as int) {
                                        Err(d) => Err(d),
                                        Ok((offsets, total)) => Ok(OpenedV2 {
                                            metadata: m,
                                            schema,
                                            skip_entries: skip,
                                            lap_entries: laps,
                                            summary: RecordingSummary {
                                                total_samples: total,
                                                chunk_count: offsets.len() as u32,
                                                total_bytes: b.len() as u64,
                                                footer_offset: if has_footer { h.footer_offset } else { 0 },
                                            },
                                            row_group_offsets: offsets,
                                            total_samples: total,
                                        }),
                                    },
                                }
                            },
                        }
                    },
                }
            },
        }
    }
}

/// Read the footer at `fo` and the two indexes behind it.
fn read_footer_v2(data: &[u8], fo: usize) -> (r: TelemetryResult<(Vec<SkipIndexEntry>, Vec<LapIndexEntryV2>)>)
    requires
        fo <= data@.len(),
    ensures
        match spec_read_footer_v2(data@, fo as int) {
            Ok((skip, laps)) => r is Ok && r->Ok_0.0@ == skip && r->Ok_0.1@ == laps,
            Err(d) => r is Err && error_matches(r->Err_0, d),
        },
{
    let mut reader = ByteReader::new(slice_subrange(data, fo, data.len()));
    let footer = FooterV2::read_from(&mut reader)?;
    let skip = footer.read_skip_entries(&mut reader)?;
    let laps = footer.read_lap_entries(&mut reader)?;
    Ok((skip, laps))
}

/// A v2 recording held in memory, with its header, schema, metadata,
/// footer indexes and row-group offsets read.
pub struct BinaryTelemetryReaderV2 {
    bytes: Vec<u8>,
    metadata: SessionMetadataV2,
    schema: SchemaBlockV2,
    skip_entries: Vec<SkipIndexEntry>,
    lap_entries: Vec<LapIndexEntryV2>,
    summary: RecordingSummary,
    row_group_offsets: Vec<u64>,
    total_samples: u64,
}

impl BinaryTelemetryReaderV2 {
    /// The recording's bytes.
    pub closed spec fn data(&self) -> Seq<u8> {
        self.bytes@
    }

    /// What the reader holds of its recording.
    pub closed spec fn opened(&self) -> OpenedV2 {
        OpenedV2 {
            metadata: self.metadata@,
            schema: self.schema@,
            skip_entries: self.skip_entries@,
            lap_entries: self.lap_entries@,
            summary: self.summary,
            row_group_offsets: self.row_group_offsets@,
            total_samples: self.total_samples,
        }
    }

    /// The reader's fields are what opening its bytes gives.
    pub closed spec fn wf(&self) -> bool {
        spec_open_v2(self.bytes@) == Ok::<OpenedV2, ErrorDesc>(self.opened())
    }

    /// Open a v2 recording held in `bytes`.
    pub fn from_bytes(bytes: Vec<u8>) -> (r: TelemetryResult<Self>)
        ensures
            match spec_open_v2(bytes@) {
                Ok(o) => r is Ok && r->Ok_0.wf() && r->Ok_0.data() == bytes@ && r->Ok_0.opened() == o,
                Err(d) => r is Err && error_matches(r->Err_0, d),
            },
    {
        let len = bytes.len();
        if len < 64 {
            return Err(TelemetryError::invalid_format("file too short for v2 header"));
        }
        let data = bytes.as_slice();
        let mut reader = ByteReader::new(data);
        let header = FileHeaderV2::read_from(&mut reader)?;
        if header.schema_offset >= len as u64 {
            return Err(TelemetryError::invalid_format("schema_offset past eof"));
        }
        let so = header.schema_offset as usize;
        let mut schema_reader = ByteReader::new(slice_subrange(data, so, len));
        let schema = SchemaBlockV2::read_from(&mut schema_reader)?;
        if header.metadata_offset >= len as u64 {
            return Err(TelemetryError::invalid_format("metadata_offset past eof"));
        }
        if header.metadata_offset >= header.first_row_group_offset {
            return Err(TelemetryError::invalid_format("metadata_offset >= first_row_group_offset"));
        }
        if header.first_row_group_offset > len as u64 {
            return Err(TelemetryError::invalid_format("first_row_group_offset past eof"));
        }
        let mo = header.metadata_offset as usize;
        let fro = header.first_row_group_offset as usize;
        let metadata = decode_metadata_v2(slice_subrange(data, mo, fro))?;
        let has_footer = header.footer_offset > 0 && header.footer_offset <= (len - 20) as u64;
        let (skip_entries, lap_entries, footer_offset) = if has_footer {
            let (skip, laps) = read_footer_v2(data, header.footer_offset as usize)?;
            (skip, laps, header.footer_offset)
        } else {
            (Vec::new(), Vec::new(), 0u64)
        };
        let (row_group_offsets, total_samples) = scan_row_groups(data, fro)?;
        let summary = RecordingSummary {
            total_samples,
            chunk_count: row_group_offsets.len() as u32,
            total_bytes: len as u64,
            footer_offset,
        };
        let r = BinaryTelemetryReaderV2 {
            bytes,
            metadata,
            schema,
            skip_entries,
            lap_entries,
            summary,
            row_group_offsets,
            total_samples,
        };
        assert(r.opened() == spec_open_v2(r.bytes@)->Ok_0);
        Ok(r)
    }

    /// The metadata block.
    pub fn metadata(&self) -> (m: &SessionMetadataV2)
        ensures
            m@ == self.opened().metadata,
    {
        &self.metadata
    }

    /// The recording's summary.
    pub fn summary(&self) -> (s: RecordingSummary)
        ensures
            s == self.opened().summary,
    {
        self.summary
    }

    /// The lap index from the footer; empty when the recording has none.
    pub fn lap_index(&self) -> (es: &[LapIndexEntryV2])
        ensures
            es@ == self.opened().lap_entries,
    {
        self.lap_entries.as_slice()
    }
}

/// A decoded column as plain values: codec, value type and words.
pub open spec fn decoded_view(c: DecodedColumn) -> (u8, u8, Seq<u64>) {
    (c.codec, c.value_type, c.words@)
}

/// The plain values of a list of decoded columns.
pub open spec fn decoded_views(cs: Seq<DecodedColumn>) -> Seq<(u8, u8, Seq<u64>)> {
    cs.map_values(|c: DecodedColumn| decoded_view(c))
}

/// The plain values of decoded columns gathered per column.
pub open spec fn columns_view(v: Seq<Vec<DecodedColumn>>) -> Seq<Seq<(u8, u8, Seq<u64>)>> {
    v.map_values(|cs: Vec<DecodedColumn>| decoded_views(cs@))
}

/// The column entries at the start of a group's bytes: the group id, the
/// entry count, then that many 40-byte entries.
pub open spec fn spec_group_entries(gb: Seq<u8>) -> Result<Seq<ColumnEntryV2>, ErrorDesc> {
    if gb.len() < 4 {
        Err(ErrorDesc::Eof)
    } else if gb.len() < 4 + 40 * u16_at(gb, 2) {
        Err(ErrorDesc::Eof)
    } else {
        Ok(Seq::new(u16_at(gb, 2) as nat, |i: int| ColumnEntryV2::spec_decode(gb.subrange(4 + 40 * i, gb.len() as int))))
    }
}

fn read_group_entries(gb: &[u8]) -> (r: TelemetryResult<Vec<ColumnEntryV2>>)
    ensures
        match spec_group_entries(gb@) {
            Ok(es) => r is Ok && r->Ok_0@ == es,
            Err(d) => r is Err && error_matches(r->Err_0, d),
        },
{
    let len = gb.len();
    if len < 4 {
        return Err(TelemetryError::eof());
    }
    let n = get_u16(gb, 2) as usize;
    if len < 4 + 40 * n {
        return Err(TelemetryError::eof());
    }
    let mut es: Vec<ColumnEntryV2> = Vec::new();
    let mut i: usize = 0;
    while i < n
        invariant
            i <= n,
            n == u16_at(gb@, 2),
            len == gb@.len(),
            4 + 40 * n <= len,
            es@ == Seq::new(i as nat, |j: int| ColumnEntryV2::spec_decode(gb@.subrange(4 + 40 * j, len as int))),
        decreases n - i,
    {
        let mut reader = ByteReader::new(slice_subrange(gb, 4 + 40 * i, len));
        let e = match ColumnEntryV2::read_from(&mut reader) {
            Ok(e) => e,
            Err(err) => {
                return Err(err);
            },
        };
        es.push(e);
        i = i + 1;
        assert(es@ =~= Seq::new(i as nat, |j: int| ColumnEntryV2::spec_decode(gb@.subrange(4 + 40 * j, len as int))));
    }
    Ok(es)
}

/// Decoding the first `k` columns of a group, each from the bytes that
/// follow the previous one (the first after the entries): the decoded
/// columns and where the next one starts. A column that runs past the
/// group, or whose end does not fit a `usize`, is an error.
pub open spec fn spec_group_columns(gb: Seq<u8>, es: Seq<ColumnEntryV2>, k: int) -> Result<(Seq<(u8, u8, Seq<u64>)>, int), ErrorDesc>
    decreases k,
{
    if k <= 0 {
        Ok((Seq::empty(), (4 + 40 * es.len()) as int))
    } else {
        match spec_group_columns(gb, es, k - 1) {
            Err(d) => Err(d),
            Ok((cols, off)) => {
                let end = off + es[k - 1].byte_len;
                if end > usize::MAX {
                    Err(ErrorDesc::Format("column byte length overflow"@))
                } else if end > gb.len() {
                    Err(ErrorDesc::Format("column data extends past group end"@))
                } else {
                    match spec_decode_column(gb.subrange(off, end), es[k - 1].crc32) {
                        Err(d) => Err(d),
                        Ok(c) => Ok((cols.push(c), end)),
                    }
                }
            },
        }
    }
}

/// Decoding one more column never undoes an error.
pub proof fn lemma_group_columns_error_persists(gb: Seq<u8>, es: Seq<ColumnEntryV2>, j: int, k: int)
    requires
        0 <= j <= k,
        spec_group_columns(gb, es, j) is Err,
    ensures
        spec_group_columns(gb, es, k) == spec_group_columns(gb, es, j),
    decreases k - j,
{
    if j < k {
        lemma_group_columns_error_persists(gb, es, j, k - 1);
    }
}

fn decode_group_columns(gb: &[u8], es: &Vec<ColumnEntryV2>) -> (r: TelemetryResult<Vec<DecodedColumn>>)
    requires
        4 + 40 * es@.len() <= gb@.len(),
    ensures
        match spec_group_columns(gb@, es@, es@.len() as int) {
            Ok((cols, _)) => r is Ok && decoded_views(r->Ok_0@) == cols,
            Err(d) => r is Err && error_matches(r->Err_0, d),
        },
        r matches Ok(cs) ==> cs@.len() == es@.len(),
{
    let mut out: Vec<DecodedColumn> = Vec::new();
    let glen = gb.len();
    let mut off: usize = 4 + 40 * es.len();
    let mut k: usize = 0;
    assert(decoded_views(out@) =~= Seq::<(u8, u8, Seq<u64>)>::empty());
    while k < es.len()
        invariant
            k <= es@.len(),
            4 + 40 * es@.len() <= gb@.len(),
            spec_group_columns(gb@, es@, k as int) == Ok::<(Seq<(u8, u8, Seq<u64>)>, int), ErrorDesc>((decoded_views(out@), off as int)),
            off <= gb@.len(),
            out@.len() == k,
        decreases es@.len() - k,
    {
        let e = es[k];
        let end = match off.checked_add(e.byte_len as usize) {
            Some(v) => v,
            None => {
                proof { lemma_group_columns_error_persists(gb@, es@, k as int + 1, es@.len() as int); }
                return Err(TelemetryError::invalid_format("column byte length overflow"));
            },
        };
        if end > gb.len() {
            proof { lemma_group_columns_error_persists(gb@, es@, k as int + 1, es@.len() as int); }
            return Err(TelemetryError::invalid_format("column data extends past group end"));
        }
        let c = match decode_column(slice_subrange(gb, off, end), e.crc32) {
            Ok(c) => c,
            Err(err) => {
                proof { lemma_group_columns_error_persists(gb@, es@, k as int + 1, es@.len() as int); }
                return Err(err);
            },
        };
        let ghost prev = decoded_views(out@);
        out.push(c);
        assert(decoded_views(out@) =~= prev.push(decoded_view(c)));
        off = end;
        k = k + 1;
    }
    Ok(out)
}

/// The first of the first `k` group entries with the id `id`.
pub open spec fn spec_find_group(groups: Seq<GroupEntryV2>, id: u16, k: int) -> Option<GroupEntryV2>
    decreases k,
{
    if k <= 0 {
        None
    } else {
        match spec_find_group(groups, id, k - 1) {
            Some(g) => Some(g),
            None => if groups[k - 1].group_id == id { Some(groups[k - 1]) } else { None },
        }
    }
}

/// The group entry a row group's header gives for a group is its first
/// entry of that group; none when it has no entry of it.
pub proof fn lemma_find_group_first(groups: Seq<GroupEntryV2>, id: u16, k: int)
    requires
        0 <= k <= groups.len(),
    ensures
        spec_find_group(groups, id, k) is None <==> forall|j: int| 0 <= j < k ==> #[trigger] groups[j].group_id != id,
        spec_find_group(groups, id, k) matches Some(g) ==> exists|i: int| 0 <= i < k && #[trigger] groups[i] == g
            && g.group_id == id && forall|j: int| 0 <= j < i ==> #[trigger] groups[j].group_id != id,
    decreases k,
{
    if k > 0 {
        lemma_find_group_first(groups, id, k - 1);
        if spec_find_group(groups, id, k - 1) is None && groups[k - 1].group_id == id {
            assert(groups[k - 1] == spec_find_group(groups, id, k)->Some_0);
        }
    }
}

fn find_group(groups: &Vec<GroupEntryV2>, id: u16) -> (r: Option<GroupEntryV2>)
    ensures
        r == spec_find_group(groups@, id, groups@.len() as int),
{
    let mut k: usize = 0;
    while k < groups.len()
        invariant
            k <= groups@.len(),
            spec_find_group(groups@, id, k as int) is None,
        decreases groups@.len() - k,
    {
        if groups[k].group_id == id {
            proof { lemma_find_group_stays(groups@, id, k as int + 1, groups@.len() as int); }
            return Some(groups[k]);
        }
        k = k + 1;
    }
    None
}

/// Once found, a group entry stays the one found.
proof fn lemma_find_group_stays(groups: Seq<GroupEntryV2>, id: u16, j: int, k: int)
    requires
        0 <= j <= k,
        spec_find_group(groups, id, j) is Some,
    ensures
        spec_find_group(groups, id, k) == spec_find_group(groups, id, j),
    decreases k - j,
{
    if j < k {
        lemma_find_group_stays(groups, id, j, k - 1);
    }
}

/// The row group at `offset` and what it holds of group `group`: its column
/// entries and decoded columns. Nothing when a frame window is given in
/// full and the row group lies outside it, when the row group has no such
/// group, or when the group runs past the file.
pub open spec fn spec_row_group_columns(d: Seq<u8>, offset: int, group: u16, start: Option<u64>, end: Option<u64>)
    -> Result<Option<(Seq<ColumnEntryV2>, Seq<(u8, u8, Seq<u64>)>)>, ErrorDesc>
{
    match spec_read_row_group_header(d.subrange(offset, d.len() as int)) {
        Err(e) => Err(e),
        Ok((h, _)) => if start is Some && end is Some && (h.frame_end_tick < start->0 || h.frame_start_tick > end->0) {
            Ok(None)
        } else {
            match spec_find_group(h.groups, group, h.groups.len() as int) {
                None => Ok(None),
                Some(ge) => {
                    let gs = offset + ge.offset;
                    let ge_end = gs + ge.byte_len;
                    if ge_end > d.len() {
                        Ok(None)
                    } else {
                        let gb = d.subrange(gs, ge_end);
                        match spec_group_entries(gb) {
                            Err(e) => Err(e),
                            Ok(es) => match spec_group_columns(gb, es, es.len() as int) {
                                Err(e) => Err(e),
                                Ok((cols, _)) => Ok(Some((es, cols))),
                            },
                        }
                    }
                },
            }
        },
    }
}

/// Reading every row group, a row group is passed over only when both ends
/// of the window are given and its frames lie wholly before the start or
/// wholly after the end; any other row group is read as if no window had
/// been asked for.
pub proof fn lemma_row_group_window(d: Seq<u8>, offset: int, group: u16, start: Option<u64>, end: Option<u64>)
    ensures
        spec_read_row_group_header(d.subrange(offset, d.len() as int)) matches Ok((h, _)) ==> {
            if start matches Some(s) && end matches Some(e) && (h.frame_end_tick < s || h.frame_start_tick > e) {
                spec_row_group_columns(d, offset, group, start, end) == Ok::<Option<(Seq<ColumnEntryV2>, Seq<(u8, u8, Seq<u64>)>)>, ErrorDesc>(None)
            } else {
                spec_row_group_columns(d, offset, group, start, end) == spec_row_group_columns(d, offset, group, None, None)
            }
        },
{
}

fn row_group_columns(data: &[u8], offset: usize, group: u16, start: Option<u64>, end: Option<u64>)
    -> (r: TelemetryResult<Option<(Vec<ColumnEntryV2>, Vec<DecodedColumn>)>>)
    requires
        offset <= data@.len(),
    ensures
        match spec_row_group_columns(data@, offset as int, group, start, end) {
            Ok(None) => r matches Ok(None),
            Ok(Some((es, cols))) => r matches Ok(Some((got_es, got_cols))) && got_es@ == es && decoded_views(got_cols@) == cols,
            Err(d) => r is Err && error_matches(r->Err_0, d),
        },
        r matches Ok(Some((got_es, got_cols))) ==> got_cols@.len() == got_es@.len(),
{
    let len = data.len();
    let mut reader = ByteReader::new(slice_subrange(data, offset, len));
    let h = RowGroupHeader::read_from(&mut reader)?;
    match (start, end) {
        (Some(s), Some(e)) => {
            if h.frame_end_tick < s || h.frame_start_tick > e {
                return Ok(None);
            }
        },
        _ => {},
    }
    let ge = match find_group(&h.groups, group) {
        Some(g) => g,
        None => {
            return Ok(None);
        },
    };
    if ge.offset as usize > len - offset {
        return Ok(None);
    }
    let gs = offset + ge.offset as usize;
    if ge.byte_len as usize > len - gs {
        return Ok(None);
    }
    let ge_end = gs + ge.byte_len as usize;
    let gb = slice_subrange(data, gs, ge_end);
    let es = read_group_entries(gb)?;
    let cols = decode_group_columns(gb, &es)?;
    Ok(Some((es, cols)))
}

/// The first of the first `k` column entries with the id `id`.
pub open spec fn position_of_id(es: Seq<ColumnEntryV2>, id: u16, k: int) -> Option<int>
    decreases k,
{
    if k <= 0 {
        None
    } else {
        match position_of_id(es, id, k - 1) {
            Some(j) => Some(j),
            None => if es[k - 1].column_id == id { Some(k - 1) } else { None },
        }
    }
}

/// The slot that column `i` of a row group goes to: that of the first entry
/// with its id.
pub open spec fn column_slot(es: Seq<ColumnEntryV2>, i: int) -> int {
    match position_of_id(es, es[i].column_id, es.len() as int) {
        Some(j) => j,
        None => 0,
    }
}

/// Adding the first `k` decoded columns of a row group to the columns
/// gathered so far, each to its slot when there is one.
pub open spec fn place_columns(base: Seq<Seq<(u8, u8, Seq<u64>)>>, es: Seq<ColumnEntryV2>, cols: Seq<(u8, u8, Seq<u64>)>, k: int)
    -> Seq<Seq<(u8, u8, Seq<u64>)>>
    decreases k,
{
    if k <= 0 {
        base
    } else {
        let b = place_columns(base, es, cols, k - 1);
        let slot = column_slot(es, k - 1);
        if slot < b.len() {
            b.update(slot, b[slot].push(cols[k - 1]))
        } else {
            b
        }
    }
}

/// Adding what a row group holds of a group to the columns gathered so
/// far. The first row group that holds the group fixes how many columns
/// are gathered.
pub open spec fn gather_row_group(acc: Seq<Seq<(u8, u8, Seq<u64>)>>, found: Option<(Seq<ColumnEntryV2>, Seq<(u8, u8, Seq<u64>)>)>)
    -> Seq<Seq<(u8, u8, Seq<u64>)>>
{
    match found {
        None => acc,
        Some((es, cols)) => {
            let base = if acc.len() == 0 { Seq::new(es.len(), |i: int| Seq::<(u8, u8, Seq<u64>)>::empty()) } else { acc };
            place_columns(base, es, cols, es.len() as int)
        },
    }
}

/// Gathering group `group` from the first `k` row groups: per column, the
/// decoded pieces of each row group in turn. The first row group that
/// holds the group fixes how many columns are gathered.
pub open spec fn spec_group_from_row_groups(d: Seq<u8>, offsets: Seq<u64>, group: u16, start: Option<u64>, end: Option<u64>, k: int)
    -> Result<Seq<Seq<(u8, u8, Seq<u64>)>>, ErrorDesc>
    decreases k,
{
    if k <= 0 {
        Ok(Seq::empty())
    } else {
        match spec_group_from_row_groups(d, offsets, group, start, end, k - 1) {
            Err(e) => Err(e),
            Ok(acc) => match spec_row_group_columns(d, offsets[k - 1] as int, group, start, end) {
                Err(e) => Err(e),
                Ok(found) => Ok(gather_row_group(acc, found)),
            },
        }
    }
}

/// Gathering from one more row group never undoes an error.
pub proof fn lemma_group_from_row_groups_error_persists(d: Seq<u8>, offsets: Seq<u64>, group: u16, start: Option<u64>, end: Option<u64>, j: int, k: int)
    requires
        0 <= j <= k,
        spec_group_from_row_groups(d, offsets, group, start, end, j) is Err,
    ensures
        spec_group_from_row_groups(d, offsets, group, start, end, k) == spec_group_from_row_groups(d, offsets, group, start, end, j),
    decreases k - j,
{
    if j < k {
        lemma_group_from_row_groups_error_persists(d, offsets, group, start, end, j, k - 1);
    }
}

fn slot_of(es: &Vec<ColumnEntryV2>, i: usize) -> (slot: usize)
    requires
        i < es@.len(),
    ensures
        slot as int == column_slot(es@, i as int),
        slot <= i,
{
    let id = es[i].column_id;
    let mut k: usize = 0;
    while k < es.len()
        invariant
            k <= es@.len(),
            i < es@.len(),
            id == es@[i as int].column_id,
            position_of_id(es@, id, k as int) is None,
            k <= i,
        decreases es@.len() - k,
    {
        if es[k].column_id == id {
            proof { lemma_position_stays(es@, id, k as int + 1, es@.len() as int); }
            return k;
        }
        k = k + 1;
    }
    0
}

/// Once found, a position stays the one found.
proof fn lemma_position_stays(es: Seq<ColumnEntryV2>, id: u16, j: int, k: int)
    requires
        0 <= j <= k,
        position_of_id(es, id, j) is Some,
    ensures
        position_of_id(es, id, k) == position_of_id(es, id, j),
    decreases k - j,
{
    if j < k {
        lemma_position_stays(es, id, j, k - 1);
    }
}

/// The plain values of part of a list are that part of its plain values.
proof fn lemma_decoded_views_subrange(cs: Seq<DecodedColumn>, a: int, b: int)
    requires
        0 <= a <= b <= cs.len(),
    ensures
        decoded_views(cs.subrange(a, b)) == decoded_views(cs).subrange(a, b),
{
    assert(decoded_views(cs.subrange(a, b)) =~= decoded_views(cs).subrange(a, b));
}

/// The plain values of part of the gathered columns.
proof fn lemma_columns_view_subrange(v: Seq<Vec<DecodedColumn>>, a: int, b: int)
    requires
        0 <= a <= b <= v.len(),
    ensures
        columns_view(v.subrange(a, b)) == columns_view(v).subrange(a, b),
{
    assert(columns_view(v.subrange(a, b)) =~= columns_view(v).subrange(a, b));
}

/// Gathered columns with one more column.
proof fn lemma_columns_view_push(v: Seq<Vec<DecodedColumn>>, c: Vec<DecodedColumn>)
    ensures
        columns_view(v.push(c)) == columns_view(v).push(decoded_views(c@)),
{
    assert(columns_view(v.push(c)) =~= columns_view(v).push(decoded_views(c@)));
}

/// The plain values of a list with one more decoded column.
proof fn lemma_decoded_views_push(cs: Seq<DecodedColumn>, c: DecodedColumn)
    ensures
        decoded_views(cs.push(c)) == decoded_views(cs).push(decoded_view(c)),
        decoded_views(cs).len() == cs.len(),
{
    assert(decoded_views(cs.push(c)) =~= decoded_views(cs).push(decoded_view(c)));
}

/// Add the decoded columns of one row group to the columns gathered so far.
fn place_row_group(all: &mut Vec<Vec<DecodedColumn>>, es: &Vec<ColumnEntryV2>, cols: Vec<DecodedColumn>)
    requires
        decoded_views(cols@).len() == es@.len(),
    ensures
        columns_view(final(all)@) == place_columns(columns_view(old(all)@), es@, decoded_views(cols@), es@.len() as int),
{
    let ghost base = columns_view(all@);
    let ghost cv = decoded_views(cols@);
    let mut rest = cols;
    let mut i: usize = 0;
    assert(cv.subrange(0, cv.len() as int) =~= cv);
    while i < es.len()
        invariant
            i <= es@.len(),
            cv.len() == es@.len(),
            decoded_views(rest@) == cv.subrange(i as int, cv.len() as int),
            columns_view(all@) == place_columns(base, es@, cv, i as int),
        decreases es@.len() - i,
    {
        let slot = slot_of(es, i);
        let ghost old_rest = rest@;
        assert(decoded_views(old_rest).len() == old_rest.len());
        let c = rest.remove(0);
        proof {
            assert(decoded_views(old_rest)[0] == decoded_view(old_rest[0]));
            assert(decoded_view(c) == cv[i as int]);
            assert(rest@ =~= old_rest.subrange(1, old_rest.len() as int));
            lemma_decoded_views_subrange(old_rest, 1, old_rest.len() as int);
            assert(decoded_views(rest@) =~= cv.subrange(i as int + 1, cv.len() as int));
        }
        let ghost before = all@;
        if slot < all.len() {
            all[slot].push(c);
            proof {
                lemma_decoded_views_push(before[slot as int]@, c);
                assert(columns_view(all@) =~= columns_view(before).update(slot as int, columns_view(before)[slot as int].push(cv[i as int])));
            }
        }
        i = i + 1;
    }
}

/// Add what one row group holds of a group to the columns gathered so far.
fn gather_into(all: &mut Vec<Vec<DecodedColumn>>, found: Option<(Vec<ColumnEntryV2>, Vec<DecodedColumn>)>)
    requires
        found matches Some((es, cols)) ==> cols@.len() == es@.len(),
    ensures
        columns_view(final(all)@) == gather_row_group(columns_view(old(all)@),
            match found { Some((es, cols)) => Some((es@, decoded_views(cols@))), None => None }),
{
    match found {
        None => {},
        Some((es, cols)) => {
            if all.len() == 0 {
                let mut j: usize = 0;
                assert(columns_view(all@) =~= Seq::new(0, |i: int| Seq::<(u8, u8, Seq<u64>)>::empty()));
                while j < es.len()
                    invariant
                        j <= es@.len(),
                        columns_view(all@) == Seq::new(j as nat, |i: int| Seq::<(u8, u8, Seq<u64>)>::empty()),
                    decreases es@.len() - j,
                {
                    let v: Vec<DecodedColumn> = Vec::new();
                    assert(decoded_views(v@) =~= Seq::<(u8, u8, Seq<u64>)>::empty());
                    proof { lemma_columns_view_push(all@, v); }
                    all.push(v);
                    j = j + 1;
                    assert(columns_view(all@) =~= Seq::new(j as nat, |i: int| Seq::<(u8, u8, Seq<u64>)>::empty()));
                }
            }
            assert(decoded_views(cols@).len() == cols@.len());
            place_row_group(all, &es, cols);
        },
    }
}

/// Read what the row group at `offset` holds of a group and add it to the
/// columns gathered so far.
fn gather_row_group_at(all: &mut Vec<Vec<DecodedColumn>>, data: &[u8], offset: usize, group: u16, start: Option<u64>, end: Option<u64>)
    -> (r: TelemetryResult<()>)
    requires
        offset <= data@.len(),
    ensures
        match spec_row_group_columns(data@, offset as int, group, start, end) {
            Ok(found) => r is Ok && columns_view(final(all)@) == gather_row_group(columns_view(old(all)@), found),
            Err(d) => r is Err && error_matches(r->Err_0, d),
        },
{
    let found = row_group_columns(data, offset, group, start, end)?;
    gather_into(all, found);
    Ok(())
}

/// Gather group `group` from the row groups at `offsets`.
fn group_from_row_groups(data: &[u8], offsets: &[u64], group: u16, start: Option<u64>, end: Option<u64>)
    -> (r: TelemetryResult<Vec<Vec<DecodedColumn>>>)
    requires
        forall|i: int| 0 <= i < offsets@.len() ==> offsets@[i] < data@.len(),
    ensures
        match spec_group_from_row_groups(data@, offsets@, group, start, end, offsets@.len() as int) {
            Ok(cols) => r is Ok && columns_view(r->Ok_0@) == cols,
            Err(d) => r is Err && error_matches(r->Err_0, d),
        },
{
    let dlen = data.len();
    let mut all: Vec<Vec<DecodedColumn>> = Vec::new();
    let mut k: usize = 0;
    assert(columns_view(all@) =~= Seq::<Seq<(u8, u8, Seq<u64>)>>::empty());
    while k < offsets.len()
        invariant
            k <= offsets@.len(),
            dlen == data@.len(),
            forall|i: int| 0 <= i < offsets@.len() ==> offsets@[i] < data@.len(),
            spec_group_from_row_groups(data@, offsets@, group, start, end, k as int)
                == Ok::<Seq<Seq<(u8, u8, Seq<u64>)>>, ErrorDesc>(columns_view(all@)),
        decreases offsets@.len() - k,
    {
        let o = offsets[k];
        assert(o < dlen);
        let off = o as usize;
        match gather_row_group_at(&mut all, data, off, group, start, end) {
            Ok(()) => {},
            Err(err) => {
                proof {
                    assert(spec_group_from_row_groups(data@, offsets@, group, start, end, k as int + 1) is Err);
                    lemma_group_from_row_groups_error_persists(data@, offsets@, group, start, end, k as int + 1, offsets@.len() as int);
                }
                return Err(err);
            },
        }
        assert(spec_group_from_row_groups(data@, offsets@, group, start, end, k as int + 1)
            == Ok::<Seq<Seq<(u8, u8, Seq<u64>)>>, ErrorDesc>(columns_view(all@)));
        k = k + 1;
    }
    Ok(all)
}

/// Scanned row-group offsets lie inside the file.
pub proof fn lemma_scan_offsets_within(d: Seq<u8>, pos: int, offsets: Seq<u64>, total: u64)
    requires
        forall|i: int| 0 <= i < offsets.len() ==> offsets[i] < d.len(),
    ensures
        spec_scan_row_groups(d, pos, offsets, total) matches Ok((found, _))
            ==> forall|i: int| 0 <= i < found.len() ==> found[i] < d.len(),
    decreases d.len() - pos,
{
    if pos < 0 || pos + 4 > d.len() || !magic_at(d, pos, seq![82u8, 71u8, 72u8, 68u8]) {
    } else {
        match spec_read_row_group_header(d.subrange(pos, d.len() as int)) {
            Err(e) => {},
            Ok((h, _)) => match spec_row_group_end(d.len() as int, pos, h.groups, h.groups.len() as int) {
                Err(e) => {},
                Ok(end) => if end <= pos {
                } else {
                    lemma_row_group_end_within(d.len() as int, pos, h.groups, h.groups.len() as int);
                    let next = offsets.push(pos as u64);
                    assert forall|i: int| 0 <= i < next.len() implies next[i] < d.len() by {
                        if i < offsets.len() {
                            assert(next[i] == offsets[i]);
                        }
                    }
                    lemma_scan_offsets_within(d, end, next, vstd::wrapping::u64_specs::wrapping_add(total, h.row_count as u64));
                },
            },
        }
    }
}

impl BinaryTelemetryReaderV2 {
    /// Read access group `group` from every row group, keeping, when both
    /// ends of a frame window are given, only the row groups that overlap
    /// it: per column, the decoded pieces of each row group in turn.
    pub fn read_group_from_all_row_groups(&self, group: GroupId, start: Option<u64>, end: Option<u64>)
        -> (r: TelemetryResult<Vec<Vec<DecodedColumn>>>)
        requires
            self.wf(),
        ensures
            match spec_group_from_row_groups(self.data(), self.opened().row_group_offsets, group.id_value(), start, end,
                self.opened().row_group_offsets.len() as int) {
                Ok(cols) => r is Ok && columns_view(r->Ok_0@) == cols,
                Err(d) => r is Err && error_matches(r->Err_0, d),
            },
    {
        proof {
            let b = self.bytes@;
            let h = FileHeaderV2::spec_read(b)->Ok_0.0;
            lemma_scan_offsets_within(b, h.first_row_group_offset as int, Seq::empty(), 0);
        }
        group_from_row_groups(self.bytes.as_slice(), self.row_group_offsets.as_slice(), group.as_u16(), start, end)
    }
}

/// A skip-index entry for group `g` whose frame window overlaps the
/// requested one (an end that is not given does not limit it).
pub open spec fn skip_entry_relevant(e: SkipIndexEntry, g: u16, start: Option<u64>, end: Option<u64>) -> bool {
    e.access_group == g && match (start, end) {
        (None, None) => true,
        (Some(s), None) => e.frame_end >= s,
        (None, Some(f)) => e.frame_start <= f,
        (Some(s), Some(f)) => e.frame_start <= f && e.frame_end >= s,
    }
}

/// Strictly increasing.
pub open spec fn strictly_sorted(v: Seq<u32>) -> bool {
    forall|i: int, j: int| 0 <= i < j < v.len() ==> v[i] < v[j]
}

/// `x` put into the sorted `v` at its place, unless it is there already.
pub open spec fn insert_sorted(v: Seq<u32>, x: u32) -> Seq<u32>
    decreases v.len(),
{
    if v.len() == 0 {
        seq![x]
    } else if v.last() < x {
        v.push(x)
    } else if v.last() == x {
        v
    } else {
        insert_sorted(v.drop_last(), x).push(v.last())
    }
}

/// The row groups that the first `k` skip-index entries point to for a
/// group and frame window, in increasing order, each once.
pub open spec fn relevant_row_groups_upto(es: Seq<SkipIndexEntry>, g: u16, start: Option<u64>, end: Option<u64>, k: int) -> Seq<u32>
    decreases k,
{
    if k <= 0 {
        Seq::empty()
    } else {
        let v = relevant_row_groups_upto(es, g, start, end, k - 1);
        if skip_entry_relevant(es[k - 1], g, start, end) { insert_sorted(v, es[k - 1].row_group_index) } else { v }
    }
}

/// Inserting keeps the order and adds exactly the new element.
pub proof fn lemma_insert_sorted(v: Seq<u32>, x: u32)
    requires
        strictly_sorted(v),
    ensures
        strictly_sorted(insert_sorted(v, x)),
        forall|y: u32| #[trigger] insert_sorted(v, x).contains(y) <==> (v.contains(y) || y == x),
    decreases v.len(),
{
    if v.len() == 0 {
        let r = insert_sorted(v, x);
        assert(r =~= seq![x]);
        assert(r[0] == x);
        assert forall|y: u32| r.contains(y) <==> (v.contains(y) || y == x) by {
            if r.contains(y) {
                let i = choose|i: int| 0 <= i < r.len() && r[i] == y;
            }
        }
    } else if v.last() < x {
        let r = v.push(x);
        assert forall|y: u32| r.contains(y) <==> (v.contains(y) || y == x) by {
            if r.contains(y) {
                let i = choose|i: int| 0 <= i < r.len() && r[i] == y;
                if i < v.len() { assert(v[i] == y); }
            }
            if v.contains(y) {
                let i = choose|i: int| 0 <= i < v.len() && v[i] == y;
                assert(r[i] == y);
            }
            if y == x { assert(r[v.len() as int] == y); }
        }
    } else if v.last() == x {
        assert(v[v.len() - 1] == x);
    } else {
        let d = v.drop_last();
        assert(strictly_sorted(d));
        lemma_insert_sorted(d, x);
        let t = insert_sorted(d, x);
        let r = t.push(v.last());
        assert forall|i: int, j: int| 0 <= i < j < r.len() implies r[i] < r[j] by {
            if j == r.len() - 1 {
                assert(t.contains(r[i]));
                if d.contains(r[i]) {
                    let k = choose|k: int| 0 <= k < d.len() && d[k] == r[i];
                    assert(v[k] == d[k]);
                }
            }
        }
        assert forall|y: u32| r.contains(y) <==> (v.contains(y) || y == x) by {
            if r.contains(y) {
                let i = choose|i: int| 0 <= i < r.len() && r[i] == y;
                if i < t.len() {
                    assert(t.contains(y));
                    if d.contains(y) {
                        let k = choose|k: int| 0 <= k < d.len() && d[k] == y;
                        assert(v[k] == y);
                    }
                } else {
                    assert(v[v.len() - 1] == y);
                }
            }
            if v.contains(y) {
                let i = choose|i: int| 0 <= i < v.len() && v[i] == y;
                if i < v.len() - 1 {
                    assert(d[i] == y);
                    assert(t.contains(y));
                    let k = choose|k: int| 0 <= k < t.len() && t[k] == y;
                    assert(r[k] == y);
                } else {
                    assert(r[r.len() - 1] == y);
                }
            }
            if y == x {
                assert(t.contains(y));
                let k = choose|k: int| 0 <= k < t.len() && t[k] == y;
                assert(r[k] == y);
            }
        }
    }
}

/// Inserting at the first place whose element is not smaller.
pub proof fn lemma_insert_sorted_at(v: Seq<u32>, x: u32, p: int)
    requires
        strictly_sorted(v),
        0 <= p <= v.len(),
        forall|i: int| 0 <= i < p ==> v[i] < x,
        p < v.len() ==> v[p] >= x,
    ensures
        p < v.len() && v[p] == x ==> insert_sorted(v, x) == v,
        !(p < v.len() && v[p] == x) ==> insert_sorted(v, x) == v.insert(p, x),
    decreases v.len(),
{
    if v.len() == 0 {
        assert(v.insert(p, x) =~= seq![x]);
    } else if v.last() < x {
        assert(p == v.len());
        assert(v.insert(p, x) =~= v.push(x));
    } else if v.last() == x {
        if p < v.len() - 1 {
            assert(v[p] < v[v.len() - 1]);
        }
    } else {
        let d = v.drop_last();
        if p == v.len() {
            assert(v[v.len() - 1] < x);
        } else if p == v.len() - 1 {
            lemma_insert_sorted_at(d, x, p);
            assert(v.insert(p, x) =~= d.insert(p, x).push(v.last()));
        } else {
            assert(d[p] == v[p]);
            lemma_insert_sorted_at(d, x, p);
            if v[p] != x {
                assert(v.insert(p, x) =~= d.insert(p, x).push(v.last()));
            } else {
                assert(v =~= d.push(v.last()));
            }
        }
    }
}

/// The row groups found for a group and window are in increasing order,
/// each once, and are exactly those that a relevant entry points to.
pub proof fn lemma_relevant_row_groups(es: Seq<SkipIndexEntry>, g: u16, start: Option<u64>, end: Option<u64>, k: int)
    requires
        0 <= k <= es.len(),
    ensures
        strictly_sorted(relevant_row_groups_upto(es, g, start, end, k)),
        forall|x: u32| relevant_row_groups_upto(es, g, start, end, k).contains(x) <==>
            exists|j: int| 0 <= j < k && skip_entry_relevant(#[trigger] es[j], g, start, end) && es[j].row_group_index == x,
    decreases k,
{
    if k > 0 {
        lemma_relevant_row_groups(es, g, start, end, k - 1);
        let v = relevant_row_groups_upto(es, g, start, end, k - 1);
        let r = relevant_row_groups_upto(es, g, start, end, k);
        if skip_entry_relevant(es[k - 1], g, start, end) {
            lemma_insert_sorted(v, es[k - 1].row_group_index);
        }
        assert forall|x: u32| r.contains(x) <==>
            exists|j: int| 0 <= j < k && skip_entry_relevant(#[trigger] es[j], g, start, end) && es[j].row_group_index == x by {
            if exists|j: int| 0 <= j < k && skip_entry_relevant(#[trigger] es[j], g, start, end) && es[j].row_group_index == x {
                let j = choose|j: int| 0 <= j < k && skip_entry_relevant(#[trigger] es[j], g, start, end) && es[j].row_group_index == x;
                if j < k - 1 {
                    assert(v.contains(x));
                }
            }
            if v.contains(x) {
                let j = choose|j: int| 0 <= j < k - 1 && skip_entry_relevant(#[trigger] es[j], g, start, end) && es[j].row_group_index == x;
                assert(0 <= j < k);
            }
        }
    }
}

/// A row group is read for a group and frame window exactly when a skip
/// entry of that group points to it whose frames overlap the window: its
/// last frame is at or after the start, when one is given, and its first
/// frame at or before the end, when one is given. They come in increasing
/// order, each once.
pub proof fn lemma_row_groups_overlap_window(es: Seq<SkipIndexEntry>, g: u16, start: Option<u64>, end: Option<u64>)
    ensures
        strictly_sorted(relevant_row_groups_upto(es, g, start, end, es.len() as int)),
        forall|x: u32| relevant_row_groups_upto(es, g, start, end, es.len() as int).contains(x) <==>
            exists|j: int| 0 <= j < es.len() && #[trigger] es[j].row_group_index == x
                && es[j].access_group == g
                && (start matches Some(s) ==> es[j].frame_end >= s)
                && (end matches Some(f) ==> es[j].frame_start <= f),
{
    lemma_relevant_row_groups(es, g, start, end, es.len() as int);
    assert forall|j: int| 0 <= j < es.len() implies (skip_entry_relevant(#[trigger] es[j], g, start, end) <==>
        (es[j].access_group == g
            && (start matches Some(s) ==> es[j].frame_end >= s)
            && (end matches Some(f) ==> es[j].frame_start <= f))) by {
    }
}

/// The row groups that the skip index points to for a group and frame
/// window, in increasing order, each once.
pub fn relevant_row_groups(entries: &[SkipIndexEntry], group: u16, start: Option<u64>, end: Option<u64>) -> (r: Vec<u32>)
    ensures
        r@ == relevant_row_groups_upto(entries@, group, start, end, entries@.len() as int),
        strictly_sorted(r@),
        forall|x: u32| r@.contains(x) <==>
            exists|j: int| 0 <= j < entries@.len() && skip_entry_relevant(#[trigger] entries@[j], group, start, end) && entries@[j].row_group_index == x,
{
    let mut v: Vec<u32> = Vec::new();
    let mut k: usize = 0;
    while k < entries.len()
        invariant
            k <= entries@.len(),
            v@ == relevant_row_groups_upto(entries@, group, start, end, k as int),
        decreases entries@.len() - k,
    {
        proof { lemma_relevant_row_groups(entries@, group, start, end, k as int); }
        let e = entries[k];
        let relevant = e.access_group == group && match (start, end) {
            (None, None) => true,
            (Some(s), None) => e.frame_end >= s,
            (None, Some(f)) => e.frame_start <= f,
            (Some(s), Some(f)) => e.frame_start <= f && e.frame_end >= s,
        };
        if relevant {
            let x = e.row_group_index;
            let mut p: usize = 0;
            while p < v.len() && v[p] < x
                invariant
                    p <= v@.len(),
                    forall|i: int| 0 <= i < p ==> v@[i] < x,
                decreases v@.len() - p,
            {
                p = p + 1;
            }
            proof { lemma_insert_sorted_at(v@, x, p as int); }
            if !(p < v.len() && v[p] == x) {
                v.insert(p, x);
            }
        }
        k = k + 1;
    }
    proof { lemma_relevant_row_groups(entries@, group, start, end, entries@.len() as int); }
    v
}

/// Where the bytes of the column with id `id` start when the skip index
/// is used: after the entries, past every column stored before the first
/// entry with that id (from entry `i` on, having reached `acc`). An offset
/// past the largest `usize` is an error.
pub open spec fn skip_column_offset(es: Seq<ColumnEntryV2>, id: u16, i: int, acc: int) -> Result<int, ErrorDesc>
    decreases es.len() - i,
{
    if i < 0 || i >= es.len() || es[i].column_id == id {
        Ok(acc)
    } else if acc + es[i].byte_len > usize::MAX {
        Err(ErrorDesc::Format("column data offset overflow"@))
    } else {
        skip_column_offset(es, id, i + 1, acc + es[i].byte_len)
    }
}

/// Decoding the first `k` columns of a group through the skip index: each
/// from the offset its id gives.
pub open spec fn spec_skip_group_columns(gb: Seq<u8>, es: Seq<ColumnEntryV2>, k: int) -> Result<Seq<(u8, u8, Seq<u64>)>, ErrorDesc>
    decreases k,
{
    if k <= 0 {
        Ok(Seq::empty())
    } else {
        match spec_skip_group_columns(gb, es, k - 1) {
            Err(d) => Err(d),
            Ok(cols) => match skip_column_offset(es, es[k - 1].column_id, 0, (4 + 40 * es.len()) as int) {
                Err(d) => Err(d),
                Ok(off) => {
                    let e_end = off + es[k - 1].byte_len;
                    if e_end > usize::MAX {
                        Err(ErrorDesc::Format("column byte length overflow"@))
                    } else if e_end > gb.len() {
                        Err(ErrorDesc::Format("column data extends past group end"@))
                    } else {
                        match spec_decode_column(gb.subrange(off, e_end), es[k - 1].crc32) {
                            Err(d) => Err(d),
                            Ok(c) => Ok(cols.push(c)),
                        }
                    }
                },
            },
        }
    }
}

/// Decoding one more column never undoes an error.
pub proof fn lemma_skip_group_columns_error_persists(gb: Seq<u8>, es: Seq<ColumnEntryV2>, j: int, k: int)
    requires
        0 <= j <= k,
        spec_skip_group_columns(gb, es, j) is Err,
    ensures
        spec_skip_group_columns(gb, es, k) == spec_skip_group_columns(gb, es, j),
    decreases k - j,
{
    if j < k {
        lemma_skip_group_columns_error_persists(gb, es, j, k - 1);
    }
}

fn skip_offset_of(es: &Vec<ColumnEntryV2>, id: u16) -> (r: TelemetryResult<usize>)
    requires
        4 + 40 * es@.len() <= usize::MAX,
    ensures
        match skip_column_offset(es@, id, 0, (4 + 40 * es@.len()) as int) {
            Ok(off) => r matches Ok(o) && o as int == off,
            Err(d) => r is Err && error_matches(r->Err_0, d),
        },
{
    let mut acc: usize = 4 + 40 * es.len();
    let mut i: usize = 0;
    while i < es.len()
        invariant
            i <= es@.len(),
            skip_column_offset(es@, id, 0, (4 + 40 * es@.len()) as int) == skip_column_offset(es@, id, i as int, acc as int),
        decreases es@.len() - i,
    {
        if es[i].column_id == id {
            return Ok(acc);
        }
        acc = match acc.checked_add(es[i].byte_len as usize) {
            Some(v) => v,
            None => {
                return Err(TelemetryError::invalid_format("column data offset overflow"));
            },
        };
        i = i + 1;
    }
    Ok(acc)
}

fn decode_skip_group_columns(gb: &[u8], es: &Vec<ColumnEntryV2>) -> (r: TelemetryResult<Vec<DecodedColumn>>)
    requires
        4 + 40 * es@.len() <= gb@.len(),
    ensures
        match spec_skip_group_columns(gb@, es@, es@.len() as int) {
            Ok(cols) => r is Ok && decoded_views(r->Ok_0@) == cols,
            Err(d) => r is Err && error_matches(r->Err_0, d),
        },
{
    let glen = gb.len();
    let mut out: Vec<DecodedColumn> = Vec::new();
    let mut k: usize = 0;
    assert(decoded_views(out@) =~= Seq::<(u8, u8, Seq<u64>)>::empty());
    while k < es.len()
        invariant
            k <= es@.len(),
            glen == gb@.len(),
            4 + 40 * es@.len() <= gb@.len(),
            spec_skip_group_columns(gb@, es@, k as int) == Ok::<Seq<(u8, u8, Seq<u64>)>, ErrorDesc>(decoded_views(out@)),
        decreases es@.len() - k,
    {
        let e = es[k];
        let off = match skip_offset_of(es, e.column_id) {
            Ok(o) => o,
            Err(err) => {
                proof { lemma_skip_group_columns_error_persists(gb@, es@, k as int + 1, es@.len() as int); }
                return Err(err);
            },
        };
        let e_end = match off.checked_add(e.byte_len as usize) {
            Some(v) => v,
            None => {
                proof { lemma_skip_group_columns_error_persists(gb@, es@, k as int + 1, es@.len() as int); }
                return Err(TelemetryError::invalid_format("column byte length overflow"));
            },
        };
        if e_end > glen {
            proof { lemma_skip_group_columns_error_persists(gb@, es@, k as int + 1, es@.len() as int); }
            return Err(TelemetryError::invalid_format("column data extends past group end"));
        }
        if off > e_end {
            return Err(TelemetryError::invalid_format("column data extends past group end"));
        }
        let c = match decode_column(slice_subrange(gb, off, e_end), e.crc32) {
            Ok(c) => c,
            Err(err) => {
                proof { lemma_skip_group_columns_error_persists(gb@, es@, k as int + 1, es@.len() as int); }
                return Err(err);
            },
        };
        proof { lemma_decoded_views_push(out@, c); }
        out.push(c);
        k = k + 1;
    }
    Ok(out)
}

/// What the row group at `offset` holds of group `g` when read through
/// the skip index: nothing when it has no such group; a group that runs
/// past the file is an error.
pub open spec fn spec_skip_row_group(d: Seq<u8>, offset: int, g: u16) -> Result<Option<Seq<(u8, u8, Seq<u64>)>>, ErrorDesc> {
    match spec_read_row_group_header(d.subrange(offset, d.len() as int)) {
        Err(e) => Err(e),
        Ok((h, _)) => match spec_find_group(h.groups, g, h.groups.len() as int) {
            None => Ok(None),
            Some(ge) => {
                let gs = offset + ge.offset;
                let ge_end = gs + ge.byte_len;
                if ge_end > d.len() {
                    Err(ErrorDesc::Format("group data past eof"@))
                } else {
                    let gb = d.subrange(gs, ge_end);
                    match spec_group_entries(gb) {
                        Err(e) => Err(e),
                        Ok(es) => match spec_skip_group_columns(gb, es, es.len() as int) {
                            Err(e) => Err(e),
                            Ok(cols) => Ok(Some(cols)),
                        },
                    }
                }
            },
        },
    }
}

fn skip_row_group(data: &[u8], offset: usize, g: u16) -> (r: TelemetryResult<Option<Vec<DecodedColumn>>>)
    requires
        offset <= data@.len(),
    ensures
        match spec_skip_row_group(data@, offset as int, g) {
            Ok(None) => r matches Ok(None),
            Ok(Some(cols)) => r matches Ok(Some(got)) && decoded_views(got@) == cols,
            Err(d) => r is Err && error_matches(r->Err_0, d),
        },
{
    let len = data.len();
    let mut reader = ByteReader::new(slice_subrange(data, offset, len));
    let h = RowGroupHeader::read_from(&mut reader)?;
    let ge = match find_group(&h.groups, g) {
        Some(ge) => ge,
        None => {
            return Ok(None);
        },
    };
    if ge.offset as usize > len - offset {
        return Err(TelemetryError::invalid_format("group data past eof"));
    }
    let gs = offset + ge.offset as usize;
    if ge.byte_len as usize > len - gs {
        return Err(TelemetryError::invalid_format("group data past eof"));
    }
    let ge_end = gs + ge.byte_len as usize;
    let gb = slice_subrange(data, gs, ge_end);
    let es = read_group_entries(gb)?;
    let cols = decode_skip_group_columns(gb, &es)?;
    Ok(Some(cols))
}

/// The columns of each listed row group that holds group `g`, for the
/// first `k` row-group numbers (numbers past the last row group are
/// passed over).
pub open spec fn spec_skip_row_groups(d: Seq<u8>, offsets: Seq<u64>, idxs: Seq<u32>, g: u16, k: int)
    -> Result<Seq<Seq<(u8, u8, Seq<u64>)>>, ErrorDesc>
    decreases k,
{
    if k <= 0 {
        Ok(Seq::empty())
    } else {
        match spec_skip_row_groups(d, offsets, idxs, g, k - 1) {
            Err(e) => Err(e),
            Ok(per) => {
                let i = idxs[k - 1] as int;
                if i >= offsets.len() {
                    Ok(per)
                } else {
                    match spec_skip_row_group(d, offsets[i] as int, g) {
                        Err(e) => Err(e),
                        Ok(None) => Ok(per),
                        Ok(Some(cols)) => Ok(per.push(cols)),
                    }
                }
            },
        }
    }
}

/// Reading one more row group never undoes an error.
pub proof fn lemma_skip_row_groups_error_persists(d: Seq<u8>, offsets: Seq<u64>, idxs: Seq<u32>, g: u16, j: int, k: int)
    requires
        0 <= j <= k,
        spec_skip_row_groups(d, offsets, idxs, g, j) is Err,
    ensures
        spec_skip_row_groups(d, offsets, idxs, g, k) == spec_skip_row_groups(d, offsets, idxs, g, j),
    decreases k - j,
{
    if j < k {
        lemma_skip_row_groups_error_persists(d, offsets, idxs, g, j, k - 1);
    }
}

/// Merging the columns of the first `r` row groups into `n` columns: each
/// column gets, in turn, the piece of every row group that has it.
pub open spec fn merge_upto(per: Seq<Seq<(u8, u8, Seq<u64>)>>, n: nat, r: int) -> Seq<Seq<(u8, u8, Seq<u64>)>>
    decreases r,
{
    if r <= 0 {
        Seq::new(n, |i: int| Seq::<(u8, u8, Seq<u64>)>::empty())
    } else {
        let m = merge_upto(per, n, r - 1);
        Seq::new(n, |ci: int| if ci < per[r - 1].len() { m[ci].push(per[r - 1][ci]) } else { m[ci] })
    }
}

/// The merged columns: as many as the first row group has.
pub open spec fn merge_row_groups(per: Seq<Seq<(u8, u8, Seq<u64>)>>) -> Seq<Seq<(u8, u8, Seq<u64>)>> {
    if per.len() == 0 { Seq::empty() } else { merge_upto(per, per[0].len(), per.len() as int) }
}

proof fn lemma_merge_upto_columns(per: Seq<Seq<(u8, u8, Seq<u64>)>>, n: nat, r: int)
    requires
        0 <= r <= per.len(),
        forall|j: int| 0 <= j < per.len() ==> #[trigger] per[j].len() >= n,
    ensures
        merge_upto(per, n, r).len() == n,
        forall|ci: int| 0 <= ci < n ==> #[trigger] merge_upto(per, n, r)[ci] == Seq::new(r as nat, |j: int| per[j][ci]),
    decreases r,
{
    if r > 0 {
        lemma_merge_upto_columns(per, n, r - 1);
        assert forall|ci: int| 0 <= ci < n implies #[trigger] merge_upto(per, n, r)[ci] == Seq::new(r as nat, |j: int| per[j][ci]) by {
            assert(per[r - 1].len() >= n);
            assert(merge_upto(per, n, r)[ci] =~= Seq::new(r as nat, |j: int| per[j][ci]));
        }
    } else {
        assert forall|ci: int| 0 <= ci < n implies #[trigger] merge_upto(per, n, r)[ci] == Seq::new(r as nat, |j: int| per[j][ci]) by {
            assert(merge_upto(per, n, r)[ci] =~= Seq::new(r as nat, |j: int| per[j][ci]));
        }
    }
}

/// Merging row groups that hold the same columns gives, for each column,
/// its piece from every row group in row-group order.
pub proof fn lemma_merge_concatenates_row_groups(per: Seq<Seq<(u8, u8, Seq<u64>)>>)
    requires
        per.len() > 0,
        forall|j: int| 0 <= j < per.len() ==> #[trigger] per[j].len() == per[0].len(),
    ensures
        merge_row_groups(per).len() == per[0].len(),
        forall|ci: int| 0 <= ci < per[0].len() ==> #[trigger] merge_row_groups(per)[ci] == Seq::new(per.len(), |j: int| per[j][ci]),
{
    lemma_merge_upto_columns(per, per[0].len(), per.len() as int);
}

fn merge_columns(per: Vec<Vec<DecodedColumn>>) -> (r: Vec<Vec<DecodedColumn>>)
    ensures
        columns_view(r@) == merge_row_groups(columns_view(per@)),
{
    let ghost pv = columns_view(per@);
    if per.len() == 0 {
        let r: Vec<Vec<DecodedColumn>> = Vec::new();
        assert(columns_view(r@) =~= merge_row_groups(pv));
        return r;
    }
    let n = per[0].len();
    assert(pv[0].len() == per@[0]@.len());
    let mut merged: Vec<Vec<DecodedColumn>> = Vec::new();
    let mut j: usize = 0;
    while j < n
        invariant
            j <= n,
            columns_view(merged@) == Seq::new(j as nat, |i: int| Seq::<(u8, u8, Seq<u64>)>::empty()),
        decreases n - j,
    {
        let v: Vec<DecodedColumn> = Vec::new();
        assert(decoded_views(v@) =~= Seq::<(u8, u8, Seq<u64>)>::empty());
        proof { lemma_columns_view_push(merged@, v); }
        merged.push(v);
        j = j + 1;
        assert(columns_view(merged@) =~= Seq::new(j as nat, |i: int| Seq::<(u8, u8, Seq<u64>)>::empty()));
    }
    let total_len = per.len();
    let ghost total = per@.len();
    let mut rest = per;
    let mut r: usize = 0;
    assert(columns_view(rest@) =~= pv.subrange(0, total as int));
    while rest.len() > 0
        invariant
            r + rest@.len() == total,
            total == total_len,
            pv.len() == total,
            n == pv[0].len(),
            columns_view(rest@) == pv.subrange(r as int, total as int),
            merged@.len() == n,
            columns_view(merged@) == merge_upto(pv, n as nat, r as int),
        decreases rest@.len(),
    {
        let ghost old_rest = rest@;
        let mut rg = rest.remove(0);
        proof {
            assert(columns_view(old_rest)[0] == decoded_views(rg@));
            assert(rest@ =~= old_rest.subrange(1, old_rest.len() as int));
            lemma_columns_view_subrange(old_rest, 1, old_rest.len() as int);
            assert(columns_view(rest@) =~= pv.subrange(r as int + 1, total as int));
        }
        let ghost rgv = decoded_views(rg@);
        assert(rgv == pv[r as int]);
        let ghost m0 = columns_view(merged@);
        let mut ci: usize = 0;
        let rl = rg.len();
        let ghost rg_len = rg@.len();
        assert(rgv.len() == rg_len);
        while rg.len() > 0
            invariant
                ci + rg@.len() == rg_len,
                rg_len == rl,
                rgv.len() == rg_len,
                decoded_views(rg@) == rgv.subrange(ci as int, rg_len as int),
                merged@.len() == n,
                m0.len() == n,
                columns_view(merged@) == Seq::new(n as nat, |c: int|
                    if c < ci && c < rgv.len() { m0[c].push(rgv[c]) } else { m0[c] }),
            decreases rg@.len(),
        {
            let ghost old_rg = rg@;
            assert(decoded_views(old_rg).len() == old_rg.len());
            let c = rg.remove(0);
            proof {
                assert(decoded_views(old_rg)[0] == decoded_view(c));
                assert(decoded_views(old_rg)[0] == rgv[ci as int]);
                assert(rg@ =~= old_rg.subrange(1, old_rg.len() as int));
                lemma_decoded_views_subrange(old_rg, 1, old_rg.len() as int);
                assert(decoded_views(rg@) =~= rgv.subrange(ci as int + 1, rg_len as int));
            }
            let ghost before = merged@;
            if ci < merged.len() {
                merged[ci].push(c);
                proof {
                    lemma_decoded_views_push(before[ci as int]@, c);
                    assert(columns_view(merged@) =~= columns_view(before).update(ci as int, columns_view(before)[ci as int].push(rgv[ci as int])));
                }
            }
            assert(columns_view(merged@) =~= Seq::new(n as nat, |c: int|
                if c < ci + 1 && c < rgv.len() { m0[c].push(rgv[c]) } else { m0[c] }));
            ci = ci + 1;
        }
        assert(columns_view(merged@) =~= merge_upto(pv, n as nat, r as int + 1));
        r = r + 1;
    }
    assert(pv.len() > 0);
    merged
}

/// Reading group `g` of a recording for a frame window. Through the skip
/// index when it points to row groups for it, merging their columns;
/// otherwise from every row group, or nothing when there are none.
pub open spec fn spec_read_group_columns(d: Seq<u8>, offsets: Seq<u64>, skip: Seq<SkipIndexEntry>, g: u16,
    start: Option<u64>, end: Option<u64>) -> Result<Option<Seq<Seq<(u8, u8, Seq<u64>)>>>, ErrorDesc>
{
    let idxs = relevant_row_groups_upto(skip, g, start, end, skip.len() as int);
    if idxs.len() == 0 {
        if offsets.len() == 0 {
            Ok(None)
        } else {
            match spec_group_from_row_groups(d, offsets, g, start, end, offsets.len() as int) {
                Err(e) => Err(e),
                Ok(cols) => Ok(Some(cols)),
            }
        }
    } else {
        match spec_skip_row_groups(d, offsets, idxs, g, idxs.len() as int) {
            Err(e) => Err(e),
            Ok(per) => Ok(Some(merge_row_groups(per))),
        }
    }
}

fn skip_row_groups(data: &[u8], offsets: &[u64], idxs: &Vec<u32>, g: u16) -> (r: TelemetryResult<Vec<Vec<DecodedColumn>>>)
    requires
        forall|i: int| 0 <= i < offsets@.len() ==> offsets@[i] < data@.len(),
    ensures
        match spec_skip_row_groups(data@, offsets@, idxs@, g, idxs@.len() as int) {
            Ok(per) => r is Ok && columns_view(r->Ok_0@) == per,
            Err(d) => r is Err && error_matches(r->Err_0, d),
        },
{
    let dlen = data.len();
    let mut per: Vec<Vec<DecodedColumn>> = Vec::new();
    let mut k: usize = 0;
    assert(columns_view(per@) =~= Seq::<Seq<(u8, u8, Seq<u64>)>>::empty());
    while k < idxs.len()
        invariant
            k <= idxs@.len(),
            dlen == data@.len(),
            forall|i: int| 0 <= i < offsets@.len() ==> offsets@[i] < data@.len(),
            spec_skip_row_groups(data@, offsets@, idxs@, g, k as int) == Ok::<Seq<Seq<(u8, u8, Seq<u64>)>>, ErrorDesc>(columns_view(per@)),
        decreases idxs@.len() - k,
    {
        let i = idxs[k] as usize;
        if i < offsets.len() {
            let o = offsets[i];
            assert(o < dlen);
            match skip_row_group(data, o as usize, g) {
                Ok(None) => {},
                Ok(Some(cols)) => {
                    proof { lemma_columns_view_push(per@, cols); }
                    per.push(cols);
                },
                Err(err) => {
                    proof { lemma_skip_row_groups_error_persists(data@, offsets@, idxs@, g, k as int + 1, idxs@.len() as int); }
                    return Err(err);
                },
            }
        }
        k = k + 1;
    }
    Ok(per)
}

impl BinaryTelemetryReaderV2 {
    /// Read access group `group` for a frame window (an end that is not
    /// given does not limit it): per column, its decoded pieces in row-group
    /// order. Nothing when the skip index points nowhere for it and the
    /// recording has no row group.
    pub fn read_group_columns(&self, group: GroupId, start: Option<u64>, end: Option<u64>)
        -> (r: TelemetryResult<Option<Vec<Vec<DecodedColumn>>>>)
        requires
            self.wf(),
        ensures
            match spec_read_group_columns(self.data(), self.opened().row_group_offsets, self.opened().skip_entries,
                group.id_value(), start, end) {
                Ok(None) => r matches Ok(None),
                Ok(Some(cols)) => r matches Ok(Some(got)) && columns_view(got@) == cols,
                Err(d) => r is Err && error_matches(r->Err_0, d),
            },
    {
        proof {
            let b = self.bytes@;
            let h = FileHeaderV2::spec_read(b)->Ok_0.0;
            lemma_scan_offsets_within(b, h.first_row_group_offset as int, Seq::empty(), 0);
        }
        let g = group.as_u16();
        let idxs = relevant_row_groups(self.skip_entries.as_slice(), g, start, end);
        if idxs.len() == 0 {
            if self.row_group_offsets.len() == 0 {
                return Ok(None);
            }
            let cols = group_from_row_groups(self.bytes.as_slice(), self.row_group_offsets.as_slice(), g, start, end)?;
            return Ok(Some(cols));
        }
        let per = skip_row_groups(self.bytes.as_slice(), self.row_group_offsets.as_slice(), &idxs, g)?;
        Ok(Some(merge_columns(per)))
    }

    /// Where column `col_id` stands among the columns of group `group` in
    /// the schema: its first place in the first definition of the group.
    pub fn find_column_index_in_group(&self, group: GroupId, col_id: u16) -> (r: Option<usize>)
        requires
            self.wf(),
        ensures
            r matches Some(i) ==> spec_column_index_in_group(self.opened().schema, group.id_value(), col_id) == Some(i as int),
            r is None ==> spec_column_index_in_group(self.opened().schema, group.id_value(), col_id) is None,
    {
        let g = group.as_u16();
        let ghost sv = self.schema@;
        assert(sv == self.opened().schema);
        let groups = &self.schema.groups;
        let mut i: usize = 0;
        while i < groups.len()
            invariant
                i <= groups@.len(),
                sv == groups@.map_values(|d: crate::format_v2::SchemaGroupDefV2| d@),
                sv == self.opened().schema,
                g == group.id_value(),
                spec_find_schema_group(sv, g, i as int) is None,
            decreases groups@.len() - i,
        {
            if groups[i].group_id == g {
                proof {
                    assert(sv[i as int] == groups@[i as int]@);
                    assert(spec_find_schema_group(sv, g, i as int + 1) == Some(sv[i as int]));
                    lemma_find_schema_group_stays(sv, g, i as int + 1, sv.len() as int);
                }
                let cols = &groups[i].columns;
                let ghost cv = sv[i as int].columns;
                assert(cv == cols@.map_values(|c: crate::format_v2::SchemaColumnDefV2| c@));
                assert(cv.len() == cols@.len());
                assert(spec_column_index_in_group(self.opened().schema, group.id_value(), col_id)
                    == schema_column_position(cv, col_id, cv.len() as int));
                let mut j: usize = 0;
                while j < cols.len()
                    invariant
                        j <= cols@.len(),
                        cv == cols@.map_values(|c: crate::format_v2::SchemaColumnDefV2| c@),
                        schema_column_position(cv, col_id, j as int) is None,
                        spec_column_index_in_group(self.opened().schema, group.id_value(), col_id)
                            == schema_column_position(cv, col_id, cv.len() as int),
                    decreases cols@.len() - j,
                {
                    if cols[j].column_id == col_id {
                        proof {
                            assert(cv[j as int] == cols@[j as int]@);
                            lemma_schema_column_position_stays(cv, col_id, j as int + 1, cv.len() as int);
                        }
                        return Some(j);
                    }
                    assert(cv[j as int] == cols@[j as int]@);
                    j = j + 1;
                }
                return None;
            }
            assert(sv[i as int] == groups@[i as int]@);
            i = i + 1;
        }
        None
    }
}

/// The first of the first `k` group definitions of a schema with id `g`.
pub open spec fn spec_find_schema_group(schema: Seq<SchemaGroupView>, g: u16, k: int) -> Option<SchemaGroupView>
    decreases k,
{
    if k <= 0 {
        None
    } else {
        match spec_find_schema_group(schema, g, k - 1) {
            Some(d) => Some(d),
            None => if schema[k - 1].group_id == g { Some(schema[k - 1]) } else { None },
        }
    }
}

/// Once found, a group definition stays the one found.
proof fn lemma_find_schema_group_stays(schema: Seq<SchemaGroupView>, g: u16, j: int, k: int)
    requires
        0 <= j <= k,
        spec_find_schema_group(schema, g, j) is Some,
    ensures
        spec_find_schema_group(schema, g, k) == spec_find_schema_group(schema, g, j),
    decreases k - j,
{
    if j < k {
        lemma_find_schema_group_stays(schema, g, j, k - 1);
    }
}

/// The first of the first `k` columns of a group definition with id `id`.
pub open spec fn schema_column_position(cols: Seq<crate::format_v2::SchemaColumnView>, id: u16, k: int) -> Option<int>
    decreases k,
{
    if k <= 0 {
        None
    } else {
        match schema_column_position(cols, id, k - 1) {
            Some(j) => Some(j),
            None => if cols[k - 1].column_id == id { Some(k - 1) } else { None },
        }
    }
}

/// Once found, a column position stays the one found.
proof fn lemma_schema_column_position_stays(cols: Seq<crate::format_v2::SchemaColumnView>, id: u16, j: int, k: int)
    requires
        0 <= j <= k,
        schema_column_position(cols, id, j) is Some,
    ensures
        schema_column_position(cols, id, k) == schema_column_position(cols, id, j),
    decreases k - j,
{
    if j < k {
        lemma_schema_column_position_stays(cols, id, j, k - 1);
    }
}

/// Where column `col_id` first stands in the first definition of group `g`.
pub open spec fn spec_column_index_in_group(schema: Seq<SchemaGroupView>, g: u16, col_id: u16) -> Option<int> {
    match spec_find_schema_group(schema, g, schema.len() as int) {
        None => None,
        Some(d) => schema_column_position(d.columns, col_id, d.columns.len() as int),
    }
}

/// The group definition found is the first one of that group.
proof fn lemma_find_schema_group_first(schema: Seq<SchemaGroupView>, g: u16, k: int)
    requires
        0 <= k <= schema.len(),
    ensures
        spec_find_schema_group(schema, g, k) is None <==> forall|j: int| 0 <= j < k ==> #[trigger] schema[j].group_id != g,
        spec_find_schema_group(schema, g, k) matches Some(d) ==> exists|i: int| 0 <= i < k && #[trigger] schema[i] == d
            && d.group_id == g && forall|j: int| 0 <= j < i ==> #[trigger] schema[j].group_id != g,
    decreases k,
{
    if k > 0 {
        lemma_find_schema_group_first(schema, g, k - 1);
        if spec_find_schema_group(schema, g, k - 1) is None && schema[k - 1].group_id == g {
            assert(schema[k - 1] == spec_find_schema_group(schema, g, k)->Some_0);
        }
    }
}

/// The column position found is the first one of that column.
proof fn lemma_schema_column_position_first(cols: Seq<crate::format_v2::SchemaColumnView>, id: u16, k: int)
    requires
        0 <= k <= cols.len(),
    ensures
        schema_column_position(cols, id, k) is None <==> forall|j: int| 0 <= j < k ==> #[trigger] cols[j].column_id != id,
        schema_column_position(cols, id, k) matches Some(i) ==> 0 <= i < k && cols[i].column_id == id
            && forall|j: int| 0 <= j < i ==> #[trigger] cols[j].column_id != id,
    decreases k,
{
    if k > 0 {
        lemma_schema_column_position_first(cols, id, k - 1);
    }
}

/// Where a column stands in a group: in the first definition of the group
/// in the schema, the first place that holds the column. There is none
/// when the schema does not define the group, or its first definition
/// lacks the column.
pub proof fn lemma_column_index_is_first_place(schema: Seq<SchemaGroupView>, g: u16, col_id: u16)
    ensures
        spec_column_index_in_group(schema, g, col_id) matches Some(i) ==> exists|gi: int|
            0 <= gi < schema.len() && #[trigger] schema[gi].group_id == g
            && (forall|j: int| 0 <= j < gi ==> #[trigger] schema[j].group_id != g)
            && 0 <= i < schema[gi].columns.len() && schema[gi].columns[i].column_id == col_id
            && (forall|j: int| 0 <= j < i ==> #[trigger] schema[gi].columns[j].column_id != col_id),
        spec_column_index_in_group(schema, g, col_id) is None ==>
            (forall|j: int| 0 <= j < schema.len() ==> #[trigger] schema[j].group_id != g)
            || exists|gi: int| 0 <= gi < schema.len() && #[trigger] schema[gi].group_id == g
                && (forall|j: int| 0 <= j < gi ==> #[trigger] schema[j].group_id != g)
                && (forall|j: int| 0 <= j < schema[gi].columns.len() ==> #[trigger] schema[gi].columns[j].column_id != col_id),
{
    lemma_find_schema_group_first(schema, g, schema.len() as int);
    if let Some(d) = spec_find_schema_group(schema, g, schema.len() as int) {
        lemma_schema_column_position_first(d.columns, col_id, d.columns.len() as int);
        let gi = choose|i: int| 0 <= i < schema.len() && #[trigger] schema[i] == d
            && d.group_id == g && forall|j: int| 0 <= j < i ==> #[trigger] schema[j].group_id != g;
        assert(schema[gi].group_id == g);
    }
}

/// The column a stored item names, or why it names none: a raw item whose
/// path names no column, or a calculated or system item, which are never
/// stored.
pub open spec fn spec_item_column(t: ItemType, name: Seq<char>) -> Result<ColumnId, ErrorDesc> {
    match t {
        ItemType::Raw => match column_for_leaf(path_leaf(name)) {
            Some(c) => Ok(c),
            None => Err(ErrorDesc::Argument("unknown raw column path: "@ + name)),
        },
        ItemType::Calculated => Err(ErrorDesc::Argument(
            "calc:* items are computed at read time by ComputeRegistry, not stored in acctlm2"@)),
        ItemType::System => Err(ErrorDesc::Argument("system:* items are not stored in acctlm2"@)),
    }
}

/// The stored column that an item key names.
pub fn item_column(key: &ItemKey) -> (r: TelemetryResult<ColumnId>)
    ensures
        match spec_item_column(key.item_type, key.name@) {
            Ok(c) => r matches Ok(d) && d == c,
            Err(d) => r is Err && error_matches(r->Err_0, d),
        },
{
    match key.item_type {
        ItemType::Raw => match path_to_column_id(key.name.as_str()) {
            Some(c) => Ok(c),
            None => {
                let mut m = String::from_str("unknown raw column path: ");
                m.append(key.name.as_str());
                Err(TelemetryError::InvalidArgument(m))
            },
        },
        ItemType::Calculated => Err(TelemetryError::InvalidArgument(String::from_str(
            "calc:* items are computed at read time by ComputeRegistry, not stored in acctlm2"))),
        ItemType::System => Err(TelemetryError::InvalidArgument(String::from_str("system:* items are not stored in acctlm2"))),
    }
}

} // verus!
