use module_live_telemetry::format_v2::ColumnId;
use module_live_telemetry::reader_v2::path_to_column_id;


#[test]
fn test_path_to_col_controls() {
    assert_eq!(path_to_column_id("speed_kmh"), Some(ColumnId::SpeedKmh));
    assert_eq!(
        path_to_column_id("controls.speed_kmh"),
        Some(ColumnId::SpeedKmh)
    );
    assert_eq!(path_to_column_id("gas"), Some(ColumnId::Gas));
    assert_eq!(path_to_column_id("brake"), Some(ColumnId::Brake));
    assert_eq!(path_to_column_id("clutch"), Some(ColumnId::Clutch));
    assert_eq!(path_to_column_id("steer_angle"), Some(ColumnId::SteerAngle));
    assert_eq!(path_to_column_id("gear"), Some(ColumnId::Gear));
    assert_eq!(path_to_column_id("rpms"), Some(ColumnId::Rpms));
    assert_eq!(path_to_column_id("fuel"), Some(ColumnId::Fuel));
}

#[test]
fn test_path_to_col_motion() {
    assert_eq!(path_to_column_id("velocity"), Some(ColumnId::Velocity));
    assert_eq!(path_to_column_id("acc_g"), Some(ColumnId::AccG));
    assert_eq!(path_to_column_id("heading"), Some(ColumnId::Heading));
    assert_eq!(path_to_column_id("pitch"), Some(ColumnId::Pitch));
    assert_eq!(path_to_column_id("roll"), Some(ColumnId::Roll));
    assert_eq!(
        path_to_column_id("local_velocity"),
        Some(ColumnId::LocalVelocity)
    );
    assert_eq!(
        path_to_column_id("local_angular_vel"),
        Some(ColumnId::LocalAngularVel)
    );
}

#[test]
fn test_path_to_col_tyres() {
    assert_eq!(path_to_column_id("wheel_slip"), Some(ColumnId::WheelSlip));
    assert_eq!(path_to_column_id("wheel_load"), Some(ColumnId::WheelLoad));
    assert_eq!(
        path_to_column_id("wheels_pressure"),
        Some(ColumnId::WheelsPressure)
    );
    assert_eq!(path_to_column_id("tyre_wear"), Some(ColumnId::TyreWear));
    assert_eq!(path_to_column_id("brake_temp"), Some(ColumnId::BrakeTemp));
    assert_eq!(
        path_to_column_id("number_of_tyres_out"),
        Some(ColumnId::NumberOfTyresOut)
    );
}

#[test]
fn test_path_to_col_powertrain() {
    assert_eq!(path_to_column_id("turbo_boost"), Some(ColumnId::TurboBoost));
    assert_eq!(path_to_column_id("kers_charge"), Some(ColumnId::KersCharge));
    assert_eq!(
        path_to_column_id("drs_available"),
        Some(ColumnId::DrsAvailable)
    );
    assert_eq!(
        path_to_column_id("ers_recovery_level"),
        Some(ColumnId::ErsRecoveryLevel)
    );
    assert_eq!(path_to_column_id("water_temp"), Some(ColumnId::WaterTemp));
}

#[test]
fn test_path_to_col_session() {
    assert_eq!(path_to_column_id("status"), Some(ColumnId::Status));
    assert_eq!(path_to_column_id("session"), Some(ColumnId::Session));
    assert_eq!(
        path_to_column_id("completed_laps"),
        Some(ColumnId::CompletedLaps)
    );
    assert_eq!(path_to_column_id("is_in_pit"), Some(ColumnId::IsInPit));
    assert_eq!(
        path_to_column_id("global_yellow"),
        Some(ColumnId::GlobalYellow)
    );
}

#[test]
fn test_path_to_col_timing() {
    assert_eq!(
        path_to_column_id("i_current_time"),
        Some(ColumnId::ICurrentTime)
    );
    assert_eq!(path_to_column_id("i_last_time"), Some(ColumnId::ILastTime));
    assert_eq!(path_to_column_id("i_best_time"), Some(ColumnId::IBestTime));
    assert_eq!(path_to_column_id("i_split"), Some(ColumnId::ISplit));
    assert_eq!(
        path_to_column_id("fuel_estimated_laps"),
        Some(ColumnId::FuelEstimatedLaps)
    );
}

#[test]
fn test_path_to_col_car_state() {
    assert_eq!(path_to_column_id("car_damage"), Some(ColumnId::CarDamage));
    assert_eq!(path_to_column_id("cg_height"), Some(ColumnId::CgHeight));
    assert_eq!(path_to_column_id("brake_bias"), Some(ColumnId::BrakeBias));
    assert_eq!(path_to_column_id("engine_map"), Some(ColumnId::EngineMap));
    assert_eq!(
        path_to_column_id("exhaust_temperature"),
        Some(ColumnId::ExhaustTemperature)
    );
}

#[test]
fn test_path_to_col_environment() {
    assert_eq!(path_to_column_id("air_density"), Some(ColumnId::AirDensity));
    assert_eq!(path_to_column_id("air_temp"), Some(ColumnId::AirTemp));
    assert_eq!(path_to_column_id("road_temp"), Some(ColumnId::RoadTemp));
    assert_eq!(path_to_column_id("wind_speed"), Some(ColumnId::WindSpeed));
    assert_eq!(
        path_to_column_id("rain_intensity"),
        Some(ColumnId::RainIntensity)
    );
}

#[test]
fn test_path_to_col_frame_meta() {
    assert_eq!(path_to_column_id("sample_tick"), Some(ColumnId::SampleTick));
    assert_eq!(
        path_to_column_id("timestamp_ns"),
        Some(ColumnId::TimestampNs)
    );
    assert_eq!(
        path_to_column_id("physics_packet_id"),
        Some(ColumnId::PhysicsPacketId)
    );
    assert_eq!(
        path_to_column_id("graphics_packet_id"),
        Some(ColumnId::GraphicsPacketId)
    );
}

#[test]
fn test_path_to_col_unknown() {
    assert_eq!(path_to_column_id("nonexistent_field"), None);
    assert_eq!(path_to_column_id(""), None);
    assert_eq!(path_to_column_id("foo.bar.baz"), None);
}

#[test]
fn test_path_to_col_alias() {
    // tc → TcPhysics alias
    assert_eq!(path_to_column_id("tc"), Some(ColumnId::TcPhysics));
    assert_eq!(path_to_column_id("tc_physics"), Some(ColumnId::TcPhysics));
    assert_eq!(path_to_column_id("abs"), Some(ColumnId::AbsPhysics));
    assert_eq!(path_to_column_id("abs_physics"), Some(ColumnId::AbsPhysics));
}

#[test]
fn path_leaf_is_last_segment() {
    assert_eq!(path_to_column_id("a.b.rpms"), Some(ColumnId::Rpms));
    assert_eq!(path_to_column_id("rpms."), None);
    assert_eq!(path_to_column_id(".gear"), Some(ColumnId::Gear));
}
