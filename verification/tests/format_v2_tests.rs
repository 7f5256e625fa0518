use module_live_telemetry::codec::ByteReader;
use module_live_telemetry::format_v2::{
    column_group, ColumnEntryV2, ColumnId, FileHeaderV2, FooterV2, GroupEntryV2, GroupId,
    LapIndexEntryV2, RowGroupHeader, SchemaBlockV2, SchemaColumnDefV2, SchemaGroupDefV2,
    SkipIndexEntry, COLUMN_ENTRY_V2_SIZE, HEADER_V2_SIZE, TYPE_F32, TYPE_F64,
};

#[test]
fn test_frame_meta_group() {
    assert_eq!(column_group(ColumnId::SampleTick), GroupId::FrameMeta);
    assert_eq!(column_group(ColumnId::TimestampNs), GroupId::FrameMeta);
    assert_eq!(column_group(ColumnId::PhysicsPacketId), GroupId::FrameMeta);
    assert_eq!(column_group(ColumnId::GraphicsPacketId), GroupId::FrameMeta);
}

#[test]
fn test_driver_inputs_group() {
    assert_eq!(column_group(ColumnId::SpeedKmh), GroupId::DriverInputs);
    assert_eq!(column_group(ColumnId::Gas), GroupId::DriverInputs);
    assert_eq!(column_group(ColumnId::Brake), GroupId::DriverInputs);
    assert_eq!(column_group(ColumnId::Gear), GroupId::DriverInputs);
    assert_eq!(column_group(ColumnId::TurboBoost), GroupId::DriverInputs);
    assert_eq!(column_group(ColumnId::Drs), GroupId::DriverInputs);
    assert_eq!(column_group(ColumnId::KersCharge), GroupId::DriverInputs);
    assert_eq!(column_group(ColumnId::EngineBrake), GroupId::DriverInputs);
}

#[test]
fn test_vehicle_dynamics_group() {
    assert_eq!(column_group(ColumnId::Velocity), GroupId::VehicleDynamics);
    assert_eq!(column_group(ColumnId::AccG), GroupId::VehicleDynamics);
    assert_eq!(column_group(ColumnId::Heading), GroupId::VehicleDynamics);
    assert_eq!(column_group(ColumnId::Roll), GroupId::VehicleDynamics);
}

#[test]
fn test_tyres_group() {
    assert_eq!(column_group(ColumnId::WheelSlip), GroupId::Tyres);
    assert_eq!(column_group(ColumnId::TyreWear), GroupId::Tyres);
    assert_eq!(column_group(ColumnId::BrakeTemp), GroupId::Tyres);
    assert_eq!(column_group(ColumnId::NumberOfTyresOut), GroupId::Tyres);
}

#[test]
fn test_timing_group() {
    assert_eq!(column_group(ColumnId::ICurrentTime), GroupId::Timing);
    assert_eq!(column_group(ColumnId::IDeltaLapTime), GroupId::Timing);
    assert_eq!(column_group(ColumnId::Position), GroupId::Timing);
    assert_eq!(column_group(ColumnId::CompletedLaps), GroupId::Timing);
    assert_eq!(column_group(ColumnId::IsInPit), GroupId::Timing);
}

#[test]
fn test_environment_group() {
    assert_eq!(column_group(ColumnId::Status), GroupId::Environment);
    assert_eq!(column_group(ColumnId::Session), GroupId::Environment);
    assert_eq!(column_group(ColumnId::SessionTimeLeft), GroupId::Environment);
    assert_eq!(column_group(ColumnId::AirTemp), GroupId::Environment);
    assert_eq!(column_group(ColumnId::RainIntensity), GroupId::Environment);
}

#[test]
fn test_cold_storage_group() {
    assert_eq!(column_group(ColumnId::IsInPitLane), GroupId::ColdStorage);
    assert_eq!(column_group(ColumnId::PenaltyTime), GroupId::ColdStorage);
    assert_eq!(column_group(ColumnId::GlobalYellow), GroupId::ColdStorage);
    assert_eq!(column_group(ColumnId::CarDamage), GroupId::ColdStorage);
    assert_eq!(column_group(ColumnId::CgHeight), GroupId::ColdStorage);
    assert_eq!(column_group(ColumnId::TcLevel), GroupId::ColdStorage);
    assert_eq!(column_group(ColumnId::ActiveCars), GroupId::ColdStorage);
    assert_eq!(column_group(ColumnId::CarId), GroupId::ColdStorage);
}

#[test]
fn test_all_variants_resolve() {
    let cases: &[(ColumnId, GroupId)] = &[
        (ColumnId::SampleTick, GroupId::FrameMeta),
        (ColumnId::GraphicsPacketId, GroupId::FrameMeta),
        (ColumnId::Fuel, GroupId::DriverInputs),
        (ColumnId::WaterTemp, GroupId::DriverInputs),
        (ColumnId::LocalAngularVel, GroupId::VehicleDynamics),
        (ColumnId::RearBrakeCompound, GroupId::Tyres),
        (ColumnId::ObservedSlotBeforeISplit, GroupId::Timing),
        (ColumnId::IsValidLap, GroupId::Timing),
        (ColumnId::NormalizedCarPosition, GroupId::Timing),
        (ColumnId::RainIntensityIn30min, GroupId::Environment),
        (ColumnId::ReplayTimeMultiplier, GroupId::Environment),
        (ColumnId::AbsVibrations, GroupId::ColdStorage),
        (ColumnId::PlayerCarId, GroupId::ColdStorage),
    ];
    for &(col, expected) in cases {
        assert_eq!(column_group(col), expected, "Mismatch for {col:?}");
    }
}

#[test]
fn test_column_id_repr() {
    assert_eq!(ColumnId::SampleTick.as_u16(), 1);
    assert_eq!(ColumnId::SpeedKmh.as_u16(), 10);
    assert_eq!(ColumnId::CarId.as_u16(), 213);
}

#[test]
fn test_group_count() {
    let all_groups = vec![
        GroupId::FrameMeta,
        GroupId::DriverInputs,
        GroupId::VehicleDynamics,
        GroupId::Tyres,
        GroupId::Timing,
        GroupId::Environment,
        GroupId::ColdStorage,
    ];
    assert_eq!(all_groups.len(), 7);
}

#[test]
fn test_header_v2_roundtrip() {
    let header = FileHeaderV2 {
        schema_offset: 100,
        metadata_offset: 200,
        first_row_group_offset: 300,
        footer_offset: 400,
        created_unix_ns: 1_234_567_890_000,
        poll_hz: 120_000,
    };
    let mut buf = Vec::new();
    header.write_to(&mut buf).unwrap();
    assert_eq!(buf.len(), HEADER_V2_SIZE);

    let mut cursor = ByteReader::new(&buf);
    let read_back = FileHeaderV2::read_from(&mut cursor).unwrap();
    assert_eq!(header, read_back);
}

#[test]
fn test_header_v2_bad_magic() {
    let bad = [0u8; 64];
    let mut cursor = ByteReader::new(&bad);
    let result = FileHeaderV2::read_from(&mut cursor);
    assert!(result.is_err());
}

#[test]
fn test_header_v2_bad_version() {
    let mut buf = Vec::new();
    buf.extend_from_slice(b"ACT2");
    buf.extend_from_slice(&99u16.to_le_bytes());
    buf.resize(HEADER_V2_SIZE, 0);
    let mut cursor = ByteReader::new(&buf);
    let result = FileHeaderV2::read_from(&mut cursor);
    assert!(result.is_err());
}

#[test]
fn test_schema_v2_roundtrip() {
    let schema = SchemaBlockV2 {
        groups: vec![
            SchemaGroupDefV2 {
                group_id: 1,
                columns: vec![
                    SchemaColumnDefV2 { column_id: 10, value_type: TYPE_F32, name: "speed_kmh".to_string() },
                    SchemaColumnDefV2 { column_id: 11, value_type: TYPE_F32, name: "gas".to_string() },
                ],
            },
            SchemaGroupDefV2 {
                group_id: 2,
                columns: vec![SchemaColumnDefV2 { column_id: 20, value_type: TYPE_F64, name: "velocity".to_string() }],
            },
        ],
    };
    let mut buf = Vec::new();
    schema.write_to(&mut buf).unwrap();

    let mut cursor = ByteReader::new(&buf);
    let read_back = SchemaBlockV2::read_from(&mut cursor).unwrap();
    assert_eq!(schema, read_back);
}

#[test]
fn test_column_entry_v2_roundtrip() {
    let entry = ColumnEntryV2 {
        column_id: 10,
        codec: 0,
        value_type: TYPE_F32,
        byte_len: 4096,
        crc32: 0xDEAD_BEEF,
        min_value_bits: 0.0f64.to_bits(),
        max_value_bits: 320.5f64.to_bits(),
    };
    let mut buf = Vec::new();
    entry.write_to(&mut buf).unwrap();
    assert_eq!(buf.len(), COLUMN_ENTRY_V2_SIZE);

    let mut cursor = ByteReader::new(&buf);
    let read_back = ColumnEntryV2::read_from(&mut cursor).unwrap();
    assert_eq!(entry, read_back);
}

#[test]
fn test_skip_index_entry_roundtrip() {
    let entry = SkipIndexEntry {
        access_group: 1,
        column_id: 10,
        frame_start: 0,
        frame_end: 1000,
        row_group_index: 0,
        offset_in_group: 128,
        byte_len: 4096,
    };
    let mut buf = Vec::new();
    entry.write_to(&mut buf).unwrap();
    assert_eq!(buf.len(), SkipIndexEntry::BYTE_LEN);

    let mut cursor = ByteReader::new(&buf);
    let read_back = SkipIndexEntry::read_from(&mut cursor).unwrap();
    assert_eq!(entry, read_back);
}

#[test]
fn test_lap_index_entry_v2_roundtrip() {
    let entry = LapIndexEntryV2 {
        lap_number: 3,
        start_tick: 1000,
        end_tick: 5000,
        sample_count: 400,
        is_valid: 1,
        is_out_lap: 0,
    };
    let mut buf = Vec::new();
    entry.write_to(&mut buf).unwrap();
    assert_eq!(buf.len(), LapIndexEntryV2::BYTE_LEN);

    let mut cursor = ByteReader::new(&buf);
    let read_back = LapIndexEntryV2::read_from(&mut cursor).unwrap();
    assert_eq!(entry, read_back);
}

#[test]
fn test_row_group_header_roundtrip() {
    let header = RowGroupHeader {
        row_count: 1024,
        frame_start_tick: 0,
        frame_end_tick: 1023,
        groups: vec![
            GroupEntryV2 { group_id: 1, offset: 64, byte_len: 4096 },
            GroupEntryV2 { group_id: 2, offset: 4160, byte_len: 2048 },
        ],
    };
    let mut buf = Vec::new();
    header.write_to(&mut buf).unwrap();
    assert_eq!(buf.len(), header.byte_len());

    let mut cursor = ByteReader::new(&buf);
    let read_back = RowGroupHeader::read_from(&mut cursor).unwrap();
    assert_eq!(header, read_back);
}

#[test]
fn test_footer_v2_skip_entries() {
    let skip_entries = vec![
        SkipIndexEntry { access_group: 1, column_id: 10, frame_start: 0, frame_end: 500, row_group_index: 0, offset_in_group: 0, byte_len: 100 },
        SkipIndexEntry { access_group: 1, column_id: 10, frame_start: 501, frame_end: 1000, row_group_index: 1, offset_in_group: 0, byte_len: 100 },
    ];
    let footer = FooterV2 { footer_offset: 9999, skip_index_count: skip_entries.len() as u32, lap_index_count: 0 };

    let mut buf = Vec::new();
    footer.write_to(&mut buf).unwrap();
    footer.write_skip_entries(&mut buf, &skip_entries).unwrap();

    let mut cursor = ByteReader::new(&buf);
    let read_footer = FooterV2::read_from(&mut cursor).unwrap();
    assert_eq!(footer, read_footer);

    let read_skips = read_footer.read_skip_entries(&mut cursor).unwrap();
    assert_eq!(skip_entries, read_skips);
}

#[test]
fn test_footer_v2_lap_entries() {
    let lap_entries = vec![
        LapIndexEntryV2 { lap_number: 1, start_tick: 0, end_tick: 5000, sample_count: 500, is_valid: 1, is_out_lap: 0 },
        LapIndexEntryV2 { lap_number: 2, start_tick: 5001, end_tick: 10000, sample_count: 499, is_valid: 1, is_out_lap: 0 },
    ];
    let footer = FooterV2 { footer_offset: 9999, skip_index_count: 0, lap_index_count: lap_entries.len() as u32 };

    let mut buf = Vec::new();
    footer.write_to(&mut buf).unwrap();
    footer.write_lap_entries(&mut buf, &lap_entries).unwrap();

    let mut cursor = ByteReader::new(&buf);
    let read_footer = FooterV2::read_from(&mut cursor).unwrap();
    assert_eq!(footer, read_footer);

    let read_laps = read_footer.read_lap_entries(&mut cursor).unwrap();
    assert_eq!(lap_entries, read_laps);
}
