use module_live_telemetry::format_v2::{
    FileHeaderV2, FooterV2, GroupEntryV2, LapIndexEntryV2, RowGroupHeader, SchemaBlockV2,
};
use module_live_telemetry::error::TelemetryError;
use module_live_telemetry::reader_v2::BinaryTelemetryReaderV2;

fn format_message(bytes: Vec<u8>) -> String {
    match BinaryTelemetryReaderV2::from_bytes(bytes) {
        Err(TelemetryError::InvalidFormat(m)) => m,
        Err(other) => panic!("unexpected error {:?}", other),
        Ok(_) => panic!("expected an error"),
    }
}

fn metadata_block(track: &str, car: &str) -> Vec<u8> {
    let mut m = b"META".to_vec();
    m.extend_from_slice(&77u64.to_le_bytes());
    m.extend_from_slice(&120_000u32.to_le_bytes());
    m.extend_from_slice(&256u32.to_le_bytes());
    m.extend_from_slice(&(track.len() as u16).to_le_bytes());
    m.extend_from_slice(&(car.len() as u16).to_le_bytes());
    m.extend_from_slice(track.as_bytes());
    m.extend_from_slice(car.as_bytes());
    m
}

/// A v2 recording: header, empty schema, metadata, one row group of
/// `rows` rows with a four-byte group, and optionally a footer with laps.
fn build_v2_file(rows: u32, laps: &[LapIndexEntryV2], with_footer: bool) -> Vec<u8> {
    let schema = SchemaBlockV2 { groups: Vec::new() };
    let mut schema_bytes = Vec::new();
    schema.write_to(&mut schema_bytes).unwrap();
    let meta = metadata_block("Monza", "Ferrari");
    let schema_offset = 64u64;
    let metadata_offset = schema_offset + schema_bytes.len() as u64;
    let first_rg = metadata_offset + meta.len() as u64;

    let mut rg = RowGroupHeader {
        row_count: rows,
        frame_start_tick: 0,
        frame_end_tick: rows as u64 - 1,
        groups: vec![GroupEntryV2 { group_id: 0, offset: 0, byte_len: 4 }],
    };
    let hlen = rg.byte_len() as u32;
    rg.groups[0].offset = hlen;
    let mut rg_bytes = Vec::new();
    rg.write_to(&mut rg_bytes).unwrap();
    rg_bytes.extend_from_slice(&[1, 2, 3, 4]);

    let footer_offset = first_rg + rg_bytes.len() as u64;
    let header = FileHeaderV2 {
        schema_offset,
        metadata_offset,
        first_row_group_offset: first_rg,
        footer_offset: if with_footer { footer_offset } else { 0 },
        created_unix_ns: 77,
        poll_hz: 120,
    };
    let mut file = Vec::new();
    header.write_to(&mut file).unwrap();
    file.extend_from_slice(&schema_bytes);
    file.extend_from_slice(&meta);
    file.extend_from_slice(&rg_bytes);
    if with_footer {
        let footer = FooterV2 { footer_offset, skip_index_count: 0, lap_index_count: laps.len() as u32 };
        footer.write_to(&mut file).unwrap();
        footer.write_skip_entries(&mut file, &[]).unwrap();
        footer.write_lap_entries(&mut file, laps).unwrap();
    }
    file
}

#[test]
fn test_reader_from_bytes_truncated() {
    let short = vec![0u8; 32];
    let result = BinaryTelemetryReaderV2::from_bytes(short);
    assert!(result.is_err());
}

#[test]
fn test_v2_reader_too_short_message() {
    assert_eq!(format_message(vec![0u8; 63]), "file too short for v2 header");
}

#[test]
fn test_v2_reader_opens_file_without_footer() {
    let file = build_v2_file(3, &[], false);
    let len = file.len() as u64;
    let reader = BinaryTelemetryReaderV2::from_bytes(file).unwrap();
    let summary = reader.summary();
    assert_eq!(summary.total_samples, 3);
    assert_eq!(summary.chunk_count, 1);
    assert_eq!(summary.total_bytes, len);
    assert_eq!(summary.footer_offset, 0);
    assert!(reader.lap_index().is_empty());
    assert_eq!(reader.metadata().track_name, "Monza");
    assert_eq!(reader.metadata().car_model, "Ferrari");
    assert_eq!(reader.metadata().poll_hz_x1000, 120_000);
    assert_eq!(reader.metadata().chunk_rows, 256);
}

#[test]
fn test_v2_reader_reads_lap_index_from_footer() {
    let laps = vec![
        LapIndexEntryV2 { lap_number: 0, start_tick: 0, end_tick: 1, sample_count: 2, is_valid: 0, is_out_lap: 1 },
        LapIndexEntryV2 { lap_number: 1, start_tick: 2, end_tick: 4, sample_count: 3, is_valid: 1, is_out_lap: 0 },
    ];
    let file = build_v2_file(5, &laps, true);
    let reader = BinaryTelemetryReaderV2::from_bytes(file).unwrap();
    assert_eq!(reader.lap_index(), &laps[..]);
    assert_eq!(reader.summary().total_samples, 5);
    assert!(reader.summary().footer_offset > 0);
}

#[test]
fn test_v2_reader_rejects_schema_offset_past_eof() {
    let mut file = build_v2_file(3, &[], false);
    let bogus = (file.len() as u64).to_le_bytes();
    file[6..14].copy_from_slice(&bogus);
    assert_eq!(format_message(file), "schema_offset past eof");
}

#[test]
fn test_v2_reader_rejects_metadata_after_first_row_group() {
    let mut file = build_v2_file(3, &[], false);
    let first_rg = file[22..30].to_vec();
    file[14..22].copy_from_slice(&first_rg);
    assert_eq!(format_message(file), "metadata_offset >= first_row_group_offset");
}

#[test]
fn test_v2_reader_rejects_truncated_row_group() {
    let mut file = build_v2_file(3, &[], false);
    file.pop();
    assert_eq!(format_message(file), "row group extends past file end");
}

use module_live_telemetry::encode_v2::{encode_column, CODEC_DELTA, CODEC_PLAIN};
use module_live_telemetry::format_v2::{
    ColumnEntryV2, ColumnId, GroupId, SchemaColumnDefV2, SchemaGroupDefV2, SkipIndexEntry, TYPE_U64,
};
use module_live_telemetry::item_key::ItemKey;
use module_live_telemetry::reader_v2::{item_column, relevant_row_groups};

/// The bytes of a frame-meta group: ticks (plain) and timestamps (delta).
fn frame_meta_group(ticks: &[u64]) -> Vec<u8> {
    let ts: Vec<u64> = ticks.iter().map(|t| t * 10).collect();
    let (c1, crc1) = encode_column(ticks, TYPE_U64, CODEC_PLAIN, 0);
    let (c2, crc2) = encode_column(&ts, TYPE_U64, CODEC_DELTA, 0);
    let entries = [
        ColumnEntryV2 { column_id: 1, codec: CODEC_PLAIN, value_type: TYPE_U64, byte_len: c1.len() as u32, crc32: crc1, min_value_bits: 0, max_value_bits: 0 },
        ColumnEntryV2 { column_id: 2, codec: CODEC_DELTA, value_type: TYPE_U64, byte_len: c2.len() as u32, crc32: crc2, min_value_bits: 0, max_value_bits: 0 },
    ];
    let mut g = Vec::new();
    g.extend_from_slice(&0u16.to_le_bytes());
    g.extend_from_slice(&2u16.to_le_bytes());
    for e in &entries {
        e.write_to(&mut g).unwrap();
    }
    g.extend_from_slice(&c1);
    g.extend_from_slice(&c2);
    g
}

/// A v2 recording whose row groups each hold a frame-meta group for the
/// given ticks; with `skip`, the footer's skip index points to each.
fn build_grouped_file(row_groups: &[Vec<u64>], skip: bool) -> Vec<u8> {
    let schema = SchemaBlockV2 {
        groups: vec![SchemaGroupDefV2 {
            group_id: 0,
            columns: vec![
                SchemaColumnDefV2 { column_id: 1, value_type: TYPE_U64, name: "sample_tick".to_string() },
                SchemaColumnDefV2 { column_id: 2, value_type: TYPE_U64, name: "timestamp_ns".to_string() },
            ],
        }],
    };
    let mut schema_bytes = Vec::new();
    schema.write_to(&mut schema_bytes).unwrap();
    let meta = metadata_block("Spa", "Porsche");
    let schema_offset = 64u64;
    let metadata_offset = schema_offset + schema_bytes.len() as u64;
    let first_rg = metadata_offset + meta.len() as u64;

    let mut body = Vec::new();
    let mut skip_entries = Vec::new();
    for (i, ticks) in row_groups.iter().enumerate() {
        let group = frame_meta_group(ticks);
        let mut rg = RowGroupHeader {
            row_count: ticks.len() as u32,
            frame_start_tick: ticks[0],
            frame_end_tick: *ticks.last().unwrap(),
            groups: vec![GroupEntryV2 { group_id: 0, offset: 0, byte_len: group.len() as u32 }],
        };
        rg.groups[0].offset = rg.byte_len() as u32;
        rg.write_to(&mut body).unwrap();
        body.extend_from_slice(&group);
        skip_entries.push(SkipIndexEntry {
            access_group: 0,
            column_id: 1,
            frame_start: ticks[0],
            frame_end: *ticks.last().unwrap(),
            row_group_index: i as u32,
            offset_in_group: 0,
            byte_len: 0,
        });
    }
    let footer_offset = first_rg + body.len() as u64;
    let header = FileHeaderV2 {
        schema_offset,
        metadata_offset,
        first_row_group_offset: first_rg,
        footer_offset: if skip { footer_offset } else { 0 },
        created_unix_ns: 1,
        poll_hz: 60,
    };
    let mut file = Vec::new();
    header.write_to(&mut file).unwrap();
    file.extend_from_slice(&schema_bytes);
    file.extend_from_slice(&meta);
    file.extend_from_slice(&body);
    if skip {
        let footer = FooterV2 { footer_offset, skip_index_count: skip_entries.len() as u32, lap_index_count: 0 };
        footer.write_to(&mut file).unwrap();
        footer.write_skip_entries(&mut file, &skip_entries).unwrap();
        footer.write_lap_entries(&mut file, &[]).unwrap();
    }
    file
}

fn words_of(pieces: &[module_live_telemetry::encode_v2::DecodedColumn]) -> Vec<u64> {
    pieces.iter().flat_map(|c| c.words.iter().copied()).collect()
}

#[test]
fn test_v2_group_from_all_row_groups() {
    let file = build_grouped_file(&[vec![0, 1, 2], vec![3, 4]], false);
    let reader = BinaryTelemetryReaderV2::from_bytes(file).unwrap();
    assert_eq!(reader.summary().chunk_count, 2);
    assert_eq!(reader.summary().total_samples, 5);
    let cols = reader.read_group_from_all_row_groups(GroupId::FrameMeta, None, None).unwrap();
    assert_eq!(cols.len(), 2);
    assert_eq!(words_of(&cols[0]), vec![0, 1, 2, 3, 4]);
    assert_eq!(words_of(&cols[1]), vec![0, 10, 20, 30, 40]);
    // A full window keeps only the overlapping row groups.
    let cols = reader.read_group_from_all_row_groups(GroupId::FrameMeta, Some(3), Some(9)).unwrap();
    assert_eq!(words_of(&cols[0]), vec![3, 4]);
    // A group that no row group holds gives nothing.
    let cols = reader.read_group_from_all_row_groups(GroupId::Tyres, None, None).unwrap();
    assert!(cols.is_empty());
}

#[test]
fn test_v2_read_group_columns_without_skip_index() {
    let file = build_grouped_file(&[vec![0, 1], vec![2, 3]], false);
    let reader = BinaryTelemetryReaderV2::from_bytes(file).unwrap();
    let cols = reader.read_group_columns(GroupId::FrameMeta, None, None).unwrap().unwrap();
    assert_eq!(words_of(&cols[0]), vec![0, 1, 2, 3]);
}

#[test]
fn test_v2_read_group_columns_through_skip_index() {
    let file = build_grouped_file(&[vec![0, 1], vec![2, 3], vec![4, 5]], true);
    let reader = BinaryTelemetryReaderV2::from_bytes(file).unwrap();
    let cols = reader.read_group_columns(GroupId::FrameMeta, Some(2), None).unwrap().unwrap();
    assert_eq!(words_of(&cols[0]), vec![2, 3, 4, 5]);
    assert_eq!(words_of(&cols[1]), vec![20, 30, 40, 50]);
    let cols = reader.read_group_columns(GroupId::FrameMeta, None, Some(1)).unwrap().unwrap();
    assert_eq!(words_of(&cols[0]), vec![0, 1]);
}

#[test]
fn test_v2_read_group_columns_empty_recording() {
    let reader = BinaryTelemetryReaderV2::from_bytes(build_v2_file(3, &[], false)).unwrap();
    // No row group holds the timing group: no columns come back.
    assert!(reader.read_group_columns(GroupId::Timing, None, None).unwrap().unwrap().is_empty());
}

#[test]
fn test_v2_find_column_index_in_group() {
    let reader = BinaryTelemetryReaderV2::from_bytes(build_grouped_file(&[vec![0]], false)).unwrap();
    assert_eq!(reader.find_column_index_in_group(GroupId::FrameMeta, 1), Some(0));
    assert_eq!(reader.find_column_index_in_group(GroupId::FrameMeta, 2), Some(1));
    assert_eq!(reader.find_column_index_in_group(GroupId::FrameMeta, 3), None);
    assert_eq!(reader.find_column_index_in_group(GroupId::Tyres, 1), None);
}

#[test]
fn test_relevant_row_groups_sorted_once() {
    let e = |g: u16, s: u64, f: u64, rg: u32| SkipIndexEntry {
        access_group: g, column_id: 1, frame_start: s, frame_end: f, row_group_index: rg, offset_in_group: 0, byte_len: 0,
    };
    let entries = [e(1, 10, 19, 3), e(1, 0, 9, 1), e(2, 0, 9, 0), e(1, 10, 19, 3), e(1, 20, 29, 2)];
    assert_eq!(relevant_row_groups(&entries, 1, None, None), vec![1, 2, 3]);
    assert_eq!(relevant_row_groups(&entries, 1, Some(15), None), vec![2, 3]);
    assert_eq!(relevant_row_groups(&entries, 1, Some(5), Some(12)), vec![1, 3]);
    assert_eq!(relevant_row_groups(&entries, 1, None, Some(9)), vec![1]);
    assert!(relevant_row_groups(&entries, 4, None, None).is_empty());
}

#[test]
fn test_item_column() {
    assert_eq!(item_column(&ItemKey::parse("raw:controls.speed_kmh").unwrap()).unwrap(), ColumnId::SpeedKmh);
    match item_column(&ItemKey::parse("raw:controls.nothing").unwrap()) {
        Err(TelemetryError::InvalidArgument(m)) => assert_eq!(m, "unknown raw column path: controls.nothing"),
        other => panic!("unexpected {:?}", other),
    }
    match item_column(&ItemKey::parse("calc:delta").unwrap()) {
        Err(TelemetryError::InvalidArgument(m)) => {
            assert_eq!(m, "calc:* items are computed at read time by ComputeRegistry, not stored in acctlm2")
        }
        other => panic!("unexpected {:?}", other),
    }
    match item_column(&ItemKey::parse("system:cpu").unwrap()) {
        Err(TelemetryError::InvalidArgument(m)) => assert_eq!(m, "system:* items are not stored in acctlm2"),
        other => panic!("unexpected {:?}", other),
    }
}

#[test]
fn test_v2_read_group_window_trims_to_frames() {
    let file = build_grouped_file(&[vec![0, 1, 2], vec![3, 4]], false);
    let reader = BinaryTelemetryReaderV2::from_bytes(file).unwrap();
    let meta = reader.read_group_columns(GroupId::FrameMeta, Some(1), Some(3)).unwrap().unwrap();
    let ticks = words_of(&meta[0]);
    assert_eq!(ticks, vec![0, 1, 2, 3, 4]);
    let cols = reader.read_group_window(GroupId::FrameMeta, &ticks, Some(1), Some(3)).unwrap().unwrap();
    assert_eq!(cols, vec![vec![1, 2, 3], vec![10, 20, 30]]);
    // Without a window nothing is trimmed.
    let cols = reader.read_group_window(GroupId::FrameMeta, &ticks, None, None).unwrap().unwrap();
    assert_eq!(cols[1], vec![0, 10, 20, 30, 40]);
}
