use module_live_telemetry::error::TelemetryError;
use module_live_telemetry::format::{
    crc32, encode_schema, ChunkHeader, ColumnEntry, FileHeader, IndexEntry, CLUSTER_CONTROLS,
    CLUSTER_SESSION, COL_BRAKE, COL_CLUTCH, COL_FUEL, COL_GAS, COL_GEAR, COL_GRAPHICS_PACKET_ID,
    COL_PHYSICS_PACKET_ID, COL_RPMS, COL_SAMPLE_TICK, COL_SPEED_KMH, COL_STEER_ANGLE,
    COL_TIMESTAMP_NS, SCHEMA_HASH, TYPE_F32, TYPE_I32, TYPE_U64,
};
use module_live_telemetry::reader::BinaryTelemetryReader;

fn metadata_block() -> Vec<u8> {
    let mut m = b"META".to_vec();
    m.extend_from_slice(&123_456_789u64.to_le_bytes());
    m.extend_from_slice(&60_000u32.to_le_bytes());
    m.extend_from_slice(&256u32.to_le_bytes());
    m.extend_from_slice(&5u16.to_le_bytes());
    m.extend_from_slice(&3u16.to_le_bytes());
    m.extend_from_slice(b"monza");
    m.extend_from_slice(b"gt3");
    m
}

struct Col {
    id: u16,
    value_type: u8,
    bytes: Vec<u8>,
}

fn controls_chunk(base_tick: u64, seq: u32) -> Vec<u8> {
    let ticks = [base_tick, base_tick + 1];
    let mut cols: Vec<Col> = Vec::new();
    let u64s = |v: [u64; 2]| v.iter().flat_map(|x| x.to_le_bytes()).collect::<Vec<u8>>();
    let i32s = |v: [i32; 2]| v.iter().flat_map(|x| x.to_le_bytes()).collect::<Vec<u8>>();
    let f32s = |v: [f32; 2]| v.iter().flat_map(|x| x.to_le_bytes()).collect::<Vec<u8>>();
    cols.push(Col { id: COL_SAMPLE_TICK, value_type: TYPE_U64, bytes: u64s(ticks) });
    cols.push(Col { id: COL_TIMESTAMP_NS, value_type: TYPE_U64, bytes: u64s([1000, 2000]) });
    cols.push(Col { id: COL_PHYSICS_PACKET_ID, value_type: TYPE_I32, bytes: i32s([7, 8]) });
    cols.push(Col { id: COL_GRAPHICS_PACKET_ID, value_type: TYPE_I32, bytes: i32s([3, 4]) });
    cols.push(Col { id: COL_SPEED_KMH, value_type: TYPE_F32, bytes: f32s([120.5, 121.0]) });
    cols.push(Col { id: COL_GAS, value_type: TYPE_F32, bytes: f32s([1.0, 0.5]) });
    cols.push(Col { id: COL_BRAKE, value_type: TYPE_F32, bytes: f32s([0.0, 0.25]) });
    cols.push(Col { id: COL_CLUTCH, value_type: TYPE_F32, bytes: f32s([0.0, 0.0]) });
    cols.push(Col { id: COL_STEER_ANGLE, value_type: TYPE_F32, bytes: f32s([-0.1, 0.1]) });
    cols.push(Col { id: COL_GEAR, value_type: TYPE_I32, bytes: i32s([4, 5]) });
    cols.push(Col { id: COL_RPMS, value_type: TYPE_I32, bytes: i32s([7000, 7200]) });
    cols.push(Col { id: COL_FUEL, value_type: TYPE_F32, bytes: f32s([50.0, 49.9]) });
    let mut payload = Vec::new();
    let mut entries = Vec::new();
    for c in &cols {
        entries.push(ColumnEntry {
            column_id: c.id,
            codec: 0,
            value_type: c.value_type,
            lane_count: 1,
            flags: 0,
            offset: payload.len() as u32,
            byte_len: c.bytes.len() as u32,
            null_offset: 0,
            min_value_bits: 0,
            max_value_bits: 0,
        });
        payload.extend_from_slice(&c.bytes);
    }
    let header = ChunkHeader {
        cluster_id: CLUSTER_CONTROLS,
        chunk_seq: seq,
        schema_hash: SCHEMA_HASH,
        base_sample_tick: base_tick,
        sample_stride: 1,
        sample_count: 2,
        start_time_ns: 1000,
        end_time_ns: 2000,
        start_lap: 0,
        end_lap: 0,
        column_count: entries.len() as u16,
        flags: 0,
        payload_len: payload.len() as u32,
        payload_crc32: crc32(&payload),
    };
    let mut out = Vec::new();
    header.write_to(&mut out).unwrap();
    for e in &entries {
        e.write_to(&mut out).unwrap();
    }
    out.extend_from_slice(&payload);
    out
}

/// A recording with two controls chunks, and a footer index if asked.
fn recording(with_footer: bool) -> (Vec<u8>, usize, usize) {
    let schema = encode_schema();
    let meta = metadata_block();
    let mut header = FileHeader::new(42, 60_000);
    header.metadata_offset = 128 + schema.len() as u64;
    header.first_chunk_offset = header.metadata_offset + meta.len() as u64;
    let first = header.first_chunk_offset as usize;
    let chunk0 = controls_chunk(10, 0);
    let chunk1 = controls_chunk(12, 1);
    if with_footer {
        header.footer_offset = (first + chunk0.len() + chunk1.len()) as u64;
    }
    let mut bytes = Vec::new();
    header.write_to(&mut bytes).unwrap();
    bytes.extend_from_slice(&schema);
    bytes.extend_from_slice(&meta);
    bytes.extend_from_slice(&chunk0);
    bytes.extend_from_slice(&chunk1);
    if with_footer {
        let entries = [
            IndexEntry {
                cluster_id: CLUSTER_CONTROLS,
                chunk_seq: 0,
                file_offset: first as u64,
                byte_len: chunk0.len() as u32,
                start_time_ns: 1000,
                end_time_ns: 2000,
                start_tick: 10,
                end_tick: 11,
            },
            IndexEntry {
                cluster_id: CLUSTER_CONTROLS,
                chunk_seq: 1,
                file_offset: (first + chunk0.len()) as u64,
                byte_len: chunk1.len() as u32,
                start_time_ns: 1000,
                end_time_ns: 2000,
                start_tick: 12,
                end_tick: 13,
            },
        ];
        bytes.extend_from_slice(b"INDX");
        bytes.extend_from_slice(&2u64.to_le_bytes());
        for e in &entries {
            e.write_to(&mut bytes).unwrap();
        }
        bytes.extend_from_slice(b"FOOT");
        bytes.extend_from_slice(&0u64.to_le_bytes());
        bytes.extend_from_slice(&4u64.to_le_bytes());
        bytes.extend_from_slice(&2u32.to_le_bytes());
        bytes.extend_from_slice(&[0u8; 4]);
    }
    (bytes, first, chunk0.len())
}

#[test]
fn opens_a_recording_by_scanning_its_chunks() {
    let (bytes, first, chunk_len) = recording(false);
    let total = bytes.len() as u64;
    let reader = BinaryTelemetryReader::from_bytes(bytes).unwrap();
    let meta = reader.metadata();
    assert_eq!(meta.track_name, "monza");
    assert_eq!(meta.car_model, "gt3");
    assert_eq!(meta.created_unix_ns, 123_456_789);
    assert_eq!(meta.poll_hz_x1000, 60_000);
    assert_eq!(meta.chunk_rows, 256);
    assert_eq!(meta.sm_version, "");
    assert!(meta.raw_static_bytes.is_empty());
    let summary = reader.summary();
    assert_eq!((summary.total_samples, summary.chunk_count, summary.total_bytes, summary.footer_offset), (4, 2, total, 0));
    let index = reader.chunk_index();
    assert_eq!(index.len(), 2);
    assert_eq!(index[0].file_offset, first as u64);
    assert_eq!(index[0].byte_len as usize, chunk_len);
    assert_eq!((index[1].start_tick, index[1].end_tick), (12, 13));
    assert_eq!(reader.header().created_unix_ns, 42);
}

#[test]
fn reads_controls_samples_from_every_chunk() {
    let (bytes, _, _) = recording(false);
    let reader = BinaryTelemetryReader::from_bytes(bytes).unwrap();
    let samples = reader.read_all_controls().unwrap();
    assert_eq!(samples.len(), 4);
    let ticks: Vec<u64> = samples.iter().map(|s| s.sample_tick).collect();
    assert_eq!(ticks, vec![10, 11, 12, 13]);
    assert_eq!(f32::from_bits(samples[0].speed_kmh), 120.5);
    assert_eq!(f32::from_bits(samples[1].brake), 0.25);
    assert_eq!(samples[1].gear, 5);
    assert_eq!(samples[0].physics_packet_id, 7);
    assert_eq!(samples[3].rpms, 7200);
    assert!(reader.read_all_session().unwrap().is_empty());
}

#[test]
fn opens_a_recording_by_its_footer_index() {
    let (bytes, _, _) = recording(true);
    let reader = BinaryTelemetryReader::from_bytes(bytes).unwrap();
    let summary = *reader.summary();
    assert_eq!((summary.total_samples, summary.chunk_count), (4, 2));
    assert!(summary.footer_offset > 0);
    assert_eq!(reader.chunk_index().len(), 2);
    assert_eq!(reader.read_all_controls().unwrap().len(), 4);
}

#[test]
fn corrupt_payload_is_rejected() {
    let (mut bytes, first, chunk_len) = recording(false);
    bytes[first + chunk_len - 1] ^= 0xFF;
    let reader = BinaryTelemetryReader::from_bytes(bytes).unwrap();
    match reader.read_all_controls() {
        Err(TelemetryError::InvalidFormat(m)) => assert_eq!(m, "payload crc mismatch in chunk 0"),
        _ => panic!("expected a CRC error"),
    }
}

#[test]
fn chunk_of_another_cluster_is_refused() {
    let (bytes, _, _) = recording(false);
    let reader = BinaryTelemetryReader::from_bytes(bytes).unwrap();
    let entry = reader.chunk_index()[0];
    match reader.read_chunk_raw(&entry, CLUSTER_SESSION) {
        Err(TelemetryError::InvalidFormat(m)) => {
            assert_eq!(m, "attempted to decode chunk with cluster 0x0100 as 0x0500")
        }
        _ => panic!("expected a cluster mismatch"),
    }
}

#[test]
fn bad_offsets_are_rejected() {
    let (mut bytes, _, _) = recording(false);
    // metadata_offset (bytes 24..32) set before the schema.
    bytes[24..32].copy_from_slice(&100u64.to_le_bytes());
    match BinaryTelemetryReader::from_bytes(bytes) {
        Err(TelemetryError::InvalidFormat(m)) => assert_eq!(m, "invalid header offsets"),
        _ => panic!("expected an offset error"),
    }
}

#[test]
fn bad_metadata_magic_is_rejected() {
    let (mut bytes, first, _) = recording(false);
    let meta_start = first - metadata_block().len();
    bytes[meta_start] = b'X';
    match BinaryTelemetryReader::from_bytes(bytes) {
        Err(TelemetryError::InvalidFormat(m)) => assert_eq!(m, "bad metadata block"),
        _ => panic!("expected a metadata error"),
    }
}
