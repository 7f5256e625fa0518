use module_live_telemetry::codec::crc32;
use module_live_telemetry::encode_v2::{
    decode_column, encode_column, read_header, CODEC_DELTA, CODEC_PLAIN, HEADER_BYTES,
};
use module_live_telemetry::error::TelemetryError;
use module_live_telemetry::format_v2::{TYPE_BYTES, TYPE_F32, TYPE_F64, TYPE_I32, TYPE_U64};

fn u64_words(values: &[f64]) -> Vec<u64> {
    values.iter().map(|&v| v as u64).collect()
}

fn i32_words(values: &[f64]) -> Vec<u64> {
    values.iter().map(|&v| (v as i32) as u32 as u64).collect()
}

fn f32_words(values: &[f64]) -> Vec<u64> {
    values.iter().map(|&v| (v as f32).to_bits() as u64).collect()
}

fn f64_words(values: &[f64]) -> Vec<u64> {
    values.iter().map(|&v| v.to_bits()).collect()
}

fn words_as_i32(words: &[u64]) -> Vec<f64> {
    words.iter().map(|&w| (w as u32) as i32 as f64).collect()
}

fn words_as_f64(words: &[u64]) -> Vec<f64> {
    words.iter().map(|&w| f64::from_bits(w)).collect()
}

fn words_as_f32(words: &[u64]) -> Vec<f64> {
    words.iter().map(|&w| f32::from_bits(w as u32) as f64).collect()
}

fn roundtrip(words: &[u64], value_type: u8, codec: u8, sub: u8) -> Vec<u64> {
    let (encoded, crc) = encode_column(words, value_type, codec, sub);
    let decoded = decode_column(&encoded, crc).unwrap();
    assert_eq!(decoded.codec, codec);
    assert_eq!(decoded.value_type, value_type);
    decoded.words
}

#[test]
fn roundtrip_u64_plain() {
    let values: Vec<f64> = vec![0.0, 1.0, u64::MAX as f64, 42.0, 1000.0];
    let words = u64_words(&values);
    let decoded = roundtrip(&words, TYPE_U64, CODEC_PLAIN, 0);
    let back: Vec<f64> = decoded.iter().map(|&w| w as f64).collect();
    assert_eq!(back, values);
}

#[test]
fn roundtrip_i32_plain() {
    let values: Vec<f64> = vec![0.0, -1.0, i32::MAX as f64, i32::MIN as f64, 42.0];
    let decoded = roundtrip(&i32_words(&values), TYPE_I32, CODEC_PLAIN, 0);
    assert_eq!(words_as_i32(&decoded), values);
}

#[test]
fn roundtrip_f32_plain() {
    let values: Vec<f64> = vec![0.0, 1.5, -3.14, f32::MAX as f64, f32::MIN as f64];
    let decoded = roundtrip(&f32_words(&values), TYPE_F32, CODEC_PLAIN, 0);
    for (a, b) in values.iter().zip(words_as_f32(&decoded).iter()) {
        let diff = (a - b).abs();
        assert!(diff < 0.001, "f32 roundtrip mismatch: {a} vs {b}, diff {diff}");
    }
}

#[test]
fn roundtrip_f64_plain() {
    let values: Vec<f64> = vec![0.0, 1.5, -3.14, f64::MAX, f64::MIN, 42.123456789];
    let decoded = roundtrip(&f64_words(&values), TYPE_F64, CODEC_PLAIN, 0);
    assert_eq!(words_as_f64(&decoded), values);
}

#[test]
fn roundtrip_bytes_plain_sub3() {
    let values: Vec<f64> = vec![10.0, 20.0, 30.0, 15.0, 25.0, 35.0];
    let decoded = roundtrip(&f64_words(&values), TYPE_BYTES, CODEC_PLAIN, 3);
    assert_eq!(words_as_f64(&decoded), values);
}

#[test]
fn roundtrip_bytes_plain_sub4() {
    let values: Vec<f64> = vec![1.0, 2.0, 3.0, 4.0, 5.0, 6.0, 7.0, 8.0, 9.0, 10.0, 11.0, 12.0];
    let decoded = roundtrip(&f64_words(&values), TYPE_BYTES, CODEC_PLAIN, 4);
    assert_eq!(words_as_f64(&decoded), values);
}

#[test]
fn roundtrip_bytes_plain_sub12() {
    let values: Vec<f64> = (0..12).map(|i| (i * 10) as f64).collect();
    let decoded = roundtrip(&f64_words(&values), TYPE_BYTES, CODEC_PLAIN, 12);
    assert_eq!(words_as_f64(&decoded), values);
}

#[test]
fn crc32_corruption_detected() {
    let values: Vec<f64> = vec![1.0, 2.0, 3.0, 4.0, 5.0];
    let (mut encoded, crc) = encode_column(&u64_words(&values), TYPE_U64, CODEC_PLAIN, 0);
    encoded[HEADER_BYTES + 2] ^= 0xFF;
    let result = decode_column(&encoded, crc);
    assert!(result.is_err(), "should detect CRC32 corruption");
}

#[test]
fn crc32_valid_with_correct_data() {
    let values: Vec<f64> = vec![1.0, 2.0, 3.0, 4.0, 5.0];
    let (encoded, crc) = encode_column(&u64_words(&values), TYPE_U64, CODEC_PLAIN, 0);
    let result = decode_column(&encoded, crc);
    assert!(result.is_ok(), "valid data should decode");
}

#[test]
fn crc32_wrong_expected() {
    let values: Vec<f64> = vec![1.0, 2.0, 3.0];
    let (encoded, crc) = encode_column(&f64_words(&values), TYPE_F64, CODEC_PLAIN, 0);
    let result = decode_column(&encoded, crc.wrapping_add(1));
    assert!(result.is_err(), "wrong expected CRC32 should fail");
}

#[test]
fn delta_u64_roundtrip() {
    let values: Vec<f64> = vec![100.0, 110.0, 115.0, 200.0, 180.0];
    let decoded = roundtrip(&u64_words(&values), TYPE_U64, CODEC_DELTA, 0);
    let back: Vec<f64> = decoded.iter().map(|&w| w as f64).collect();
    assert_eq!(back, values);
}

#[test]
fn delta_i32_roundtrip() {
    let values: Vec<f64> = vec![0.0, -5.0, 10.0, -20.0, 30.0];
    let decoded = roundtrip(&i32_words(&values), TYPE_I32, CODEC_DELTA, 0);
    assert_eq!(words_as_i32(&decoded), values);
}

#[test]
fn delta_u64_large_values() {
    let values: Vec<f64> = vec![
        1_000_000_000_000_000.0,
        1_000_000_000_000_100.0,
        1_000_000_000_000_500.0,
        1_000_000_000_001_000.0,
        1_000_000_000_000_000.0,
    ];
    let decoded = roundtrip(&u64_words(&values), TYPE_U64, CODEC_DELTA, 0);
    let back: Vec<f64> = decoded.iter().map(|&w| w as f64).collect();
    assert_eq!(back, values);
}

#[test]
fn delta_f64_falls_back_to_plain() {
    let values: Vec<f64> = vec![1.5, 2.5, 3.5, 4.5];
    let words = f64_words(&values);
    let (encoded, _) = encode_column(&words, TYPE_F64, CODEC_DELTA, 0);
    let (plain, _) = encode_column(&words, TYPE_F64, CODEC_PLAIN, 0);
    assert_eq!(encoded[HEADER_BYTES..], plain[HEADER_BYTES..]);
    let decoded = roundtrip(&words, TYPE_F64, CODEC_DELTA, 0);
    assert_eq!(words_as_f64(&decoded), values);
}

#[test]
fn delta_bytes_roundtrip() {
    // The caller computes the per-lane differences as f32 and sums them back.
    let values: Vec<f64> = vec![10.0, 20.0, 30.0, 12.0, 22.0, 31.5, 14.0, 24.0, 33.0];
    let sub = 3usize;
    let mut words: Vec<u64> = values[..sub].iter().map(|v| v.to_bits()).collect();
    for item in 1..values.len() / sub {
        for lane in 0..sub {
            let diff = (values[item * sub + lane] - values[(item - 1) * sub + lane]) as f32;
            words.push(diff.to_bits() as u64);
        }
    }
    let decoded = roundtrip(&words, TYPE_BYTES, CODEC_DELTA, sub as u8);
    assert_eq!(decoded, words);
    let mut back: Vec<f64> = decoded[..sub].iter().map(|&w| f64::from_bits(w)).collect();
    for item in 1..decoded.len() / sub {
        for lane in 0..sub {
            let prev = back[(item - 1) * sub + lane];
            back.push(prev + f32::from_bits(decoded[item * sub + lane] as u32) as f64);
        }
    }
    for (a, b) in values.iter().zip(back.iter()) {
        assert!((a - b).abs() < 0.01, "DELTA BYTES mismatch: {a} vs {b}");
    }
}

#[test]
fn empty_values() {
    let decoded = roundtrip(&[], TYPE_U64, CODEC_PLAIN, 0);
    assert!(decoded.is_empty());
}

#[test]
fn single_value() {
    let values: Vec<f64> = vec![42.0];
    let decoded = roundtrip(&f64_words(&values), TYPE_F64, CODEC_PLAIN, 0);
    assert_eq!(words_as_f64(&decoded), values);
}

#[test]
fn all_zeros() {
    let values: Vec<f64> = vec![0.0; 100];
    for &vt in &[TYPE_U64, TYPE_I32, TYPE_F32, TYPE_F64] {
        let words = match vt {
            TYPE_U64 => u64_words(&values),
            TYPE_I32 => i32_words(&values),
            TYPE_F32 => f32_words(&values),
            _ => f64_words(&values),
        };
        let decoded = roundtrip(&words, vt, CODEC_PLAIN, 0);
        assert_eq!(decoded, words, "all-zeros mismatch for vt={vt}");
    }
}

#[test]
fn all_negative() {
    let values: Vec<f64> = vec![-1.0, -2.5, -100.0, -0.001];
    let decoded = roundtrip(&f64_words(&values), TYPE_F64, CODEC_PLAIN, 0);
    assert_eq!(words_as_f64(&decoded), values);
}

#[test]
fn very_large_values() {
    let values: Vec<f64> = vec![f64::MAX, f64::MIN, 1e308, -1e308];
    let decoded = roundtrip(&f64_words(&values), TYPE_F64, CODEC_PLAIN, 0);
    assert_eq!(words_as_f64(&decoded), values);
}

#[test]
fn delta_single_value() {
    let decoded = roundtrip(&[42], TYPE_U64, CODEC_DELTA, 0);
    assert_eq!(decoded, vec![42]);
}

#[test]
fn delta_empty_values() {
    let decoded = roundtrip(&[], TYPE_U64, CODEC_DELTA, 0);
    assert!(decoded.is_empty());
}

#[test]
fn decode_unknown_codec() {
    let mut data = vec![0xFF, TYPE_U64, 1, 0, 0, 0];
    data.extend_from_slice(&42u64.to_le_bytes());
    let crc = crc32(&data);
    match decode_column(&data, crc) {
        Err(TelemetryError::InvalidFormat(m)) => assert_eq!(m, "unknown codec: 0xFF"),
        other => panic!("unknown codec should error, got {:?}", other.map(|c| c.words)),
    }
}

#[test]
fn decode_too_short_header() {
    let data = vec![0x00];
    let result = decode_column(&data, crc32(&data));
    assert!(result.is_err());
}

#[test]
fn decode_value_count_zero() {
    let decoded = roundtrip(&[], TYPE_U64, CODEC_PLAIN, 0);
    assert!(decoded.is_empty());
}

#[test]
fn encoded_layout_is_header_then_little_endian_words() {
    let (encoded, crc) = encode_column(&[1, 0x0203], TYPE_I32, CODEC_PLAIN, 0);
    assert_eq!(encoded, vec![0, TYPE_I32, 2, 0, 0, 0, 1, 0, 0, 0, 3, 2, 0, 0]);
    assert_eq!(crc, crc32(&encoded));
    assert_eq!(read_header(&encoded).unwrap(), (CODEC_PLAIN, TYPE_I32, 2));
}

#[test]
fn delta_words_are_differences() {
    let (encoded, _) = encode_column(&[100, 110, 105], TYPE_U64, CODEC_DELTA, 0);
    let mut expected = vec![CODEC_DELTA, TYPE_U64, 3, 0, 0, 0];
    expected.extend_from_slice(&100u64.to_le_bytes());
    expected.extend_from_slice(&10u64.to_le_bytes());
    expected.extend_from_slice(&(-5i64).to_le_bytes());
    assert_eq!(encoded, expected);
}

#[test]
fn crc_mismatch_message_names_both_checksums() {
    let (encoded, crc) = encode_column(&[7], TYPE_U64, CODEC_PLAIN, 0);
    match decode_column(&encoded, 0x1234ABCD) {
        Err(TelemetryError::InvalidFormat(m)) => {
            assert_eq!(m, format!("CRC32 mismatch: expected 0x1234ABCD, got 0x{crc:08X}"))
        }
        _ => panic!("expected a CRC mismatch"),
    }
}

#[test]
fn truncated_fixed_payload_is_reported() {
    let mut data = vec![CODEC_PLAIN, TYPE_U64, 2, 0, 0, 0];
    data.extend_from_slice(&1u64.to_le_bytes());
    let crc = crc32(&data);
    match decode_column(&data, crc) {
        Err(TelemetryError::InvalidFormat(m)) => {
            assert_eq!(m, "payload too short for 2 values of 8 bytes: got 8 bytes")
        }
        _ => panic!("expected a short-payload error"),
    }
}

#[test]
fn unknown_value_type_is_reported() {
    let data = vec![CODEC_PLAIN, 0x2A, 0, 0, 0, 0];
    match decode_column(&data, crc32(&data)) {
        Err(TelemetryError::InvalidFormat(m)) => assert_eq!(m, "unknown value_type: 0x2A"),
        _ => panic!("expected an unknown-type error"),
    }
}

#[test]
fn bytes_items_drop_partial_item() {
    let decoded = roundtrip(&[1, 2, 3, 4, 5], TYPE_BYTES, CODEC_PLAIN, 2);
    assert_eq!(decoded, vec![1, 2, 3, 4]);
}

#[test]
fn crc32_check_value() {
    assert_eq!(crc32(b"123456789"), 0xCBF4_3926);
}
