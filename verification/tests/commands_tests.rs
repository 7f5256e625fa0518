use module_live_telemetry::commands::{
    check_frame_counts, command_for_name, format_lap_time, parse_convert_args, status_label,
    validate_lap_fields, Command, ConvertRequest,
};
use module_live_telemetry::error::TelemetryError;
use module_live_telemetry::lap_report::{lap_tick_range, SessionLapSample};

fn argument_message<T: std::fmt::Debug>(r: Result<T, TelemetryError>) -> String {
    match r {
        Err(TelemetryError::InvalidArgument(m)) => m,
        other => panic!("expected an invalid-argument error, got {:?}", other),
    }
}

fn strings(v: &[&str]) -> Vec<String> {
    v.iter().map(|s| s.to_string()).collect()
}

#[test]
fn test_command_names() {
    assert_eq!(command_for_name("record").unwrap(), Command::Record);
    assert_eq!(command_for_name("record-raw").unwrap(), Command::RecordRaw);
    assert_eq!(command_for_name("export-lap-field").unwrap(), Command::ExportLapField);
    assert_eq!(command_for_name("session-info").unwrap(), Command::SessionInfo);
    assert_eq!(command_for_name("help").unwrap(), Command::Help);
    assert_eq!(command_for_name("--help").unwrap(), Command::Help);
    assert_eq!(command_for_name("-h").unwrap(), Command::Help);
}

#[test]
fn test_unknown_command_message() {
    assert_eq!(argument_message(command_for_name("fly")), "unknown command 'fly'");
    assert_eq!(argument_message(command_for_name("Record")), "unknown command 'Record'");
}

#[test]
fn test_format_lap_time() {
    assert_eq!(format_lap_time(Some(83_456)), "1:23.456");
    assert_eq!(format_lap_time(Some(61_005)), "1:01.005");
    assert_eq!(format_lap_time(Some(9_050)), "0:09.050");
    assert_eq!(format_lap_time(Some(1_999_999)), "33:19.999");
    assert_eq!(format_lap_time(Some(2_000_000)), "-");
    assert_eq!(format_lap_time(Some(0)), "-");
    assert_eq!(format_lap_time(Some(-5)), "-");
    assert_eq!(format_lap_time(None), "-");
}

#[test]
fn test_status_labels() {
    assert_eq!(status_label(0), "OFF");
    assert_eq!(status_label(1), "REPLAY");
    assert_eq!(status_label(2), "LIVE");
    assert_eq!(status_label(3), "PAUSE");
    assert_eq!(status_label(7), "UNKNOWN");
    assert_eq!(status_label(-1), "UNKNOWN");
}

#[test]
fn test_frame_counts_match() {
    assert!(check_frame_counts(3, &[("motion", 3), ("tyres", 3)]).is_ok());
    assert!(check_frame_counts(0, &[]).is_ok());
}

#[test]
fn test_frame_count_mismatch_reports_first() {
    match check_frame_counts(3, &[("motion", 3), ("tyres", 2), ("timing", 9)]) {
        Err(TelemetryError::InvalidFormat(m)) => {
            assert_eq!(m, "frame count mismatch: controls have 3 frames, tyres has 2")
        }
        other => panic!("unexpected {:?}", other),
    }
}

#[test]
fn test_convert_args() {
    assert_eq!(parse_convert_args(&strings(&["conv"])), ConvertRequest::Usage);
    assert_eq!(parse_convert_args(&strings(&["conv", "--force"])), ConvertRequest::Usage);
    assert_eq!(
        parse_convert_args(&strings(&["conv", "a.acctlm"])),
        ConvertRequest::Convert { force: false, input: "a.acctlm".to_string(), output: None }
    );
    assert_eq!(
        parse_convert_args(&strings(&["conv", "-f", "a.acctlm", "b.acctlm2", "extra"])),
        ConvertRequest::Convert {
            force: true,
            input: "a.acctlm".to_string(),
            output: Some("b.acctlm2".to_string())
        }
    );
    assert_eq!(
        parse_convert_args(&strings(&["conv", "a.acctlm", "--fast", "--bad"])),
        ConvertRequest::UnknownFlag("--fast".to_string())
    );
}

#[test]
fn test_lap_fields_accepted() {
    assert!(validate_lap_fields(&["speedKmh", "gas", "iLastTime", "gapBehind"]).is_ok());
    assert!(validate_lap_fields(&[]).is_ok());
}

#[test]
fn test_lap_fields_suggestions() {
    assert_eq!(
        argument_message(validate_lap_fields(&["speed_kmh"])),
        "unknown field 'speed_kmh'; did you mean 'speedKmh'?"
    );
    assert_eq!(
        argument_message(validate_lap_fields(&["GAS", "gas", "warp"])),
        "unknown field 'GAS'; did you mean 'gas'?\nunknown field 'warp'"
    );
}

fn sample(tick: u64, crossed: bool) -> SessionLapSample {
    SessionLapSample { sample_tick: tick, is_valid_lap: 1, crossed_start_line: crossed }
}

#[test]
fn test_lap_range_from_index() {
    let bounds = [(0u64, 99u64), (100, 199)];
    assert_eq!(lap_tick_range(&bounds, &[], 1).unwrap(), (100, 199));
}

#[test]
fn test_lap_range_from_session_crossings() {
    let session = [sample(10, false), sample(11, false), sample(12, true), sample(13, false), sample(14, true), sample(15, false)];
    assert_eq!(lap_tick_range(&[], &session, 0).unwrap(), (10, 11));
    assert_eq!(lap_tick_range(&[], &session, 1).unwrap(), (12, 13));
    assert_eq!(lap_tick_range(&[], &session, 2).unwrap(), (14, 15));
    assert_eq!(argument_message(lap_tick_range(&[], &session, 3)), "lap 3 not found");
    // Past the end of the index, the session samples decide.
    assert_eq!(lap_tick_range(&[(0, 5)], &session, 1).unwrap(), (12, 13));
}

use module_live_telemetry::commands::{chunk_line, format_duration, format_recorded_at};
use module_live_telemetry::format::IndexEntry;

#[test]
fn test_format_duration() {
    assert_eq!(format_duration(0), "0:00:00");
    assert_eq!(format_duration(3725), "1:02:05");
    assert_eq!(format_duration(40 * 3600 + 59), "40:00:59");
}

#[test]
fn test_format_recorded_at_utc_plus_8() {
    assert_eq!(format_recorded_at(0), "1970/01/01 08:00:00");
    assert_eq!(format_recorded_at(1_710_506_096_000_000_000), "2024/03/15 20:34:56");
    // 20:00 UTC on a leap day is already 1 March in UTC+8.
    assert_eq!(format_recorded_at(951_854_400_123_456_789), "2000/03/01 04:00:00");
}

#[test]
fn test_chunk_line() {
    let e = IndexEntry {
        cluster_id: 0x2a,
        chunk_seq: 7,
        file_offset: 4096,
        byte_len: 512,
        start_time_ns: 100,
        end_time_ns: 900,
        start_tick: 10,
        end_tick: 19,
    };
    assert_eq!(
        chunk_line(&e),
        "chunk #0007 cluster=0x002a samples=10 ticks=10..19 time_ns=100..900 offset=4096 bytes=512"
    );
    let backwards = IndexEntry { start_tick: 5, end_tick: 1, chunk_seq: 12345, ..e };
    assert!(chunk_line(&backwards).starts_with("chunk #12345 cluster=0x002a samples=1 ticks=5..1"));
}
