use module_live_telemetry::cli_args::{
    derive_output_path, optional_i32, optional_path, optional_string, optional_u32, optional_u64,
    optional_usize, recording_file_name, required_path, required_string, utf16_trim,
};
use module_live_telemetry::error::TelemetryError;

fn args(v: &[&str]) -> Vec<String> {
    v.iter().map(|s| s.to_string()).collect()
}

fn argument_message(e: TelemetryError) -> String {
    match e {
        TelemetryError::InvalidArgument(m) => m,
        other => panic!("expected an argument error, got {other:?}"),
    }
}

#[test]
fn flags_are_looked_up_by_first_occurrence() {
    let a = args(&["laps", "--input", "a.acctlm", "--input", "b.acctlm"]);
    assert_eq!(required_path(&a, "--input").unwrap(), "a.acctlm");
    assert_eq!(optional_path(&a, "--out"), None);
    assert_eq!(optional_string(&a, "--input", "x"), "a.acctlm");
    assert_eq!(optional_string(&a, "--mode", "x"), "x");
    assert_eq!(required_string(&a, "--input").unwrap(), "a.acctlm");
}

#[test]
fn missing_flags_are_reported() {
    let a = args(&["laps", "--input"]);
    assert_eq!(argument_message(required_path(&a, "--input").unwrap_err()), "missing --input <path>");
    assert_eq!(argument_message(required_string(&a, "--fields").unwrap_err()), "missing --fields <value>");
    assert_eq!(argument_message(optional_usize(&a, "--input", 3).unwrap_err()), "missing value for --input");
}

#[test]
fn numeric_flags_parse_or_default() {
    let a = args(&["--lap", "7", "--hz", "+60", "--offset", "-12", "--count", "4294967296"]);
    assert_eq!(optional_usize(&a, "--lap", 0).unwrap(), 7);
    assert_eq!(optional_u32(&a, "--hz", 0).unwrap(), 60);
    assert_eq!(optional_i32(&a, "--offset", 0).unwrap(), -12);
    assert_eq!(optional_u64(&a, "--count", 0).unwrap(), 4_294_967_296);
    assert_eq!(optional_u32(&a, "--missing", 5).unwrap(), 5);
    let e = optional_u32(&a, "--count", 0).unwrap_err();
    assert_eq!(argument_message(e), "invalid --count: number too large to fit in target type");
    let b = args(&["--lap", "x1"]);
    assert_eq!(argument_message(optional_usize(&b, "--lap", 0).unwrap_err()), "invalid --lap: invalid digit found in string");
}

#[test]
fn output_paths() {
    assert_eq!(derive_output_path("data.acctlm"), "data.acctlm2");
    assert_eq!(derive_output_path("data.bin"), "data.bin.acctlm2");
    assert_eq!(recording_file_name(1700000000, "porsche"), "live_1700000000_porsche.acctlm2");
}

#[test]
fn utf16_text_stops_at_nul() {
    let units: Vec<u16> = "Monza\0junk".encode_utf16().collect();
    assert_eq!(utf16_trim(&units), "Monza");
    let full: Vec<u16> = "Spa".encode_utf16().collect();
    assert_eq!(utf16_trim(&full), "Spa");
}

#[test]
fn test_utf16_trim_surrogates() {
    // A surrogate pair decodes to one code point.
    assert_eq!(utf16_trim(&[0xD83C, 0xDFC1, 0]), "\u{1F3C1}");
    // An unpaired surrogate becomes U+FFFD, and the unit after it is kept.
    assert_eq!(utf16_trim(&[0x41, 0xD800, 0x42, 0]), "A\u{FFFD}B");
    assert_eq!(utf16_trim(&[0xDC00, 0xD800]), "\u{FFFD}\u{FFFD}");
}
