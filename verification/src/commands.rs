//! Decisions of the command-line tools that need nothing from the outside
//! world: which command a name selects, what the converter's arguments ask
//! for, how a lap time and a game status read, which field names a lap
//! export accepts, and whether every cluster of a recording holds the same
//! number of frames.

use vstd::prelude::*;
use vstd::string::*;
use crate::error::{is_argument_error, is_format_error, TelemetryError, TelemetryResult};
use crate::lap_report::MAX_LAP_TIME_MS;
use crate::format::IndexEntry;
use crate::text::{decimal, hex_fixed_lower, lowercase_text, push_decimal, push_hex_lower, str_equal, to_lowercase};

verus! {

/// The commands of the telemetry tool.
#[derive(Debug, Clone, Copy, PartialEq, Eq)]
pub enum Command {
    Record,
    RecordRaw,
    RecordAll,
    Inspect,
    Export,
    Laps,
    SessionInfo,
    ParseRaw,
    BuildLapIndex,
    ExportLapField,
    Serve,
    Trackmap,
    Help,
}

/// The command a name selects; `help`, `--help` and `-h` all ask for help.
pub open spec fn spec_command(name: Seq<char>) -> Option<Command> {
    if name == "record"@ {
        Some(Command::Record)
    } else if name == "record-raw"@ {
        Some(Command::RecordRaw)
    } else if name == "record-all"@ {
        Some(Command::RecordAll)
    } else if name == "inspect"@ {
        Some(Command::Inspect)
    } else if name == "export"@ {
        Some(Command::Export)
    } else if name == "laps"@ {
        Some(Command::Laps)
    } else if name == "session-info"@ {
        Some(Command::SessionInfo)
    } else if name == "parse-raw"@ {
        Some(Command::ParseRaw)
    } else if name == "build-lap-index"@ {
        Some(Command::BuildLapIndex)
    } else if name == "export-lap-field"@ {
        Some(Command::ExportLapField)
    } else if name == "serve"@ {
        Some(Command::Serve)
    } else if name == "trackmap"@ {
        Some(Command::Trackmap)
    } else if name == "help"@ || name == "--help"@ || name == "-h"@ {
        Some(Command::Help)
    } else {
        None
    }
}

/// The command that `name` selects, or an invalid-argument error naming it.
pub fn command_for_name(name: &str) -> (r: TelemetryResult<Command>)
    ensures
        match spec_command(name@) {
            Some(c) => r matches Ok(d) && d == c,
            None => r is Err && is_argument_error(r->Err_0, "unknown command '"@ + name@ + "'"@),
        },
{
    if str_equal(name, "record") {
        Ok(Command::Record)
    } else if str_equal(name, "record-raw") {
        Ok(Command::RecordRaw)
    } else if str_equal(name, "record-all") {
        Ok(Command::RecordAll)
    } else if str_equal(name, "inspect") {
        Ok(Command::Inspect)
    } else if str_equal(name, "export") {
        Ok(Command::Export)
    } else if str_equal(name, "laps") {
        Ok(Command::Laps)
    } else if str_equal(name, "session-info") {
        Ok(Command::SessionInfo)
    } else if str_equal(name, "parse-raw") {
        Ok(Command::ParseRaw)
    } else if str_equal(name, "build-lap-index") {
        Ok(Command::BuildLapIndex)
    } else if str_equal(name, "export-lap-field") {
        Ok(Command::ExportLapField)
    } else if str_equal(name, "serve") {
        Ok(Command::Serve)
    } else if str_equal(name, "trackmap") {
        Ok(Command::Trackmap)
    } else if str_equal(name, "help") || str_equal(name, "--help") || str_equal(name, "-h") {
        Ok(Command::Help)
    } else {
        let mut m = String::from_str("unknown command '");
        m.append(name);
        m.append("'");
        Err(TelemetryError::InvalidArgument(m))
    }
}

/// `n` with at least two digits.
pub open spec fn two_digits(n: nat) -> Seq<char> {
    if n < 10 { "0"@ + decimal(n) } else { decimal(n) }
}

/// `n` with at least three digits.
pub open spec fn three_digits(n: nat) -> Seq<char> {
    if n < 10 { "00"@ + decimal(n) } else if n < 100 { "0"@ + decimal(n) } else { decimal(n) }
}

/// A lap time as minutes, two-digit seconds and three-digit milliseconds
/// (`m:ss.mmm`), or `-` when there is none or it is not a plausible lap
/// time (not positive, or two million milliseconds or more).
pub open spec fn lap_time_text(ms: Option<i32>) -> Seq<char> {
    match ms {
        Some(v) => if 0 < v && v < MAX_LAP_TIME_MS {
            decimal((v / 60000) as nat) + ":"@ + two_digits(((v % 60000) / 1000) as nat) + "."@ + three_digits((v % 1000) as nat)
        } else {
            "-"@
        },
        None => "-"@,
    }
}

/// A plausible lap time is shown as minutes, seconds and milliseconds that
/// add back up to it, with fewer than sixty seconds and fewer than a
/// thousand milliseconds; anything else is shown as `-`.
pub proof fn lemma_lap_time_text_parts(ms: Option<i32>)
    ensures
        (ms matches Some(v) && 0 < v < 2_000_000) ==> exists|m: nat, sec: nat, milli: nat|
            #![trigger decimal(m), two_digits(sec), three_digits(milli)]
            lap_time_text(ms) == decimal(m) + ":"@ + two_digits(sec) + "."@ + three_digits(milli)
            && m * 60000 + sec * 1000 + milli == ms->Some_0 && sec < 60 && milli < 1000,
        !(ms matches Some(v) && 0 < v < 2_000_000) ==> lap_time_text(ms) == "-"@,
{
    if let Some(v) = ms {
        if 0 < v < 2_000_000 {
            let m = (v / 60000) as nat;
            let sec = ((v % 60000) / 1000) as nat;
            let milli = (v % 1000) as nat;
            assert(m * 60000 + sec * 1000 + milli == v) by (nonlinear_arith)
                requires
                    0 < v,
                    m == v / 60000,
                    sec == (v % 60000) / 1000,
                    milli == v % 1000;
            assert(lap_time_text(ms) == decimal(m) + ":"@ + two_digits(sec) + "."@ + three_digits(milli));
        }
    }
}

/// Append `n` with at least `width` digits (two or three).
fn push_padded(s: &mut String, n: u64, width: u64)
    requires
        width == 2 || width == 3,
    ensures
        width == 2 ==> final(s)@ == old(s)@ + two_digits(n as nat),
        width == 3 ==> final(s)@ == old(s)@ + three_digits(n as nat),
{
    if width == 3 && n < 10 {
        s.append("00");
    } else if n < 10 || (width == 3 && n < 100) {
        s.append("0");
    }
    push_decimal(s, n);
    assert(width == 2 ==> final(s)@ =~= old(s)@ + two_digits(n as nat));
    assert(width == 3 ==> final(s)@ =~= old(s)@ + three_digits(n as nat));
}

/// Render a lap time for the lap table.
pub fn format_lap_time(ms: Option<i32>) -> (s: String)
    ensures
        s@ == lap_time_text(ms),
{
    match ms {
        Some(v) => {
            if 0 < v && v < MAX_LAP_TIME_MS {
                let mut s = String::new();
                push_decimal(&mut s, (v / 60000) as u64);
                s.append(":");
                push_padded(&mut s, ((v % 60000) / 1000) as u64, 2);
                s.append(".");
                push_padded(&mut s, (v % 1000) as u64, 3);
                assert(s@ =~= lap_time_text(ms));
                s
            } else {
                String::from_str("-")
            }
        },
        None => String::from_str("-"),
    }
}

/// The name of a game status: off, replay, live or pause.
pub open spec fn spec_status_label(status: i32) -> Seq<char> {
    if status == 0 {
        "OFF"@
    } else if status == 1 {
        "REPLAY"@
    } else if status == 2 {
        "LIVE"@
    } else if status == 3 {
        "PAUSE"@
    } else {
        "UNKNOWN"@
    }
}

/// The name the session report gives a game status.
pub fn status_label(status: i32) -> (s: &'static str)
    ensures
        s@ == spec_status_label(status),
{
    if status == 0 {
        "OFF"
    } else if status == 1 {
        "REPLAY"
    } else if status == 2 {
        "LIVE"
    } else if status == 3 {
        "PAUSE"
    } else {
        "UNKNOWN"
    }
}

/// The first cluster, among `counts`, whose frame count is not `n`.
pub open spec fn first_count_mismatch(n: usize, counts: Seq<(&str, usize)>, k: int) -> Option<int>
    decreases k,
{
    if k <= 0 {
        None
    } else {
        match first_count_mismatch(n, counts, k - 1) {
            Some(i) => Some(i),
            None => if counts[k - 1].1 != n { Some(k - 1) } else { None },
        }
    }
}

/// Check that each named cluster holds `n` frames, as the controls do;
/// the first one that does not is reported.
pub fn check_frame_counts(n: usize, counts: &[(&str, usize)]) -> (r: TelemetryResult<()>)
    ensures
        match first_count_mismatch(n, counts@, counts@.len() as int) {
            None => r is Ok,
            Some(i) => r is Err && is_format_error(r->Err_0,
                "frame count mismatch: controls have "@ + decimal(n as nat) + " frames, "@ + counts@[i].0@ + " has "@ + decimal(counts@[i].1 as nat)),
        },
{
    let mut k: usize = 0;
    while k < counts.len()
        invariant
            k <= counts@.len(),
            first_count_mismatch(n, counts@, k as int) is None,
        decreases counts@.len() - k,
    {
        let (name, count) = counts[k];
        if count != n {
            proof {
                lemma_first_mismatch_stays(n, counts@, k as int + 1, counts@.len() as int);
            }
            let mut m = String::from_str("frame count mismatch: controls have ");
            push_decimal(&mut m, n as u64);
            m.append(" frames, ");
            m.append(name);
            m.append(" has ");
            push_decimal(&mut m, count as u64);
            return Err(TelemetryError::InvalidFormat(m));
        }
        k = k + 1;
    }
    Ok(())
}

/// Once a mismatch is found, looking further does not change it.
proof fn lemma_first_mismatch_stays(n: usize, counts: Seq<(&str, usize)>, j: int, k: int)
    requires
        0 <= j <= k,
        first_count_mismatch(n, counts, j) is Some,
    ensures
        first_count_mismatch(n, counts, k) == first_count_mismatch(n, counts, j),
    decreases k - j,
{
    if j < k {
        lemma_first_mismatch_stays(n, counts, j, k - 1);
    }
}

/// What the converter's arguments ask for.
#[derive(Debug, Clone, PartialEq, Eq)]
pub enum ConvertRequest {
    /// An option the converter does not know: report it, show the usage.
    UnknownFlag(String),
    /// No input file was named: show the usage.
    Usage,
    /// Convert `input`, writing `output` (or a name derived from the input),
    /// overwriting an existing output only when forced.
    Convert { force: bool, input: String, output: Option<String> },
}

/// `--force` or `-f`.
pub open spec fn is_force_flag(a: Seq<char>) -> bool {
    a == "--force"@ || a == "-f"@
}

/// An argument that starts with `-`.
pub open spec fn is_flag(a: Seq<char>) -> bool {
    a.len() > 0 && a[0] == '-'
}

/// Scanning the arguments after the program name, up to `k`: whether
/// `--force` was given, the positional arguments, and the first unknown
/// option, where scanning stops.
pub open spec fn convert_scan(args: Seq<Seq<char>>, k: int) -> (bool, Seq<Seq<char>>, Option<Seq<char>>)
    decreases k,
{
    if k <= 1 {
        (false, Seq::empty(), None)
    } else {
        let (force, pos, unknown) = convert_scan(args, k - 1);
        if unknown is Some {
            (force, pos, unknown)
        } else {
            let a = args[k - 1];
            if is_force_flag(a) {
                (true, pos, None)
            } else if is_flag(a) {
                (force, pos, Some(a))
            } else {
                (force, pos.push(a), None)
            }
        }
    }
}

/// The views of a list of strings.
pub open spec fn texts(args: Seq<String>) -> Seq<Seq<char>> {
    args.map_values(|a: String| a@)
}

/// Read the converter's arguments; the first is the program's name.
pub fn parse_convert_args(args: &[String]) -> (r: ConvertRequest)
    requires
        args@.len() >= 1,
    ensures
        ({
            let (force, pos, unknown) = convert_scan(texts(args@), args@.len() as int);
            match unknown {
                Some(a) => r matches ConvertRequest::UnknownFlag(f) && f@ == a,
                None => if pos.len() == 0 {
                    r is Usage
                } else {
                    r matches ConvertRequest::Convert { force: fo, input, output }
                        && fo == force && input@ == pos[0]
                        && (if pos.len() >= 2 { output matches Some(o) && o@ == pos[1] } else { output is None })
                },
            }
        }),
{
    let ghost a = texts(args@);
    let mut force = false;
    let mut positional: Vec<String> = Vec::new();
    let mut i: usize = 1;
    while i < args.len()
        invariant
            1 <= i <= args@.len(),
            a == texts(args@),
            convert_scan(a, i as int) == (force, texts(positional@), None::<Seq<char>>),
        decreases args@.len() - i,
    {
        let arg = &args[i];
        let s = arg.as_str();
        if str_equal(s, "--force") || str_equal(s, "-f") {
            force = true;
        } else if s.unicode_len() > 0 && s.get_char(0) == '-' {
            proof { lemma_unknown_flag_stays(a, i as int + 1, args@.len() as int); }
            return ConvertRequest::UnknownFlag(arg.clone());
        } else {
            let ghost before = texts(positional@);
            positional.push(arg.clone());
            assert(texts(positional@) =~= before.push(a[i as int]));
        }
        i = i + 1;
    }
    if positional.len() == 0 {
        return ConvertRequest::Usage;
    }
    let input = positional[0].clone();
    let output = if positional.len() >= 2 { Some(positional[1].clone()) } else { None };
    ConvertRequest::Convert { force, input, output }
}

/// Once an unknown option is found, later arguments change nothing.
proof fn lemma_unknown_flag_stays(args: Seq<Seq<char>>, j: int, k: int)
    requires
        1 <= j <= k,
        convert_scan(args, j).2 is Some,
    ensures
        convert_scan(args, k) == convert_scan(args, j),
    decreases k - j,
{
    if j < k {
        lemma_unknown_flag_stays(args, j, k - 1);
    }
}

/// The field names a lap export accepts, in the order the tool lists them.
pub open spec fn lap_export_fields() -> Seq<Seq<char>> {
    seq![
        "status"@,
        "session"@,
        "sessionIndex"@,
        "completedLaps"@,
        "position"@,
        "sessionTimeLeft"@,
        "numberOfLaps"@,
        "currentSectorIndex"@,
        "normalizedCarPosition"@,
        "isInPit"@,
        "isInPitLane"@,
        "mandatoryPitDone"@,
        "missingMandatoryPits"@,
        "penaltyTime"@,
        "penaltyType"@,
        "clock"@,
        "replayTimeMultiplier"@,
        "isValidLap"@,
        "globalYellow"@,
        "globalYellow1"@,
        "globalYellow2"@,
        "globalYellow3"@,
        "globalWhite"@,
        "globalGreen"@,
        "globalChequered"@,
        "globalRed"@,
        "gapAheadOrTailValue"@,
        "flag"@,
        "gapBehind"@,
        "iCurrentTime"@,
        "iLastTime"@,
        "iBestTime"@,
        "iSplit"@,
        "lastSectorTime"@,
        "iDeltaLapTime"@,
        "isDeltaPositive"@,
        "iEstimatedLapTime"@,
        "fuelEstimatedLaps"@,
        "fuelXLap"@,
        "usedFuel"@,
        "distanceTraveled"@,
        "speedKmh"@,
        "gas"@,
        "brake"@,
        "clutch"@,
        "steerAngle"@,
        "gear"@,
        "rpms"@,
        "fuel"@,
        "physicsPacketId"@,
        "graphicsPacketId"@
    ]
}

fn lap_export_field_names() -> (v: Vec<&'static str>)
    ensures
        v@.map_values(|s: &'static str| s@) == lap_export_fields(),
{
    let mut v: Vec<&'static str> = Vec::new();
    v.push("status");
    v.push("session");
    v.push("sessionIndex");
    v.push("completedLaps");
    v.push("position");
    v.push("sessionTimeLeft");
    v.push("numberOfLaps");
    v.push("currentSectorIndex");
    v.push("normalizedCarPosition");
    v.push("isInPit");
    v.push("isInPitLane");
    v.push("mandatoryPitDone");
    v.push("missingMandatoryPits");
    v.push("penaltyTime");
    v.push("penaltyType");
    v.push("clock");
    v.push("replayTimeMultiplier");
    v.push("isValidLap");
    v.push("globalYellow");
    v.push("globalYellow1");
    v.push("globalYellow2");
    v.push("globalYellow3");
    v.push("globalWhite");
    v.push("globalGreen");
    v.push("globalChequered");
    v.push("globalRed");
    v.push("gapAheadOrTailValue");
    v.push("flag");
    v.push("gapBehind");
    v.push("iCurrentTime");
    v.push("iLastTime");
    v.push("iBestTime");
    v.push("iSplit");
    v.push("lastSectorTime");
    v.push("iDeltaLapTime");
    v.push("isDeltaPositive");
    v.push("iEstimatedLapTime");
    v.push("fuelEstimatedLaps");
    v.push("fuelXLap");
    v.push("usedFuel");
    v.push("distanceTraveled");
    v.push("speedKmh");
    v.push("gas");
    v.push("brake");
    v.push("clutch");
    v.push("steerAngle");
    v.push("gear");
    v.push("rpms");
    v.push("fuel");
    v.push("physicsPacketId");
    v.push("graphicsPacketId");
    assert(v@.map_values(|s: &'static str| s@) =~= lap_export_fields());
    v
}

/// `s` without its underscores.
pub open spec fn without_underscores(s: Seq<char>) -> Seq<char>
    decreases s.len(),
{
    if s.len() == 0 {
        s
    } else if s.last() == '_' {
        without_underscores(s.drop_last())
    } else {
        without_underscores(s.drop_last()).push(s.last())
    }
}

/// The key by which a misspelt field name is matched to a known one: the
/// name without underscores, in lower case.
pub open spec fn field_key(s: Seq<char>) -> Seq<char> {
    lowercase_text(without_underscores(s))
}

fn strip_underscores(s: &str) -> (r: String)
    ensures
        r@ == without_underscores(s@),
{
    let n = s.unicode_len();
    let mut r = String::new();
    let mut i: usize = 0;
    while i < n
        invariant
            i <= n,
            n == s@.len(),
            r@ == without_underscores(s@.subrange(0, i as int)),
        decreases n - i,
    {
        let c = s.get_char(i);
        proof {
            assert(s@.subrange(0, i as int + 1).drop_last() =~= s@.subrange(0, i as int));
        }
        if c != '_' {
            r.append(s.substring_char(i, i + 1));
            assert(s@.subrange(i as int, i as int + 1) =~= seq![c]);
        }
        i = i + 1;
    }
    assert(s@.subrange(0, n as int) =~= s@);
    r
}

/// The known field whose key equals `key`; the last one when several do.
pub open spec fn suggestion_upto(fields: Seq<Seq<char>>, key: Seq<char>, k: int) -> Option<Seq<char>>
    decreases k,
{
    if k <= 0 {
        None
    } else if field_key(fields[k - 1]) == key {
        Some(fields[k - 1])
    } else {
        suggestion_upto(fields, key, k - 1)
    }
}

/// What is wrong with one field name, if anything: it is unknown, and a
/// known field with the same key is suggested.
pub open spec fn field_error(fields: Seq<Seq<char>>, name: Seq<char>) -> Option<Seq<char>> {
    if fields.contains(name) {
        None
    } else {
        match suggestion_upto(fields, field_key(name), fields.len() as int) {
            Some(f) => Some("unknown field '"@ + name + "'; did you mean '"@ + f + "'?"@),
            None => Some("unknown field '"@ + name + "'"@),
        }
    }
}

/// The errors of the first `k` field names, in order.
pub open spec fn field_errors(fields: Seq<Seq<char>>, names: Seq<Seq<char>>, k: int) -> Seq<Seq<char>>
    decreases k,
{
    if k <= 0 {
        Seq::empty()
    } else {
        let e = field_errors(fields, names, k - 1);
        match field_error(fields, names[k - 1]) {
            Some(m) => e.push(m),
            None => e,
        }
    }
}

/// Messages joined by line breaks.
pub open spec fn join_lines(ms: Seq<Seq<char>>) -> Seq<char>
    decreases ms.len(),
{
    if ms.len() == 0 {
        Seq::empty()
    } else if ms.len() == 1 {
        ms[0]
    } else {
        join_lines(ms.drop_last()) + "\n"@ + ms.last()
    }
}

/// The views of a list of string slices.
pub open spec fn str_texts(names: Seq<&str>) -> Seq<Seq<char>> {
    names.map_values(|s: &str| s@)
}

fn is_known_field(fields: &Vec<&'static str>, name: &str) -> (r: bool)
    ensures
        r == fields@.map_values(|s: &'static str| s@).contains(name@),
{
    let ghost fs = fields@.map_values(|s: &'static str| s@);
    let mut i: usize = 0;
    while i < fields.len()
        invariant
            i <= fields@.len(),
            fs == fields@.map_values(|s: &'static str| s@),
            forall|j: int| 0 <= j < i ==> fs[j] != name@,
        decreases fields@.len() - i,
    {
        if str_equal(fields[i], name) {
            assert(fs[i as int] == name@);
            return true;
        }
        i = i + 1;
    }
    false
}

fn suggestion_for(fields: &Vec<&'static str>, key: &str) -> (r: Option<&'static str>)
    ensures
        match suggestion_upto(fields@.map_values(|s: &'static str| s@), key@, fields@.len() as int) {
            Some(f) => r matches Some(g) && g@ == f,
            None => r is None,
        },
{
    let ghost fs = fields@.map_values(|s: &'static str| s@);
    let mut found: Option<&'static str> = None;
    let mut i: usize = 0;
    while i < fields.len()
        invariant
            i <= fields@.len(),
            fs == fields@.map_values(|s: &'static str| s@),
            match suggestion_upto(fs, key@, i as int) {
                Some(f) => found matches Some(g) && g@ == f,
                None => found is None,
            },
        decreases fields@.len() - i,
    {
        let stripped = strip_underscores(fields[i]);
        let k = to_lowercase(stripped.as_str());
        if str_equal(k.as_str(), key) {
            found = Some(fields[i]);
        }
        i = i + 1;
    }
    found
}

/// Check the field names of a lap export before anything is read: each
/// must be a known field; every unknown one is reported, with the known
/// field it most likely meant when one has the same key, one per line.
pub fn validate_lap_fields(names: &[&str]) -> (r: TelemetryResult<()>)
    ensures
        ({
            let errs = field_errors(lap_export_fields(), str_texts(names@), names@.len() as int);
            if errs.len() == 0 {
                r is Ok
            } else {
                r is Err && is_argument_error(r->Err_0, join_lines(errs))
            }
        }),
{
    let fields = lap_export_field_names();
    let ghost fs = lap_export_fields();
    let ghost ns = str_texts(names@);
    let mut msg = String::new();
    let mut count: usize = 0;
    let mut i: usize = 0;
    while i < names.len()
        invariant
            i <= names@.len(),
            fs == lap_export_fields(),
            fields@.map_values(|s: &'static str| s@) == fs,
            ns == str_texts(names@),
            count as int == field_errors(fs, ns, i as int).len(),
            count <= i,
            msg@ == join_lines(field_errors(fs, ns, i as int)),
        decreases names@.len() - i,
    {
        let name = names[i];
        assert(ns[i as int] == name@);
        if !is_known_field(&fields, name) {
            let stripped = strip_underscores(name);
            let key = to_lowercase(stripped.as_str());
            let ghost prev = field_errors(fs, ns, i as int);
            let mut line = String::from_str("unknown field '");
            line.append(name);
            match suggestion_for(&fields, key.as_str()) {
                Some(f) => {
                    line.append("'; did you mean '");
                    line.append(f);
                    line.append("'?");
                },
                None => {
                    line.append("'");
                },
            }
            assert(field_errors(fs, ns, i as int + 1) == prev.push(line@));
            if count > 0 {
                msg.append("\n");
            }
            msg.append(line.as_str());
            proof {
                let next = prev.push(line@);
                assert(next.drop_last() =~= prev);
                if count == 0 {
                    assert(msg@ =~= join_lines(next));
                }
            }
            count = count + 1;
        }
        i = i + 1;
    }
    if count == 0 {
        Ok(())
    } else {
        Err(TelemetryError::InvalidArgument(msg))
    }
}

/// A duration in whole seconds as hours, two-digit minutes and two-digit
/// seconds (`h:mm:ss`).
pub open spec fn duration_text(secs: nat) -> Seq<char> {
    decimal(secs / 3600) + ":"@ + two_digits((secs % 3600) / 60) + ":"@ + two_digits(secs % 60)
}

/// A duration is shown as hours, minutes and seconds that add back up to
/// it, with fewer than sixty minutes and fewer than sixty seconds.
pub proof fn lemma_duration_text_parts(secs: nat)
    ensures
        exists|h: nat, m: nat, sec: nat| #![trigger decimal(h), two_digits(m), two_digits(sec)]
            duration_text(secs) == decimal(h) + ":"@ + two_digits(m) + ":"@ + two_digits(sec)
            && h * 3600 + m * 60 + sec == secs && m < 60 && sec < 60,
{
    let h = secs / 3600;
    let m = (secs % 3600) / 60;
    let sec = secs % 60;
    assert(h * 3600 + m * 60 + sec == secs) by (nonlinear_arith)
        requires
            h == secs / 3600,
            m == (secs % 3600) / 60,
            sec == secs % 60;
    assert(duration_text(secs) == decimal(h) + ":"@ + two_digits(m) + ":"@ + two_digits(sec));
}

/// Render a recording's duration for the inspection report.
pub fn format_duration(secs: u64) -> (s: String)
    ensures
        s@ == duration_text(secs as nat),
{
    let mut s = String::new();
    push_decimal(&mut s, secs / 3600);
    s.append(":");
    push_padded(&mut s, (secs % 3600) / 60, 2);
    s.append(":");
    push_padded(&mut s, secs % 60, 2);
    s
}

/// `a - b`, or 0 when `b` is larger.
pub open spec fn sat_sub(a: int, b: int) -> int {
    if a >= b { a - b } else { 0 }
}

/// The civil date (year, month, day) of day `days` counted from
/// 1970-01-01, by the era-based conversion of the proleptic Gregorian
/// calendar (eras of 400 years starting on 1 March).
pub open spec fn civil_date(days: int) -> (int, int, int) {
    let z = days + 719468;
    let era = z / 146097;
    let doe = z - era * 146097;
    let yoe = sat_sub(doe - doe / 1460 + doe / 36524, doe / 146096) / 365;
    let y = yoe + era * 400;
    let doy = sat_sub(doe, 365 * yoe + yoe / 4 - yoe / 100);
    let mp = (5 * doy + 2) / 153;
    let d = sat_sub(doy + 1, (153 * mp + 2) / 5);
    let m = if mp < 10 { mp + 3 } else { mp - 9 };
    (if m <= 2 { y + 1 } else { y }, m, d)
}

/// When a recording was made, in UTC+8: `yyyy/mm/dd hh:mm:ss`.
pub open spec fn recorded_at_text(created_unix_ns: nat) -> Seq<char> {
    let total = created_unix_ns / 1_000_000_000 + 8 * 3600;
    let (y, m, d) = civil_date((total / 86400) as int);
    let t = total % 86400;
    decimal(y as nat) + "/"@ + two_digits(m as nat) + "/"@ + two_digits(d as nat) + " "@
        + two_digits((t / 3600) % 24) + ":"@ + two_digits((t / 60) % 60) + ":"@ + two_digits(t % 60)
}

/// Render when a recording was made, for the inspection report.
pub fn format_recorded_at(created_unix_ns: u64) -> (s: String)
    ensures
        s@ == recorded_at_text(created_unix_ns as nat),
{
    let total: u64 = created_unix_ns / 1_000_000_000 + 8 * 3600;
    let days: u64 = total / 86400;
    let time_of_day: u64 = total % 86400;
    let z: u64 = days + 719468;
    let era: u64 = z / 146097;
    let doe: u64 = z - era * 146097;
    let a: u64 = doe - doe / 1460 + doe / 36524;
    let b: u64 = doe / 146096;
    let yoe: u64 = (if a >= b { a - b } else { 0 }) / 365;
    let y: u64 = yoe + era * 400;
    let c: u64 = 365 * yoe + yoe / 4 - yoe / 100;
    let doy: u64 = if doe >= c { doe - c } else { 0 };
    let mp: u64 = (5 * doy + 2) / 153;
    let e: u64 = (153 * mp + 2) / 5;
    let d: u64 = if doy + 1 >= e { doy + 1 - e } else { 0 };
    let m: u64 = if mp < 10 { mp + 3 } else { mp - 9 };
    let y: u64 = if m <= 2 { y + 1 } else { y };
    let mut s = String::new();
    push_decimal(&mut s, y);
    s.append("/");
    push_padded(&mut s, m, 2);
    s.append("/");
    push_padded(&mut s, d, 2);
    s.append(" ");
    push_padded(&mut s, (time_of_day / 3600) % 24, 2);
    s.append(":");
    push_padded(&mut s, (time_of_day / 60) % 60, 2);
    s.append(":");
    push_padded(&mut s, time_of_day % 60, 2);
    assert(s@ =~= recorded_at_text(created_unix_ns as nat));
    s
}

/// `n` with at least four digits.
pub open spec fn four_digits(n: nat) -> Seq<char> {
    if n < 10 {
        "000"@ + decimal(n)
    } else if n < 100 {
        "00"@ + decimal(n)
    } else if n < 1000 {
        "0"@ + decimal(n)
    } else {
        decimal(n)
    }
}

/// `a - b + 1` as the report counts it: the subtraction stops at 0 and the
/// addition at the largest `u64`.
pub open spec fn tick_span(start: u64, end: u64) -> nat {
    let diff: int = if end >= start { end - start } else { 0 };
    if diff + 1 > u64::MAX { u64::MAX as nat } else { (diff + 1) as nat }
}

/// One chunk of the chunk index as the inspection report lists it.
pub open spec fn chunk_line_text(e: IndexEntry) -> Seq<char> {
    "chunk #"@ + four_digits(e.chunk_seq as nat) + " cluster=0x"@ + hex_fixed_lower(e.cluster_id as nat, 4)
        + " samples="@ + decimal(tick_span(e.start_tick, e.end_tick)) + " ticks="@ + decimal(e.start_tick as nat)
        + ".."@ + decimal(e.end_tick as nat) + " time_ns="@ + decimal(e.start_time_ns as nat) + ".."@
        + decimal(e.end_time_ns as nat) + " offset="@ + decimal(e.file_offset as nat) + " bytes="@
        + decimal(e.byte_len as nat)
}

/// Render one chunk of the chunk index for the inspection report.
pub fn chunk_line(e: &IndexEntry) -> (s: String)
    ensures
        s@ == chunk_line_text(*e),
{
    let mut s = String::from_str("chunk #");
    let seq = e.chunk_seq as u64;
    if seq < 10 {
        s.append("000");
    } else if seq < 100 {
        s.append("00");
    } else if seq < 1000 {
        s.append("0");
    }
    push_decimal(&mut s, seq);
    s.append(" cluster=0x");
    push_hex_lower(&mut s, e.cluster_id as u64, 4);
    s.append(" samples=");
    push_decimal(&mut s, e.end_tick.saturating_sub(e.start_tick).saturating_add(1));
    s.append(" ticks=");
    push_decimal(&mut s, e.start_tick);
    s.append("..");
    push_decimal(&mut s, e.end_tick);
    s.append(" time_ns=");
    push_decimal(&mut s, e.start_time_ns);
    s.append("..");
    push_decimal(&mut s, e.end_time_ns);
    s.append(" offset=");
    push_decimal(&mut s, e.file_offset);
    s.append(" bytes=");
    push_decimal(&mut s, e.byte_len as u64);
    assert(s@ =~= chunk_line_text(*e));
    s
}

} // verus!
