//! Command-line flags: `--flag value` pairs looked up in an argument list,
//! with the errors the command-line tools report, and the output names they
//! derive.

use vstd::prelude::*;
use crate::error::{is_argument_error, TelemetryError, TelemetryResult};
use crate::text::{decimal, push_decimal, str_equal};

verus! {

/// The arguments as text.
pub open spec fn args_text(args: Seq<String>) -> Seq<Seq<char>> {
    args.map_values(|a: String| a@)
}

/// The first position of `flag` among the arguments, if any.
pub open spec fn flag_position(args: Seq<Seq<char>>, flag: Seq<char>) -> Option<int> {
    if exists|i: int| 0 <= i < args.len() && args[i] == flag {
        Some(choose|i: int| 0 <= i < args.len() && args[i] == flag && forall|j: int| 0 <= j < i ==> args[j] != flag)
    } else {
        None
    }
}

/// The argument that follows the first `flag`, if both are there.
pub open spec fn flag_value(args: Seq<Seq<char>>, flag: Seq<char>) -> Option<Seq<char>> {
    match flag_position(args, flag) {
        Some(i) => if i + 1 < args.len() { Some(args[i + 1]) } else { None },
        None => None,
    }
}

/// The first position of `flag` among the arguments.
fn find_flag(args: &[String], flag: &str) -> (r: Option<usize>)
    ensures
        r matches Some(i) ==> i < args@.len(),
        match flag_position(args_text(args@), flag@) {
            Some(i) => r is Some && r->Some_0 as int == i,
            None => r is None,
        },
{
    let ghost a = args_text(args@);
    let mut i: usize = 0;
    while i < args.len()
        invariant
            i <= args@.len(),
            a == args_text(args@),
            forall|j: int| 0 <= j < i ==> a[j] != flag@,
        decreases args@.len() - i,
    {
        if str_equal(args[i].as_str(), flag) {
            proof {
                assert(a[i as int] == flag@);
                let c = choose|k: int| 0 <= k < a.len() && a[k] == flag@ && forall|j: int| 0 <= j < k ==> a[j] != flag@;
                assert(c == i) by {
                    if c < i {
                        assert(a[c] != flag@);
                    } else if c > i {
                        assert(a[i as int] != flag@);
                    }
                }
            }
            return Some(i);
        }
        i = i + 1;
    }
    None
}

/// The argument that follows the first `flag`.
fn flag_argument<'a>(args: &'a [String], flag: &str) -> (r: Option<&'a String>)
    ensures
        match flag_value(args_text(args@), flag@) {
            Some(v) => r is Some && r->Some_0@ == v,
            None => r is None,
        },
{
    assert(args_text(args@).len() == args@.len());
    match find_flag(args, flag) {
        Some(i) => {
            if i < args.len() - 1 {
                assert(args_text(args@)[i + 1] == args@[i + 1]@);
                Some(&args[i + 1])
            } else {
                None
            }
        },
        None => None,
    }
}

/// The value of `flag` as a path, which must be given.
pub fn required_path(args: &[String], flag: &str) -> (r: TelemetryResult<String>)
    ensures
        match flag_value(args_text(args@), flag@) {
            Some(v) => r is Ok && r->Ok_0@ == v,
            None => r is Err && is_argument_error(r->Err_0, "missing "@ + flag@ + " <path>"@),
        },
{
    match flag_argument(args, flag) {
        Some(v) => Ok(String::from_str(v.as_str())),
        None => {
            let mut m = String::from_str("missing ");
            m.append(flag);
            m.append(" <path>");
            Err(TelemetryError::InvalidArgument(m))
        },
    }
}

/// The value of `flag` as a path, if given.
pub fn optional_path(args: &[String], flag: &str) -> (r: Option<String>)
    ensures
        match flag_value(args_text(args@), flag@) {
            Some(v) => r is Some && r->Some_0@ == v,
            None => r is None,
        },
{
    match flag_argument(args, flag) {
        Some(v) => Some(String::from_str(v.as_str())),
        None => None,
    }
}

/// The value of `flag`, or `default` when it is not given.
pub fn optional_string<'a>(args: &'a [String], flag: &str, default: &'a str) -> (r: &'a str)
    ensures
        r@ == (match flag_value(args_text(args@), flag@) {
            Some(v) => v,
            None => default@,
        }),
{
    match flag_argument(args, flag) {
        Some(v) => v.as_str(),
        None => default,
    }
}

/// The value of `flag`, which must be given.
pub fn required_string<'a>(args: &'a [String], flag: &str) -> (r: TelemetryResult<&'a str>)
    ensures
        match flag_value(args_text(args@), flag@) {
            Some(v) => r is Ok && r->Ok_0@ == v,
            None => r is Err && is_argument_error(r->Err_0, "missing "@ + flag@ + " <value>"@),
        },
{
    match flag_argument(args, flag) {
        Some(v) => Ok(v.as_str()),
        None => {
            let mut m = String::from_str("missing ");
            m.append(flag);
            m.append(" <value>");
            Err(TelemetryError::InvalidArgument(m))
        },
    }
}

/// `c` is an ASCII decimal digit.
pub open spec fn is_digit(c: char) -> bool {
    '0' <= c && c <= '9'
}

/// The value of a string of decimal digits.
pub open spec fn digits_value(d: Seq<char>) -> nat
    decreases d.len(),
{
    if d.len() == 0 {
        0
    } else {
        digits_value(d.drop_last()) * 10 + ((d.last() as u32 - '0' as u32) as nat)
    }
}

/// The digits of an unsigned integer text: an optional `+` and then one
/// or more decimal digits, nothing else.
pub open spec fn unsigned_digits(s: Seq<char>) -> Option<Seq<char>> {
    let d = if s.len() > 0 && s[0] == '+' { s.drop_first() } else { s };
    if d.len() > 0 && forall|i: int| 0 <= i < d.len() ==> is_digit(#[trigger] d[i]) { Some(d) } else { None }
}

/// The value of an unsigned integer text, if it is one.
pub open spec fn unsigned_text_value(s: Seq<char>) -> Option<nat> {
    match unsigned_digits(s) {
        Some(d) => Some(digits_value(d)),
        None => None,
    }
}

/// The value of a signed integer text, if it is one: an optional sign and
/// then one or more decimal digits, nothing else.
pub open spec fn signed_text_value(s: Seq<char>) -> Option<int> {
    if s.len() > 0 && s[0] == '-' {
        let d = s.drop_first();
        if d.len() > 0 && forall|i: int| 0 <= i < d.len() ==> is_digit(#[trigger] d[i]) { Some(-(digits_value(d) as int)) } else { None }
    } else {
        match unsigned_text_value(s) {
            Some(v) => Some(v as int),
            None => None,
        }
    }
}

/// The message of the standard library's error for a text that does not
/// parse as a `usize`.
pub uninterp spec fn usize_parse_error_text(s: Seq<char>) -> Seq<char>;

/// The message of the standard library's error for a text that does not
/// parse as a `u64`.
pub uninterp spec fn u64_parse_error_text(s: Seq<char>) -> Seq<char>;

/// The message of the standard library's error for a text that does not
/// parse as a `u32`.
pub uninterp spec fn u32_parse_error_text(s: Seq<char>) -> Seq<char>;

/// The message of the standard library's error for a text that does not
/// parse as an `i32`.
pub uninterp spec fn i32_parse_error_text(s: Seq<char>) -> Seq<char>;

/// Parse a `usize` with `str::parse`, which its documentation says takes
/// an optional `+` followed by decimal digits only and fails when the value
/// does not fit; on failure the error's display text is returned. What
/// that text says is left to the name `usize_parse_error_text`.
#[verifier::external_body]
fn parse_usize(s: &str) -> (r: Result<usize, String>)
    ensures
        match r {
            Ok(v) => unsigned_text_value(s@) == Some(v as nat),
            Err(m) => !(unsigned_text_value(s@) matches Some(v) && v <= usize::MAX) && m@ == usize_parse_error_text(s@),
        },
{
    match s.parse::<usize>() {
        Ok(v) => Ok(v),
        Err(e) => Err(e.to_string()),
    }
}

/// Parse a `u64` with `str::parse`, which its documentation says takes an
/// optional `+` followed by decimal digits only and fails when the value
/// does not fit; on failure the error's display text is returned. What
/// that text says is left to the name `u64_parse_error_text`.
#[verifier::external_body]
fn parse_u64(s: &str) -> (r: Result<u64, String>)
    ensures
        match r {
            Ok(v) => unsigned_text_value(s@) == Some(v as nat),
            Err(m) => !(unsigned_text_value(s@) matches Some(v) && v <= u64::MAX) && m@ == u64_parse_error_text(s@),
        },
{
    match s.parse::<u64>() {
        Ok(v) => Ok(v),
        Err(e) => Err(e.to_string()),
    }
}

/// Parse a `u32` with `str::parse`, which its documentation says takes an
/// optional `+` followed by decimal digits only and fails when the value
/// does not fit; on failure the error's display text is returned. What
/// that text says is left to the name `u32_parse_error_text`.
#[verifier::external_body]
fn parse_u32(s: &str) -> (r: Result<u32, String>)
    ensures
        match r {
            Ok(v) => unsigned_text_value(s@) == Some(v as nat),
            Err(m) => !(unsigned_text_value(s@) matches Some(v) && v <= u32::MAX) && m@ == u32_parse_error_text(s@),
        },
{
    match s.parse::<u32>() {
        Ok(v) => Ok(v),
        Err(e) => Err(e.to_string()),
    }
}

/// Parse an `i32` with `str::parse`, which its documentation says takes an
/// optional `+` or `-` followed by decimal digits only and fails when the
/// value does not fit; on failure the error's display text is returned.
/// What that text says is left to the name `i32_parse_error_text`.
#[verifier::external_body]
fn parse_i32(s: &str) -> (r: Result<i32, String>)
    ensures
        match r {
            Ok(v) => signed_text_value(s@) == Some(v as int),
            Err(m) => !(signed_text_value(s@) matches Some(v) && i32::MIN <= v <= i32::MAX) && m@ == i32_parse_error_text(s@),
        },
{
    match s.parse::<i32>() {
        Ok(v) => Ok(v),
        Err(e) => Err(e.to_string()),
    }
}

/// The error for a flag given last, without its value.
fn missing_value(flag: &str) -> (e: TelemetryError)
    ensures
        is_argument_error(e, "missing value for "@ + flag@),
{
    let mut m = String::from_str("missing value for ");
    m.append(flag);
    TelemetryError::InvalidArgument(m)
}

/// The error for a flag whose value does not parse.
fn invalid_value(flag: &str, reason: String) -> (e: TelemetryError)
    ensures
        is_argument_error(e, "invalid "@ + flag@ + ": "@ + reason@),
{
    let mut m = String::from_str("invalid ");
    m.append(flag);
    m.append(": ");
    m.append(reason.as_str());
    TelemetryError::InvalidArgument(m)
}

/// What follows a flag in the arguments.
pub enum FlagLookup {
    /// The flag is not there.
    Absent,
    /// The flag is the last argument.
    MissingValue,
    /// The argument after the flag.
    Value(Seq<char>),
}

/// Looking up the first `flag` and the argument after it.
pub open spec fn flag_lookup(args: Seq<Seq<char>>, flag: Seq<char>) -> FlagLookup {
    match flag_position(args, flag) {
        None => FlagLookup::Absent,
        Some(i) => if i + 1 >= args.len() { FlagLookup::MissingValue } else { FlagLookup::Value(args[i + 1]) },
    }
}

/// `e` is the error for a flag given last, without its value.
pub open spec fn is_missing_value_error(e: TelemetryError, flag: Seq<char>) -> bool {
    is_argument_error(e, "missing value for "@ + flag)
}

/// `e` is the error for a flag whose value does not parse, for `reason`.
pub open spec fn is_invalid_value_error(e: TelemetryError, flag: Seq<char>, reason: Seq<char>) -> bool {
    is_argument_error(e, "invalid "@ + flag + ": "@ + reason)
}

/// The value of an unsigned integer text if it fits below `max`.
pub open spec fn unsigned_within(s: Seq<char>, max: nat) -> Option<nat> {
    match unsigned_text_value(s) {
        Some(v) => if v <= max { Some(v) } else { None },
        None => None,
    }
}

/// The value of a signed integer text if it fits an `i32`.
pub open spec fn signed_within_i32(s: Seq<char>) -> Option<int> {
    match signed_text_value(s) {
        Some(v) => if i32::MIN <= v <= i32::MAX { Some(v) } else { None },
        None => None,
    }
}

/// The value of `flag` as a `usize`, or `default` when it is not given.
pub fn optional_usize(args: &[String], flag: &str, default: usize) -> (r: TelemetryResult<usize>)
    ensures
        match flag_lookup(args_text(args@), flag@) {
            FlagLookup::Absent => r == Ok::<usize, TelemetryError>(default),
            FlagLookup::MissingValue => r is Err && is_missing_value_error(r->Err_0, flag@),
            FlagLookup::Value(t) => match unsigned_within(t, usize::MAX as nat) {
                Some(v) => r == Ok::<usize, TelemetryError>(v as usize),
                None => r is Err && is_invalid_value_error(r->Err_0, flag@, usize_parse_error_text(t)),
            },
        },
{
    assert(args_text(args@).len() == args@.len());
    match find_flag(args, flag) {
        Some(i) => {
            if i >= args.len() - 1 {
                return Err(missing_value(flag));
            }
            assert(args_text(args@)[i + 1] == args@[i + 1]@);
            match parse_usize(args[i + 1].as_str()) {
                Ok(v) => Ok(v),
                Err(m) => Err(invalid_value(flag, m)),
            }
        },
        None => Ok(default),
    }
}

/// The value of `flag` as a `u64`, or `default` when it is not given.
pub fn optional_u64(args: &[String], flag: &str, default: u64) -> (r: TelemetryResult<u64>)
    ensures
        match flag_lookup(args_text(args@), flag@) {
            FlagLookup::Absent => r == Ok::<u64, TelemetryError>(default),
            FlagLookup::MissingValue => r is Err && is_missing_value_error(r->Err_0, flag@),
            FlagLookup::Value(t) => match unsigned_within(t, u64::MAX as nat) {
                Some(v) => r == Ok::<u64, TelemetryError>(v as u64),
                None => r is Err && is_invalid_value_error(r->Err_0, flag@, u64_parse_error_text(t)),
            },
        },
{
    assert(args_text(args@).len() == args@.len());
    match find_flag(args, flag) {
        Some(i) => {
            if i >= args.len() - 1 {
                return Err(missing_value(flag));
            }
            assert(args_text(args@)[i + 1] == args@[i + 1]@);
            match parse_u64(args[i + 1].as_str()) {
                Ok(v) => Ok(v),
                Err(m) => Err(invalid_value(flag, m)),
            }
        },
        None => Ok(default),
    }
}

/// The value of `flag` as a `u32`, or `default` when it is not given.
pub fn optional_u32(args: &[String], flag: &str, default: u32) -> (r: TelemetryResult<u32>)
    ensures
        match flag_lookup(args_text(args@), flag@) {
            FlagLookup::Absent => r == Ok::<u32, TelemetryError>(default),
            FlagLookup::MissingValue => r is Err && is_missing_value_error(r->Err_0, flag@),
            FlagLookup::Value(t) => match unsigned_within(t, u32::MAX as nat) {
                Some(v) => r == Ok::<u32, TelemetryError>(v as u32),
                None => r is Err && is_invalid_value_error(r->Err_0, flag@, u32_parse_error_text(t)),
            },
        },
{
    assert(args_text(args@).len() == args@.len());
    match find_flag(args, flag) {
        Some(i) => {
            if i >= args.len() - 1 {
                return Err(missing_value(flag));
            }
            assert(args_text(args@)[i + 1] == args@[i + 1]@);
            match parse_u32(args[i + 1].as_str()) {
                Ok(v) => Ok(v),
                Err(m) => Err(invalid_value(flag, m)),
            }
        },
        None => Ok(default),
    }
}

/// The value of `flag` as an `i32`, or `default` when it is not given.
pub fn optional_i32(args: &[String], flag: &str, default: i32) -> (r: TelemetryResult<i32>)
    ensures
        match flag_lookup(args_text(args@), flag@) {
            FlagLookup::Absent => r == Ok::<i32, TelemetryError>(default),
            FlagLookup::MissingValue => r is Err && is_missing_value_error(r->Err_0, flag@),
            FlagLookup::Value(t) => match signed_within_i32(t) {
                Some(v) => r == Ok::<i32, TelemetryError>(v as i32),
                None => r is Err && is_invalid_value_error(r->Err_0, flag@, i32_parse_error_text(t)),
            },
        },
{
    assert(args_text(args@).len() == args@.len());
    match find_flag(args, flag) {
        Some(i) => {
            if i >= args.len() - 1 {
                return Err(missing_value(flag));
            }
            assert(args_text(args@)[i + 1] == args@[i + 1]@);
            match parse_i32(args[i + 1].as_str()) {
                Ok(v) => Ok(v),
                Err(m) => Err(invalid_value(flag, m)),
            }
        },
        None => Ok(default),
    }
}

/// `s` ends with `suffix`.
pub open spec fn ends_with(s: Seq<char>, suffix: Seq<char>) -> bool {
    s.len() >= suffix.len() && s.subrange(s.len() - suffix.len(), s.len() as int) == suffix
}

fn str_ends_with(s: &str, suffix: &str) -> (r: bool)
    ensures
        r == ends_with(s@, suffix@),
{
    let n = s.unicode_len();
    let m = suffix.unicode_len();
    if m > n {
        return false;
    }
    let mut i: usize = 0;
    while i < m
        invariant
            n == s@.len(),
            m == suffix@.len(),
            m <= n,
            i <= m,
            forall|j: int| 0 <= j < i ==> s@[n - m + j] == suffix@[j],
        decreases m - i,
    {
        if s.get_char(n - m + i) != suffix.get_char(i) {
            assert(s@.subrange(n - m, n as int)[i as int] != suffix@[i as int]);
            return false;
        }
        i = i + 1;
    }
    assert(s@.subrange(n - m, n as int) =~= suffix@);
    true
}

/// The v2 output path for a v1 input path: a `.acctlm` input gets a `2`
/// appended, any other gets `.acctlm2` appended.
pub open spec fn v2_output_path(input: Seq<char>) -> Seq<char> {
    if ends_with(input, ".acctlm"@) { input + "2"@ } else { input + ".acctlm2"@ }
}

/// The output path always names a `.acctlm2` file and starts with the whole
/// input path; it adds only the `2` when the input already ends in
/// `.acctlm`, and the whole extension otherwise.
pub proof fn lemma_output_path_is_v2(input: Seq<char>)
    ensures
        ends_with(v2_output_path(input), ".acctlm2"@),
        v2_output_path(input).subrange(0, input.len() as int) == input,
        v2_output_path(input).len() == input.len() + (if ends_with(input, ".acctlm"@) { 1int } else { 8int }),
{
    reveal_strlit(".acctlm");
    reveal_strlit(".acctlm2");
    reveal_strlit("2");
    let out = v2_output_path(input);
    assert(out.subrange(0, input.len() as int) =~= input);
    if ends_with(input, ".acctlm"@) {
        let n = input.len() as int;
        assert(out.subrange(out.len() - 8, out.len() as int) =~= ".acctlm2"@) by {
            assert(input.subrange(n - 7, n) == ".acctlm"@);
            assert forall|j: int| 0 <= j < 8 implies out.subrange(out.len() - 8, out.len() as int)[j] == ".acctlm2"@[j] by {
                if j < 7 {
                    assert(out[n - 7 + j] == input.subrange(n - 7, n)[j]);
                }
            }
        }
    } else {
        assert(out.subrange(out.len() - 8, out.len() as int) =~= ".acctlm2"@);
    }
}

/// The v2 output path for a v1 input path.
pub fn derive_output_path(input: &str) -> (out: String)
    ensures
        out@ == v2_output_path(input@),
{
    let mut s = String::from_str(input);
    if str_ends_with(input, ".acctlm") {
        s.append("2");
    } else {
        s.append(".acctlm2");
    }
    s
}

/// The file name of a live recording started at `timestamp_secs` (seconds
/// since the Unix epoch) with the car `car`.
pub fn recording_file_name(timestamp_secs: u64, car: &str) -> (name: String)
    ensures
        name@ == "live_"@ + decimal(timestamp_secs as nat) + "_"@ + car@ + ".acctlm2"@,
{
    let mut s = String::from_str("live_");
    push_decimal(&mut s, timestamp_secs);
    s.append("_");
    s.append(car);
    s.append(".acctlm2");
    s
}

/// The code units before the first NUL, or all of them.
pub open spec fn until_nul(units: Seq<u16>) -> Seq<u16>
    decreases units.len(),
{
    if units.len() == 0 || units[0] == 0 {
        Seq::empty()
    } else {
        seq![units[0]] + until_nul(units.drop_first())
    }
}

/// The code points that lossy UTF-16 decoding gives for `units`: a unit
/// outside the surrogates stands for itself, a high surrogate followed by a
/// low one for the code point they encode together, and any other
/// surrogate unit for U+FFFD.
pub open spec fn utf16_lossy_codes(units: Seq<u16>) -> Seq<int>
    decreases units.len(),
{
    if units.len() == 0 {
        Seq::empty()
    } else {
        let u = units[0] as int;
        if u < 0xD800 || u > 0xDFFF {
            seq![u] + utf16_lossy_codes(units.drop_first())
        } else if u <= 0xDBFF && units.len() > 1 && 0xDC00 <= units[1] <= 0xDFFF {
            seq![0x10000 + (u - 0xD800) * 0x400 + (units[1] - 0xDC00)]
                + utf16_lossy_codes(units.subrange(2, units.len() as int))
        } else {
            seq![0xFFFD] + utf16_lossy_codes(units.drop_first())
        }
    }
}

/// Whether text `s` consists of the code points `codes`.
pub open spec fn has_codes(s: Seq<char>, codes: Seq<int>) -> bool {
    s.len() == codes.len() && forall|i: int| 0 <= i < s.len() ==> #[trigger] (s[i] as int) == codes[i]
}

/// Decode UTF-16 with `String::from_utf16_lossy`, which, as its
/// documentation says, decodes the units and replaces each unpaired
/// surrogate with U+FFFD.
#[verifier::external_body]
fn string_from_utf16_lossy(units: &[u16]) -> (s: String)
    ensures
        has_codes(s@, utf16_lossy_codes(units@)),
{
    String::from_utf16_lossy(units)
}

/// Stopping at the first NUL keeps the units before it.
proof fn lemma_until_nul(units: Seq<u16>, i: int)
    requires
        0 <= i <= units.len(),
        forall|j: int| 0 <= j < i ==> units[j] != 0,
        i == units.len() || units[i] == 0,
    ensures
        until_nul(units) == units.subrange(0, i),
    decreases units.len(),
{
    if units.len() > 0 && units[0] != 0 {
        let rest = units.drop_first();
        assert forall|j: int| 0 <= j < i - 1 implies rest[j] != 0 by {
            assert(rest[j] == units[j + 1]);
        }
        if i < units.len() {
            assert(rest[i - 1] == units[i]);
        }
        lemma_until_nul(rest, i - 1);
        assert(seq![units[0]] + rest.subrange(0, i - 1) =~= units.subrange(0, i));
    } else {
        assert(i == 0);
        assert(units.subrange(0, 0) =~= Seq::<u16>::empty());
    }
}

/// The text of a NUL-terminated UTF-16 buffer, decoded lossily.
pub fn utf16_trim(arr: &[u16]) -> (s: String)
    ensures
        has_codes(s@, utf16_lossy_codes(until_nul(arr@))),
{
    let mut units: Vec<u16> = Vec::new();
    let mut i: usize = 0;
    while i < arr.len() && arr[i] != 0
        invariant
            i <= arr@.len(),
            units@ == arr@.subrange(0, i as int),
            forall|j: int| 0 <= j < i ==> arr@[j] != 0,
        decreases arr@.len() - i,
    {
        units.push(arr[i]);
        i = i + 1;
        assert(units@ =~= arr@.subrange(0, i as int));
    }
    proof { lemma_until_nul(arr@, i as int); }
    string_from_utf16_lossy(units.as_slice())
}

} // verus!
