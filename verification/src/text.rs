//! Small text helpers: decimal rendering of integers and string equality.

use vstd::prelude::*;
use vstd::string::*;

verus! {

/// The ASCII digit for `d < 10`.
pub open spec fn digit_char(d: nat) -> char {
    if d == 0 { '0' } else if d == 1 { '1' } else if d == 2 { '2' } else if d == 3 { '3' }
    else if d == 4 { '4' } else if d == 5 { '5' } else if d == 6 { '6' } else if d == 7 { '7' }
    else if d == 8 { '8' } else { '9' }
}

/// Decimal digits of `n`, most significant first, without leading zeros.
pub open spec fn decimal(n: nat) -> Seq<char>
    decreases n,
{
    if n < 10 {
        seq![digit_char(n)]
    } else {
        decimal(n / 10).push(digit_char(n % 10))
    }
}

/// Decimal rendering of a signed integer, with a leading `-` when negative.
pub open spec fn signed_decimal(n: int) -> Seq<char> {
    if n < 0 { seq!['-'] + decimal((-n) as nat) } else { decimal(n as nat) }
}

fn digit_str(d: u64) -> (s: &'static str)
    requires
        d < 10,
    ensures
        s@ == seq![digit_char(d as nat)],
{
    if d == 0 { proof { reveal_strlit("0"); } "0" }
    else if d == 1 { proof { reveal_strlit("1"); } "1" }
    else if d == 2 { proof { reveal_strlit("2"); } "2" }
    else if d == 3 { proof { reveal_strlit("3"); } "3" }
    else if d == 4 { proof { reveal_strlit("4"); } "4" }
    else if d == 5 { proof { reveal_strlit("5"); } "5" }
    else if d == 6 { proof { reveal_strlit("6"); } "6" }
    else if d == 7 { proof { reveal_strlit("7"); } "7" }
    else if d == 8 { proof { reveal_strlit("8"); } "8" }
    else { proof { reveal_strlit("9"); } "9" }
}

/// Append the decimal digits of `n` to `s`.
pub fn push_decimal(s: &mut String, n: u64)
    ensures
        final(s)@ == old(s)@ + decimal(n as nat),
    decreases n,
{
    if n >= 10 {
        push_decimal(s, n / 10);
    }
    let d = digit_str(n % 10);
    s.append(d);
    proof {
        if n >= 10 {
            assert(decimal(n as nat) == decimal((n / 10) as nat).push(digit_char((n % 10) as nat)));
        }
    }
    assert(final(s)@ =~= old(s)@ + decimal(n as nat));
}

/// Append the decimal rendering of a signed `n` to `s`.
pub fn push_signed_decimal(s: &mut String, n: i64)
    ensures
        final(s)@ == old(s)@ + signed_decimal(n as int),
{
    if n < 0 {
        proof { reveal_strlit("-"); }
        s.append("-");
        let m: u64 = if n == i64::MIN { 9223372036854775808u64 } else { (-n) as u64 };
        push_decimal(s, m);
        assert(final(s)@ =~= old(s)@ + signed_decimal(n as int));
    } else {
        push_decimal(s, n as u64);
    }
}

/// The upper-case hexadecimal digit for `d < 16`.
pub open spec fn hex_char(d: nat) -> char {
    if d < 10 { digit_char(d) } else if d == 10 { 'A' } else if d == 11 { 'B' } else if d == 12 { 'C' }
    else if d == 13 { 'D' } else if d == 14 { 'E' } else { 'F' }
}

/// The last `n` upper-case hexadecimal digits of `x`, zero-padded.
pub open spec fn hex_fixed(x: nat, n: nat) -> Seq<char>
    decreases n,
{
    if n == 0 {
        Seq::empty()
    } else {
        hex_fixed(x / 16, (n - 1) as nat).push(hex_char(x % 16))
    }
}

fn hex_str(d: u64) -> (s: &'static str)
    requires
        d < 16,
    ensures
        s@ == seq![hex_char(d as nat)],
{
    if d < 10 {
        digit_str(d)
    } else if d == 10 { proof { reveal_strlit("A"); } "A" }
    else if d == 11 { proof { reveal_strlit("B"); } "B" }
    else if d == 12 { proof { reveal_strlit("C"); } "C" }
    else if d == 13 { proof { reveal_strlit("D"); } "D" }
    else if d == 14 { proof { reveal_strlit("E"); } "E" }
    else { proof { reveal_strlit("F"); } "F" }
}

/// Append the last `n` upper-case hexadecimal digits of `x`, zero-padded.
pub fn push_hex(s: &mut String, x: u64, n: u32)
    ensures
        final(s)@ == old(s)@ + hex_fixed(x as nat, n as nat),
    decreases n,
{
    if n > 0 {
        push_hex(s, x / 16, n - 1);
        let d = hex_str(x % 16);
        s.append(d);
        assert(final(s)@ =~= old(s)@ + hex_fixed(x as nat, n as nat));
    }
}

/// The lower-case hexadecimal digit for `d < 16`.
pub open spec fn hex_char_lower(d: nat) -> char {
    if d < 10 { digit_char(d) } else if d == 10 { 'a' } else if d == 11 { 'b' } else if d == 12 { 'c' }
    else if d == 13 { 'd' } else if d == 14 { 'e' } else { 'f' }
}

/// The last `n` lower-case hexadecimal digits of `x`, zero-padded.
pub open spec fn hex_fixed_lower(x: nat, n: nat) -> Seq<char>
    decreases n,
{
    if n == 0 {
        Seq::empty()
    } else {
        hex_fixed_lower(x / 16, (n - 1) as nat).push(hex_char_lower(x % 16))
    }
}

fn hex_str_lower(d: u64) -> (s: &'static str)
    requires
        d < 16,
    ensures
        s@ == seq![hex_char_lower(d as nat)],
{
    if d < 10 {
        digit_str(d)
    } else if d == 10 { proof { reveal_strlit("a"); } "a" }
    else if d == 11 { proof { reveal_strlit("b"); } "b" }
    else if d == 12 { proof { reveal_strlit("c"); } "c" }
    else if d == 13 { proof { reveal_strlit("d"); } "d" }
    else if d == 14 { proof { reveal_strlit("e"); } "e" }
    else { proof { reveal_strlit("f"); } "f" }
}

/// Append the last `n` lower-case hexadecimal digits of `x`, zero-padded.
pub fn push_hex_lower(s: &mut String, x: u64, n: u32)
    ensures
        final(s)@ == old(s)@ + hex_fixed_lower(x as nat, n as nat),
    decreases n,
{
    if n > 0 {
        push_hex_lower(s, x / 16, n - 1);
        let d = hex_str_lower(x % 16);
        s.append(d);
        assert(final(s)@ =~= old(s)@ + hex_fixed_lower(x as nat, n as nat));
    }
}

/// `prefix` followed by the decimal digits of `n`.
pub fn text_with_number(prefix: &str, n: u64) -> (s: String)
    ensures
        s@ == prefix@ + decimal(n as nat),
{
    let mut s = String::from_str(prefix);
    push_decimal(&mut s, n);
    s
}

/// Whether two strings hold the same characters, compared one by one.
pub(crate) fn str_equal(a: &str, b: &str) -> (r: bool)
    ensures
        r == (a@ == b@),
{
    let n = a.unicode_len();
    if n != b.unicode_len() {
        return false;
    }
    let mut i: usize = 0;
    while i < n
        invariant
            i <= n,
            n == a@.len(),
            n == b@.len(),
            forall|j: int| 0 <= j < i ==> a@[j] == b@[j],
        decreases n - i,
    {
        if a.get_char(i) != b.get_char(i) {
            return false;
        }
        i = i + 1;
    }
    assert(a@ =~= b@);
    true
}

/// The lower-case form of `s` as the standard library's `str::to_lowercase`
/// computes it: each character mapped by the Unicode lower-case tables.
pub uninterp spec fn lowercase_text(s: Seq<char>) -> Seq<char>;

/// The lower-case form of a string.
///
/// Calls `str::to_lowercase`. Its result depends on the characters alone,
/// through the Unicode tables of the standard library; the contract names
/// it `lowercase_text` and says nothing more of it.
#[verifier::external_body]
pub(crate) fn to_lowercase(s: &str) -> (r: String)
    ensures
        r@ == lowercase_text(s@),
{
    s.to_lowercase()
}

} // verus!

use vstd::utf8::{decode_utf8, valid_utf8};

verus! {

/// The message that the standard library's UTF-8 error reports for the
/// invalid byte sequence `bytes` (it names the offending position).
pub uninterp spec fn utf8_error_text(bytes: Seq<u8>) -> Seq<char>;

/// Decode UTF-8 bytes into a string.
///
/// Calls `String::from_utf8`, which accepts exactly the valid UTF-8
/// sequences and then holds the characters they encode; on failure the
/// error's display text is returned. What that text says is left to the
/// name `utf8_error_text`.
#[verifier::external_body]
pub(crate) fn string_from_utf8(bytes: Vec<u8>) -> (r: Result<String, String>)
    ensures
        match r {
            Ok(s) => valid_utf8(bytes@) && s@ == decode_utf8(bytes@),
            Err(m) => !valid_utf8(bytes@) && m@ == utf8_error_text(bytes@),
        },
{
    match String::from_utf8(bytes) {
        Ok(s) => Ok(s),
        Err(e) => Err(e.to_string()),
    }
}

} // verus!
