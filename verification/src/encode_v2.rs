//! Column-level encoding of the v2 format.
//!
//! An encoded column is `[codec: u8] [value_type: u8] [value_count: u32 LE]`
//! followed by the payload; its CRC-32 is kept outside it and checked on
//! decode. Values travel here as *words*: the unsigned integer whose
//! little-endian bytes the payload stores (a `u64`, the bit pattern of an
//! `i32`, `f32` or `f64`, or a `u16`). Converting telemetry values to and
//! from words, and the floating-point arithmetic of the BYTES delta codec,
//! are the caller's part.

use vstd::prelude::*;
use vstd::bytes::*;
use crate::codec::{crc32fast_hash, get_u16, get_u32, get_u64, put_u16, put_u32, put_u64, u16_at, u32_at, u64_at};
use crate::error::{error_matches, ErrorDesc, TelemetryError, TelemetryResult};
use crate::text::{decimal, hex_fixed, push_decimal, push_hex};
use crate::format_v2::{TYPE_BYTES, TYPE_BYTES_F32, TYPE_BYTES_I32, TYPE_BYTES_U16, TYPE_F32, TYPE_F64, TYPE_I32, TYPE_U64};

verus! {

/// Plain little-endian encoding: each value stored as raw bytes.
pub const CODEC_PLAIN: u8 = 0x00;
/// Delta encoding: the first value in full, then differences.
pub const CODEC_DELTA: u8 = 0x01;
/// Header size: codec, value type and value count.
pub const HEADER_BYTES: usize = 6;

/// The number of distinct words of width `w` bytes.
pub open spec fn word_modulus(w: nat) -> int {
    if w == 2 { 0x1_0000 } else if w == 4 { 0x1_0000_0000 } else { 0x1_0000_0000_0000_0000 }
}

/// `x` is a word of width `w`.
pub open spec fn fits(x: u64, w: nat) -> bool {
    x < word_modulus(w)
}

/// The little-endian bytes of the word `x` at width `w` (2, 4 or 8): its
/// low `w` bytes.
pub open spec fn word_bytes(x: u64, w: nat) -> Seq<u8> {
    if w == 2 {
        spec_u16_to_le_bytes(x as u16)
    } else if w == 4 {
        spec_u32_to_le_bytes(x as u32)
    } else {
        spec_u64_to_le_bytes(x)
    }
}

/// The word of width `w` stored at offset `k` of `s`.
pub open spec fn word_at(s: Seq<u8>, k: int, w: nat) -> u64 {
    if w == 2 {
        u16_at(s, k) as u64
    } else if w == 4 {
        u32_at(s, k) as u64
    } else {
        u64_at(s, k)
    }
}

/// The words of width `w` written one after another.
pub open spec fn words_bytes(ws: Seq<u64>, w: nat) -> Seq<u8>
    decreases ws.len(),
{
    if ws.len() == 0 {
        Seq::empty()
    } else {
        words_bytes(ws.drop_last(), w) + word_bytes(ws.last(), w)
    }
}

/// The `n` words of width `w` stored one after another from offset `k`.
pub open spec fn words_at(s: Seq<u8>, k: int, n: nat, w: nat) -> Seq<u64> {
    Seq::new(n, |i: int| word_at(s, k + i * w, w))
}

/// The width of a fixed-size value type, 0 for the others.
pub open spec fn fixed_width(vt: u8) -> nat {
    if vt == TYPE_U64 || vt == TYPE_F64 { 8 } else if vt == TYPE_I32 || vt == TYPE_F32 { 4 } else { 0 }
}

/// The width of a sub-value of a BYTES value type, 0 for the others.
pub open spec fn sub_width(vt: u8) -> nat {
    if vt == TYPE_BYTES { 8 } else if vt == TYPE_BYTES_F32 || vt == TYPE_BYTES_I32 { 4 } else if vt == TYPE_BYTES_U16 { 2 } else { 0 }
}

/// `vt` is one of the BYTES value types.
pub open spec fn spec_is_bytes_type(vt: u8) -> bool {
    vt == TYPE_BYTES || vt == TYPE_BYTES_F32 || vt == TYPE_BYTES_U16 || vt == TYPE_BYTES_I32
}

/// The first `n` items of `ws`, `sub` words each, each written as its
/// sub-value count followed by its words at width `w`.
pub open spec fn items_bytes(ws: Seq<u64>, sub: u8, n: nat, w: nat) -> Seq<u8>
    decreases n,
{
    if n == 0 {
        Seq::empty()
    } else {
        items_bytes(ws, sub, (n - 1) as nat, w) + seq![sub] + words_bytes(ws.subrange((n - 1) * sub, n * sub), w)
    }
}

/// The plain payload: fixed-size words one after another, or whole BYTES
/// items (a partial last item is dropped); nothing for an unknown type or a
/// sub-value count of zero.
pub open spec fn plain_payload(ws: Seq<u64>, vt: u8, sub: u8) -> Seq<u8> {
    if fixed_width(vt) > 0 {
        words_bytes(ws, fixed_width(vt))
    } else if sub_width(vt) > 0 && sub > 0 {
        items_bytes(ws, sub, ws.len() / (sub as nat), sub_width(vt))
    } else {
        Seq::empty()
    }
}

/// `a - b` modulo the words of width `w`.
pub open spec fn wrap_sub(a: u64, b: u64, w: nat) -> u64 {
    if w == 4 {
        let (x, y) = (a as u32, b as u32);
        (if x >= y { x - y } else { x - y + 0x1_0000_0000 }) as u64
    } else {
        (if a >= b { a - b } else { a - b + 0x1_0000_0000_0000_0000 }) as u64
    }
}

/// `a + b` modulo the words of width `w`.
pub open spec fn wrap_add(a: u64, b: u64, w: nat) -> u64 {
    if w == 4 {
        let (x, y) = (a as u32, b as u32);
        (if x + y < 0x1_0000_0000 { x + y } else { x + y - 0x1_0000_0000 }) as u64
    } else {
        (if a + b < 0x1_0000_0000_0000_0000 { a + b } else { a + b - 0x1_0000_0000_0000_0000 }) as u64
    }
}

/// The first word, then the difference of each word from the one before.
pub open spec fn delta_words(ws: Seq<u64>, w: nat) -> Seq<u64> {
    Seq::new(ws.len(), |k: int| if k == 0 { ws[0] } else { wrap_sub(ws[k], ws[k - 1], w) })
}

/// The BYTES delta payload: the first whole item with 8-byte words, the
/// other whole items with 4-byte words (the caller's differences).
pub open spec fn delta_bytes_payload(ws: Seq<u64>, sub: u8) -> Seq<u8> {
    let n = ws.len() / (sub as nat);
    if sub == 0 || n == 0 {
        Seq::empty()
    } else {
        seq![sub] + words_bytes(ws.subrange(0, sub as int), 8)
            + items_bytes(ws.subrange(sub as int, ws.len() as int), sub, (n - 1) as nat, 4)
    }
}

/// The delta payload: differences for `u64` and `i32` words, the BYTES
/// delta layout for BYTES, the plain payload for the other known types.
pub open spec fn delta_payload(ws: Seq<u64>, vt: u8, sub: u8) -> Seq<u8> {
    if ws.len() == 0 {
        Seq::empty()
    } else if vt == TYPE_U64 {
        words_bytes(delta_words(ws, 8), 8)
    } else if vt == TYPE_I32 {
        words_bytes(delta_words(ws, 4), 4)
    } else if vt == TYPE_F32 || vt == TYPE_F64 || vt == TYPE_BYTES_F32 || vt == TYPE_BYTES_U16 || vt == TYPE_BYTES_I32 {
        plain_payload(ws, vt, sub)
    } else if vt == TYPE_BYTES {
        delta_bytes_payload(ws, sub)
    } else {
        Seq::empty()
    }
}

/// The value count recorded in the header: whole items for a BYTES type
/// with a sub-value count, else the number of words.
pub open spec fn value_count(ws: Seq<u64>, vt: u8, sub: u8) -> u32 {
    if spec_is_bytes_type(vt) && sub > 0 { (ws.len() / (sub as nat)) as u32 } else { ws.len() as u32 }
}

/// The header bytes.
pub open spec fn header_bytes(codec: u8, vt: u8, count: u32) -> Seq<u8> {
    seq![codec, vt] + spec_u32_to_le_bytes(count)
}

/// An encoded column: header, then the delta payload for the delta codec
/// and the plain payload for any other codec.
pub open spec fn column_bytes(ws: Seq<u64>, vt: u8, codec: u8, sub: u8) -> Seq<u8> {
    header_bytes(codec, vt, value_count(ws, vt, sub)) + if codec == CODEC_DELTA {
        delta_payload(ws, vt, sub)
    } else {
        plain_payload(ws, vt, sub)
    }
}

/// Append the word `x` at width `w`.
fn put_word(out: &mut Vec<u8>, x: u64, w: usize)
    requires
        w == 2 || w == 4 || w == 8,
    ensures
        final(out)@ == old(out)@ + word_bytes(x, w as nat),
{
    if w == 2 {
        put_u16(out, x as u16);
    } else if w == 4 {
        put_u32(out, x as u32);
    } else {
        put_u64(out, x);
    }
}

/// The word of width `w` at offset `k`.
fn get_word(b: &[u8], k: usize, w: usize) -> (r: u64)
    requires
        w == 2 || w == 4 || w == 8,
        k + w <= b@.len(),
    ensures
        r == word_at(b@, k as int, w as nat),
{
    if w == 2 {
        get_u16(b, k) as u64
    } else if w == 4 {
        get_u32(b, k) as u64
    } else {
        get_u64(b, k)
    }
}

/// Append the words `ws[from..to]` at width `w`.
fn put_words(out: &mut Vec<u8>, ws: &[u64], from: usize, to: usize, w: usize)
    requires
        w == 2 || w == 4 || w == 8,
        from <= to <= ws@.len(),
    ensures
        final(out)@ == old(out)@ + words_bytes(ws@.subrange(from as int, to as int), w as nat),
{
    let ghost start = out@;
    let mut i = from;
    while i < to
        invariant
            w == 2 || w == 4 || w == 8,
            from <= i <= to <= ws@.len(),
            out@ == start + words_bytes(ws@.subrange(from as int, i as int), w as nat),
        decreases to - i,
    {
        put_word(out, ws[i], w);
        proof {
            let next = ws@.subrange(from as int, i + 1);
            assert(next.drop_last() =~= ws@.subrange(from as int, i as int));
            assert(next.last() == ws@[i as int]);
        }
        i = i + 1;
        assert(out@ =~= start + words_bytes(ws@.subrange(from as int, i as int), w as nat));
    }
}

/// Append the header bytes.
pub fn push_header(out: &mut Vec<u8>, codec: u8, value_type: u8, value_count: u32)
    ensures
        final(out)@ == old(out)@ + header_bytes(codec, value_type, value_count),
{
    let ghost start = out@;
    out.push(codec);
    out.push(value_type);
    put_u32(out, value_count);
    assert(out@ =~= start + header_bytes(codec, value_type, value_count));
}

/// Whether `vt` is one of the BYTES value types.
pub fn is_bytes_type(vt: u8) -> (r: bool)
    ensures
        r == spec_is_bytes_type(vt),
{
    vt == TYPE_BYTES || vt == TYPE_BYTES_F32 || vt == TYPE_BYTES_U16 || vt == TYPE_BYTES_I32
}

/// `(i + 1) * sub` and friends stay within the words.
proof fn lemma_item_bounds(len: nat, sub: nat, i: nat, n: nat)
    requires
        sub > 0,
        n == len / sub,
        i < n,
    ensures
        0 <= i * sub,
        (i + 1) * sub <= len,
        (i + 1) * sub == i * sub + sub,
        n * sub <= len,
{
    assert((i + 1) * sub == i * sub + sub) by (nonlinear_arith);
    assert(n * sub <= len) by (nonlinear_arith)
        requires n == len / sub, sub > 0;
    assert((i + 1) * sub <= n * sub) by (nonlinear_arith)
        requires i + 1 <= n, sub > 0;
    assert(0 <= i * sub) by (nonlinear_arith);
}

/// Append the first `n` items of `ws[base..]`, `sub` words each, at width
/// `w`, each after its sub-value count.
fn put_items(out: &mut Vec<u8>, ws: &[u64], base: usize, sub: u8, n: usize, w: usize)
    requires
        w == 2 || w == 4 || w == 8,
        sub > 0,
        base <= ws@.len(),
        n == ((ws@.len() - base) as nat) / (sub as nat),
    ensures
        final(out)@ == old(out)@ + items_bytes(ws@.subrange(base as int, ws@.len() as int), sub, n as nat, w as nat),
{
    let ghost start = out@;
    let ghost rest = ws@.subrange(base as int, ws@.len() as int);
    let sc = sub as usize;
    let len = ws.len();
    let mut i: usize = 0;
    while i < n
        invariant
            len == ws@.len(),
            w == 2 || w == 4 || w == 8,
            sub > 0,
            sc == sub as usize,
            base <= ws@.len(),
            rest == ws@.subrange(base as int, ws@.len() as int),
            n == rest.len() / (sub as nat),
            i <= n,
            out@ == start + items_bytes(rest, sub, i as nat, w as nat),
        decreases n - i,
    {
        proof {
            lemma_item_bounds(rest.len(), sub as nat, i as nat, n as nat);
            assert(i * sc + sc <= rest.len());
        }
        let lo = base + i * sc;
        let hi = lo + sc;
        out.push(sub);
        put_words(out, ws, lo, hi, w);
        proof {
            assert(ws@.subrange(lo as int, hi as int) =~= rest.subrange(i * sub, (i + 1) * sub));
        }
        i = i + 1;
        assert(out@ =~= start + items_bytes(rest, sub, i as nat, w as nat));
    }
}

/// The plain payload of `words`.
fn encode_plain_payload(out: &mut Vec<u8>, words: &[u64], value_type: u8, sub_value_count: u8)
    ensures
        final(out)@ == old(out)@ + plain_payload(words@, value_type, sub_value_count),
{
    if value_type == TYPE_U64 || value_type == TYPE_F64 {
        put_words(out, words, 0, words.len(), 8);
        assert(words@.subrange(0, words@.len() as int) =~= words@);
    } else if value_type == TYPE_I32 || value_type == TYPE_F32 {
        put_words(out, words, 0, words.len(), 4);
        assert(words@.subrange(0, words@.len() as int) =~= words@);
    } else if is_bytes_type(value_type) && sub_value_count > 0 {
        let w: usize = if value_type == TYPE_BYTES { 8 } else if value_type == TYPE_BYTES_U16 { 2 } else { 4 };
        let n = words.len() / (sub_value_count as usize);
        put_items(out, words, 0, sub_value_count, n, w);
        assert(words@.subrange(0, words@.len() as int) =~= words@);
    }
}

/// Append the first word, then the difference of each word from the one
/// before, at width `w` (4 or 8).
fn put_delta_words(out: &mut Vec<u8>, words: &[u64], w: usize)
    requires
        w == 4 || w == 8,
        words@.len() > 0,
    ensures
        final(out)@ == old(out)@ + words_bytes(delta_words(words@, w as nat), w as nat),
{
    let ghost start = out@;
    let ghost d = delta_words(words@, w as nat);
    put_word(out, words[0], w);
    proof {
        let first = d.subrange(0, 1);
        assert(first.drop_last() =~= Seq::<u64>::empty());
        assert(first.last() == d[0]);
        assert(d[0] == words@[0]);
        assert(words_bytes(first.drop_last(), w as nat) =~= Seq::<u8>::empty());
        assert(words_bytes(first, w as nat) == words_bytes(first.drop_last(), w as nat) + word_bytes(first.last(), w as nat));
    }
    assert(out@ =~= start + words_bytes(d.subrange(0, 1), w as nat));
    let mut i: usize = 1;
    while i < words.len()
        invariant
            w == 4 || w == 8,
            1 <= i <= words@.len(),
            d == delta_words(words@, w as nat),
            out@ == start + words_bytes(d.subrange(0, i as int), w as nat),
        decreases words@.len() - i,
    {
        let diff: u64 = if w == 4 {
            (words[i] as u32).wrapping_sub(words[i - 1] as u32) as u64
        } else {
            words[i].wrapping_sub(words[i - 1])
        };
        proof {
            assert(d[i as int] == wrap_sub(words@[i as int], words@[i - 1], w as nat));
        }
        assert(diff == d[i as int]);
        put_word(out, diff, w);
        proof {
            let next = d.subrange(0, i + 1);
            assert(next.drop_last() =~= d.subrange(0, i as int));
        }
        i = i + 1;
    }
    assert(d.subrange(0, words@.len() as int) =~= d);
}

/// The BYTES delta payload of `words`.
fn encode_delta_bytes(out: &mut Vec<u8>, words: &[u64], sub_value_count: u8)
    ensures
        final(out)@ == old(out)@ + delta_bytes_payload(words@, sub_value_count),
{
    if sub_value_count == 0 {
        return;
    }
    let sc = sub_value_count as usize;
    let n = words.len() / sc;
    if n == 0 {
        return;
    }
    let ghost start = out@;
    proof { lemma_item_bounds(words@.len(), sc as nat, 0, n as nat); }
    out.push(sub_value_count);
    put_words(out, words, 0, sc, 8);
    proof {
        assert(((words@.len() - sc) as nat) / (sc as nat) == n - 1) by (nonlinear_arith)
            requires n == words@.len() / (sc as nat), sc > 0, n >= 1, sc <= words@.len();
    }
    put_items(out, words, sc, sub_value_count, n - 1, 4);
    assert(out@ =~= start + delta_bytes_payload(words@, sub_value_count));
}

/// The delta payload of `words`.
fn encode_delta_payload(out: &mut Vec<u8>, words: &[u64], value_type: u8, sub_value_count: u8)
    ensures
        final(out)@ == old(out)@ + delta_payload(words@, value_type, sub_value_count),
{
    if words.len() == 0 {
        assert(out@ =~= old(out)@ + delta_payload(words@, value_type, sub_value_count));
    } else if value_type == TYPE_U64 {
        put_delta_words(out, words, 8);
    } else if value_type == TYPE_I32 {
        put_delta_words(out, words, 4);
    } else if value_type == TYPE_F32 || value_type == TYPE_F64 || value_type == TYPE_BYTES_F32
        || value_type == TYPE_BYTES_U16 || value_type == TYPE_BYTES_I32 {
        encode_plain_payload(out, words, value_type, sub_value_count);
    } else if value_type == TYPE_BYTES {
        encode_delta_bytes(out, words, sub_value_count);
    } else {
        assert(out@ =~= old(out)@ + delta_payload(words@, value_type, sub_value_count));
    }
}

/// Encode a column of words: the header, then the payload of `codec` (the
/// plain payload for a codec other than delta). Returns the bytes and
/// their CRC-32.
pub fn encode_column(words: &[u64], value_type: u8, codec: u8, sub_value_count: u8) -> (r: (Vec<u8>, u32))
    ensures
        r.0@ == column_bytes(words@, value_type, codec, sub_value_count),
        r.1 == crate::codec::spec_crc32(r.0@),
{
    let count: u32 = if is_bytes_type(value_type) && sub_value_count > 0 {
        (words.len() / (sub_value_count as usize)) as u32
    } else {
        words.len() as u32
    };
    let mut out: Vec<u8> = Vec::new();
    push_header(&mut out, codec, value_type, count);
    if codec == CODEC_DELTA {
        encode_delta_payload(&mut out, words, value_type, sub_value_count);
    } else {
        encode_plain_payload(&mut out, words, value_type, sub_value_count);
    }
    assert(out@ =~= column_bytes(words@, value_type, codec, sub_value_count));
    let crc = crc32fast_hash(out.as_slice());
    (out, crc)
}

/// What decoding the plain payload of `count` fixed-size values gives.
pub open spec fn spec_decode_fixed(p: Seq<u8>, count: u32, w: nat) -> Result<Seq<u64>, ErrorDesc> {
    if p.len() < count * w {
        Err(ErrorDesc::Format("payload too short for "@ + decimal(count as nat) + " values of "@ + decimal(w)
            + " bytes: got "@ + decimal(p.len()) + " bytes"@))
    } else {
        Ok(words_at(p, 0, count as nat, w))
    }
}

/// Reading `k` plain BYTES items with sub-values of width `w` from the
/// start of `p`: the words read and where reading stopped.
pub open spec fn spec_decode_items(p: Seq<u8>, k: nat, w: nat) -> Result<(Seq<u64>, nat), ErrorDesc>
    decreases k,
{
    if k == 0 {
        Ok((Seq::empty(), 0))
    } else {
        match spec_decode_items(p, (k - 1) as nat, w) {
            Err(e) => Err(e),
            Ok((out, pos)) => if pos >= p.len() {
                Err(ErrorDesc::Format("unexpected end of BYTES payload"@))
            } else {
                let sub = p[pos as int] as nat;
                let start = pos + 1;
                let bl = sub * w;
                if start + bl > p.len() {
                    Err(ErrorDesc::Format("BYTES payload too short: need "@ + decimal(bl) + " bytes at offset "@
                        + decimal(start) + ", have "@ + decimal(p.len())))
                } else {
                    Ok((out + words_at(p, start as int, sub, w), start + bl))
                }
            },
        }
    }
}

/// What decoding a plain payload gives.
pub open spec fn spec_decode_plain(p: Seq<u8>, vt: u8, count: u32) -> Result<Seq<u64>, ErrorDesc> {
    if fixed_width(vt) > 0 {
        spec_decode_fixed(p, count, fixed_width(vt))
    } else if sub_width(vt) > 0 {
        match spec_decode_items(p, count as nat, sub_width(vt)) {
            Ok((out, _)) => Ok(out),
            Err(e) => Err(e),
        }
    } else {
        Err(ErrorDesc::Format("unknown value_type: 0x"@ + hex_fixed(vt as nat, 2)))
    }
}

/// `first`, then each running sum of `ds` onto it, modulo width `w`.
pub open spec fn running_sums(first: u64, ds: Seq<u64>, w: nat) -> Seq<u64>
    decreases ds.len(),
{
    if ds.len() == 0 {
        seq![first]
    } else {
        let r = running_sums(first, ds.drop_last(), w);
        r.push(wrap_add(r.last(), ds.last(), w))
    }
}

/// What decoding the delta payload of `count > 0` values of width `w` (4
/// or 8) gives: the first value, then one value per whole difference
/// present, at most `count - 1` of them.
pub open spec fn spec_decode_delta_fixed(p: Seq<u8>, count: u32, w: nat) -> Result<Seq<u64>, ErrorDesc> {
    if p.len() < w {
        Err(ErrorDesc::Format(if w == 8 { "DELTA-u64 payload too short"@ } else { "DELTA-i32 payload too short"@ }))
    } else {
        let avail = p.len() - w;
        let wanted = (count - 1) * w;
        let end = if avail < wanted { avail } else { wanted };
        Ok(running_sums(word_at(p, 0, w), words_at(p, w as int, (end / (w as int)) as nat, w), w))
    }
}

/// Reading `k` BYTES delta items of `sub` four-byte words each from offset
/// `start`: the words read and where reading stopped.
pub open spec fn spec_decode_delta_items(p: Seq<u8>, sub: nat, k: nat, start: nat) -> Result<(Seq<u64>, nat), ErrorDesc>
    decreases k,
{
    if k == 0 {
        Ok((Seq::empty(), start))
    } else {
        match spec_decode_delta_items(p, sub, (k - 1) as nat, start) {
            Err(e) => Err(e),
            Ok((out, pos)) => if pos >= p.len() {
                Err(ErrorDesc::Format("BYTES DELTA payload too short for delta item"@))
            } else if p[pos as int] as nat != sub {
                Err(ErrorDesc::Format("BYTES DELTA sub_count mismatch: expected "@ + decimal(sub) + ", got "@
                    + decimal(p[pos as int] as nat)))
            } else if pos + 1 + sub * 4 > p.len() {
                Err(ErrorDesc::Format("BYTES DELTA item payload too short"@))
            } else {
                Ok((out + words_at(p, (pos + 1) as int, sub, 4), (pos + 1 + sub * 4) as nat))
            },
        }
    }
}

/// What decoding a BYTES delta payload of `count > 0` items gives: the
/// first item's 8-byte words, then the 4-byte words of the others.
pub open spec fn spec_decode_bytes_delta(p: Seq<u8>, count: u32) -> Result<Seq<u64>, ErrorDesc> {
    if p.len() == 0 {
        Err(ErrorDesc::Format("BYTES DELTA payload too short for first item"@))
    } else {
        let sub = p[0] as nat;
        if 1 + sub * 8 > p.len() {
            Err(ErrorDesc::Format("BYTES DELTA first item payload too short"@))
        } else {
            match spec_decode_delta_items(p, sub, (count - 1) as nat, 1 + sub * 8) {
                Ok((rest, _)) => Ok(words_at(p, 1, sub, 8) + rest),
                Err(e) => Err(e),
            }
        }
    }
}

/// What decoding a delta payload gives.
pub open spec fn spec_decode_delta(p: Seq<u8>, vt: u8, count: u32) -> Result<Seq<u64>, ErrorDesc> {
    if count == 0 {
        Ok(Seq::empty())
    } else if vt == TYPE_U64 {
        spec_decode_delta_fixed(p, count, 8)
    } else if vt == TYPE_I32 {
        spec_decode_delta_fixed(p, count, 4)
    } else if vt == TYPE_F32 || vt == TYPE_F64 || vt == TYPE_BYTES_F32 || vt == TYPE_BYTES_U16 || vt == TYPE_BYTES_I32 {
        spec_decode_plain(p, vt, count)
    } else if vt == TYPE_BYTES {
        spec_decode_bytes_delta(p, count)
    } else {
        Err(ErrorDesc::Format("unsupported value_type for DELTA: 0x"@ + hex_fixed(vt as nat, 2)))
    }
}

/// What decoding an encoded column checked against `expected` gives: its
/// codec, value type and words.
pub open spec fn spec_decode_column(data: Seq<u8>, expected: u32) -> Result<(u8, u8, Seq<u64>), ErrorDesc> {
    let actual = crate::codec::spec_crc32(data);
    if actual != expected {
        Err(ErrorDesc::Format("CRC32 mismatch: expected 0x"@ + hex_fixed(expected as nat, 8) + ", got 0x"@
            + hex_fixed(actual as nat, 8)))
    } else if data.len() < HEADER_BYTES {
        Err(ErrorDesc::Format("column data too short for header"@))
    } else {
        let codec = data[0];
        let vt = data[1];
        let count = u32_at(data, 2);
        let p = data.subrange(HEADER_BYTES as int, data.len() as int);
        if codec == CODEC_PLAIN {
            match spec_decode_plain(p, vt, count) {
                Ok(ws) => Ok((codec, vt, ws)),
                Err(e) => Err(e),
            }
        } else if codec == CODEC_DELTA {
            match spec_decode_delta(p, vt, count) {
                Ok(ws) => Ok((codec, vt, ws)),
                Err(e) => Err(e),
            }
        } else {
            Err(ErrorDesc::Format("unknown codec: 0x"@ + hex_fixed(codec as nat, 2)))
        }
    }
}

/// A decoded column: its codec and value type, and its words.
#[derive(Debug)]
pub struct DecodedColumn {
    pub codec: u8,
    pub value_type: u8,
    pub words: Vec<u64>,
}

/// Read the column header: codec, value type and value count.
pub fn read_header(data: &[u8]) -> (r: TelemetryResult<(u8, u8, u32)>)
    ensures
        data@.len() < HEADER_BYTES ==> r is Err && error_matches(r->Err_0, ErrorDesc::Format("column data too short for header"@)),
        data@.len() >= HEADER_BYTES ==> r == Ok::<(u8, u8, u32), TelemetryError>((data@[0], data@[1], u32_at(data@, 2))),
{
    if data.len() < HEADER_BYTES {
        return Err(TelemetryError::invalid_format("column data too short for header"));
    }
    Ok((data[0], data[1], get_u32(data, 2)))
}

/// Append the `n` words of width `w` stored from offset `start` of `p`.
fn push_words_at(out: &mut Vec<u64>, p: &[u8], start: usize, n: usize, w: usize)
    requires
        w == 2 || w == 4 || w == 8,
        start + n * w <= p@.len(),
    ensures
        final(out)@ == old(out)@ + words_at(p@, start as int, n as nat, w as nat),
{
    let ghost before = out@;
    let plen = p.len();
    let mut i: usize = 0;
    while i < n
        invariant
            plen == p@.len(),
            w == 2 || w == 4 || w == 8,
            start + n * w <= p@.len(),
            i <= n,
            out@ == before + words_at(p@, start as int, i as nat, w as nat),
        decreases n - i,
    {
        proof {
            assert(i * w + w <= n * w) by (nonlinear_arith)
                requires i < n, w > 0;
            assert(start + i * w + w <= plen);
        }
        let v = get_word(p, start + i * w, w);
        out.push(v);
        i = i + 1;
        assert(out@ =~= before + words_at(p@, start as int, i as nat, w as nat));
    }
}

/// `r` is what the spec decode `d` describes: the same words, or an error
/// that matches.
pub open spec fn decoded_as(r: TelemetryResult<Vec<u64>>, d: Result<Seq<u64>, ErrorDesc>) -> bool {
    match d {
        Ok(ws) => r is Ok && r->Ok_0@ == ws,
        Err(e) => r is Err && error_matches(r->Err_0, e),
    }
}

fn format_error(m: String) -> (e: TelemetryError)
    ensures
        e == TelemetryError::InvalidFormat(m),
{
    TelemetryError::InvalidFormat(m)
}

fn decode_fixed(p: &[u8], count: u32, w: usize) -> (r: TelemetryResult<Vec<u64>>)
    requires
        w == 2 || w == 4 || w == 8,
    ensures
        decoded_as(r, spec_decode_fixed(p@, count, w as nat)),
{
    let expected: u64 = count as u64 * w as u64;
    if (p.len() as u64) < expected {
        let mut m = String::from_str("payload too short for ");
        push_decimal(&mut m, count as u64);
        m.append(" values of ");
        push_decimal(&mut m, w as u64);
        m.append(" bytes: got ");
        push_decimal(&mut m, p.len() as u64);
        m.append(" bytes");
        return Err(format_error(m));
    }
    let mut out: Vec<u64> = Vec::new();
    push_words_at(&mut out, p, 0, count as usize, w);
    assert(out@ =~= words_at(p@, 0, count as nat, w as nat));
    Ok(out)
}

/// Once reading items fails, reading more fails the same way.
proof fn lemma_items_error_persists(p: Seq<u8>, j: nat, k: nat, w: nat)
    requires
        j <= k,
        spec_decode_items(p, j, w) is Err,
    ensures
        spec_decode_items(p, k, w) == spec_decode_items(p, j, w),
    decreases k - j,
{
    if j < k {
        lemma_items_error_persists(p, j, (k - 1) as nat, w);
    }
}

/// Once reading delta items fails, reading more fails the same way.
proof fn lemma_delta_items_error_persists(p: Seq<u8>, sub: nat, j: nat, k: nat, start: nat)
    requires
        j <= k,
        spec_decode_delta_items(p, sub, j, start) is Err,
    ensures
        spec_decode_delta_items(p, sub, k, start) == spec_decode_delta_items(p, sub, j, start),
    decreases k - j,
{
    if j < k {
        lemma_delta_items_error_persists(p, sub, j, (k - 1) as nat, start);
    }
}

fn decode_items(p: &[u8], count: u32, w: usize) -> (r: TelemetryResult<Vec<u64>>)
    requires
        w == 2 || w == 4 || w == 8,
    ensures
        decoded_as(r, match spec_decode_items(p@, count as nat, w as nat) {
            Ok((out, _)) => Ok(out),
            Err(e) => Err(e),
        }),
{
    let len = p.len();
    let mut out: Vec<u64> = Vec::new();
    let mut pos: usize = 0;
    let mut k: u32 = 0;
    while k < count
        invariant
            w == 2 || w == 4 || w == 8,
            len == p@.len(),
            k <= count,
            pos <= len,
            spec_decode_items(p@, k as nat, w as nat) == Ok::<(Seq<u64>, nat), ErrorDesc>((out@, pos as nat)),
        decreases count - k,
    {
        if pos >= len {
            proof { lemma_items_error_persists(p@, (k + 1) as nat, count as nat, w as nat); }
            return Err(TelemetryError::invalid_format("unexpected end of BYTES payload"));
        }
        let sub = p[pos] as usize;
        let start = pos + 1;
        assert(sub * w <= 255 * 8) by (nonlinear_arith)
            requires sub <= 255, w <= 8;
        let bl = sub * w;
        if bl > len - start {
            proof { lemma_items_error_persists(p@, (k + 1) as nat, count as nat, w as nat); }
            let mut m = String::from_str("BYTES payload too short: need ");
            push_decimal(&mut m, bl as u64);
            m.append(" bytes at offset ");
            push_decimal(&mut m, start as u64);
            m.append(", have ");
            push_decimal(&mut m, len as u64);
            return Err(format_error(m));
        }
        push_words_at(&mut out, p, start, sub, w);
        pos = start + bl;
        k = k + 1;
    }
    Ok(out)
}

fn decode_plain_payload(p: &[u8], value_type: u8, count: u32) -> (r: TelemetryResult<Vec<u64>>)
    ensures
        decoded_as(r, spec_decode_plain(p@, value_type, count)),
{
    if value_type == TYPE_U64 || value_type == TYPE_F64 {
        decode_fixed(p, count, 8)
    } else if value_type == TYPE_I32 || value_type == TYPE_F32 {
        decode_fixed(p, count, 4)
    } else if value_type == TYPE_BYTES {
        decode_items(p, count, 8)
    } else if value_type == TYPE_BYTES_F32 || value_type == TYPE_BYTES_I32 {
        decode_items(p, count, 4)
    } else if value_type == TYPE_BYTES_U16 {
        decode_items(p, count, 2)
    } else {
        let mut m = String::from_str("unknown value_type: 0x");
        push_hex(&mut m, value_type as u64, 2);
        Err(format_error(m))
    }
}

fn decode_delta_fixed(p: &[u8], count: u32, w: usize) -> (r: TelemetryResult<Vec<u64>>)
    requires
        w == 4 || w == 8,
        count > 0,
    ensures
        decoded_as(r, spec_decode_delta_fixed(p@, count, w as nat)),
{
    if p.len() < w {
        if w == 8 {
            return Err(TelemetryError::invalid_format("DELTA-u64 payload too short"));
        } else {
            return Err(TelemetryError::invalid_format("DELTA-i32 payload too short"));
        }
    }
    let first = get_word(p, 0, w);
    let avail = p.len() - w;
    let wanted: u64 = (count - 1) as u64 * w as u64;
    let end: usize = if (avail as u64) < wanted { avail } else { wanted as usize };
    let nd = end / w;
    let ghost ds = words_at(p@, w as int, nd as nat, w as nat);
    proof {
        assert(nd * w <= end) by (nonlinear_arith)
            requires nd == end / w, w > 0;
    }
    let mut out: Vec<u64> = Vec::new();
    out.push(first);
    let mut cur = first;
    let mut i: usize = 0;
    assert(ds.subrange(0, 0) =~= Seq::<u64>::empty());
    assert(out@ =~= running_sums(first, ds.subrange(0, 0), w as nat));
    let len = p.len();
    while i < nd
        invariant
            len == p@.len(),
            w == 4 || w == 8,
            w + nd * w <= p@.len(),
            ds == words_at(p@, w as int, nd as nat, w as nat),
            i <= nd,
            out@ == running_sums(first, ds.subrange(0, i as int), w as nat),
            cur == out@.last(),
        decreases nd - i,
    {
        proof {
            assert(i * w + w <= nd * w) by (nonlinear_arith)
                requires i < nd, w > 0;
        }
        let d = get_word(p, w + i * w, w);
        let next: u64 = if w == 4 {
            (cur as u32).wrapping_add(d as u32) as u64
        } else {
            cur.wrapping_add(d)
        };
        proof {
            let pre = ds.subrange(0, i + 1);
            assert(pre.drop_last() =~= ds.subrange(0, i as int));
            assert(pre.last() == d);
        }
        out.push(next);
        cur = next;
        i = i + 1;
    }
    assert(ds.subrange(0, nd as int) =~= ds);
    Ok(out)
}

fn decode_bytes_delta(p: &[u8], count: u32) -> (r: TelemetryResult<Vec<u64>>)
    requires
        count > 0,
    ensures
        decoded_as(r, spec_decode_bytes_delta(p@, count)),
{
    let len = p.len();
    if len == 0 {
        return Err(TelemetryError::invalid_format("BYTES DELTA payload too short for first item"));
    }
    let sub = p[0] as usize;
    let first_len = sub * 8;
    if first_len > len - 1 {
        return Err(TelemetryError::invalid_format("BYTES DELTA first item payload too short"));
    }
    let mut out: Vec<u64> = Vec::new();
    push_words_at(&mut out, p, 1, sub, 8);
    let ghost first = out@;
    let mut pos: usize = 1 + first_len;
    let mut k: u32 = 1;
    assert(first =~= words_at(p@, 1, sub as nat, 8));
    assert(out@.subrange(first.len() as int, out@.len() as int) =~= Seq::<u64>::empty());
    assert(out@.subrange(0, first.len() as int) =~= first);
    assert(spec_decode_delta_items(p@, sub as nat, 0, 1 + sub as nat * 8)
        == Ok::<(Seq<u64>, nat), ErrorDesc>((Seq::<u64>::empty(), pos as nat)));
    while k < count
        invariant
            len == p@.len(),
            len > 0,
            1 + sub * 8 <= len,
            1 <= k <= count,
            pos <= len,
            sub == p@[0] as nat,
            first == words_at(p@, 1, sub as nat, 8),
            spec_decode_delta_items(p@, sub as nat, (k - 1) as nat, 1 + sub as nat * 8)
                == Ok::<(Seq<u64>, nat), ErrorDesc>((out@.subrange(first.len() as int, out@.len() as int), pos as nat)),
            out@.subrange(0, first.len() as int) == first,
            first.len() <= out@.len(),
        decreases count - k,
    {
        let ghost before = out@;
        if pos >= len {
            proof {
                let st = 1 + sub as nat * 8;
                assert(spec_decode_delta_items(p@, sub as nat, k as nat, st)
                    == Err::<(Seq<u64>, nat), ErrorDesc>(ErrorDesc::Format("BYTES DELTA payload too short for delta item"@)));
                lemma_delta_items_error_persists(p@, sub as nat, k as nat, (count - 1) as nat, st);
                assert(spec_decode_bytes_delta(p@, count)
                    == Err::<Seq<u64>, ErrorDesc>(ErrorDesc::Format("BYTES DELTA payload too short for delta item"@)));
            }
            return Err(TelemetryError::invalid_format("BYTES DELTA payload too short for delta item"));
        }
        let sc = p[pos] as usize;
        let start = pos + 1;
        if sc != sub {
            proof { lemma_delta_items_error_persists(p@, sub as nat, k as nat, (count - 1) as nat, 1 + sub as nat * 8); }
            let mut m = String::from_str("BYTES DELTA sub_count mismatch: expected ");
            push_decimal(&mut m, sub as u64);
            m.append(", got ");
            push_decimal(&mut m, sc as u64);
            return Err(format_error(m));
        }
        let dl = sub * 4;
        if dl > len - start {
            proof { lemma_delta_items_error_persists(p@, sub as nat, k as nat, (count - 1) as nat, 1 + sub as nat * 8); }
            return Err(TelemetryError::invalid_format("BYTES DELTA item payload too short"));
        }
        push_words_at(&mut out, p, start, sub, 4);
        proof {
            assert(out@.subrange(0, first.len() as int) =~= first);
            assert(out@.subrange(first.len() as int, out@.len() as int)
                =~= before.subrange(first.len() as int, before.len() as int) + words_at(p@, start as int, sub as nat, 4));
        }
        pos = start + dl;
        k = k + 1;
    }
    assert(out@ =~= first + out@.subrange(first.len() as int, out@.len() as int));
    Ok(out)
}

fn decode_delta_payload(p: &[u8], value_type: u8, count: u32) -> (r: TelemetryResult<Vec<u64>>)
    ensures
        decoded_as(r, spec_decode_delta(p@, value_type, count)),
{
    if count == 0 {
        let out: Vec<u64> = Vec::new();
        assert(out@ =~= Seq::<u64>::empty());
        Ok(out)
    } else if value_type == TYPE_U64 {
        decode_delta_fixed(p, count, 8)
    } else if value_type == TYPE_I32 {
        decode_delta_fixed(p, count, 4)
    } else if value_type == TYPE_F32 || value_type == TYPE_F64 || value_type == TYPE_BYTES_F32
        || value_type == TYPE_BYTES_U16 || value_type == TYPE_BYTES_I32 {
        decode_plain_payload(p, value_type, count)
    } else if value_type == TYPE_BYTES {
        decode_bytes_delta(p, count)
    } else {
        let mut m = String::from_str("unsupported value_type for DELTA: 0x");
        push_hex(&mut m, value_type as u64, 2);
        Err(format_error(m))
    }
}

/// Decode an encoded column, first checking its CRC-32 against
/// `expected_crc32`.
pub fn decode_column(data: &[u8], expected_crc32: u32) -> (r: TelemetryResult<DecodedColumn>)
    ensures
        match spec_decode_column(data@, expected_crc32) {
            Ok((codec, vt, ws)) => r is Ok && r->Ok_0.codec == codec && r->Ok_0.value_type == vt && r->Ok_0.words@ == ws,
            Err(e) => r is Err && error_matches(r->Err_0, e),
        },
{
    let actual = crc32fast_hash(data);
    if actual != expected_crc32 {
        let mut m = String::from_str("CRC32 mismatch: expected 0x");
        push_hex(&mut m, expected_crc32 as u64, 8);
        m.append(", got 0x");
        push_hex(&mut m, actual as u64, 8);
        return Err(format_error(m));
    }
    let (codec, value_type, count) = read_header(data)?;
    let payload = vstd::slice::slice_subrange(data, HEADER_BYTES, data.len());
    let words = if codec == CODEC_PLAIN {
        decode_plain_payload(payload, value_type, count)?
    } else if codec == CODEC_DELTA {
        decode_delta_payload(payload, value_type, count)?
    } else {
        let mut m = String::from_str("unknown codec: 0x");
        push_hex(&mut m, codec as u64, 2);
        return Err(format_error(m));
    };
    Ok(DecodedColumn { codec, value_type, words })
}

/// Written words take `w` bytes each.
proof fn lemma_words_bytes_len(ws: Seq<u64>, w: nat)
    requires
        w == 2 || w == 4 || w == 8,
    ensures
        words_bytes(ws, w).len() == ws.len() * w,
    decreases ws.len(),
{
    if ws.len() > 0 {
        lemma_words_bytes_len(ws.drop_last(), w);
        crate::codec::lemma_le_roundtrip(Seq::<u8>::empty());
        assert(word_bytes(ws.last(), w).len() == w);
        assert(ws.len() * w == (ws.len() - 1) * w + w) by (nonlinear_arith);
    }
}

/// A word written at width `w` reads back as itself when it fits.
proof fn lemma_word_roundtrip(s: Seq<u8>, k: int, x: u64, w: nat)
    requires
        w == 2 || w == 4 || w == 8,
        0 <= k,
        k + w <= s.len(),
        s.subrange(k, k + w) == word_bytes(x, w),
        fits(x, w),
    ensures
        word_at(s, k, w) == x,
{
    crate::codec::lemma_read_written(s, k);
    if w == 2 {
        assert(u16_at(s, k) == x as u16);
    } else if w == 4 {
        assert(u32_at(s, k) == x as u32);
    } else {
        assert(u64_at(s, k) == x);
    }
}

/// Where a stretch of `s` is two parts one after the other, each part is
/// the stretch of its own.
proof fn lemma_subrange_of_concat(s: Seq<u8>, k: int, a: Seq<u8>, b: Seq<u8>)
    requires
        0 <= k,
        k + a.len() + b.len() <= s.len(),
        s.subrange(k, k + a.len() + b.len()) == a + b,
    ensures
        s.subrange(k, k + a.len()) == a,
        s.subrange(k + a.len(), k + a.len() + b.len()) == b,
{
    let whole = s.subrange(k, k + a.len() + b.len());
    assert(s.subrange(k, k + a.len()) =~= whole.subrange(0, a.len() as int));
    assert(whole.subrange(0, a.len() as int) =~= a);
    assert(s.subrange(k + a.len(), k + a.len() + b.len()) =~= whole.subrange(a.len() as int, (a.len() + b.len()) as int));
    assert(whole.subrange(a.len() as int, (a.len() + b.len()) as int) =~= b);
}

/// Words written one after another read back as themselves when they fit.
proof fn lemma_words_roundtrip(s: Seq<u8>, k: int, ws: Seq<u64>, w: nat)
    requires
        w == 2 || w == 4 || w == 8,
        0 <= k,
        k + ws.len() * w <= s.len(),
        s.subrange(k, k + ws.len() * w) == words_bytes(ws, w),
        forall|i: int| 0 <= i < ws.len() ==> fits(#[trigger] ws[i], w),
    ensures
        words_at(s, k, ws.len(), w) == ws,
    decreases ws.len(),
{
    let n = ws.len();
    if n > 0 {
        let init = ws.drop_last();
        lemma_words_bytes_len(init, w);
        assert(n * w == (n - 1) * w + w) by (nonlinear_arith);
        let mid = k + (n - 1) * w;
        crate::codec::lemma_le_roundtrip(Seq::<u8>::empty());
        assert(word_bytes(ws.last(), w).len() == w);
        assert(words_bytes(ws, w) == words_bytes(init, w) + word_bytes(ws.last(), w));
        lemma_subrange_of_concat(s, k, words_bytes(init, w), word_bytes(ws.last(), w));
        assert forall|i: int| 0 <= i < init.len() implies fits(#[trigger] init[i], w) by {
            assert(init[i] == ws[i]);
        }
        lemma_words_roundtrip(s, k, init, w);
        lemma_word_roundtrip(s, mid, ws.last(), w);
        assert(words_at(s, k, n, w) =~= ws) by {
            assert forall|i: int| 0 <= i < n implies #[trigger] words_at(s, k, n, w)[i] == ws[i] by {
                if i < n - 1 {
                    assert(words_at(s, k, (n - 1) as nat, w)[i] == init[i]);
                }
            }
        }
    } else {
        assert(words_at(s, k, 0, w) =~= ws);
    }
}

/// Differences are words of their width.
proof fn lemma_delta_words_fit(ws: Seq<u64>, w: nat)
    requires
        w == 4 || w == 8,
        ws.len() > 0,
        forall|i: int| 0 <= i < ws.len() ==> fits(#[trigger] ws[i], w),
    ensures
        forall|i: int| 0 <= i < ws.len() ==> fits(#[trigger] delta_words(ws, w)[i], w),
{
}

/// Summing the differences back up gives the words again.
proof fn lemma_running_sums_undo_delta(ws: Seq<u64>, w: nat, m: nat)
    requires
        w == 4 || w == 8,
        1 <= m <= ws.len(),
        forall|i: int| 0 <= i < ws.len() ==> fits(#[trigger] ws[i], w),
    ensures
        running_sums(ws[0], delta_words(ws, w).subrange(1, m as int), w) == ws.subrange(0, m as int),
    decreases m,
{
    let d = delta_words(ws, w);
    if m == 1 {
        assert(d.subrange(1, 1) =~= Seq::<u64>::empty());
        assert(ws.subrange(0, 1) =~= seq![ws[0]]);
    } else {
        lemma_running_sums_undo_delta(ws, w, (m - 1) as nat);
        let ds = d.subrange(1, m as int);
        assert(ds.drop_last() =~= d.subrange(1, m - 1));
        assert(ds.last() == wrap_sub(ws[m - 1], ws[m - 2], w));
        let r = ws.subrange(0, m - 1);
        assert(r.last() == ws[m - 2]);
        assert(fits(ws[m - 1], w) && fits(ws[m - 2], w));
        assert(wrap_add(ws[m - 2], wrap_sub(ws[m - 1], ws[m - 2], w), w) == ws[m - 1]);
        assert(r.push(ws[m - 1]) =~= ws.subrange(0, m as int));
    }
}

/// The value types with fixed-size values.
pub open spec fn is_fixed_type(vt: u8) -> bool {
    vt == TYPE_U64 || vt == TYPE_I32 || vt == TYPE_F32 || vt == TYPE_F64
}

/// Decoding an encoded column of fixed-size words gives back its codec,
/// value type and words, for both codecs, when the words fit their width
/// and their count fits the header.
pub proof fn lemma_fixed_column_roundtrip(ws: Seq<u64>, vt: u8, codec: u8, sub: u8)
    requires
        is_fixed_type(vt),
        codec == CODEC_PLAIN || codec == CODEC_DELTA,
        ws.len() <= u32::MAX,
        forall|i: int| 0 <= i < ws.len() ==> fits(#[trigger] ws[i], fixed_width(vt)),
    ensures
        ({
            let data = column_bytes(ws, vt, codec, sub);
            spec_decode_column(data, crate::codec::spec_crc32(data)) == Ok::<(u8, u8, Seq<u64>), ErrorDesc>((codec, vt, ws))
        }),
{
    let w = fixed_width(vt);
    let data = column_bytes(ws, vt, codec, sub);
    let n = ws.len();
    let count = value_count(ws, vt, sub);
    assert(count == n);
    let h = header_bytes(codec, vt, count);
    crate::codec::lemma_le_roundtrip(Seq::<u8>::empty());
    assert(h.len() == 6);
    let p = data.subrange(6, data.len() as int);
    assert(p =~= (if codec == CODEC_DELTA { delta_payload(ws, vt, sub) } else { plain_payload(ws, vt, sub) }));
    assert(data[0] == codec && data[1] == vt);
    assert(data.subrange(2, 6) =~= spec_u32_to_le_bytes(count));
    crate::codec::lemma_read_written(data, 2);
    assert(u32_at(data, 2) == count);
    if codec == CODEC_PLAIN || n == 0 || vt == TYPE_F32 || vt == TYPE_F64 {
        if codec == CODEC_DELTA && n == 0 {
            assert(spec_decode_delta(p, vt, count) == Ok::<Seq<u64>, ErrorDesc>(Seq::<u64>::empty()));
            assert(ws =~= Seq::<u64>::empty());
        } else {
            assert(p == words_bytes(ws, w));
            lemma_plain_words_decode(ws, w);
        }
    } else {
        assert(p == words_bytes(delta_words(ws, w), w));
        lemma_delta_words_decode(ws, w);
    }
}

/// Plain words written at width `w` decode back as themselves.
proof fn lemma_plain_words_decode(ws: Seq<u64>, w: nat)
    requires
        w == 4 || w == 8,
        ws.len() <= u32::MAX,
        forall|i: int| 0 <= i < ws.len() ==> fits(#[trigger] ws[i], w),
    ensures
        spec_decode_fixed(words_bytes(ws, w), ws.len() as u32, w) == Ok::<Seq<u64>, ErrorDesc>(ws),
{
    let n = ws.len();
    let p = words_bytes(ws, w);
    lemma_words_bytes_len(ws, w);
    assert(p.subrange(0, (n * w) as int) =~= p);
    lemma_words_roundtrip(p, 0, ws, w);
}

/// Delta-coded words written at width `w` decode back as the words.
proof fn lemma_delta_words_decode(ws: Seq<u64>, w: nat)
    requires
        w == 4 || w == 8,
        0 < ws.len() <= u32::MAX,
        forall|i: int| 0 <= i < ws.len() ==> fits(#[trigger] ws[i], w),
    ensures
        spec_decode_delta_fixed(words_bytes(delta_words(ws, w), w), ws.len() as u32, w) == Ok::<Seq<u64>, ErrorDesc>(ws),
{
    let n = ws.len();
    let d = delta_words(ws, w);
    let p = words_bytes(d, w);
    lemma_words_bytes_len(d, w);
    lemma_delta_words_fit(ws, w);
    assert(p.subrange(0, (n * w) as int) =~= p);
    lemma_words_roundtrip(p, 0, d, w);
    assert(n * w == (n - 1) * w + w) by (nonlinear_arith);
    assert(p.len() >= w);
    let ds = words_at(p, w as int, (n - 1) as nat, w);
    assert(ds =~= d.subrange(1, n as int)) by {
        assert forall|i: int| 0 <= i < n - 1 implies #[trigger] ds[i] == d[i + 1] by {
            assert(w + i * w == (i + 1) * w) by (nonlinear_arith);
            assert(words_at(p, 0, n, w)[i + 1] == d[i + 1]);
        }
    }
    assert(((n - 1) * w) / (w as int) == n - 1) by (nonlinear_arith)
        requires w > 0, n >= 1;
    assert(word_at(p, 0, w) == ws[0]) by {
        assert(words_at(p, 0, n, w)[0] == d[0]);
    }
    lemma_running_sums_undo_delta(ws, w, n);
    assert(ws.subrange(0, n as int) =~= ws);
}

/// Each written item takes its count byte and `sub` words of `w` bytes.
proof fn lemma_items_bytes_len(ws: Seq<u64>, sub: u8, n: nat, w: nat)
    requires
        w == 2 || w == 4 || w == 8,
        n * sub <= ws.len(),
    ensures
        items_bytes(ws, sub, n, w).len() == n * (1 + sub * w),
    decreases n,
{
    if n > 0 {
        assert((n - 1) * sub <= n * sub) by (nonlinear_arith);
        assert(n * sub == (n - 1) * sub + sub) by (nonlinear_arith);
        lemma_items_bytes_len(ws, sub, (n - 1) as nat, w);
        let chunk = ws.subrange((n - 1) * sub, n * sub);
        lemma_words_bytes_len(chunk, w);
        assert(chunk.len() == sub);
        assert(chunk.len() * w == sub * w);
        let prev = items_bytes(ws, sub, (n - 1) as nat, w);
        assert(items_bytes(ws, sub, n, w) == prev + seq![sub] + words_bytes(chunk, w));
        assert(items_bytes(ws, sub, n, w).len() == prev.len() + 1 + sub * w);
        assert(n * (1 + sub * w) == (n - 1) * (1 + sub * w) + 1 + sub * w) by (nonlinear_arith);
    } else {
        assert(n * (1 + sub * w) == 0) by (nonlinear_arith)
            requires n == 0;
    }
}

/// Fewer items are a prefix of more items.
proof fn lemma_items_bytes_prefix(ws: Seq<u64>, sub: u8, k: nat, n: nat, w: nat)
    requires
        w == 2 || w == 4 || w == 8,
        k <= n,
        n * sub <= ws.len(),
    ensures
        items_bytes(ws, sub, n, w).subrange(0, (k * (1 + sub * w)) as int) == items_bytes(ws, sub, k, w),
    decreases n - k,
{
    assert(k * sub <= n * sub) by (nonlinear_arith)
        requires k <= n;
    lemma_items_bytes_len(ws, sub, k, w);
    if k < n {
        assert((n - 1) * sub <= n * sub) by (nonlinear_arith);
        lemma_items_bytes_prefix(ws, sub, k, (n - 1) as nat, w);
        lemma_items_bytes_len(ws, sub, (n - 1) as nat, w);
        assert(k * (1 + sub * w) <= (n - 1) * (1 + sub * w)) by (nonlinear_arith)
            requires k <= n - 1;
        let a = items_bytes(ws, sub, (n - 1) as nat, w);
        let b = items_bytes(ws, sub, n, w);
        assert(b.subrange(0, a.len() as int) =~= a);
        assert(b.subrange(0, (k * (1 + sub * w)) as int) =~= a.subrange(0, (k * (1 + sub * w)) as int));
    } else {
        assert(items_bytes(ws, sub, n, w).subrange(0, (k * (1 + sub * w)) as int) =~= items_bytes(ws, sub, n, w));
    }
}

/// Reading `k` of the `n` items written reads back their words and stops
/// after them.
proof fn lemma_items_roundtrip(ws: Seq<u64>, sub: u8, n: nat, w: nat, k: nat)
    requires
        w == 2 || w == 4 || w == 8,
        sub > 0,
        k <= n,
        n * sub <= ws.len(),
        forall|i: int| 0 <= i < ws.len() ==> fits(#[trigger] ws[i], w),
    ensures
        spec_decode_items(items_bytes(ws, sub, n, w), k, w)
            == Ok::<(Seq<u64>, nat), ErrorDesc>((ws.subrange(0, k * sub), (k * (1 + sub * w)) as nat)),
    decreases k,
{
    let p = items_bytes(ws, sub, n, w);
    if k == 0 {
        assert(k * sub == 0 && k * (1 + sub * w) == 0) by (nonlinear_arith)
            requires k == 0;
        assert(ws.subrange(0, 0) =~= Seq::<u64>::empty());
    } else {
        lemma_items_roundtrip(ws, sub, n, w, (k - 1) as nat);
        let pos = (k - 1) * (1 + sub * w);
        lemma_items_bytes_len(ws, sub, n, w);
        lemma_items_bytes_prefix(ws, sub, k, n, w);
        assert(k * sub <= n * sub) by (nonlinear_arith)
            requires k <= n;
        assert(k * sub == (k - 1) * sub + sub) by (nonlinear_arith);
        assert(k * (1 + sub * w) == pos + 1 + sub * w) by (nonlinear_arith)
            requires pos == (k - 1) * (1 + sub * w);
        assert(k * (1 + sub * w) <= n * (1 + sub * w)) by (nonlinear_arith)
            requires k <= n;
        let pk = items_bytes(ws, sub, k, w);
        let chunk = ws.subrange((k - 1) * sub, k * sub);
        assert((k - 1) * sub <= ws.len()) by (nonlinear_arith)
            requires k * sub <= ws.len(), k >= 1;
        lemma_items_bytes_len(ws, sub, (k - 1) as nat, w);
        lemma_words_bytes_len(chunk, w);
        assert(p[pos] == pk[pos]);
        assert(pk[pos] == sub);
        let start = pos + 1;
        assert(p.subrange(start, start + chunk.len() * w) =~= words_bytes(chunk, w)) by {
            assert(p.subrange(start, start + chunk.len() * w) =~= pk.subrange(start, start + chunk.len() * w));
        }
        assert forall|i: int| 0 <= i < chunk.len() implies fits(#[trigger] chunk[i], w) by {
            assert(chunk[i] == ws[(k - 1) * sub + i]);
        }
        lemma_words_roundtrip(p, start, chunk, w);
        assert(ws.subrange(0, (k - 1) * sub) + chunk =~= ws.subrange(0, k * sub));
    }
}

/// Decoding an encoded BYTES column written plain gives back its whole
/// items' words, when they fit their width and their count fits the header.
pub proof fn lemma_bytes_column_roundtrip(ws: Seq<u64>, vt: u8, codec: u8, sub: u8)
    requires
        spec_is_bytes_type(vt),
        codec == CODEC_PLAIN || (codec == CODEC_DELTA && vt != TYPE_BYTES),
        sub > 0,
        ws.len() / (sub as nat) <= u32::MAX,
        forall|i: int| 0 <= i < ws.len() ==> fits(#[trigger] ws[i], sub_width(vt)),
    ensures
        ({
            let data = column_bytes(ws, vt, codec, sub);
            let n = ws.len() / (sub as nat);
            spec_decode_column(data, crate::codec::spec_crc32(data))
                == Ok::<(u8, u8, Seq<u64>), ErrorDesc>((codec, vt, ws.subrange(0, n * sub)))
        }),
{
    let w = sub_width(vt);
    let data = column_bytes(ws, vt, codec, sub);
    let n = ws.len() / (sub as nat);
    let count = value_count(ws, vt, sub);
    assert(count == n);
    assert(n * sub <= ws.len()) by (nonlinear_arith)
        requires n == ws.len() / (sub as nat), sub > 0;
    let h = header_bytes(codec, vt, count);
    crate::codec::lemma_le_roundtrip(Seq::<u8>::empty());
    assert(h.len() == 6);
    let p = data.subrange(6, data.len() as int);
    if codec == CODEC_DELTA && ws.len() == 0 {
        assert(n == 0);
        assert(ws.subrange(0, 0) =~= Seq::<u64>::empty());
    } else {
        assert(p =~= items_bytes(ws, sub, n, w));
    }
    assert(data[0] == codec && data[1] == vt);
    assert(data.subrange(2, 6) =~= spec_u32_to_le_bytes(count));
    crate::codec::lemma_read_written(data, 2);
    assert(u32_at(data, 2) == count);
    if !(codec == CODEC_DELTA && ws.len() == 0) {
        lemma_items_roundtrip(ws, sub, n, w, n);
    }
}

/// Items written one after another from offset `start` of `p` read back
/// as BYTES delta items of `sub` words each.
proof fn lemma_delta_items_roundtrip(p: Seq<u8>, start: nat, rs: Seq<u64>, sub: u8, m: nat, k: nat)
    requires
        sub > 0,
        k <= m,
        m * sub <= rs.len(),
        forall|i: int| 0 <= i < rs.len() ==> fits(#[trigger] rs[i], 4),
        start + m * (1 + sub * 4) <= p.len(),
        p.subrange(start as int, start + m * (1 + sub * 4)) == items_bytes(rs, sub, m, 4),
    ensures
        spec_decode_delta_items(p, sub as nat, k, start)
            == Ok::<(Seq<u64>, nat), ErrorDesc>((rs.subrange(0, k * sub), (start + k * (1 + sub * 4)) as nat)),
    decreases k,
{
    let q = items_bytes(rs, sub, m, 4);
    lemma_items_bytes_len(rs, sub, m, 4);
    if k == 0 {
        assert(k * sub == 0 && k * (1 + sub * 4) == 0) by (nonlinear_arith)
            requires k == 0;
        assert(rs.subrange(0, 0) =~= Seq::<u64>::empty());
    } else {
        lemma_delta_items_roundtrip(p, start, rs, sub, m, (k - 1) as nat);
        let pos = (k - 1) * (1 + sub * 4);
        lemma_items_bytes_prefix(rs, sub, k, m, 4);
        assert(k * sub <= m * sub) by (nonlinear_arith)
            requires k <= m;
        assert(k * sub == (k - 1) * sub + sub) by (nonlinear_arith);
        assert(k * (1 + sub * 4) == pos + 1 + sub * 4) by (nonlinear_arith)
            requires pos == (k - 1) * (1 + sub * 4);
        assert(k * (1 + sub * 4) <= m * (1 + sub * 4)) by (nonlinear_arith)
            requires k <= m;
        let qk = items_bytes(rs, sub, k, 4);
        let chunk = rs.subrange((k - 1) * sub, k * sub);
        assert((k - 1) * sub <= rs.len()) by (nonlinear_arith)
            requires k * sub <= rs.len(), k >= 1;
        lemma_items_bytes_len(rs, sub, (k - 1) as nat, 4);
        lemma_words_bytes_len(chunk, 4);
        assert(q[pos] == qk[pos]);
        assert(qk[pos] == sub);
        assert(p[start + pos] == q[pos]);
        let at = start + pos + 1;
        assert(p.subrange(at, at + chunk.len() * 4) =~= words_bytes(chunk, 4)) by {
            assert(p.subrange(at, at + chunk.len() * 4) =~= q.subrange(pos + 1, pos + 1 + chunk.len() * 4));
            assert(q.subrange(pos + 1, pos + 1 + chunk.len() * 4) =~= qk.subrange(pos + 1, pos + 1 + chunk.len() * 4));
        }
        assert forall|i: int| 0 <= i < chunk.len() implies fits(#[trigger] chunk[i], 4) by {
            assert(chunk[i] == rs[(k - 1) * sub + i]);
        }
        lemma_words_roundtrip(p, at, chunk, 4);
        assert(rs.subrange(0, (k - 1) * sub) + chunk =~= rs.subrange(0, k * sub));
    }
}

/// Decoding an encoded BYTES column written with the delta codec gives back
/// its whole items' words: the first item's words at full width, the
/// others' when they fit four bytes.
pub proof fn lemma_bytes_delta_column_roundtrip(ws: Seq<u64>, sub: u8)
    requires
        sub > 0,
        ws.len() >= sub,
        ws.len() / (sub as nat) <= u32::MAX,
        forall|i: int| sub <= i < ws.len() ==> fits(#[trigger] ws[i], 4),
    ensures
        ({
            let data = column_bytes(ws, TYPE_BYTES, CODEC_DELTA, sub);
            let n = ws.len() / (sub as nat);
            spec_decode_column(data, crate::codec::spec_crc32(data))
                == Ok::<(u8, u8, Seq<u64>), ErrorDesc>((CODEC_DELTA, TYPE_BYTES, ws.subrange(0, n * sub)))
        }),
{
    let data = column_bytes(ws, TYPE_BYTES, CODEC_DELTA, sub);
    let n = ws.len() / (sub as nat);
    assert(n >= 1) by (nonlinear_arith)
        requires n == ws.len() / (sub as nat), ws.len() >= sub, sub > 0;
    assert(n * sub <= ws.len()) by (nonlinear_arith)
        requires n == ws.len() / (sub as nat), sub > 0;
    let count = value_count(ws, TYPE_BYTES, sub);
    assert(count == n);
    crate::codec::lemma_le_roundtrip(Seq::<u8>::empty());
    let p = data.subrange(6, data.len() as int);
    let first = ws.subrange(0, sub as int);
    let rs = ws.subrange(sub as int, ws.len() as int);
    let m = (n - 1) as nat;
    assert(m * sub <= rs.len()) by (nonlinear_arith)
        requires m == n - 1, n * sub <= ws.len(), rs.len() == ws.len() - sub;
    let fb = words_bytes(first, 8);
    let ib = items_bytes(rs, sub, m, 4);
    assert(p =~= seq![sub] + fb + ib);
    assert(data[0] == CODEC_DELTA && data[1] == TYPE_BYTES);
    assert(data.subrange(2, 6) =~= spec_u32_to_le_bytes(count));
    crate::codec::lemma_read_written(data, 2);
    assert(u32_at(data, 2) == count);
    lemma_words_bytes_len(first, 8);
    lemma_items_bytes_len(rs, sub, m, 4);
    assert(p[0] == sub);
    let start = (1 + sub * 8) as nat;
    assert(p.subrange(1, start as int) =~= fb);
    assert forall|i: int| 0 <= i < first.len() implies fits(#[trigger] first[i], 8) by {}
    lemma_words_roundtrip(p, 1, first, 8);
    assert(p.subrange(start as int, start + m * (1 + sub * 4)) =~= ib);
    assert forall|i: int| 0 <= i < rs.len() implies fits(#[trigger] rs[i], 4) by {
        assert(rs[i] == ws[sub + i]);
    }
    lemma_delta_items_roundtrip(p, start, rs, sub, m, m);
    assert(first + rs.subrange(0, m * sub) =~= ws.subrange(0, n * sub)) by {
        assert(n * sub == sub + m * sub) by (nonlinear_arith)
            requires m == n - 1;
    }
}

} // verus!
