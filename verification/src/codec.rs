//! Little-endian byte codecs: a bounds-checked reader over a byte slice and
//! the spec functions that say how each integer is laid out.

use vstd::prelude::*;
use vstd::bytes::*;
use vstd::slice::*;
use crate::error::{is_eof_error, TelemetryError, TelemetryResult};

verus! {

/// Little-endian bytes of an `i32` (its two's-complement bit pattern).
pub open spec fn le_i32(x: i32) -> Seq<u8> {
    spec_u32_to_le_bytes(x as u32)
}

/// The `i32` whose little-endian bytes are the first four of `s`.
pub open spec fn from_le_i32(s: Seq<u8>) -> i32 {
    spec_u32_from_le_bytes(s.subrange(0, 4)) as i32
}

/// Little-endian bytes of an `i64` (its two's-complement bit pattern).
pub open spec fn le_i64(x: i64) -> Seq<u8> {
    spec_u64_to_le_bytes(x as u64)
}

/// The `u16` in the first two bytes of `s`.
pub open spec fn from_le_u16(s: Seq<u8>) -> u16 {
    spec_u16_from_le_bytes(s.subrange(0, 2))
}

/// The `u32` in the first four bytes of `s`.
pub open spec fn from_le_u32(s: Seq<u8>) -> u32 {
    spec_u32_from_le_bytes(s.subrange(0, 4))
}

/// The `u64` in the first eight bytes of `s`.
pub open spec fn from_le_u64(s: Seq<u8>) -> u64 {
    spec_u64_from_le_bytes(s.subrange(0, 8))
}

/// `n` zero bytes.
pub open spec fn zeros(n: nat) -> Seq<u8> {
    Seq::new(n, |i: int| 0u8)
}

/// Reading back what was written: each integer codec is a bijection on its
/// width, whatever follows it.
pub proof fn lemma_le_roundtrip(rest: Seq<u8>)
    ensures
        forall|x: u16| #[trigger] from_le_u16(spec_u16_to_le_bytes(x) + rest) == x,
        forall|x: u32| #[trigger] from_le_u32(spec_u32_to_le_bytes(x) + rest) == x,
        forall|x: u64| #[trigger] from_le_u64(spec_u64_to_le_bytes(x) + rest) == x,
        forall|x: i32| #[trigger] from_le_i32(le_i32(x) + rest) == x,
        forall|x: u16| #[trigger] spec_u16_to_le_bytes(x).len() == 2,
        forall|x: u32| #[trigger] spec_u32_to_le_bytes(x).len() == 4,
        forall|x: u64| #[trigger] spec_u64_to_le_bytes(x).len() == 8,
        forall|x: i32| #[trigger] le_i32(x).len() == 4,
{
    lemma_auto_spec_u16_to_from_le_bytes();
    lemma_auto_spec_u32_to_from_le_bytes();
    lemma_auto_spec_u64_to_from_le_bytes();
    assert forall|x: u16| #[trigger] from_le_u16(spec_u16_to_le_bytes(x) + rest) == x by {
        assert((spec_u16_to_le_bytes(x) + rest).subrange(0, 2) =~= spec_u16_to_le_bytes(x));
    }
    assert forall|x: u32| #[trigger] from_le_u32(spec_u32_to_le_bytes(x) + rest) == x by {
        assert((spec_u32_to_le_bytes(x) + rest).subrange(0, 4) =~= spec_u32_to_le_bytes(x));
    }
    assert forall|x: u64| #[trigger] from_le_u64(spec_u64_to_le_bytes(x) + rest) == x by {
        assert((spec_u64_to_le_bytes(x) + rest).subrange(0, 8) =~= spec_u64_to_le_bytes(x));
    }
    assert forall|x: i32| #[trigger] from_le_i32(le_i32(x) + rest) == x by {
        assert((le_i32(x) + rest).subrange(0, 4) =~= le_i32(x));
        let u = x as u32;
        assert(spec_u32_from_le_bytes(spec_u32_to_le_bytes(u)) == u);
        assert((u as i32) == x) by (bit_vector)
            requires u == x as u32;
    }
    assert forall|x: i32| #[trigger] le_i32(x).len() == 4 by {
        assert(spec_u32_to_le_bytes(x as u32).len() == 4);
    }
}

/// A read cursor over a byte slice. Its view is the bytes not yet read.
pub struct ByteReader<'a> {
    data: &'a [u8],
    pos: usize,
}

impl<'a> ByteReader<'a> {
    #[verifier::type_invariant]
    spec fn inv(self) -> bool {
        self.pos <= self.data@.len()
    }

    /// The bytes that have not been read yet.
    pub closed spec fn rest(&self) -> Seq<u8> {
        self.data@.subrange(self.pos as int, self.data@.len() as int)
    }

    /// A reader positioned at the start of `data`.
    pub fn new(data: &'a [u8]) -> (r: ByteReader<'a>)
        ensures
            r.rest() == data@,
    {
        let r = ByteReader { data, pos: 0 };
        assert(r.rest() =~= data@);
        r
    }

    /// Number of bytes not yet read.
    pub fn remaining_len(&self) -> (n: usize)
        ensures
            n == self.rest().len(),
    {
        proof { use_type_invariant(self); }
        self.data.len() - self.pos
    }

    /// Read exactly `n` bytes, or fail with the end-of-input error and
    /// consume nothing.
    pub fn read_exact(&mut self, n: usize) -> (r: Result<&'a [u8], TelemetryError>)
        ensures
            match r {
                Ok(b) => {
                    &&& n <= old(self).rest().len()
                    &&& b@ == old(self).rest().subrange(0, n as int)
                    &&& final(self).rest() == old(self).rest().subrange(n as int, old(self).rest().len() as int)
                },
                Err(e) => n > old(self).rest().len() && is_eof_error(e) && final(self).rest() == old(self).rest(),
            },
    {
        proof { use_type_invariant(&*self); }
        if n > self.data.len() - self.pos {
            return Err(TelemetryError::eof());
        }
        let b = slice_subrange(self.data, self.pos, self.pos + n);
        let ghost old_rest = self.rest();
        self.pos = self.pos + n;
        assert(b@ =~= old_rest.subrange(0, n as int));
        assert(self.rest() =~= old_rest.subrange(n as int, old_rest.len() as int));
        Ok(b)
    }
}

/// Parse outcome of a fixed-width read: `Ok(v)` with `v` the value in the
/// first `width` bytes and those bytes consumed, or the end-of-input error.
pub open spec fn fixed_read<T>(r: Result<T, TelemetryError>, before: Seq<u8>, after: Seq<u8>, width: nat, v: T) -> bool {
    match r {
        Ok(x) => before.len() >= width && x == v && after == before.subrange(width as int, before.len() as int),
        Err(e) => before.len() < width && is_eof_error(e),
    }
}

/// Read a little-endian `u16`.
pub fn read_u16(reader: &mut ByteReader) -> (r: TelemetryResult<u16>)
    ensures
        fixed_read(r, old(reader).rest(), final(reader).rest(), 2, from_le_u16(old(reader).rest())),
{
    let b = reader.read_exact(2)?;
    Ok(u16_from_le_bytes(b))
}

/// Read a little-endian `u32`.
pub fn read_u32(reader: &mut ByteReader) -> (r: TelemetryResult<u32>)
    ensures
        fixed_read(r, old(reader).rest(), final(reader).rest(), 4, from_le_u32(old(reader).rest())),
{
    let b = reader.read_exact(4)?;
    Ok(u32_from_le_bytes(b))
}

/// Read a little-endian `u64`.
pub fn read_u64(reader: &mut ByteReader) -> (r: TelemetryResult<u64>)
    ensures
        fixed_read(r, old(reader).rest(), final(reader).rest(), 8, from_le_u64(old(reader).rest())),
{
    let b = reader.read_exact(8)?;
    Ok(u64_from_le_bytes(b))
}

/// Read a little-endian two's-complement `i32`.
pub fn read_i32(reader: &mut ByteReader) -> (r: TelemetryResult<i32>)
    ensures
        fixed_read(r, old(reader).rest(), final(reader).rest(), 4, from_le_i32(old(reader).rest())),
{
    let b = reader.read_exact(4)?;
    let u = u32_from_le_bytes(b);
    Ok(u as i32)
}

/// Append the little-endian bytes of `x`.
pub fn put_u16(out: &mut Vec<u8>, x: u16)
    ensures
        final(out)@ == old(out)@ + spec_u16_to_le_bytes(x),
{
    let mut b = u16_to_le_bytes(x);
    out.append(&mut b);
}

/// Append the little-endian bytes of `x`.
pub fn put_u32(out: &mut Vec<u8>, x: u32)
    ensures
        final(out)@ == old(out)@ + spec_u32_to_le_bytes(x),
{
    let mut b = u32_to_le_bytes(x);
    out.append(&mut b);
}

/// Append the little-endian bytes of `x`.
pub fn put_u64(out: &mut Vec<u8>, x: u64)
    ensures
        final(out)@ == old(out)@ + spec_u64_to_le_bytes(x),
{
    let mut b = u64_to_le_bytes(x);
    out.append(&mut b);
}

/// Append the little-endian two's-complement bytes of `x`.
pub fn put_i32(out: &mut Vec<u8>, x: i32)
    ensures
        final(out)@ == old(out)@ + le_i32(x),
{
    let mut b = u32_to_le_bytes(x as u32);
    out.append(&mut b);
}

/// Append `n` zero bytes.
pub fn put_zeros(out: &mut Vec<u8>, n: usize)
    ensures
        final(out)@ == old(out)@ + zeros(n as nat),
{
    let ghost start = out@;
    let mut i: usize = 0;
    while i < n
        invariant
            i <= n,
            out@ == start + zeros(i as nat),
        decreases n - i,
    {
        out.push(0u8);
        i = i + 1;
        assert(out@ =~= start + zeros(i as nat));
    }
}

/// Append all of `bytes`.
pub fn put_bytes(out: &mut Vec<u8>, bytes: &[u8])
    ensures
        final(out)@ == old(out)@ + bytes@,
{
    let mut v = slice_to_vec(bytes);
    out.append(&mut v);
}

} // verus!

verus! {

/// The `u16` stored little-endian at offset `k` of `s`.
pub open spec fn u16_at(s: Seq<u8>, k: int) -> u16 {
    spec_u16_from_le_bytes(s.subrange(k, k + 2))
}

/// The `u32` stored little-endian at offset `k` of `s`.
pub open spec fn u32_at(s: Seq<u8>, k: int) -> u32 {
    spec_u32_from_le_bytes(s.subrange(k, k + 4))
}

/// The `u64` stored little-endian at offset `k` of `s`.
pub open spec fn u64_at(s: Seq<u8>, k: int) -> u64 {
    spec_u64_from_le_bytes(s.subrange(k, k + 8))
}

/// The two's-complement `i32` stored little-endian at offset `k` of `s`.
pub open spec fn i32_at(s: Seq<u8>, k: int) -> i32 {
    spec_u32_from_le_bytes(s.subrange(k, k + 4)) as i32
}

/// A window of a window is a window of the whole.
pub proof fn lemma_sub_sub(s: Seq<u8>, a: int, b: int, c: int, d: int)
    requires
        0 <= a <= b <= s.len(),
        0 <= c <= d <= b - a,
    ensures
        s.subrange(a, b).subrange(c, d) == s.subrange(a + c, a + d),
{
    assert(s.subrange(a, b).subrange(c, d) =~= s.subrange(a + c, a + d));
}

/// Reading at offset `k` of a window starting at `a` reads at `a + k`.
pub proof fn lemma_at_in_window(s: Seq<u8>, a: int, b: int)
    requires
        0 <= a <= b <= s.len(),
    ensures
        forall|k: int| 0 <= k && k + 2 <= b - a ==> #[trigger] u16_at(s.subrange(a, b), k) == u16_at(s, a + k),
        forall|k: int| 0 <= k && k + 4 <= b - a ==> #[trigger] u32_at(s.subrange(a, b), k) == u32_at(s, a + k),
        forall|k: int| 0 <= k && k + 4 <= b - a ==> #[trigger] i32_at(s.subrange(a, b), k) == i32_at(s, a + k),
        forall|k: int| 0 <= k && k + 8 <= b - a ==> #[trigger] u64_at(s.subrange(a, b), k) == u64_at(s, a + k),
{
    assert forall|k: int| 0 <= k && k + 2 <= b - a implies #[trigger] u16_at(s.subrange(a, b), k) == u16_at(s, a + k) by {
        lemma_sub_sub(s, a, b, k, k + 2);
    }
    assert forall|k: int| 0 <= k && k + 4 <= b - a implies #[trigger] u32_at(s.subrange(a, b), k) == u32_at(s, a + k) by {
        lemma_sub_sub(s, a, b, k, k + 4);
    }
    assert forall|k: int| 0 <= k && k + 4 <= b - a implies #[trigger] i32_at(s.subrange(a, b), k) == i32_at(s, a + k) by {
        lemma_sub_sub(s, a, b, k, k + 4);
    }
    assert forall|k: int| 0 <= k && k + 8 <= b - a implies #[trigger] u64_at(s.subrange(a, b), k) == u64_at(s, a + k) by {
        lemma_sub_sub(s, a, b, k, k + 8);
    }
}

/// The integer stored at offset `k` of a byte slice.
pub fn get_u16(b: &[u8], k: usize) -> (r: u16)
    requires
        k + 2 <= b@.len(),
    ensures
        r == u16_at(b@, k as int),
{
    let n: usize = b.len();
    u16_from_le_bytes(slice_subrange(b, k, k + 2))
}

/// The integer stored at offset `k` of a byte slice.
pub fn get_u32(b: &[u8], k: usize) -> (r: u32)
    requires
        k + 4 <= b@.len(),
    ensures
        r == u32_at(b@, k as int),
{
    let n: usize = b.len();
    u32_from_le_bytes(slice_subrange(b, k, k + 4))
}

/// The integer stored at offset `k` of a byte slice.
pub fn get_i32(b: &[u8], k: usize) -> (r: i32)
    requires
        k + 4 <= b@.len(),
    ensures
        r == i32_at(b@, k as int),
{
    let n: usize = b.len();
    let n: usize = b.len();
    u32_from_le_bytes(slice_subrange(b, k, k + 4)) as i32
}

/// The integer stored at offset `k` of a byte slice.
pub fn get_u64(b: &[u8], k: usize) -> (r: u64)
    requires
        k + 8 <= b@.len(),
    ensures
        r == u64_at(b@, k as int),
{
    let n: usize = b.len();
    u64_from_le_bytes(slice_subrange(b, k, k + 8))
}

/// A little-endian integer written at offset `k` is read back from there.
pub proof fn lemma_read_written(s: Seq<u8>, k: int)
    requires
        0 <= k,
    ensures
        forall|x: u16| k + 2 <= s.len() && #[trigger] s.subrange(k, k + 2) == spec_u16_to_le_bytes(x) ==> u16_at(s, k) == x,
        forall|x: u32| k + 4 <= s.len() && #[trigger] s.subrange(k, k + 4) == spec_u32_to_le_bytes(x) ==> u32_at(s, k) == x,
        forall|x: i32| k + 4 <= s.len() && #[trigger] s.subrange(k, k + 4) == le_i32(x) ==> i32_at(s, k) == x,
        forall|x: u64| k + 8 <= s.len() && #[trigger] s.subrange(k, k + 8) == spec_u64_to_le_bytes(x) ==> u64_at(s, k) == x,
{
    lemma_auto_spec_u16_to_from_le_bytes();
    lemma_auto_spec_u32_to_from_le_bytes();
    lemma_auto_spec_u64_to_from_le_bytes();
    assert forall|x: u16| k + 2 <= s.len() && #[trigger] s.subrange(k, k + 2) == spec_u16_to_le_bytes(x) implies u16_at(s, k) == x by {
        assert(spec_u16_to_le_bytes(x).len() == 2);
    }
    assert forall|x: u32| k + 4 <= s.len() && #[trigger] s.subrange(k, k + 4) == spec_u32_to_le_bytes(x) implies u32_at(s, k) == x by {
        assert(spec_u32_to_le_bytes(x).len() == 4);
    }
    assert forall|x: u64| k + 8 <= s.len() && #[trigger] s.subrange(k, k + 8) == spec_u64_to_le_bytes(x) implies u64_at(s, k) == x by {
        assert(spec_u64_to_le_bytes(x).len() == 8);
    }
    assert forall|x: i32| k + 4 <= s.len() && #[trigger] s.subrange(k, k + 4) == le_i32(x) implies i32_at(s, k) == x by {
        let u = x as u32;
        assert(spec_u32_to_le_bytes(u).len() == 4);
        assert((u as i32) == x) by (bit_vector)
            requires u == x as u32;
    }
}

} // verus!

verus! {

use crate::error::ErrorDesc;

/// Parse `n` consecutive items with `item`, left to right; the first
/// failure is the result.
pub open spec fn parse_many<T>(s: Seq<u8>, n: nat, item: spec_fn(Seq<u8>) -> Result<(T, nat), ErrorDesc>) -> Result<(Seq<T>, nat), ErrorDesc>
    decreases n,
{
    if n == 0 {
        Ok((Seq::empty(), 0))
    } else {
        match parse_many(s, (n - 1) as nat, item) {
            Err(d) => Err(d),
            Ok((vs, k)) => match item(s.subrange(k as int, s.len() as int)) {
                Err(d) => Err(d),
                Ok((v, m)) => Ok((vs.push(v), k + m)),
            },
        }
    }
}

/// The concatenated encodings of `vs`.
pub open spec fn encode_many<T>(vs: Seq<T>, enc: spec_fn(T) -> Seq<u8>) -> Seq<u8>
    decreases vs.len(),
{
    if vs.len() == 0 { Seq::empty() } else { encode_many(vs.drop_last(), enc) + enc(vs.last()) }
}

/// Once parsing fails at some item, parsing more items fails the same way.
pub proof fn lemma_parse_many_error_persists<T>(
    s: Seq<u8>,
    i: nat,
    n: nat,
    item: spec_fn(Seq<u8>) -> Result<(T, nat), ErrorDesc>,
)
    requires
        i <= n,
        parse_many(s, i, item) is Err,
    ensures
        parse_many(s, n, item) == parse_many(s, i, item),
    decreases n - i,
{
    if i < n {
        lemma_parse_many_error_persists(s, i, (n - 1) as nat, item);
    }
}

/// An item codec that reads back what it writes, whatever follows, reads
/// back any sequence of items written one after the other.
pub proof fn lemma_parse_many_roundtrip<T>(
    vs: Seq<T>,
    rest: Seq<u8>,
    item: spec_fn(Seq<u8>) -> Result<(T, nat), ErrorDesc>,
    enc: spec_fn(T) -> Seq<u8>,
)
    requires
        forall|i: int, r: Seq<u8>| 0 <= i < vs.len() ==> #[trigger] item(enc(vs[i]) + r) == Ok::<(T, nat), ErrorDesc>((vs[i], enc(vs[i]).len())),
    ensures
        parse_many(encode_many(vs, enc) + rest, vs.len(), item) == Ok::<(Seq<T>, nat), ErrorDesc>((vs, encode_many(vs, enc).len())),
    decreases vs.len(),
{
    if vs.len() > 0 {
        let pre = vs.drop_last();
        let last = vs.last();
        let tail = enc(last) + rest;
        assert forall|i: int, r: Seq<u8>| 0 <= i < pre.len() implies #[trigger] item(enc(pre[i]) + r) == Ok::<(T, nat), ErrorDesc>((pre[i], enc(pre[i]).len())) by {
            assert(pre[i] == vs[i]);
        }
        lemma_parse_many_roundtrip(pre, tail, item, enc);
        let s = encode_many(vs, enc) + rest;
        assert(s =~= encode_many(pre, enc) + tail);
        let k = encode_many(pre, enc).len();
        assert(s.subrange(k as int, s.len() as int) =~= tail);
        assert(item(enc(vs[vs.len() - 1]) + rest) == Ok::<(T, nat), ErrorDesc>((vs[vs.len() - 1], enc(vs[vs.len() - 1]).len())));
        assert(pre.push(last) =~= vs);
        assert(encode_many(vs, enc).len() == k + enc(last).len());
    } else {
        assert(vs =~= Seq::<T>::empty());
    }
}

} // verus!

verus! {

/// One bit step of the reflected CRC-32 (IEEE polynomial `0xEDB88320`).
pub open spec fn crc_bit(c: u32) -> u32 {
    if c & 1 == 1 { (c >> 1) ^ 0xEDB8_8320u32 } else { c >> 1 }
}

/// `k` bit steps.
pub open spec fn crc_bits(c: u32, k: nat) -> u32
    decreases k,
{
    if k == 0 { c } else { crc_bits(crc_bit(c), (k - 1) as nat) }
}

/// The register after feeding one byte.
pub open spec fn crc_update(c: u32, b: u8) -> u32 {
    crc_bits(c ^ (b as u32), 8)
}

/// The register after feeding `s`, starting from all ones.
pub open spec fn crc_state(s: Seq<u8>) -> u32
    decreases s.len(),
{
    if s.len() == 0 { 0xFFFF_FFFFu32 } else { crc_update(crc_state(s.drop_last()), s.last()) }
}

/// The CRC-32 (IEEE) checksum of `s`: the final register, inverted.
pub open spec fn spec_crc32(s: Seq<u8>) -> u32 {
    !crc_state(s)
}

/// The CRC-32 checksum of `bytes`, computed bit by bit.
pub fn crc32(bytes: &[u8]) -> (r: u32)
    ensures
        r == spec_crc32(bytes@),
{
    let n = bytes.len();
    let mut crc: u32 = 0xFFFF_FFFF;
    let mut i: usize = 0;
    while i < n
        invariant
            n == bytes@.len(),
            i <= n,
            crc == crc_state(bytes@.subrange(0, i as int)),
        decreases n - i,
    {
        let ghost prefix = bytes@.subrange(0, i as int);
        crc = crc ^ (bytes[i] as u32);
        let ghost start = crc;
        let mut k: u32 = 0;
        while k < 8
            invariant
                k <= 8,
                crc_bits(crc, (8 - k) as nat) == crc_bits(start, 8),
            decreases 8 - k,
        {
            if crc & 1 == 1 {
                crc = (crc >> 1) ^ 0xEDB8_8320;
            } else {
                crc = crc >> 1;
            }
            k = k + 1;
        }
        proof {
            let next = bytes@.subrange(0, i + 1);
            assert(next.drop_last() =~= prefix);
            assert(next.last() == bytes@[i as int]);
        }
        i = i + 1;
    }
    assert(bytes@.subrange(0, n as int) =~= bytes@);
    !crc
}

/// The CRC-32 (IEEE) checksum of `data`, by the `crc32fast` crate.
///
/// Calls `crc32fast::hash`, which the crate documents as the CRC32 (IEEE)
/// checksum: reflected, polynomial `0xEDB88320`, register starting at all
/// ones and inverted at the end, exactly `spec_crc32`.
#[verifier::external_body]
pub(crate) fn crc32fast_hash(data: &[u8]) -> (r: u32)
    ensures
        r == spec_crc32(data@),
{
    crc32fast::hash(data)
}

} // verus!
