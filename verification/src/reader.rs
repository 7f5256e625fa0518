//! Reading v1 recordings: the header, schema check, metadata block, the
//! chunk index (from the footer, or by scanning the chunks), and each
//! chunk's header, column entries and checked payload.

use vstd::prelude::*;
use vstd::slice::slice_subrange;
use vstd::utf8::{decode_utf8, valid_utf8};
use crate::codec::{get_i32, get_u16, get_u32, get_u64, i32_at, parse_many, lemma_parse_many_error_persists,
    spec_crc32, u16_at, u32_at, u64_at, zeros, ByteReader};
use crate::error::{error_matches, ErrorDesc, TelemetryError, TelemetryResult};
use crate::format::{chunk_magic, crc32, footer_magic, index_magic, meta_magic, schema_accepted, validate_schema,
    ChunkHeader, ColumnEntry, FileHeader, IndexEntry, HEADER_SIZE};
use crate::text::{decimal, hex_fixed_lower, push_decimal, push_hex_lower};
use crate::encode_v2::{word_at, words_at};

verus! {

/// `a + b`, or `u64::MAX` if that overflows.
pub open spec fn sat_add_u64(a: u64, b: int) -> u64 {
    if a + b > u64::MAX { u64::MAX } else { (a + b) as u64 }
}

/// The bytes a chunk takes: its header, one entry per column, its payload.
pub open spec fn chunk_total_len(h: ChunkHeader) -> int {
    72 + 40 * h.column_count + h.payload_len
}

/// The index entry that scanning records for the chunk `h` found at `off`
/// and taking `len` bytes.
pub open spec fn scanned_entry(h: ChunkHeader, off: int, len: int) -> IndexEntry {
    IndexEntry {
        cluster_id: h.cluster_id,
        chunk_seq: h.chunk_seq,
        file_offset: off as u64,
        byte_len: len as u32,
        start_time_ns: h.start_time_ns,
        end_time_ns: h.end_time_ns,
        start_tick: h.base_sample_tick,
        end_tick: sat_add_u64(h.base_sample_tick, (if h.sample_count >= 1 { h.sample_count - 1 } else { 0 }) * h.sample_stride),
    }
}

/// The four bytes at `off` are the magic `m`.
pub open spec fn magic_at(b: Seq<u8>, off: int, m: Seq<u8>) -> bool {
    b.subrange(off, off + 4) == m
}

/// Scanning the chunks from `off`, having found `entries` holding `total`
/// samples so far: stop at the end, at an index or footer block, at
/// anything that is not a chunk, or at a chunk that runs past the end; a
/// malformed chunk header is an error.
pub open spec fn spec_scan(b: Seq<u8>, off: int, entries: Seq<IndexEntry>, total: u64) -> Result<(Seq<IndexEntry>, u64), ErrorDesc>
    decreases b.len() - off,
{
    if off < 0 || off + 4 > b.len() {
        Ok((entries, total))
    } else if magic_at(b, off, index_magic()) || magic_at(b, off, footer_magic()) || !magic_at(b, off, chunk_magic()) {
        Ok((entries, total))
    } else {
        match ChunkHeader::spec_read(b.subrange(off, b.len() as int)) {
            Err(d) => Err(d),
            Ok((h, _)) => {
                let cl = chunk_total_len(h);
                if off + cl > b.len() {
                    Ok((entries, total))
                } else {
                    spec_scan(b, off + cl, entries.push(scanned_entry(h, off, cl)), sat_add_u64(total, h.sample_count as int))
                }
            },
        }
    }
}

/// Scanning the chunks from `off` with nothing found yet.
pub open spec fn spec_scan_from(b: Seq<u8>, off: int) -> Result<(Seq<IndexEntry>, u64), ErrorDesc> {
    spec_scan(b, off, Seq::empty(), 0)
}

pub(crate) fn magic_is(b: &[u8], off: usize, m0: u8, m1: u8, m2: u8, m3: u8) -> (r: bool)
    requires
        off + 4 <= b@.len(),
    ensures
        r == magic_at(b@, off as int, seq![m0, m1, m2, m3]),
{
    let r = b[off] == m0 && b[off + 1] == m1 && b[off + 2] == m2 && b[off + 3] == m3;
    proof {
        let w = b@.subrange(off as int, off + 4);
        if r {
            assert(w =~= seq![m0, m1, m2, m3]);
        } else if w == seq![m0, m1, m2, m3] {
            assert(w[0] == b@[off as int] && w[1] == b@[off + 1] && w[2] == b@[off + 2] && w[3] == b@[off + 3]);
        }
    }
    r
}

/// Find the chunks by walking them from `first_chunk_offset`. Returns the
/// index entries, the total sample count, the chunk count, and a footer
/// offset of 0.
fn scan_chunks(bytes: &[u8], first_chunk_offset: usize) -> (r: TelemetryResult<(Vec<IndexEntry>, u64, u32, u64)>)
    requires
        first_chunk_offset <= bytes@.len(),
    ensures
        match spec_scan_from(bytes@, first_chunk_offset as int) {
            Ok((es, t)) => r is Ok && r->Ok_0.0@ == es && r->Ok_0.1 == t && r->Ok_0.2 == es.len() as u32 && r->Ok_0.3 == 0,
            Err(d) => r is Err && error_matches(r->Err_0, d),
        },
{
    let len = bytes.len();
    let ghost goal = spec_scan_from(bytes@, first_chunk_offset as int);
    let mut offset = first_chunk_offset;
    let mut entries: Vec<IndexEntry> = Vec::new();
    let mut total: u64 = 0;
    loop
        invariant_except_break
            goal == spec_scan_from(bytes@, first_chunk_offset as int),
            len == bytes@.len(),
            offset <= len,
            spec_scan(bytes@, offset as int, entries@, total) == goal,
        ensures
            goal == Ok::<(Seq<IndexEntry>, u64), ErrorDesc>((entries@, total)),
        decreases len - offset,
    {
        if len - offset < 4 {
            break;
        }
        if magic_is(bytes, offset, 73, 78, 68, 88) || magic_is(bytes, offset, 70, 79, 79, 84)
            || !magic_is(bytes, offset, 67, 72, 78, 75) {
            break;
        }
        let mut reader = ByteReader::new(slice_subrange(bytes, offset, len));
        let header = match ChunkHeader::read_from(&mut reader) {
            Ok(h) => h,
            Err(e) => {
                proof {
                    let rest = bytes@.subrange(offset as int, len as int);
                    assert(magic_at(bytes@, offset as int, chunk_magic()));
                    assert(!magic_at(bytes@, offset as int, index_magic()));
                    assert(!magic_at(bytes@, offset as int, footer_magic()));
                    assert(ChunkHeader::spec_read(rest) is Err);
                    let d = ChunkHeader::spec_read(rest)->Err_0;
                    assert(error_matches(e, d));
                    assert(spec_scan(bytes@, offset as int, entries@, total) == Err::<(Seq<IndexEntry>, u64), ErrorDesc>(d));
                }
                return Err(e);
            },
        };
        let chunk_len: u64 = 72 + 40 * header.column_count as u64 + header.payload_len as u64;
        if chunk_len > (len - offset) as u64 {
            break;
        }
        let cl = chunk_len as usize;
        let c1: u64 = if header.sample_count >= 1 { (header.sample_count - 1) as u64 } else { 0 };
        assert(c1 * header.sample_stride <= 0xFFFF_FFFF * 0xFFFF_FFFF) by (nonlinear_arith)
            requires c1 <= 0xFFFF_FFFF, header.sample_stride <= 0xFFFF_FFFF;
        let span: u64 = c1 * header.sample_stride as u64;
        entries.push(IndexEntry {
            cluster_id: header.cluster_id,
            chunk_seq: header.chunk_seq,
            file_offset: offset as u64,
            byte_len: chunk_len as u32,
            start_time_ns: header.start_time_ns,
            end_time_ns: header.end_time_ns,
            start_tick: header.base_sample_tick,
            end_tick: header.base_sample_tick.saturating_add(span),
        });
        total = total.saturating_add(header.sample_count as u64);
        offset = offset + cl;
    }
    let count = entries.len() as u32;
    Ok((entries, total, count, 0))
}

/// The index entry in the 56 bytes at `k`.
pub open spec fn index_entry_at(s: Seq<u8>, k: int) -> IndexEntry {
    IndexEntry::spec_decode(s.subrange(k, s.len() as int))
}

/// What reading the index and footer at `fo` gives: the `INDX` magic, an
/// entry count that the remaining bytes can hold, the entries, then the
/// `FOOT` magic, the index offset, the total sample count and the chunk
/// count.
pub open spec fn spec_read_footer_index(b: Seq<u8>, fo: int) -> Result<(Seq<IndexEntry>, u64, u32), ErrorDesc> {
    let s = b.subrange(fo, b.len() as int);
    if s.len() < 4 {
        Err(ErrorDesc::Eof)
    } else if !magic_at(s, 0, index_magic()) {
        Err(ErrorDesc::Format("bad index magic"@))
    } else if s.len() < 12 {
        Err(ErrorDesc::Eof)
    } else {
        let count = u64_at(s, 4);
        let max = (if s.len() >= 40 { s.len() - 40 } else { 0 }) / 56;
        if count > max {
            Err(ErrorDesc::Format("index entry count "@ + decimal(count as nat) + " exceeds max "@ + decimal(max as nat)))
        } else {
            let f = 12 + count * 56;
            if s.len() < f + 4 {
                Err(ErrorDesc::Eof)
            } else if !magic_at(s, f, footer_magic()) {
                Err(ErrorDesc::Format("bad footer magic"@))
            } else if s.len() < f + 24 {
                Err(ErrorDesc::Eof)
            } else {
                Ok((Seq::new(count as nat, |i: int| index_entry_at(s, 12 + i * 56)), u64_at(s, f + 12), u32_at(s, f + 20)))
            }
        }
    }
}

/// Read the chunk index that the footer at `footer_offset` points to.
fn read_index_from_footer(bytes: &[u8], footer_offset: usize) -> (r: TelemetryResult<(Vec<IndexEntry>, u64, u32, u64)>)
    requires
        footer_offset < bytes@.len(),
    ensures
        match spec_read_footer_index(bytes@, footer_offset as int) {
            Ok((es, t, c)) => r is Ok && r->Ok_0.0@ == es && r->Ok_0.1 == t && r->Ok_0.2 == c && r->Ok_0.3 == footer_offset as u64,
            Err(d) => r is Err && error_matches(r->Err_0, d),
        },
{
    let len = bytes.len();
    let s = slice_subrange(bytes, footer_offset, len);
    let n = s.len();
    if n < 4 {
        return Err(TelemetryError::eof());
    }
    if !magic_is(s, 0, 73, 78, 68, 88) {
        return Err(TelemetryError::invalid_format("bad index magic"));
    }
    if n < 12 {
        return Err(TelemetryError::eof());
    }
    let count = get_u64(s, 4);
    let max: u64 = ((if n >= 40 { n - 40 } else { 0 }) / 56) as u64;
    if count > max {
        let mut m = String::from_str("index entry count ");
        push_decimal(&mut m, count);
        m.append(" exceeds max ");
        push_decimal(&mut m, max);
        return Err(TelemetryError::InvalidFormat(m));
    }
    let c = count as usize;
    let ghost sv = s@;
    let mut entries: Vec<IndexEntry> = Vec::new();
    let mut i: usize = 0;
    while i < c
        invariant
            n == sv.len(),
            sv == s@,
            c as int == count,
            count <= (if n >= 40 { n - 40 } else { 0 }) / 56,
            i <= c,
            entries@ == Seq::new(i as nat, |j: int| index_entry_at(sv, 12 + j * 56)),
        decreases c - i,
    {
        assert(12 + i * 56 + 56 <= n) by (nonlinear_arith)
            requires i < c, c <= (if n >= 40 { n - 40 } else { 0 }) / 56;
        let k = 12 + i * 56;
        let mut reader = ByteReader::new(slice_subrange(s, k, n));
        let e = IndexEntry::read_from(&mut reader)?;
        entries.push(e);
        i = i + 1;
        assert(entries@ =~= Seq::new(i as nat, |j: int| index_entry_at(sv, 12 + j * 56)));
    }
    assert(12 + c * 56 <= n) by (nonlinear_arith)
        requires c <= (if n >= 40 { n - 40 } else { 0 }) / 56, n >= 12;
    let f = 12 + c * 56;
    if n - f < 4 {
        return Err(TelemetryError::eof());
    }
    if !magic_is(s, f, 70, 79, 79, 84) {
        return Err(TelemetryError::invalid_format("bad footer magic"));
    }
    if n - f < 24 {
        return Err(TelemetryError::eof());
    }
    let total = get_u64(s, f + 12);
    let chunks = get_u32(s, f + 20);
    Ok((entries, total, chunks, footer_offset as u64))
}

/// The text that the standard library's lossy UTF-8 decoding gives for
/// `bytes`.
pub uninterp spec fn utf8_lossy_text(bytes: Seq<u8>) -> Seq<char>;

/// Decode UTF-8 with `String::from_utf8_lossy`, which replaces each invalid
/// sequence with U+FFFD and so returns exactly the decoded text of valid
/// UTF-8. What it returns for other bytes is left to the name
/// `utf8_lossy_text`.
#[verifier::external_body]
pub(crate) fn string_from_utf8_lossy(bytes: &[u8]) -> (s: String)
    ensures
        s@ == utf8_lossy_text(bytes@),
        valid_utf8(bytes@) ==> s@ == decode_utf8(bytes@),
{
    String::from_utf8_lossy(bytes).into_owned()
}

/// The metadata block of a v1 recording. Floating-point fields are kept as
/// their bit patterns, the polling rate in thousandths of a hertz.
#[derive(Debug, Clone)]
pub struct SessionMetadata {
    pub track_name: String,
    pub car_model: String,
    pub created_unix_ns: u64,
    pub poll_hz_x1000: u32,
    pub chunk_rows: usize,
    pub sm_version: String,
    pub ac_version: String,
    pub number_of_sessions: i32,
    pub num_cars: i32,
    pub sector_count: i32,
    pub max_rpm: i32,
    pub max_torque_bits: u32,
    pub max_power_bits: u32,
    pub max_fuel_bits: u32,
    pub penalties_enabled: i32,
    pub raw_static_bytes: Vec<u8>,
}

/// The metadata as plain values.
pub struct MetadataView {
    pub track_name: Seq<char>,
    pub car_model: Seq<char>,
    pub created_unix_ns: u64,
    pub poll_hz_x1000: u32,
    pub chunk_rows: nat,
    pub sm_version: Seq<char>,
    pub ac_version: Seq<char>,
    pub number_of_sessions: i32,
    pub num_cars: i32,
    pub sector_count: i32,
    pub max_rpm: i32,
    pub max_torque_bits: u32,
    pub max_power_bits: u32,
    pub max_fuel_bits: u32,
    pub penalties_enabled: i32,
    pub raw_static_bytes: Seq<u8>,
}

impl View for SessionMetadata {
    type V = MetadataView;

    open spec fn view(&self) -> MetadataView {
        MetadataView {
            track_name: self.track_name@,
            car_model: self.car_model@,
            created_unix_ns: self.created_unix_ns,
            poll_hz_x1000: self.poll_hz_x1000,
            chunk_rows: self.chunk_rows as nat,
            sm_version: self.sm_version@,
            ac_version: self.ac_version@,
            number_of_sessions: self.number_of_sessions,
            num_cars: self.num_cars,
            sector_count: self.sector_count,
            max_rpm: self.max_rpm,
            max_torque_bits: self.max_torque_bits,
            max_power_bits: self.max_power_bits,
            max_fuel_bits: self.max_fuel_bits,
            penalties_enabled: self.penalties_enabled,
            raw_static_bytes: self.raw_static_bytes@,
        }
    }
}

/// A read of `n` bytes at `pos` that never fails: the bytes and the
/// position after them, or, past the end, `n` zero bytes and the end.
pub open spec fn lossy_read(b: Seq<u8>, pos: int, n: nat) -> (Seq<u8>, int) {
    if pos + n <= b.len() { (b.subrange(pos, pos + n), pos + n) } else { (zeros(n), b.len() as int) }
}

/// The optional version strings and counts after the car name at `p`: the
/// two version lengths, the session and car counts, then the two strings;
/// and where reading stopped.
pub open spec fn metadata_versions(b: Seq<u8>, p: int) -> (Seq<char>, Seq<char>, i32, i32, int) {
    if b.len() - p >= 12 {
        let (sm, q1) = lossy_read(b, p + 12, u16_at(b, p) as nat);
        let (ac, q2) = lossy_read(b, q1, u16_at(b, p + 2) as nat);
        (utf8_lossy_text(sm), utf8_lossy_text(ac), i32_at(b, p + 4), i32_at(b, p + 8), q2)
    } else {
        (Seq::empty(), Seq::empty(), 0, 0, p)
    }
}

/// What decoding a metadata block gives: the `META` magic, creation time,
/// polling rate, chunk rows, the track and car names, then, when present,
/// the version strings, the static scalars and the raw static bytes.
pub open spec fn spec_decode_metadata(b: Seq<u8>) -> Result<MetadataView, ErrorDesc> {
    if b.len() < 4 {
        Err(ErrorDesc::Eof)
    } else if !magic_at(b, 0, meta_magic()) {
        Err(ErrorDesc::Format("bad metadata block"@))
    } else if b.len() < 24 {
        Err(ErrorDesc::Eof)
    } else {
        let tl = u16_at(b, 20) as int;
        let cl = u16_at(b, 22) as int;
        if b.len() < 24 + tl + cl {
            Err(ErrorDesc::Eof)
        } else {
            let p = 24 + tl + cl;
            let (smv, acv, ns, nc, p2) = metadata_versions(b, p);
            let scalars = b.len() - p2 >= 24;
            let p3 = if scalars { p2 + 24 } else { p2 };
            let raw_len = u32_at(b, p3) as int;
            let raw = if b.len() - p3 >= 4 && raw_len > 0 && raw_len <= b.len() - p3 - 4 {
                b.subrange(p3 + 4, p3 + 4 + raw_len)
            } else {
                Seq::empty()
            };
            Ok(MetadataView {
                track_name: utf8_lossy_text(b.subrange(24, 24 + tl)),
                car_model: utf8_lossy_text(b.subrange(24 + tl, p)),
                created_unix_ns: u64_at(b, 4),
                poll_hz_x1000: u32_at(b, 12),
                chunk_rows: u32_at(b, 16) as nat,
                sm_version: smv,
                ac_version: acv,
                number_of_sessions: ns,
                num_cars: nc,
                sector_count: if scalars { i32_at(b, p2) } else { 0 },
                max_rpm: if scalars { i32_at(b, p2 + 4) } else { 0 },
                max_torque_bits: if scalars { u32_at(b, p2 + 8) } else { 0 },
                max_power_bits: if scalars { u32_at(b, p2 + 12) } else { 0 },
                max_fuel_bits: if scalars { u32_at(b, p2 + 16) } else { 0 },
                penalties_enabled: if scalars { i32_at(b, p2 + 20) } else { 0 },
                raw_static_bytes: raw,
            })
        }
    }
}

/// `n` bytes at `pos`, or `n` zero bytes and the end when they run past it.
pub(crate) fn read_lossy(b: &[u8], pos: usize, n: usize) -> (r: (Vec<u8>, usize))
    requires
        pos <= b@.len(),
    ensures
        r.0@ == lossy_read(b@, pos as int, n as nat).0,
        r.1 as int == lossy_read(b@, pos as int, n as nat).1,
{
    let len = b.len();
    if n <= len - pos {
        let v = vstd::slice::slice_to_vec(slice_subrange(b, pos, pos + n));
        (v, pos + n)
    } else {
        let mut v: Vec<u8> = Vec::new();
        let mut i: usize = 0;
        while i < n
            invariant
                i <= n,
                v@ == zeros(i as nat),
            decreases n - i,
        {
            v.push(0);
            i = i + 1;
            assert(v@ =~= zeros(i as nat));
        }
        (v, len)
    }
}

/// A complete metadata block reads back field for field: after the `META`
/// magic come the creation time (at 4), the polling rate (at 12), the
/// chunk rows (at 16) and the two name lengths (at 20 and 22); after the
/// names, the two version lengths, the session count and the car count,
/// then the two version strings; after them the sector count, the maximum
/// rpm, the four-byte maxima of torque, power and fuel in that order, and
/// the penalties flag.
pub proof fn lemma_metadata_layout(b: Seq<u8>)
    requires
        b.len() >= 24,
        b.subrange(0, 4) == meta_magic(),
        24 + u16_at(b, 20) + u16_at(b, 22) + 12 <= b.len(),
        ({
            let p = 24 + u16_at(b, 20) + u16_at(b, 22);
            p + 12 + u16_at(b, p) + u16_at(b, p + 2) + 24 <= b.len()
        }),
    ensures
        ({
            let p = 24 + u16_at(b, 20) + u16_at(b, 22);
            let q = p + 12 + u16_at(b, p) + u16_at(b, p + 2);
            spec_decode_metadata(b) matches Ok(m)
                && m.created_unix_ns == u64_at(b, 4)
                && m.poll_hz_x1000 == u32_at(b, 12)
                && m.chunk_rows == u32_at(b, 16) as nat
                && m.number_of_sessions == i32_at(b, p + 4)
                && m.num_cars == i32_at(b, p + 8)
                && m.sector_count == i32_at(b, q)
                && m.max_rpm == i32_at(b, q + 4)
                && m.max_torque_bits == u32_at(b, q + 8)
                && m.max_power_bits == u32_at(b, q + 12)
                && m.max_fuel_bits == u32_at(b, q + 16)
                && m.penalties_enabled == i32_at(b, q + 20)
        }),
{
}

/// Decode a metadata block.
fn decode_metadata(bytes: &[u8]) -> (r: TelemetryResult<SessionMetadata>)
    ensures
        match spec_decode_metadata(bytes@) {
            Ok(m) => r is Ok && r->Ok_0@ == m,
            Err(d) => r is Err && error_matches(r->Err_0, d),
        },
{
    let len = bytes.len();
    if len < 4 {
        return Err(TelemetryError::eof());
    }
    if !magic_is(bytes, 0, 77, 69, 84, 65) {
        return Err(TelemetryError::invalid_format("bad metadata block"));
    }
    if len < 24 {
        return Err(TelemetryError::eof());
    }
    let created_unix_ns = get_u64(bytes, 4);
    let poll_hz_x1000 = get_u32(bytes, 12);
    let chunk_rows = get_u32(bytes, 16) as usize;
    let tl = get_u16(bytes, 20) as usize;
    let cl = get_u16(bytes, 22) as usize;
    if len - 24 < tl + cl {
        return Err(TelemetryError::eof());
    }
    let p = 24 + tl + cl;
    let track_name = string_from_utf8_lossy(slice_subrange(bytes, 24, 24 + tl));
    let car_model = string_from_utf8_lossy(slice_subrange(bytes, 24 + tl, p));
    let (sm_version, ac_version, number_of_sessions, num_cars, p2) = if len - p >= 12 {
        let sm_len = get_u16(bytes, p) as usize;
        let ac_len = get_u16(bytes, p + 2) as usize;
        let ns = get_i32(bytes, p + 4);
        let nc = get_i32(bytes, p + 8);
        let (sm, q1) = read_lossy(bytes, p + 12, sm_len);
        let (ac, q2) = read_lossy(bytes, q1, ac_len);
        (string_from_utf8_lossy(sm.as_slice()), string_from_utf8_lossy(ac.as_slice()), ns, nc, q2)
    } else {
        (String::new(), String::new(), 0, 0, p)
    };
    let scalars = len - p2 >= 24;
    let (sector_count, max_rpm, max_torque_bits, max_power_bits, max_fuel_bits, penalties_enabled) = if scalars {
        (get_i32(bytes, p2), get_i32(bytes, p2 + 4), get_u32(bytes, p2 + 8), get_u32(bytes, p2 + 12),
            get_u32(bytes, p2 + 16), get_i32(bytes, p2 + 20))
    } else {
        (0, 0, 0, 0, 0, 0)
    };
    let p3 = if scalars { p2 + 24 } else { p2 };
    let raw_static_bytes = if len - p3 >= 4 {
        let raw_len = get_u32(bytes, p3) as usize;
        if raw_len > 0 && raw_len <= len - p3 - 4 {
            vstd::slice::slice_to_vec(slice_subrange(bytes, p3 + 4, p3 + 4 + raw_len))
        } else {
            Vec::new()
        }
    } else {
        Vec::new()
    };
    let m = SessionMetadata {
        track_name,
        car_model,
        created_unix_ns,
        poll_hz_x1000,
        chunk_rows,
        sm_version,
        ac_version,
        number_of_sessions,
        num_cars,
        sector_count,
        max_rpm,
        max_torque_bits,
        max_power_bits,
        max_fuel_bits,
        penalties_enabled,
        raw_static_bytes,
    };
    assert(m@.raw_static_bytes =~= spec_decode_metadata(bytes@)->Ok_0.raw_static_bytes);
    Ok(m)
}

/// What the whole recording says of itself.
#[derive(Debug, Clone, Copy, PartialEq, Eq)]
pub struct RecordingSummary {
    pub total_samples: u64,
    pub chunk_count: u32,
    pub total_bytes: u64,
    pub footer_offset: u64,
}

/// Where the chunk index comes from: the footer when the header points
/// inside the file, else a scan of the chunks. Gives the entries, the total
/// sample count, the chunk count and the footer offset used.
pub open spec fn spec_chunk_index(b: Seq<u8>, h: FileHeader) -> Result<(Seq<IndexEntry>, u64, u32, u64), ErrorDesc> {
    if h.footer_offset > 0 && h.footer_offset < b.len() {
        match spec_read_footer_index(b, h.footer_offset as int) {
            Ok((es, t, c)) => Ok((es, t, c, h.footer_offset)),
            Err(d) => Err(d),
        }
    } else {
        match spec_scan_from(b, h.first_chunk_offset as int) {
            Ok((es, t)) => Ok((es, t, es.len() as u32, 0)),
            Err(d) => Err(d),
        }
    }
}

/// What opening a v1 recording held in `b` gives: its header (whose
/// offsets must be in order and within the file), after checking the
/// schema block, its metadata, its chunk index and its summary.
pub open spec fn spec_open(b: Seq<u8>) -> Result<(FileHeader, MetadataView, Seq<IndexEntry>, RecordingSummary), ErrorDesc> {
    match FileHeader::spec_read(b) {
        Err(d) => Err(d),
        Ok((h, _)) => if h.schema_offset < HEADER_SIZE || h.metadata_offset <= h.schema_offset
            || h.first_chunk_offset <= h.metadata_offset {
            Err(ErrorDesc::Format("invalid header offsets"@))
        } else if h.first_chunk_offset > b.len() {
            Err(ErrorDesc::Format("first chunk offset is past eof"@))
        } else {
            match schema_accepted(b.subrange(h.schema_offset as int, h.metadata_offset as int)) {
                Err(d) => Err(d),
                Ok(_) => match spec_decode_metadata(b.subrange(h.metadata_offset as int, h.first_chunk_offset as int)) {
                    Err(d) => Err(d),
                    Ok(m) => match spec_chunk_index(b, h) {
                        Err(d) => Err(d),
                        Ok((es, t, c, f)) => Ok((h, m, es, RecordingSummary {
                            total_samples: t,
                            chunk_count: c,
                            total_bytes: b.len() as u64,
                            footer_offset: f,
                        })),
                    },
                },
            }
        },
    }
}

/// A v1 recording held in memory, with its header, metadata and chunk
/// index read.
pub struct BinaryTelemetryReader {
    bytes: Vec<u8>,
    header: FileHeader,
    metadata: SessionMetadata,
    index_entries: Vec<IndexEntry>,
    summary: RecordingSummary,
}

impl BinaryTelemetryReader {
    /// The recording's bytes.
    pub closed spec fn data(&self) -> Seq<u8> {
        self.bytes@
    }

    /// What the recording's bytes say of it.
    pub closed spec fn opened(&self) -> (FileHeader, MetadataView, Seq<IndexEntry>, RecordingSummary) {
        (self.header, self.metadata@, self.index_entries@, self.summary)
    }

    /// The reader's fields are what opening its bytes gives.
    pub closed spec fn wf(&self) -> bool {
        spec_open(self.bytes@) == Ok::<(FileHeader, MetadataView, Seq<IndexEntry>, RecordingSummary), ErrorDesc>(self.opened())
    }

    /// Open a recording held in `bytes`.
    pub fn from_bytes(bytes: Vec<u8>) -> (r: TelemetryResult<Self>)
        ensures
            match spec_open(bytes@) {
                Ok(o) => r is Ok && r->Ok_0.wf() && r->Ok_0.data() == bytes@ && r->Ok_0.opened() == o,
                Err(d) => r is Err && error_matches(r->Err_0, d),
            },
    {
        let len = bytes.len();
        let mut reader = ByteReader::new(bytes.as_slice());
        let header = FileHeader::read_from(&mut reader)?;
        if header.schema_offset < HEADER_SIZE as u64 || header.metadata_offset <= header.schema_offset
            || header.first_chunk_offset <= header.metadata_offset {
            return Err(TelemetryError::invalid_format("invalid header offsets"));
        }
        if header.first_chunk_offset > len as u64 {
            return Err(TelemetryError::invalid_format("first chunk offset is past eof"));
        }
        let so = header.schema_offset as usize;
        let mo = header.metadata_offset as usize;
        let fco = header.first_chunk_offset as usize;
        validate_schema(slice_subrange(bytes.as_slice(), so, mo))?;
        let metadata = decode_metadata(slice_subrange(bytes.as_slice(), mo, fco))?;
        let (index_entries, total_samples, chunk_count, footer_offset) =
            if header.footer_offset > 0 && header.footer_offset < len as u64 {
                read_index_from_footer(bytes.as_slice(), header.footer_offset as usize)?
            } else {
                scan_chunks(bytes.as_slice(), fco)?
            };
        let summary = RecordingSummary { total_samples, chunk_count, total_bytes: len as u64, footer_offset };
        Ok(BinaryTelemetryReader { bytes, header, metadata, index_entries, summary })
    }

    /// The file header.
    pub fn header(&self) -> (h: FileHeader)
        ensures
            h == self.opened().0,
    {
        self.header
    }

    /// The metadata block.
    pub fn metadata(&self) -> (m: &SessionMetadata)
        ensures
            m@ == self.opened().1,
    {
        &self.metadata
    }

    /// The chunk index.
    pub fn chunk_index(&self) -> (es: &[IndexEntry])
        ensures
            es@ == self.opened().2,
    {
        self.index_entries.as_slice()
    }

    /// The recording's summary.
    pub fn summary(&self) -> (s: &RecordingSummary)
        ensures
            *s == self.opened().3,
    {
        &self.summary
    }
}

/// The column entries of a chunk, read from the bytes after its header.
pub open spec fn spec_chunk_columns(c: Seq<u8>, n: nat) -> Result<(Seq<ColumnEntry>, nat), ErrorDesc> {
    parse_many(c.subrange(72, c.len() as int), n, |t: Seq<u8>| ColumnEntry::spec_read(t))
}

/// Where a chunk of the index ends: its offset plus its length, capped at
/// the largest `usize`.
pub open spec fn chunk_end(e: IndexEntry) -> int {
    let start = (e.file_offset as usize) as int;
    if start + e.byte_len > usize::MAX { usize::MAX as int } else { start + e.byte_len }
}

/// What reading the chunk that `e` points to gives, for a cluster expected
/// to be `expected`: its header, its column entries and where its payload
/// lies. The chunk must lie within the file, hold the expected cluster, a
/// payload within the chunk, and a payload whose CRC-32 matches.
pub open spec fn spec_read_chunk(b: Seq<u8>, e: IndexEntry, expected: u16) -> Result<(ChunkHeader, Seq<ColumnEntry>, int, int), ErrorDesc> {
    let start = (e.file_offset as usize) as int;
    let end = chunk_end(e);
    if end > b.len() {
        Err(ErrorDesc::Format("chunk "@ + decimal(e.chunk_seq as nat) + " points past eof"@))
    } else {
        let c = b.subrange(start, end);
        match ChunkHeader::spec_read(c) {
            Err(d) => Err(d),
            Ok((h, _)) => if h.cluster_id != expected {
                Err(ErrorDesc::Format("attempted to decode chunk with cluster 0x"@ + hex_fixed_lower(h.cluster_id as nat, 4)
                    + " as 0x"@ + hex_fixed_lower(expected as nat, 4)))
            } else {
                match spec_chunk_columns(c, h.column_count as nat) {
                    Err(d) => Err(d),
                    Ok((cols, _)) => {
                        let ps = start + 72 + 40 * cols.len();
                        let pe = ps + h.payload_len;
                        if pe > end {
                            Err(ErrorDesc::Format("payload points past chunk"@))
                        } else if spec_crc32(b.subrange(ps, pe)) != h.payload_crc32 {
                            Err(ErrorDesc::Format("payload crc mismatch in chunk "@ + decimal(h.chunk_seq as nat)))
                        } else {
                            Ok((h, cols, ps, pe))
                        }
                    },
                }
            },
        }
    }
}

impl BinaryTelemetryReader {
    /// Read the chunk that `entry` points to, expecting the cluster
    /// `expected_cluster`: its header, its column entries and its payload.
    pub fn read_chunk_raw(&self, entry: &IndexEntry, expected_cluster: u16) -> (r: TelemetryResult<(ChunkHeader, Vec<ColumnEntry>, &[u8])>)
        ensures
            match spec_read_chunk(self.data(), *entry, expected_cluster) {
                Ok((h, cols, ps, pe)) => r is Ok && r->Ok_0.0 == h && r->Ok_0.1@ == cols && r->Ok_0.2@ == self.data().subrange(ps, pe),
                Err(d) => r is Err && error_matches(r->Err_0, d),
            },
    {
        let bytes = self.bytes.as_slice();
        let len = bytes.len();
        let start = entry.file_offset as usize;
        let end = start.saturating_add(entry.byte_len as usize);
        if end > len {
            let mut m = String::from_str("chunk ");
            push_decimal(&mut m, entry.chunk_seq as u64);
            m.append(" points past eof");
            return Err(TelemetryError::InvalidFormat(m));
        }
        let chunk = slice_subrange(bytes, start, end);
        let mut reader = ByteReader::new(chunk);
        let header = ChunkHeader::read_from(&mut reader)?;
        if header.cluster_id != expected_cluster {
            let mut m = String::from_str("attempted to decode chunk with cluster 0x");
            push_hex_lower(&mut m, header.cluster_id as u64, 4);
            m.append(" as 0x");
            push_hex_lower(&mut m, expected_cluster as u64, 4);
            return Err(TelemetryError::InvalidFormat(m));
        }
        let ghost t = chunk@.subrange(72, chunk@.len() as int);
        let ghost item = |t: Seq<u8>| ColumnEntry::spec_read(t);
        assert(reader.rest() == t);
        let n = header.column_count;
        let mut columns: Vec<ColumnEntry> = Vec::new();
        let ghost mut consumed: nat = 0;
        let mut i: u16 = 0;
        while i < n
            invariant
                bytes@ == self.data(),
                len == bytes@.len(),
                start as int == (entry.file_offset as usize) as int,
                end as int == chunk_end(*entry),
                start <= end <= len,
                chunk@ == bytes@.subrange(start as int, end as int),
                chunk@.len() >= 72,
                ChunkHeader::spec_read(chunk@) == Ok::<(ChunkHeader, nat), ErrorDesc>((header, 72)),
                header.cluster_id == expected_cluster,
                n == header.column_count,
                consumed == 40 * i,
                columns@.len() == i,
                i <= n,
                t == chunk@.subrange(72, chunk@.len() as int),
                item == (|t: Seq<u8>| ColumnEntry::spec_read(t)),
                parse_many(t, i as nat, item) == Ok::<(Seq<ColumnEntry>, nat), ErrorDesc>((columns@, consumed)),
                consumed <= t.len(),
                reader.rest() == t.subrange(consumed as int, t.len() as int),
            decreases n - i,
        {
            match ColumnEntry::read_from(&mut reader) {
                Ok(c) => {
                    columns.push(c);
                    proof { consumed = consumed + 40; }
                    assert(reader.rest() =~= t.subrange(consumed as int, t.len() as int));
                },
                Err(e) => {
                    proof { lemma_parse_many_error_persists(t, (i + 1) as nat, n as nat, item); }
                    return Err(e);
                },
            }
            i = i + 1;
        }
        assert(start + 72 + 40 * columns@.len() <= end);
        let ps = start + 72 + 40 * columns.len();
        let pl = header.payload_len as usize;
        if pl > end - ps {
            return Err(TelemetryError::invalid_format("payload points past chunk"));
        }
        let payload = slice_subrange(bytes, ps, ps + pl);
        if crc32(payload) != header.payload_crc32 {
            let mut m = String::from_str("payload crc mismatch in chunk ");
            push_decimal(&mut m, header.chunk_seq as u64);
            return Err(TelemetryError::InvalidFormat(m));
        }
        Ok((header, columns, payload))
    }
}

/// The position of the first column entry with the id `id`, if any.
pub open spec fn column_position(cols: Seq<ColumnEntry>, id: u16) -> Option<int> {
    if exists|i: int| 0 <= i < cols.len() && cols[i].column_id == id {
        Some(choose|i: int| 0 <= i < cols.len() && cols[i].column_id == id
            && forall|j: int| 0 <= j < i ==> cols[j].column_id != id)
    } else {
        None
    }
}

/// What finding the column `id` gives: its first entry, or an error naming
/// the id.
pub open spec fn spec_find_column(cols: Seq<ColumnEntry>, id: u16) -> Result<ColumnEntry, ErrorDesc> {
    match column_position(cols, id) {
        Some(i) => Ok(cols[i]),
        None => Err(ErrorDesc::Format("missing column id "@ + decimal(id as nat) + " in controls chunk"@)),
    }
}

/// The first column entry with the id `id`.
fn find_column(columns: &[ColumnEntry], id: u16) -> (r: TelemetryResult<ColumnEntry>)
    ensures
        match spec_find_column(columns@, id) {
            Ok(c) => r == Ok::<ColumnEntry, TelemetryError>(c),
            Err(d) => r is Err && error_matches(r->Err_0, d),
        },
{
    let mut i: usize = 0;
    while i < columns.len()
        invariant
            i <= columns@.len(),
            forall|j: int| 0 <= j < i ==> columns@[j].column_id != id,
        decreases columns@.len() - i,
    {
        if columns[i].column_id == id {
            proof {
                let cs = columns@;
                let c = choose|k: int| 0 <= k < cs.len() && cs[k].column_id == id
                    && forall|j: int| 0 <= j < k ==> cs[j].column_id != id;
                assert(cs[i as int].column_id == id);
                assert(c == i) by {
                    if c < i {
                        assert(cs[c].column_id != id);
                    } else if c > i {
                        assert(cs[i as int].column_id != id);
                    }
                }
            }
            return Ok(columns[i]);
        }
        i = i + 1;
    }
    let mut m = String::from_str("missing column id ");
    push_decimal(&mut m, id as u64);
    m.append(" in controls chunk");
    Err(TelemetryError::InvalidFormat(m))
}

/// Where the values of a column lie in the payload: its entry's offset and
/// exactly `count` items of `item_size` bytes, within the payload.
pub open spec fn spec_column_range(payload_len: nat, c: ColumnEntry, count: nat, item_size: nat) -> Result<int, ErrorDesc> {
    let start = c.offset as int;
    let expected = count * item_size;
    if c.byte_len != expected || start + expected > payload_len {
        Err(ErrorDesc::Format("invalid byte range for column "@ + decimal(c.column_id as nat)))
    } else {
        Ok(start)
    }
}

/// What reading the column `id` of `count` values of width `w` gives.
pub open spec fn spec_read_column(p: Seq<u8>, cols: Seq<ColumnEntry>, id: u16, count: nat, w: nat) -> Result<Seq<u64>, ErrorDesc> {
    match spec_find_column(cols, id) {
        Err(d) => Err(d),
        Ok(c) => match spec_column_range(p.len(), c, count, w) {
            Err(d) => Err(d),
            Ok(start) => Ok(words_at(p, start, count, w)),
        },
    }
}

/// What reading the column `id` of `count` items of `lanes` values of
/// width `w` gives.
pub open spec fn spec_read_array_column(p: Seq<u8>, cols: Seq<ColumnEntry>, id: u16, count: nat, lanes: nat, w: nat) -> Result<Seq<Seq<u64>>, ErrorDesc> {
    match spec_find_column(cols, id) {
        Err(d) => Err(d),
        Ok(c) => match spec_column_range(p.len(), c, count, lanes * w) {
            Err(d) => Err(d),
            Ok(start) => Ok(Seq::new(count, |k: int| words_at(p, start + k * (lanes * w), lanes, w))),
        },
    }
}

/// The start of the values of a column in the payload.
fn column_start(payload: &[u8], column: ColumnEntry, count: usize, item_size: usize) -> (r: TelemetryResult<usize>)
    requires
        count <= u32::MAX,
        item_size <= 720,
    ensures
        match spec_column_range(payload@.len(), column, count as nat, item_size as nat) {
            Ok(start) => r is Ok && r->Ok_0 as int == start,
            Err(d) => r is Err && error_matches(r->Err_0, d),
        },
{
    assert(count * item_size <= 0xFFFF_FFFF * 720) by (nonlinear_arith)
        requires count <= 0xFFFF_FFFF, item_size <= 720;
    let start = column.offset as u64;
    let expected: u64 = count as u64 * item_size as u64;
    let len = payload.len() as u64;
    if column.byte_len as u64 != expected || expected > len || start > len - expected {
        let mut m = String::from_str("invalid byte range for column ");
        push_decimal(&mut m, column.column_id as u64);
        return Err(TelemetryError::InvalidFormat(m));
    }
    Ok(start as usize)
}

/// Read the column `id`: `count` values of width `w` (2, 4 or 8 bytes).
pub fn read_column_words(payload: &[u8], columns: &[ColumnEntry], id: u16, count: usize, w: usize) -> (r: TelemetryResult<Vec<u64>>)
    requires
        w == 2 || w == 4 || w == 8,
        count <= u32::MAX,
    ensures
        match spec_read_column(payload@, columns@, id, count as nat, w as nat) {
            Ok(ws) => r is Ok && r->Ok_0@ == ws,
            Err(d) => r is Err && error_matches(r->Err_0, d),
        },
{
    let column = find_column(columns, id)?;
    let start = column_start(payload, column, count, w)?;
    let plen = payload.len();
    let mut out: Vec<u64> = Vec::new();
    let mut i: usize = 0;
    while i < count
        invariant
            plen == payload@.len(),
            w == 2 || w == 4 || w == 8,
            start + count * w <= payload@.len(),
            i <= count,
            out@ == words_at(payload@, start as int, i as nat, w as nat),
        decreases count - i,
    {
        proof {
            assert(i * w + w <= count * w) by (nonlinear_arith)
                requires i < count, w > 0;
        }
        assert(start + i * w + w <= plen);
        out.push(get_word_at(payload, start + i * w, w));
        i = i + 1;
        assert(out@ =~= words_at(payload@, start as int, i as nat, w as nat));
    }
    Ok(out)
}

/// The word of width `w` at offset `k`.
fn get_word_at(b: &[u8], k: usize, w: usize) -> (r: u64)
    requires
        w == 2 || w == 4 || w == 8,
        k + w <= b@.len(),
    ensures
        r == word_at(b@, k as int, w as nat),
{
    if w == 2 {
        get_u16(b, k) as u64
    } else if w == 4 {
        get_u32(b, k) as u64
    } else {
        get_u64(b, k)
    }
}

/// Read the column `id`: `count` items, each of `lanes` values of width `w`.
pub fn read_array_column(payload: &[u8], columns: &[ColumnEntry], id: u16, count: usize, lanes: usize, w: usize) -> (r: TelemetryResult<Vec<Vec<u64>>>)
    requires
        w == 2 || w == 4 || w == 8,
        lanes * w <= 720,
        count <= u32::MAX,
    ensures
        match spec_read_array_column(payload@, columns@, id, count as nat, lanes as nat, w as nat) {
            Ok(items) => r is Ok && r->Ok_0@.len() == items.len()
                && forall|k: int| 0 <= k < items.len() ==> (#[trigger] r->Ok_0@[k])@ == items[k],
            Err(d) => r is Err && error_matches(r->Err_0, d),
        },
{
    let column = find_column(columns, id)?;
    let item = lanes * w;
    let start = column_start(payload, column, count, item)?;
    let plen = payload.len();
    let mut out: Vec<Vec<u64>> = Vec::new();
    let mut k: usize = 0;
    while k < count
        invariant
            plen == payload@.len(),
            w == 2 || w == 4 || w == 8,
            item == lanes * w,
            start + count * (lanes * w) <= payload@.len(),
            k <= count,
            out@.len() == k,
            forall|j: int| 0 <= j < k ==> (#[trigger] out@[j])@ == words_at(payload@, start + j * (lanes * w), lanes as nat, w as nat),
        decreases count - k,
    {
        proof {
            assert(k * (lanes * w) + lanes * w <= count * (lanes * w)) by (nonlinear_arith)
                requires k < count;
        }
        assert(start + k * item + item <= plen);
        let base = start + k * item;
        let mut row: Vec<u64> = Vec::new();
        let mut j: usize = 0;
        while j < lanes
            invariant
                plen == payload@.len(),
                w == 2 || w == 4 || w == 8,
                item == lanes * w,
                base + lanes * w <= payload@.len(),
                j <= lanes,
                row@ == words_at(payload@, base as int, j as nat, w as nat),
            decreases lanes - j,
        {
            proof {
                assert(j * w + w <= lanes * w) by (nonlinear_arith)
                    requires j < lanes, w > 0;
            }
            assert(base + j * w + w <= plen);
            row.push(get_word_at(payload, base + j * w, w));
            j = j + 1;
            assert(row@ =~= words_at(payload@, base as int, j as nat, w as nat));
        }
        out.push(row);
        k = k + 1;
    }
    Ok(out)
}

} // verus!
