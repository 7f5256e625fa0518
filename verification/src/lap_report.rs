//! The lap table of a recording's session samples: laps split where the car
//! crosses the start/finish line, each with its tick range, sample count,
//! validity and the lap times the timing page reported at the crossing.

use vstd::prelude::*;
use std::collections::HashMap;
use vstd::string::*;
use crate::error::{is_argument_error, TelemetryError, TelemetryResult};
use crate::text::{decimal, push_decimal};
use crate::samples::{SessionSample, SessionSampleView};

verus! {

broadcast use vstd::std_specs::hash::group_hash_axioms;

/// Lap times at or above this many milliseconds are not real lap times.
pub const MAX_LAP_TIME_MS: i32 = 2_000_000;

/// What lap detection reads of a session sample. `crossed_start_line` says
/// that the car crossed the start/finish line between the previous sample
/// and this one (its normalised track position fell from above 0.8 to
/// below 0.2).
#[derive(Debug, Clone, Copy, PartialEq, Eq)]
pub struct SessionLapSample {
    pub sample_tick: u64,
    pub is_valid_lap: i32,
    pub crossed_start_line: bool,
}

/// One lap of the table.
#[derive(Debug, Clone, Copy, PartialEq, Eq)]
pub struct LapInfo {
    pub lap_number: u32,
    pub start_tick: u64,
    pub end_tick: u64,
    pub sample_count: usize,
    pub is_valid: bool,
    pub is_out_lap: bool,
    pub last_time_ms: Option<i32>,
    pub best_time_ms: Option<i32>,
}

/// A lap time if it is one: positive and below the limit.
pub open spec fn plausible_lap_time(t: i32) -> Option<i32> {
    if 0 < t && t < MAX_LAP_TIME_MS { Some(t) } else { None }
}

/// The last and best lap times recorded at `tick`, if any.
pub open spec fn spec_timing_at_tick(m: Map<u64, (i32, i32)>, tick: u64) -> (Option<i32>, Option<i32>) {
    if m.contains_key(tick) {
        (plausible_lap_time(m[tick].0), plausible_lap_time(m[tick].1))
    } else {
        (None, None)
    }
}

/// The last and best lap times recorded at `tick`; a time that is not
/// positive or not below two million milliseconds counts as absent.
pub fn timing_at_tick(timing_by_tick: &HashMap<u64, (i32, i32)>, tick: u64) -> (r: (Option<i32>, Option<i32>))
    ensures
        r == spec_timing_at_tick(timing_by_tick@, tick),
{
    match timing_by_tick.get(&tick) {
        Some(t) => {
            let last = if t.0 > 0 && t.0 < MAX_LAP_TIME_MS { Some(t.0) } else { None };
            let best = if t.1 > 0 && t.1 < MAX_LAP_TIME_MS { Some(t.1) } else { None };
            (last, best)
        },
        None => (None, None),
    }
}

/// The indices of the samples before `n` at which the line was crossed,
/// in order (sample 0 never counts).
pub open spec fn crossings_upto(s: Seq<SessionLapSample>, n: int) -> Seq<int>
    decreases n,
{
    if n <= 1 {
        Seq::empty()
    } else if s[n - 1].crossed_start_line {
        crossings_upto(s, n - 1).push(n - 1)
    } else {
        crossings_upto(s, n - 1)
    }
}

/// The samples `lo..=hi` all say the lap is valid.
pub open spec fn window_valid(s: Seq<SessionLapSample>, lo: int, hi: int) -> bool {
    forall|j: int| lo <= j <= hi ==> #[trigger] s[j].is_valid_lap != 0
}

/// The lap over samples `start..end`: the out lap if it is the first; valid
/// if not the out lap and its last three samples (those of the lap) all say
/// so.
pub open spec fn spec_lap(s: Seq<SessionLapSample>, k: int, start: int, end: int, times: (Option<i32>, Option<i32>)) -> LapInfo {
    let last = end - 1;
    let lo = if last - 2 > start { last - 2 } else { start };
    LapInfo {
        lap_number: k as u32,
        start_tick: s[start].sample_tick,
        end_tick: s[last].sample_tick,
        sample_count: (end - start) as usize,
        is_valid: k != 0 && window_valid(s, lo, last),
        is_out_lap: k == 0,
        last_time_ms: times.0,
        best_time_ms: times.1,
    }
}

/// The lap table: one lap per crossing, ending before it, with the times
/// recorded at the crossing; then, if there are samples, the lap in
/// progress up to the last sample, without times.
pub open spec fn spec_detect_laps(s: Seq<SessionLapSample>, m: Map<u64, (i32, i32)>) -> Seq<LapInfo> {
    let c = crossings_upto(s, s.len() as int);
    let n_laps = if s.len() > 0 { c.len() + 1 } else { 0 };
    Seq::new(n_laps, |k: int| {
        let start = if k == 0 { 0 } else { c[k - 1] };
        if k < c.len() {
            spec_lap(s, k, start, c[k], spec_timing_at_tick(m, s[c[k]].sample_tick))
        } else {
            spec_lap(s, k, start, s.len() as int, (None, None))
        }
    })
}

/// Crossings lie strictly inside the samples and strictly increase.
proof fn lemma_crossings_ordered(s: Seq<SessionLapSample>, n: int)
    requires
        n <= s.len(),
    ensures
        forall|j: int| 0 <= j < crossings_upto(s, n).len() ==> 1 <= #[trigger] crossings_upto(s, n)[j] < n,
        forall|j: int, k: int| 0 <= j < k < crossings_upto(s, n).len() ==> crossings_upto(s, n)[j] < crossings_upto(s, n)[k],
        crossings_upto(s, n).len() <= (if n > 0 { n - 1 } else { 0 }),
    decreases n,
{
    if n > 1 {
        lemma_crossings_ordered(s, n - 1);
        let c = crossings_upto(s, n - 1);
        if s[n - 1].crossed_start_line {
            let c2 = c.push(n - 1);
            assert forall|j: int| 0 <= j < c2.len() implies 1 <= #[trigger] c2[j] < n by {
                if j < c.len() {
                    assert(c2[j] == c[j]);
                }
            }
            assert forall|j: int, k: int| 0 <= j < k < c2.len() implies c2[j] < c2[k] by {
                assert(c2[j] == c[j]);
                if k < c.len() {
                    assert(c2[k] == c[k]);
                }
            }
        }
    }
}

/// Whether samples `lo..=hi` all say the lap is valid.
fn samples_valid(s: &[SessionLapSample], lo: usize, hi: usize) -> (r: bool)
    requires
        lo <= hi < s@.len(),
    ensures
        r == window_valid(s@, lo as int, hi as int),
{
    let mut j = lo;
    while j <= hi
        invariant
            lo <= j <= hi + 1,
            hi < s@.len(),
            forall|t: int| lo <= t < j ==> #[trigger] s@[t].is_valid_lap != 0,
        decreases hi + 1 - j,
    {
        if s[j].is_valid_lap == 0 {
            return false;
        }
        j = j + 1;
    }
    true
}

/// The indices of the samples at which the line was crossed.
fn find_crossings(s: &[SessionLapSample]) -> (c: Vec<usize>)
    ensures
        c@.len() == crossings_upto(s@, s@.len() as int).len(),
        forall|j: int| 0 <= j < c@.len() ==> c@[j] as int == #[trigger] crossings_upto(s@, s@.len() as int)[j],
{
    let mut c: Vec<usize> = Vec::new();
    if s.len() <= 1 {
        return c;
    }
    let mut i: usize = 1;
    while i < s.len()
        invariant
            1 <= i <= s@.len(),
            c@.len() == crossings_upto(s@, i as int).len(),
            forall|j: int| 0 <= j < c@.len() ==> c@[j] as int == #[trigger] crossings_upto(s@, i as int)[j],
        decreases s@.len() - i,
    {
        if s[i].crossed_start_line {
            c.push(i);
        }
        i = i + 1;
    }
    c
}

fn build_lap(
    s: &[SessionLapSample],
    k: u32,
    start: usize,
    end: usize,
    times: (Option<i32>, Option<i32>),
) -> (lap: LapInfo)
    requires
        start < end <= s@.len(),
    ensures
        lap == spec_lap(s@, k as int, start as int, end as int, times),
{
    let last = end - 1;
    let lo = if last >= 2 && last - 2 > start { last - 2 } else { start };
    let is_out_lap = k == 0;
    let is_valid = !is_out_lap && samples_valid(s, lo, last);
    LapInfo {
        lap_number: k,
        start_tick: s[start].sample_tick,
        end_tick: s[last].sample_tick,
        sample_count: end - start,
        is_valid,
        is_out_lap,
        last_time_ms: times.0,
        best_time_ms: times.1,
    }
}

/// Split session samples into laps at the start/finish crossings.
pub fn detect_laps(session: &[SessionLapSample], timing_by_tick: &HashMap<u64, (i32, i32)>) -> (laps: Vec<LapInfo>)
    requires
        session@.len() <= u32::MAX,
    ensures
        laps@ == spec_detect_laps(session@, timing_by_tick@),
{
    let ghost s = session@;
    let ghost m = timing_by_tick@;
    let n = session.len();
    let crossings = find_crossings(session);
    let ghost c = crossings_upto(s, n as int);
    proof { lemma_crossings_ordered(s, n as int); }
    let mut laps: Vec<LapInfo> = Vec::new();
    let mut lap_start: usize = 0;
    let mut k: usize = 0;
    while k < crossings.len()
        invariant
            n == s.len(),
            s == session@,
            m == timing_by_tick@,
            n <= u32::MAX,
            c == crossings_upto(s, n as int),
            crossings@.len() == c.len(),
            forall|j: int| 0 <= j < crossings@.len() ==> crossings@[j] as int == #[trigger] c[j],
            forall|j: int| 0 <= j < c.len() ==> 1 <= #[trigger] c[j] < n,
            forall|j: int, l: int| 0 <= j < l < c.len() ==> c[j] < c[l],
            c.len() <= n,
            k <= c.len(),
            lap_start as int == (if k == 0 { 0 } else { c[k - 1] }),
            laps@.len() == k,
            forall|j: int| 0 <= j < k ==> #[trigger] laps@[j] == spec_detect_laps(s, m)[j],
        decreases crossings@.len() - k,
    {
        let cross = crossings[k];
        proof {
            assert(c[k as int] == cross);
            if k > 0 {
                assert(c[k - 1] < c[k as int]);
            }
        }
        let times = timing_at_tick(timing_by_tick, session[cross].sample_tick);
        let lap = build_lap(session, k as u32, lap_start, cross, times);
        laps.push(lap);
        lap_start = cross;
        k = k + 1;
    }
    if lap_start < n {
        let lap = build_lap(session, k as u32, lap_start, n, (None, None));
        laps.push(lap);
    }
    proof {
        if n > 0 && c.len() > 0 {
            assert(c[c.len() - 1] < n);
        }
    }
    assert(laps@ =~= spec_detect_laps(s, m));
    laps
}

/// The total sample count of the first `k` laps.
pub open spec fn laps_sample_total(laps: Seq<LapInfo>, k: int) -> int
    decreases k,
{
    if k <= 0 { 0 } else { laps_sample_total(laps, k - 1) + laps[k - 1].sample_count }
}

/// The lap table accounts for every sample exactly once: each lap holds at
/// least one sample, the counts add up to the number of samples, laps are
/// numbered in order from 0, and only the first is the out lap.
pub proof fn lemma_lap_table_covers_samples(s: Seq<SessionLapSample>, m: Map<u64, (i32, i32)>)
    requires
        0 < s.len() <= u32::MAX,
    ensures
        spec_detect_laps(s, m).len() >= 1,
        laps_sample_total(spec_detect_laps(s, m), spec_detect_laps(s, m).len() as int) == s.len(),
        forall|k: int| 0 <= k < spec_detect_laps(s, m).len() ==> (#[trigger] spec_detect_laps(s, m)[k]).sample_count > 0,
        forall|k: int| 0 <= k < spec_detect_laps(s, m).len() ==> (#[trigger] spec_detect_laps(s, m)[k]).lap_number == k,
        forall|k: int| 0 <= k < spec_detect_laps(s, m).len() ==> ((#[trigger] spec_detect_laps(s, m)[k]).is_out_lap <==> k == 0),
{
    let laps = spec_detect_laps(s, m);
    let c = crossings_upto(s, s.len() as int);
    lemma_crossings_ordered(s, s.len() as int);
    let start = |k: int| if k == 0 { 0 } else { c[k - 1] };
    let end = |k: int| if k < c.len() { c[k] } else { s.len() as int };
    assert forall|k: int| 0 <= k < laps.len() implies start(k) < end(k) && #[trigger] laps[k].sample_count == end(k) - start(k) by {
        if k < c.len() {
            assert(1 <= c[k] < s.len());
            if k > 0 {
                assert(c[k - 1] < c[k]);
            }
        } else if k > 0 {
            assert(1 <= c[k - 1] < s.len());
        }
    }
    assert forall|k: int| 0 <= k <= laps.len() implies #[trigger] laps_sample_total(laps, k) == (if k == 0 { 0 } else { end(k - 1) }) by {
        lemma_total_telescopes(laps, c, s.len() as int, k);
    }
    assert forall|k: int| 0 <= k < laps.len() implies (#[trigger] laps[k]).lap_number == k by {
        assert((k as u32) as int == k);
    }
}

/// A sample after the first is a crossing exactly when it is among the
/// crossings found.
proof fn lemma_crossings_exact(s: Seq<SessionLapSample>, n: int)
    requires
        n <= s.len(),
    ensures
        forall|i: int| 1 <= i < n ==> (#[trigger] s[i].crossed_start_line <==> crossings_upto(s, n).contains(i)),
    decreases n,
{
    if n > 1 {
        lemma_crossings_exact(s, n - 1);
        lemma_crossings_ordered(s, n - 1);
        let c = crossings_upto(s, n - 1);
        assert forall|i: int| 1 <= i < n implies (#[trigger] s[i].crossed_start_line <==> crossings_upto(s, n).contains(i)) by {
            if s[n - 1].crossed_start_line {
                let c2 = c.push(n - 1);
                assert(crossings_upto(s, n) == c2);
                if c.contains(i) {
                    let j = choose|j: int| 0 <= j < c.len() && c[j] == i;
                    assert(c2[j] == i);
                }
                if c2.contains(i) && i < n - 1 {
                    let j = choose|j: int| 0 <= j < c2.len() && c2[j] == i;
                    assert(j < c.len());
                    assert(c[j] == i);
                }
                if i == n - 1 {
                    assert(c2[c.len() as int] == i);
                }
            } else {
                if i == n - 1 && c.contains(i) {
                    let j = choose|j: int| 0 <= j < c.len() && c[j] == i;
                    assert(c[j] < n - 1);
                }
            }
        }
    }
}

/// What each lap of the table says of the samples: a lap after the first
/// begins at a sample where the car crossed the line, no sample inside a
/// lap is a crossing, and a lap ends just before the next crossing or at
/// the last sample; its ticks are those of its first and last samples; a
/// lap after the out lap is valid exactly when its last three samples (as
/// many as it has) all say so; a lap closed by a crossing carries the last
/// and best times recorded at the crossing's tick, each when positive and
/// below the limit, and the lap in progress carries none.
pub proof fn lemma_lap_table_follows_crossings(s: Seq<SessionLapSample>, m: Map<u64, (i32, i32)>, k: int, start: int, end: int)
    requires
        0 < s.len() <= u32::MAX,
        0 <= k < spec_detect_laps(s, m).len(),
        laps_sample_total(spec_detect_laps(s, m), k) == start,
        end == start + spec_detect_laps(s, m)[k].sample_count,
    ensures
        ({
            let lap = spec_detect_laps(s, m)[k];
            let closed = k < spec_detect_laps(s, m).len() - 1;
            let lo = if end - 3 > start { end - 3 } else { start };
            &&& 0 <= start < end <= s.len()
            &&& (k > 0 ==> s[start].crossed_start_line)
            &&& (forall|i: int| start < i < end ==> !(#[trigger] s[i].crossed_start_line))
            &&& (closed <==> end < s.len())
            &&& (closed ==> s[end].crossed_start_line)
            &&& lap.start_tick == s[start].sample_tick
            &&& lap.end_tick == s[end - 1].sample_tick
            &&& (lap.is_valid <==> (k > 0 && forall|j: int| lo <= j < end ==> #[trigger] s[j].is_valid_lap != 0))
            &&& (closed && m.contains_key(s[end].sample_tick) && 0 < m[s[end].sample_tick].0 < 2_000_000
                ==> lap.last_time_ms == Some(m[s[end].sample_tick].0))
            &&& (closed && m.contains_key(s[end].sample_tick) && 0 < m[s[end].sample_tick].1 < 2_000_000
                ==> lap.best_time_ms == Some(m[s[end].sample_tick].1))
            &&& (closed && m.contains_key(s[end].sample_tick) && !(0 < m[s[end].sample_tick].0 < 2_000_000)
                ==> lap.last_time_ms is None)
            &&& (closed && m.contains_key(s[end].sample_tick) && !(0 < m[s[end].sample_tick].1 < 2_000_000)
                ==> lap.best_time_ms is None)
            &&& (!(closed && m.contains_key(s[end].sample_tick)) ==> lap.last_time_ms is None && lap.best_time_ms is None)
        }),
{
    let laps = spec_detect_laps(s, m);
    let c = crossings_upto(s, s.len() as int);
    lemma_crossings_ordered(s, s.len() as int);
    lemma_crossings_exact(s, s.len() as int);
    lemma_lap_table_covers_samples(s, m);
    let st = if k == 0 { 0 } else { c[k - 1] };
    let en = if k < c.len() { c[k] } else { s.len() as int };
    if k < c.len() {
        assert(1 <= c[k] < s.len());
        if k > 0 {
            assert(c[k - 1] < c[k]);
        }
    } else if k > 0 {
        assert(1 <= c[k - 1] < s.len());
    }
    assert(laps[k].sample_count == en - st);
    assert forall|j: int| 0 <= j <= laps.len() implies #[trigger] laps_sample_total(laps, j) == (if j == 0 { 0 } else if j - 1 < c.len() { c[j - 1] } else { s.len() as int }) by {
        assert forall|q: int| 0 <= q < laps.len() implies (#[trigger] laps[q]).sample_count
            == (if q < c.len() { c[q] } else { s.len() as int }) - (if q == 0 { 0 } else { c[q - 1] }) by {
            if q < c.len() {
                assert(1 <= c[q] < s.len());
                if q > 0 {
                    assert(c[q - 1] < c[q]);
                }
            } else if q > 0 {
                assert(1 <= c[q - 1] < s.len());
            }
        }
        lemma_total_telescopes(laps, c, s.len() as int, j);
    }
    assert(start == st);
    assert(end == en);
    if k > 0 {
        assert(c.contains(c[k - 1]));
    }
    if k < c.len() {
        assert(c.contains(c[k]));
    }
    assert forall|i: int| start < i < end implies !(#[trigger] s[i].crossed_start_line) by {
        if s[i].crossed_start_line {
            assert(c.contains(i));
            let j = choose|j: int| 0 <= j < c.len() && c[j] == i;
            if j < k {
                if j < k - 1 {
                    assert(c[j] < c[k - 1]);
                }
            } else if j > k {
                assert(c[k] < c[j]);
            }
        }
    }
}

/// The running total of the first `k` laps reaches where lap `k - 1` ends.
proof fn lemma_total_telescopes(laps: Seq<LapInfo>, c: Seq<int>, n: int, k: int)
    requires
        0 <= k <= laps.len(),
        laps.len() == c.len() + 1,
        forall|j: int| 0 <= j < laps.len() ==> (#[trigger] laps[j]).sample_count
            == (if j < c.len() { c[j] } else { n }) - (if j == 0 { 0 } else { c[j - 1] }),
    ensures
        laps_sample_total(laps, k) == (if k == 0 { 0 } else if k - 1 < c.len() { c[k - 1] } else { n }),
    decreases k,
{
    if k > 0 {
        lemma_total_telescopes(laps, c, n, k - 1);
        assert(laps[k - 1].sample_count == (if k - 1 < c.len() { c[k - 1] } else { n }) - (if k - 1 == 0 { 0 } else { c[k - 2] }));
    }
}

/// The tick range a lap export covers: lap `lap` of the lap index when
/// the index has it; otherwise lap `lap` of the session samples, counted
/// from the first sample, each lap ending just before the next crossing
/// and the last one at the last sample. Without such a lap, `None`.
pub open spec fn spec_lap_tick_range(bounds: Seq<(u64, u64)>, s: Seq<SessionLapSample>, lap: int) -> Option<(u64, u64)> {
    if lap < bounds.len() {
        Some(bounds[lap])
    } else {
        let c = crossings_upto(s, s.len() as int);
        if lap > c.len() {
            None
        } else {
            let start = if lap == 0 { 0 } else { c[lap - 1] };
            let end = if lap < c.len() { c[lap] - 1 } else { s.len() - 1 };
            Some((s[start].sample_tick, s[end].sample_tick))
        }
    }
}

/// Find the tick range of lap `lap` for an export, from the lap index
/// (start and end ticks of each lap) or, past its end, from the session
/// samples; a lap that neither has is an invalid-argument error.
pub fn lap_tick_range(bounds: &[(u64, u64)], session: &[SessionLapSample], lap: usize) -> (r: TelemetryResult<(u64, u64)>)
    requires
        lap < bounds@.len() || session@.len() > 0 || lap > 0,
    ensures
        match spec_lap_tick_range(bounds@, session@, lap as int) {
            Some(range) => r matches Ok(got) && got == range,
            None => r is Err && is_argument_error(r->Err_0, "lap "@ + decimal(lap as nat) + " not found"@),
        },
{
    if lap < bounds.len() {
        return Ok(bounds[lap]);
    }
    let crossings = find_crossings(session);
    proof { lemma_crossings_ordered(session@, session@.len() as int); }
    if lap > crossings.len() {
        return Err(TelemetryError::InvalidArgument(text_with_number_and("lap ", lap as u64, " not found")));
    }
    let start = if lap == 0 { 0 } else { crossings[lap - 1] };
    let end = if lap < crossings.len() { crossings[lap] - 1 } else { session.len() - 1 };
    Ok((session[start].sample_tick, session[end].sample_tick))
}

/// `prefix`, the decimal digits of `n`, then `suffix`.
fn text_with_number_and(prefix: &str, n: u64, suffix: &str) -> (s: String)
    ensures
        s@ == prefix@ + decimal(n as nat) + suffix@,
{
    let mut s = String::from_str(prefix);
    push_decimal(&mut s, n);
    s.append(suffix);
    s
}

/// Repair the session flags of a recording made with a layout that lacked
/// one field: each flag after it was read four bytes early, so each takes
/// the value stored in the next one (the red flag takes the gap value), the
/// pit-lane flag takes the mandatory-pit value, and lap validity comes from
/// the timing page (`valid_from_timing`).
pub fn repair_shifted_session_flags(s: &mut SessionSample, valid_from_timing: bool)
    ensures
        final(s).is_valid_lap == (if valid_from_timing { 1i32 } else { 0i32 }),
        final(s).is_in_pit_lane == old(s).mandatory_pit_done,
        final(s).global_red == old(s).gap_ahead_or_tail_value,
        final(s).global_chequered == old(s).global_red,
        final(s).global_green == old(s).global_chequered,
        final(s).global_white == old(s).global_green,
        final(s).global_yellow3 == old(s).global_white,
        final(s).global_yellow2 == old(s).global_yellow3,
        final(s).global_yellow1 == old(s).global_yellow2,
        final(s).global_yellow == old(s).global_yellow1,
        final(s)@ == (SessionSampleView {
            is_valid_lap: final(s).is_valid_lap,
            is_in_pit_lane: final(s).is_in_pit_lane,
            global_red: final(s).global_red,
            global_chequered: final(s).global_chequered,
            global_green: final(s).global_green,
            global_white: final(s).global_white,
            global_yellow3: final(s).global_yellow3,
            global_yellow2: final(s).global_yellow2,
            global_yellow1: final(s).global_yellow1,
            global_yellow: final(s).global_yellow,
            ..old(s)@
        }),
{
    s.is_valid_lap = if valid_from_timing { 1 } else { 0 };
    s.is_in_pit_lane = s.mandatory_pit_done;
    let saved_gap = s.gap_ahead_or_tail_value;
    let saved_red = s.global_red;
    let saved_cheq = s.global_chequered;
    let saved_green = s.global_green;
    let saved_white = s.global_white;
    let saved_y3 = s.global_yellow3;
    let saved_y2 = s.global_yellow2;
    let saved_y1 = s.global_yellow1;
    s.global_red = saved_gap;
    s.global_chequered = saved_red;
    s.global_green = saved_cheq;
    s.global_white = saved_green;
    s.global_yellow3 = saved_white;
    s.global_yellow2 = saved_y3;
    s.global_yellow1 = saved_y2;
    s.global_yellow = saved_y1;
}

/// What the lap listing reads of a timing sample: its tick and the last
/// and best lap times it reported.
#[derive(Debug, Clone, Copy, PartialEq, Eq)]
pub struct TimingLapSample {
    pub sample_tick: u64,
    pub i_last_time: i32,
    pub i_best_time: i32,
}

/// The first of the first `k` timing samples recorded at `tick`.
pub open spec fn first_at_tick(t: Seq<TimingLapSample>, tick: u64, k: int) -> Option<int>
    decreases k,
{
    if k <= 0 {
        None
    } else {
        match first_at_tick(t, tick, k - 1) {
            Some(i) => Some(i),
            None => if t[k - 1].sample_tick == tick { Some(k - 1) } else { None },
        }
    }
}

/// Among the first `k` timing samples whose tick lies in `lo..=hi`, the
/// last one with the largest tick.
pub open spec fn latest_in_window(t: Seq<TimingLapSample>, lo: u64, hi: u64, k: int) -> Option<int>
    decreases k,
{
    if k <= 0 {
        None
    } else {
        let prev = latest_in_window(t, lo, hi, k - 1);
        let x = t[k - 1];
        if lo <= x.sample_tick <= hi && (prev is None || x.sample_tick >= t[prev->0].sample_tick) {
            Some(k - 1)
        } else {
            prev
        }
    }
}

/// The lap times that go with a lap ending at the crossing tick: those of
/// a timing sample recorded at that tick, else of the latest one since the
/// lap started; implausible times count as absent.
pub open spec fn spec_times_near(t: Seq<TimingLapSample>, start_tick: u64, cross_tick: u64) -> (Option<i32>, Option<i32>) {
    let found = match first_at_tick(t, cross_tick, t.len() as int) {
        Some(i) => Some(i),
        None => latest_in_window(t, start_tick, cross_tick, t.len() as int),
    };
    match found {
        Some(i) => (plausible_lap_time(t[i].i_last_time), plausible_lap_time(t[i].i_best_time)),
        None => (None, None),
    }
}

/// The timing sample found at a tick is the first one recorded at it.
proof fn lemma_first_at_tick_first(t: Seq<TimingLapSample>, tick: u64, k: int)
    requires
        0 <= k <= t.len(),
    ensures
        first_at_tick(t, tick, k) is None <==> forall|j: int| 0 <= j < k ==> #[trigger] t[j].sample_tick != tick,
        first_at_tick(t, tick, k) matches Some(i) ==> 0 <= i < k && t[i].sample_tick == tick
            && forall|j: int| 0 <= j < i ==> #[trigger] t[j].sample_tick != tick,
    decreases k,
{
    if k > 0 {
        lemma_first_at_tick_first(t, tick, k - 1);
    }
}

/// The sample found in a window is one with the largest tick in it, the
/// last of those; none when no sample lies in the window.
proof fn lemma_latest_in_window_latest(t: Seq<TimingLapSample>, lo: u64, hi: u64, k: int)
    requires
        0 <= k <= t.len(),
    ensures
        latest_in_window(t, lo, hi, k) is None <==> forall|j: int| 0 <= j < k ==> !(lo <= #[trigger] t[j].sample_tick <= hi),
        latest_in_window(t, lo, hi, k) matches Some(i) ==> 0 <= i < k && lo <= t[i].sample_tick <= hi
            && (forall|j: int| 0 <= j < k && lo <= #[trigger] t[j].sample_tick <= hi ==> t[j].sample_tick <= t[i].sample_tick)
            && (forall|j: int| i < j < k && lo <= #[trigger] t[j].sample_tick <= hi ==> t[j].sample_tick < t[i].sample_tick),
    decreases k,
{
    if k > 0 {
        lemma_latest_in_window_latest(t, lo, hi, k - 1);
    }
}

/// The times that go with a lap ending at a crossing come from the first
/// timing sample recorded at the crossing tick when there is one, and
/// otherwise from the last of the latest samples recorded since the lap
/// started; each time counts only when positive and below two million
/// milliseconds.
pub proof fn lemma_times_near_source(t: Seq<TimingLapSample>, start_tick: u64, cross_tick: u64)
    ensures
        (exists|i: int| 0 <= i < t.len() && #[trigger] t[i].sample_tick == cross_tick) ==> ({
            let i = first_at_tick(t, cross_tick, t.len() as int)->Some_0;
            &&& 0 <= i < t.len() && t[i].sample_tick == cross_tick
            &&& forall|j: int| 0 <= j < i ==> #[trigger] t[j].sample_tick != cross_tick
            &&& spec_times_near(t, start_tick, cross_tick) == (plausible_lap_time(t[i].i_last_time), plausible_lap_time(t[i].i_best_time))
        }),
        (forall|j: int| 0 <= j < t.len() ==> #[trigger] t[j].sample_tick != cross_tick) ==> ({
            match latest_in_window(t, start_tick, cross_tick, t.len() as int) {
                Some(i) => {
                    &&& start_tick <= t[i].sample_tick <= cross_tick
                    &&& forall|j: int| 0 <= j < t.len() && start_tick <= #[trigger] t[j].sample_tick <= cross_tick ==> t[j].sample_tick <= t[i].sample_tick
                    &&& forall|j: int| i < j < t.len() && start_tick <= #[trigger] t[j].sample_tick <= cross_tick ==> t[j].sample_tick < t[i].sample_tick
                    &&& spec_times_near(t, start_tick, cross_tick) == (plausible_lap_time(t[i].i_last_time), plausible_lap_time(t[i].i_best_time))
                },
                None => {
                    &&& forall|j: int| 0 <= j < t.len() ==> !(start_tick <= #[trigger] t[j].sample_tick <= cross_tick)
                    &&& spec_times_near(t, start_tick, cross_tick) == (None::<i32>, None::<i32>)
                },
            }
        }),
        forall|v: i32| #[trigger] plausible_lap_time(v) == (if 0 < v < 2_000_000 { Some(v) } else { None }),
{
    lemma_first_at_tick_first(t, cross_tick, t.len() as int);
    lemma_latest_in_window_latest(t, start_tick, cross_tick, t.len() as int);
}

/// Once found, a timing sample at a tick stays the one found.
proof fn lemma_first_at_tick_stays(t: Seq<TimingLapSample>, tick: u64, j: int, k: int)
    requires
        0 <= j <= k,
        first_at_tick(t, tick, j) is Some,
    ensures
        first_at_tick(t, tick, k) == first_at_tick(t, tick, j),
    decreases k - j,
{
    if j < k {
        lemma_first_at_tick_stays(t, tick, j, k - 1);
    }
}

/// A found sample lies among those looked at.
proof fn lemma_latest_in_window_bound(t: Seq<TimingLapSample>, lo: u64, hi: u64, k: int)
    ensures
        latest_in_window(t, lo, hi, k) matches Some(i) ==> 0 <= i < k,
    decreases k,
{
    if k > 0 {
        lemma_latest_in_window_bound(t, lo, hi, k - 1);
    }
}

fn times_near(t: &[TimingLapSample], start_tick: u64, cross_tick: u64) -> (r: (Option<i32>, Option<i32>))
    ensures
        r == spec_times_near(t@, start_tick, cross_tick),
{
    let mut k: usize = 0;
    while k < t.len()
        invariant
            k <= t@.len(),
            first_at_tick(t@, cross_tick, k as int) is None,
        decreases t@.len() - k,
    {
        if t[k].sample_tick == cross_tick {
            proof {
                assert(first_at_tick(t@, cross_tick, k as int + 1) == Some(k as int));
                lemma_first_at_tick_stays(t@, cross_tick, k as int + 1, t@.len() as int);
            }
            let x = t[k];
            let last = if x.i_last_time > 0 && x.i_last_time < MAX_LAP_TIME_MS { Some(x.i_last_time) } else { None };
            let best = if x.i_best_time > 0 && x.i_best_time < MAX_LAP_TIME_MS { Some(x.i_best_time) } else { None };
            return (last, best);
        }
        k = k + 1;
    }
    let mut found: Option<usize> = None;
    let mut j: usize = 0;
    while j < t.len()
        invariant
            j <= t@.len(),
            first_at_tick(t@, cross_tick, t@.len() as int) is None,
            match latest_in_window(t@, start_tick, cross_tick, j as int) {
                Some(i) => found == Some(i as usize),
                None => found is None,
            },
        decreases t@.len() - j,
    {
        proof { lemma_latest_in_window_bound(t@, start_tick, cross_tick, j as int); }
        let x = t[j];
        if start_tick <= x.sample_tick && x.sample_tick <= cross_tick {
            match found {
                None => {
                    found = Some(j);
                },
                Some(i) => {
                    if x.sample_tick >= t[i].sample_tick {
                        found = Some(j);
                    }
                },
            }
        }
        j = j + 1;
    }
    proof { lemma_latest_in_window_bound(t@, start_tick, cross_tick, t@.len() as int); }
    match found {
        Some(i) => {
            let x = t[i];
            let last = if x.i_last_time > 0 && x.i_last_time < MAX_LAP_TIME_MS { Some(x.i_last_time) } else { None };
            let best = if x.i_best_time > 0 && x.i_best_time < MAX_LAP_TIME_MS { Some(x.i_best_time) } else { None };
            (last, best)
        },
        None => (None, None),
    }
}

/// A lap of the listing over samples `start..end`: valid when it is not
/// the out lap and the two samples before its end (the second one clamped
/// to the first sample) say so; a lap closed by a crossing gets the times
/// recorded near the crossing.
pub open spec fn spec_listed_lap(s: Seq<SessionLapSample>, t: Seq<TimingLapSample>, k: int, start: int, end: int, closed: bool) -> LapInfo {
    let last = end - 1;
    let before = if end >= 2 { end - 2 } else { 0 };
    LapInfo {
        lap_number: k as u32,
        start_tick: s[start].sample_tick,
        end_tick: s[last].sample_tick,
        sample_count: (end - start) as usize,
        is_valid: k != 0 && s[last].is_valid_lap != 0 && (!closed || s[before].is_valid_lap != 0),
        is_out_lap: k == 0,
        last_time_ms: if closed { spec_times_near(t, s[start].sample_tick, s[end].sample_tick).0 } else { None },
        best_time_ms: if closed { spec_times_near(t, s[start].sample_tick, s[end].sample_tick).1 } else { None },
    }
}

/// The lap listing: one lap per crossing, ending before it, then the lap
/// in progress up to the last sample.
pub open spec fn spec_list_laps(s: Seq<SessionLapSample>, t: Seq<TimingLapSample>) -> Seq<LapInfo> {
    let c = crossings_upto(s, s.len() as int);
    let n_laps = if s.len() > 0 { c.len() + 1 } else { 0 };
    Seq::new(n_laps, |k: int| {
        let start = if k == 0 { 0 } else { c[k - 1] };
        if k < c.len() {
            spec_listed_lap(s, t, k, start, c[k], true)
        } else {
            spec_listed_lap(s, t, k, start, s.len() as int, false)
        }
    })
}

fn listed_lap(s: &[SessionLapSample], t: &[TimingLapSample], k: u32, start: usize, end: usize, closed: bool) -> (lap: LapInfo)
    requires
        start < end <= s@.len(),
        closed ==> end < s@.len(),
    ensures
        lap == spec_listed_lap(s@, t@, k as int, start as int, end as int, closed),
{
    let last = end - 1;
    let before = if end >= 2 { end - 2 } else { 0 };
    let is_out_lap = k == 0;
    let is_valid = !is_out_lap && s[last].is_valid_lap != 0 && (!closed || s[before].is_valid_lap != 0);
    let times = if closed { times_near(t, s[start].sample_tick, s[end].sample_tick) } else { (None, None) };
    LapInfo {
        lap_number: k,
        start_tick: s[start].sample_tick,
        end_tick: s[last].sample_tick,
        sample_count: end - start,
        is_valid,
        is_out_lap,
        last_time_ms: times.0,
        best_time_ms: times.1,
    }
}

/// List the laps of the session samples, with the lap times the timing
/// samples reported near each crossing.
pub fn list_laps(session: &[SessionLapSample], timing: &[TimingLapSample]) -> (laps: Vec<LapInfo>)
    requires
        session@.len() <= u32::MAX,
    ensures
        laps@ == spec_list_laps(session@, timing@),
{
    let ghost s = session@;
    let ghost t = timing@;
    let n = session.len();
    let crossings = find_crossings(session);
    let ghost c = crossings_upto(s, n as int);
    proof { lemma_crossings_ordered(s, n as int); }
    let mut laps: Vec<LapInfo> = Vec::new();
    let mut lap_start: usize = 0;
    let mut k: usize = 0;
    while k < crossings.len()
        invariant
            n == s.len(),
            s == session@,
            t == timing@,
            n <= u32::MAX,
            c == crossings_upto(s, n as int),
            crossings@.len() == c.len(),
            forall|j: int| 0 <= j < crossings@.len() ==> crossings@[j] as int == #[trigger] c[j],
            forall|j: int| 0 <= j < c.len() ==> 1 <= #[trigger] c[j] < n,
            forall|j: int, l: int| 0 <= j < l < c.len() ==> c[j] < c[l],
            c.len() <= n,
            k <= c.len(),
            lap_start as int == (if k == 0 { 0 } else { c[k - 1] }),
            laps@.len() == k,
            forall|j: int| 0 <= j < k ==> #[trigger] laps@[j] == spec_list_laps(s, t)[j],
        decreases crossings@.len() - k,
    {
        let cross = crossings[k];
        proof {
            assert(c[k as int] == cross);
            if k > 0 {
                assert(c[k - 1] < c[k as int]);
            }
        }
        let lap = listed_lap(session, timing, k as u32, lap_start, cross, true);
        laps.push(lap);
        lap_start = cross;
        k = k + 1;
    }
    if lap_start < n {
        let lap = listed_lap(session, timing, k as u32, lap_start, n, false);
        laps.push(lap);
    }
    proof {
        if n > 0 && c.len() > 0 {
            assert(c[c.len() - 1] < n);
        }
    }
    assert(laps@ =~= spec_list_laps(s, t));
    laps
}

/// The lap listing accounts for every sample exactly once as well: each
/// lap holds at least one sample, the counts add up to the number of
/// samples, laps are numbered in order from 0, and only the first is the
/// out lap.
pub proof fn lemma_lap_listing_covers_samples(s: Seq<SessionLapSample>, t: Seq<TimingLapSample>)
    requires
        0 < s.len() <= u32::MAX,
    ensures
        spec_list_laps(s, t).len() >= 1,
        laps_sample_total(spec_list_laps(s, t), spec_list_laps(s, t).len() as int) == s.len(),
        forall|k: int| 0 <= k < spec_list_laps(s, t).len() ==> (#[trigger] spec_list_laps(s, t)[k]).sample_count > 0,
        forall|k: int| 0 <= k < spec_list_laps(s, t).len() ==> (#[trigger] spec_list_laps(s, t)[k]).lap_number == k,
        forall|k: int| 0 <= k < spec_list_laps(s, t).len() ==> ((#[trigger] spec_list_laps(s, t)[k]).is_out_lap <==> k == 0),
{
    let laps = spec_list_laps(s, t);
    let c = crossings_upto(s, s.len() as int);
    lemma_crossings_ordered(s, s.len() as int);
    let start = |k: int| if k == 0 { 0 } else { c[k - 1] };
    let end = |k: int| if k < c.len() { c[k] } else { s.len() as int };
    assert forall|k: int| 0 <= k < laps.len() implies start(k) < end(k) && #[trigger] laps[k].sample_count == end(k) - start(k) by {
        if k < c.len() {
            assert(1 <= c[k] < s.len());
            if k > 0 {
                assert(c[k - 1] < c[k]);
            }
        } else if k > 0 {
            assert(1 <= c[k - 1] < s.len());
        }
    }
    assert forall|k: int| 0 <= k <= laps.len() implies #[trigger] laps_sample_total(laps, k) == (if k == 0 { 0 } else { end(k - 1) }) by {
        lemma_total_telescopes(laps, c, s.len() as int, k);
    }
    assert forall|k: int| 0 <= k < laps.len() implies (#[trigger] laps[k]).lap_number == k by {
        assert((k as u32) as int == k);
    }
}

/// Exporting lap `k` past the lap index covers exactly the ticks of lap
/// `k` of the lap table: from its first to its last sample; a lap number
/// past the table is not found.
pub proof fn lemma_export_range_is_table_lap(s: Seq<SessionLapSample>, m: Map<u64, (i32, i32)>, k: int)
    requires
        0 < s.len() <= u32::MAX,
        0 <= k,
    ensures
        k < spec_detect_laps(s, m).len() ==> spec_lap_tick_range(Seq::empty(), s, k)
            == Some((spec_detect_laps(s, m)[k].start_tick, spec_detect_laps(s, m)[k].end_tick)),
        k >= spec_detect_laps(s, m).len() ==> spec_lap_tick_range(Seq::empty(), s, k) is None,
{
    lemma_crossings_ordered(s, s.len() as int);
}

/// The lap listing splits the samples exactly as the lap table does: the
/// same number of laps, each with the same number, ticks, sample count and
/// out-lap mark.
pub proof fn lemma_listing_splits_as_table(s: Seq<SessionLapSample>, t: Seq<TimingLapSample>, m: Map<u64, (i32, i32)>)
    ensures
        spec_list_laps(s, t).len() == spec_detect_laps(s, m).len(),
        forall|k: int| 0 <= k < spec_list_laps(s, t).len() ==> {
            let a = #[trigger] spec_list_laps(s, t)[k];
            let b = spec_detect_laps(s, m)[k];
            &&& a.lap_number == b.lap_number
            &&& a.start_tick == b.start_tick
            &&& a.end_tick == b.end_tick
            &&& a.sample_count == b.sample_count
            &&& a.is_out_lap == b.is_out_lap
        },
{
}

} // verus!
