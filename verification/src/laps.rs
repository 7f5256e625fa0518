//! Lap segmentation of a raw graphics-page recording: where one lap ends
//! and the next begins, and what each lap's sample range says about it.

use vstd::prelude::*;

verus! {

/// A boundary closes a lap only when at least this many samples lie between
/// it and the previous boundary.
pub const DUPLICATE_BOUNDARY_WINDOW_SAMPLES: usize = 1;
/// A lap-time reset needs the previous lap time above this.
pub const MIN_RESET_PREVIOUS_LAP_TIME_MS: i32 = 10_000;
/// A lap-time reset needs the current lap time below this.
pub const MAX_RESET_CURRENT_LAP_TIME_MS: i32 = 2_000;

/// The fields of a graphics-page sample that segmentation reads.
#[derive(Debug, Clone, Copy, PartialEq, Eq, Structural)]
pub struct LapSample {
    pub sample_tick: u64,
    pub timestamp_ns: u64,
    pub completed_laps: i32,
    pub current_lap_time_ms: i32,
    pub last_lap_time_ms: i32,
    pub is_valid_lap: i32,
}

/// Why a lap ended.
#[derive(Debug, Clone, Copy, PartialEq, Eq, Structural)]
pub enum LapBoundaryReason {
    CompletedLapsChanged,
    CurrentLapReset,
}

impl LapBoundaryReason {
    /// The reason's label.
    pub fn label(self) -> (s: &'static str)
        ensures
            s@ == (match self {
                LapBoundaryReason::CompletedLapsChanged => "completed_laps_changed"@,
                LapBoundaryReason::CurrentLapReset => "current_lap_reset"@,
            }),
    {
        match self {
            LapBoundaryReason::CompletedLapsChanged => "completed_laps_changed",
            LapBoundaryReason::CurrentLapReset => "current_lap_reset",
        }
    }
}

/// One lap: its sample range and what its first and last samples say.
#[derive(Debug, Clone, Copy, PartialEq, Eq)]
pub struct RawLapSegment {
    pub lap_index: usize,
    pub acc_completed_laps_at_start: i32,
    pub acc_completed_laps_at_end: i32,
    pub start_sample_index: usize,
    pub end_sample_index: usize,
    pub start_tick: u64,
    pub end_tick: u64,
    pub start_time_ns: u64,
    pub end_time_ns: u64,
    pub sample_count: usize,
    pub is_complete: bool,
    pub boundary_reason: Option<LapBoundaryReason>,
    pub lap_time_ms: Option<i32>,
    pub is_valid: Option<bool>,
}

impl RawLapSegment {
    /// The lap's duration: end time minus start time, zero if negative.
    pub fn duration_ns(&self) -> (d: u64)
        ensures
            d == (if self.end_time_ns >= self.start_time_ns { (self.end_time_ns - self.start_time_ns) as u64 } else { 0 }),
    {
        self.end_time_ns.saturating_sub(self.start_time_ns)
    }
}

/// The lap timer restarted: a long previous time followed by a short,
/// smaller one.
pub open spec fn spec_is_current_lap_reset(prev: LapSample, cur: LapSample) -> bool {
    prev.current_lap_time_ms > MIN_RESET_PREVIOUS_LAP_TIME_MS
        && cur.current_lap_time_ms < MAX_RESET_CURRENT_LAP_TIME_MS
        && cur.current_lap_time_ms < prev.current_lap_time_ms
}

fn is_current_lap_reset(prev: LapSample, cur: LapSample) -> (r: bool)
    ensures
        r == spec_is_current_lap_reset(prev, cur),
{
    prev.current_lap_time_ms > MIN_RESET_PREVIOUS_LAP_TIME_MS
        && cur.current_lap_time_ms < MAX_RESET_CURRENT_LAP_TIME_MS
        && cur.current_lap_time_ms < prev.current_lap_time_ms
}

/// The boundary candidate between samples `i - 1` and `i`, a reset taking
/// precedence over a change of the completed-lap count.
pub open spec fn boundary_reason_at(s: Seq<LapSample>, i: int) -> Option<LapBoundaryReason> {
    if spec_is_current_lap_reset(s[i - 1], s[i]) {
        Some(LapBoundaryReason::CurrentLapReset)
    } else if s[i - 1].completed_laps != s[i].completed_laps {
        Some(LapBoundaryReason::CompletedLapsChanged)
    } else {
        None
    }
}

/// The lap boundaries among samples `1..n`: each candidate, except one that
/// follows the previously kept boundary within the duplicate window.
pub open spec fn boundaries_upto(s: Seq<LapSample>, n: int) -> Seq<(usize, LapBoundaryReason)>
    decreases n,
{
    if n <= 1 {
        Seq::empty()
    } else {
        let b = boundaries_upto(s, n - 1);
        let i = n - 1;
        match boundary_reason_at(s, i) {
            None => b,
            Some(r) => if b.len() > 0 && i <= b.last().0 + DUPLICATE_BOUNDARY_WINDOW_SAMPLES {
                b
            } else {
                b.push((i as usize, r))
            },
        }
    }
}

/// The time of a finished lap: the current time if positive, else the last
/// lap time if positive and not the "no time" sentinel.
pub open spec fn spec_finished_lap_time_ms(f: LapSample) -> Option<i32> {
    if f.current_lap_time_ms > 0 {
        Some(f.current_lap_time_ms)
    } else if f.last_lap_time_ms > 0 && f.last_lap_time_ms != i32::MAX {
        Some(f.last_lap_time_ms)
    } else {
        None
    }
}

fn finished_lap_time_ms(f: LapSample) -> (r: Option<i32>)
    ensures
        r == spec_finished_lap_time_ms(f),
{
    if f.current_lap_time_ms > 0 {
        Some(f.current_lap_time_ms)
    } else if f.last_lap_time_ms > 0 && f.last_lap_time_ms != i32::MAX {
        Some(f.last_lap_time_ms)
    } else {
        None
    }
}

/// The segment for samples `start..end`.
pub open spec fn spec_segment(
    s: Seq<LapSample>,
    lap_index: int,
    start: int,
    end: int,
    is_complete: bool,
    boundary_reason: Option<LapBoundaryReason>,
) -> RawLapSegment {
    let first = s[start];
    let last = s[end - 1];
    RawLapSegment {
        lap_index: lap_index as usize,
        acc_completed_laps_at_start: first.completed_laps,
        acc_completed_laps_at_end: last.completed_laps,
        start_sample_index: start as usize,
        end_sample_index: end as usize,
        start_tick: first.sample_tick,
        end_tick: last.sample_tick,
        start_time_ns: first.timestamp_ns,
        end_time_ns: last.timestamp_ns,
        sample_count: (end - start) as usize,
        is_complete,
        boundary_reason,
        lap_time_ms: if is_complete { spec_finished_lap_time_ms(last) } else { None },
        is_valid: if is_complete { Some(last.is_valid_lap != 0) } else { None },
    }
}

/// Where lap `k` starts: sample 0, or the boundary that closed lap `k - 1`.
pub open spec fn lap_start(b: Seq<(usize, LapBoundaryReason)>, k: int) -> int {
    if k == 0 { 0 } else { b[k - 1].0 as int }
}

/// The laps of a non-empty recording: one complete lap per boundary, then
/// the lap in progress up to the last sample.
pub open spec fn spec_laps(s: Seq<LapSample>) -> Seq<RawLapSegment> {
    let b = boundaries_upto(s, s.len() as int);
    Seq::new(b.len() + 1, |k: int|
        if k < b.len() {
            spec_segment(s, k, lap_start(b, k), b[k].0 as int, true, Some(b[k].1))
        } else {
            spec_segment(s, k, lap_start(b, k), s.len() as int, false, None)
        })
}

/// Boundaries lie strictly inside the recording and strictly increase.
proof fn lemma_boundaries_ordered(s: Seq<LapSample>, n: int)
    requires
        n <= s.len(),
        s.len() <= usize::MAX,
    ensures
        forall|j: int| 0 <= j < boundaries_upto(s, n).len() ==> 1 <= #[trigger] boundaries_upto(s, n)[j].0 < n,
        forall|j: int, k: int| 0 <= j < k < boundaries_upto(s, n).len() ==> boundaries_upto(s, n)[j].0 < boundaries_upto(s, n)[k].0,
        boundaries_upto(s, n).len() <= (if n > 0 { n - 1 } else { 0 }),
    decreases n,
{
    if n > 1 {
        lemma_boundaries_ordered(s, n - 1);
        let b = boundaries_upto(s, n - 1);
        let i = n - 1;
        match boundary_reason_at(s, i) {
            None => {
                assert(boundaries_upto(s, n) == b);
            },
            Some(r) => {
                if b.len() > 0 && i <= b.last().0 + DUPLICATE_BOUNDARY_WINDOW_SAMPLES {
                    assert(boundaries_upto(s, n) == b);
                } else {
                    let nb = b.push((i as usize, r));
                    assert(boundaries_upto(s, n) == nb);
                    assert((i as usize) as int == i);
                    assert forall|j: int| 0 <= j < nb.len() implies 1 <= #[trigger] nb[j].0 < n by {
                        if j < b.len() {
                            assert(nb[j] == b[j]);
                        }
                    }
                    assert forall|j: int, k: int| 0 <= j < k < nb.len() implies nb[j].0 < nb[k].0 by {
                        assert(nb[j] == b[j]);
                        if k < b.len() {
                            assert(nb[k] == b[k]);
                        }
                    }
                }
            },
        }
    }
}

fn detect_lap_boundaries(samples: &[LapSample]) -> (r: Vec<(usize, LapBoundaryReason)>)
    ensures
        r@ == boundaries_upto(samples@, samples@.len() as int),
{
    let n = samples.len();
    let mut boundaries: Vec<(usize, LapBoundaryReason)> = Vec::new();
    let mut last_boundary_index: Option<usize> = None;
    if n <= 1 {
        return boundaries;
    }
    let mut i: usize = 1;
    while i < n
        invariant
            n == samples@.len(),
            1 <= i <= n,
            boundaries@ == boundaries_upto(samples@, i as int),
            match last_boundary_index {
                None => boundaries@.len() == 0,
                Some(l) => boundaries@.len() > 0 && l == boundaries@.last().0 && l < i,
            },
        decreases n - i,
    {
        proof { lemma_boundaries_ordered(samples@, i as int); }
        let prev = samples[i - 1];
        let cur = samples[i];
        let reason = if is_current_lap_reset(prev, cur) {
            Some(LapBoundaryReason::CurrentLapReset)
        } else if prev.completed_laps != cur.completed_laps {
            Some(LapBoundaryReason::CompletedLapsChanged)
        } else {
            None
        };
        match reason {
            None => {},
            Some(reason) => {
                let skip = match last_boundary_index {
                    Some(last) => i <= last + DUPLICATE_BOUNDARY_WINDOW_SAMPLES,
                    None => false,
                };
                if !skip {
                    boundaries.push((i, reason));
                    last_boundary_index = Some(i);
                }
            },
        }
        i = i + 1;
    }
    boundaries
}

fn build_lap_segment(
    lap_index: usize,
    samples: &[LapSample],
    start: usize,
    end: usize,
    is_complete: bool,
    boundary_reason: Option<LapBoundaryReason>,
) -> (seg: RawLapSegment)
    requires
        start < end <= samples@.len(),
    ensures
        seg == spec_segment(samples@, lap_index as int, start as int, end as int, is_complete, boundary_reason),
{
    let first = samples[start];
    let last = samples[end - 1];
    RawLapSegment {
        lap_index,
        acc_completed_laps_at_start: first.completed_laps,
        acc_completed_laps_at_end: last.completed_laps,
        start_sample_index: start,
        end_sample_index: end,
        start_tick: first.sample_tick,
        end_tick: last.sample_tick,
        start_time_ns: first.timestamp_ns,
        end_time_ns: last.timestamp_ns,
        sample_count: end - start,
        is_complete,
        boundary_reason,
        lap_time_ms: if is_complete { finished_lap_time_ms(last) } else { None },
        is_valid: if is_complete { Some(last.is_valid_lap != 0) } else { None },
    }
}

/// Split a recording into laps. An empty recording has none.
pub fn segment_raw_graphics_laps(samples: &[LapSample]) -> (laps: Vec<RawLapSegment>)
    ensures
        samples@.len() == 0 ==> laps@.len() == 0,
        samples@.len() > 0 ==> laps@ == spec_laps(samples@),
{
    let n = samples.len();
    if n == 0 {
        return Vec::new();
    }
    let boundaries = detect_lap_boundaries(samples);
    proof { lemma_boundaries_ordered(samples@, n as int); }
    let ghost b = boundaries@;
    let nb = boundaries.len();
    let mut laps: Vec<RawLapSegment> = Vec::new();
    let mut start: usize = 0;
    let mut k: usize = 0;
    while k < nb
        invariant
            nb == b.len(),
            b == boundaries@,
            n == samples@.len(),
            n > 0,
            b == boundaries_upto(samples@, n as int),
            forall|j: int| 0 <= j < b.len() ==> 1 <= #[trigger] b[j].0 < n,
            forall|j: int, l: int| 0 <= j < l < b.len() ==> b[j].0 < b[l].0,
            k <= nb,
            start == lap_start(b, k as int),
            laps@.len() == k,
            forall|j: int| 0 <= j < k ==> #[trigger] laps@[j] == spec_segment(samples@, j, lap_start(b, j), b[j].0 as int, true, Some(b[j].1)),
        decreases nb - k,
    {
        let (boundary_index, reason) = boundaries[k];
        proof {
            if k > 0 {
                assert(b[k - 1].0 < b[k as int].0);
            }
        }
        laps.push(build_lap_segment(laps.len(), samples, start, boundary_index, true, Some(reason)));
        start = boundary_index;
        k = k + 1;
    }
    proof {
        if nb > 0 {
            assert(b[nb - 1].0 < n);
        }
    }
    laps.push(build_lap_segment(laps.len(), samples, start, n, false, None));
    assert(laps@ =~= spec_laps(samples@));
    laps
}

/// The laps of a non-empty recording cover it without gap or overlap: the
/// first starts at sample 0, each starts where the previous ended, the last
/// ends at the last sample; every lap holds at least one sample, and laps are
/// numbered in order.
pub proof fn lemma_laps_partition(s: Seq<LapSample>)
    requires
        0 < s.len() <= usize::MAX,
    ensures
        spec_laps(s).len() >= 1,
        spec_laps(s)[0].start_sample_index == 0,
        spec_laps(s).last().end_sample_index == s.len(),
        forall|k: int| 0 <= k < spec_laps(s).len() - 1 ==> #[trigger] spec_laps(s)[k].end_sample_index == spec_laps(s)[k + 1].start_sample_index,
        forall|k: int| 0 <= k < spec_laps(s).len() ==> #[trigger] spec_laps(s)[k].start_sample_index < spec_laps(s)[k].end_sample_index,
        forall|k: int| 0 <= k < spec_laps(s).len() ==> #[trigger] spec_laps(s)[k].lap_index == k,
        forall|k: int| 0 <= k < spec_laps(s).len() ==> (#[trigger] spec_laps(s)[k].is_complete <==> k < spec_laps(s).len() - 1),
{
    let b = boundaries_upto(s, s.len() as int);
    lemma_boundaries_ordered(s, s.len() as int);
    let laps = spec_laps(s);
    assert(laps.last() == laps[b.len() as int]);
    assert forall|k: int| 0 <= k < laps.len() implies #[trigger] laps[k].lap_index == k by {
        assert((k as usize) as int == k);
    }
    assert((s.len() as usize) as int == s.len());
    assert forall|k: int| 0 <= k < laps.len() - 1 implies #[trigger] laps[k].end_sample_index == laps[k + 1].start_sample_index by {
        assert(1 <= b[k].0 < s.len());
    }
    assert forall|k: int| 0 <= k < laps.len() implies #[trigger] laps[k].start_sample_index < laps[k].end_sample_index by {
        if k < b.len() {
            assert(1 <= b[k].0 < s.len());
            if k > 0 {
                assert(b[k - 1].0 < b[k].0);
            }
        } else if k > 0 {
            assert(1 <= b[k - 1].0 < s.len());
        }
    }
}

/// What each lap reports of its own samples: its first sample gives the
/// completed-lap count, tick and time at the start, its last sample those
/// at the end; a complete lap's time is the current lap time of its last
/// sample when that is positive, otherwise that sample's last lap time when
/// positive and not the "no time" sentinel, otherwise none, and its
/// validity is that sample's flag; a lap still in progress has neither.
pub proof fn lemma_lap_reports_its_samples(s: Seq<LapSample>, k: int)
    requires
        0 < s.len() <= usize::MAX,
        0 <= k < spec_laps(s).len(),
    ensures
        ({
            let lap = spec_laps(s)[k];
            let first = s[lap.start_sample_index as int];
            let last = s[lap.end_sample_index - 1];
            &&& lap.sample_count == lap.end_sample_index - lap.start_sample_index
            &&& lap.acc_completed_laps_at_start == first.completed_laps
            &&& lap.acc_completed_laps_at_end == last.completed_laps
            &&& lap.start_tick == first.sample_tick
            &&& lap.end_tick == last.sample_tick
            &&& lap.start_time_ns == first.timestamp_ns
            &&& lap.end_time_ns == last.timestamp_ns
            &&& (lap.is_complete && last.current_lap_time_ms > 0 ==> lap.lap_time_ms == Some(last.current_lap_time_ms))
            &&& (lap.is_complete && last.current_lap_time_ms <= 0 && last.last_lap_time_ms > 0
                && last.last_lap_time_ms != i32::MAX ==> lap.lap_time_ms == Some(last.last_lap_time_ms))
            &&& (lap.is_complete && last.current_lap_time_ms <= 0
                && !(last.last_lap_time_ms > 0 && last.last_lap_time_ms != i32::MAX) ==> lap.lap_time_ms is None)
            &&& (lap.is_complete ==> lap.is_valid == Some(last.is_valid_lap != 0))
            &&& (!lap.is_complete ==> lap.lap_time_ms is None && lap.is_valid is None)
        }),
{
    lemma_laps_partition(s);
    let b = boundaries_upto(s, s.len() as int);
    lemma_boundaries_ordered(s, s.len() as int);
    let lap = spec_laps(s)[k];
    if k < b.len() {
        assert(1 <= b[k].0 < s.len());
        if k > 0 {
            assert(1 <= b[k - 1].0 < s.len());
        }
    } else if k > 0 {
        assert(1 <= b[k - 1].0 < s.len());
    }
    assert((lap.start_sample_index as int) == lap_start(b, k));
}

/// The lap timer restarted between two samples: the earlier lap time was
/// over ten seconds, the later one is under two seconds and smaller.
pub open spec fn timer_restarted(prev: LapSample, cur: LapSample) -> bool {
    prev.current_lap_time_ms > 10_000 && cur.current_lap_time_ms < 2_000
        && cur.current_lap_time_ms < prev.current_lap_time_ms
}

/// Why a lap ends where it does: a boundary before sample `i` is a timer
/// restart exactly when the timer restarted between samples `i - 1` and
/// `i`, and otherwise the completed-lap count changed there. Every sample
/// at which the timer restarted or the count changed starts a lap, unless
/// it directly follows the sample that started the previous one.
pub proof fn lemma_boundaries_have_reasons(s: Seq<LapSample>, n: int)
    requires
        n <= s.len(),
        s.len() <= usize::MAX,
    ensures
        forall|j: int| 0 <= j < boundaries_upto(s, n).len() ==> {
            let (i, r) = #[trigger] boundaries_upto(s, n)[j];
            &&& 1 <= i < n
            &&& (r == LapBoundaryReason::CurrentLapReset <==> timer_restarted(s[i - 1], s[i as int]))
            &&& (r == LapBoundaryReason::CompletedLapsChanged ==> s[i - 1].completed_laps != s[i as int].completed_laps)
        },
        forall|i: int| #![trigger s[i]] 1 <= i < n && (timer_restarted(s[i - 1], s[i]) || s[i - 1].completed_laps != s[i].completed_laps) ==>
            exists|j: int| 0 <= j < boundaries_upto(s, n).len()
                && (#[trigger] boundaries_upto(s, n)[j].0 == i || boundaries_upto(s, n)[j].0 + 1 == i),
    decreases n,
{
    lemma_boundaries_ordered(s, n);
    if n > 1 {
        lemma_boundaries_have_reasons(s, n - 1);
        lemma_boundaries_ordered(s, n - 1);
        let b = boundaries_upto(s, n - 1);
        let bn = boundaries_upto(s, n);
        let i = n - 1;
        if boundary_reason_at(s, i) is Some && !(b.len() > 0 && i <= b.last().0 + DUPLICATE_BOUNDARY_WINDOW_SAMPLES) {
            assert(bn == b.push((i as usize, boundary_reason_at(s, i)->Some_0)));
            assert((i as usize) as int == i);
        } else {
            assert(bn == b);
        }
        assert forall|j: int| 0 <= j < bn.len() implies {
            let (i2, r) = #[trigger] bn[j];
            &&& 1 <= i2 < n
            &&& (r == LapBoundaryReason::CurrentLapReset <==> timer_restarted(s[i2 - 1], s[i2 as int]))
            &&& (r == LapBoundaryReason::CompletedLapsChanged ==> s[i2 - 1].completed_laps != s[i2 as int].completed_laps)
        } by {
            if j < b.len() {
                assert(bn[j] == b[j]);
            }
        }
        assert forall|k: int| #![trigger s[k]] 1 <= k < n && (timer_restarted(s[k - 1], s[k]) || s[k - 1].completed_laps != s[k].completed_laps) implies
            exists|j: int| 0 <= j < bn.len() && (#[trigger] bn[j].0 == k || bn[j].0 + 1 == k) by {
            if k < n - 1 {
                let j = choose|j: int| 0 <= j < b.len() && (#[trigger] b[j].0 == k || b[j].0 + 1 == k);
                assert(bn[j] == b[j]);
            } else {
                assert(boundary_reason_at(s, k) is Some);
                if b.len() > 0 && k <= b.last().0 + DUPLICATE_BOUNDARY_WINDOW_SAMPLES {
                    let j = b.len() - 1;
                    assert(b[j].0 < n - 1);
                    assert(bn[j] == b[j]);
                    assert(bn[j].0 + 1 == k);
                } else {
                    assert(bn[b.len() as int].0 == k);
                }
            }
        }
    }
}

} // verus!
