//! Built-in calculated items: the catalog, and the time delta to a
//! reference lap, looked up by track position.

use vstd::prelude::*;
use vstd::string::*;
use crate::compute::{ComputeError, ComputeResult};
use crate::item_key::{ItemKey, ItemType};

verus! {

/// A point of a reference lap: where on track (as an order key of the
/// normalized position, none for NaN) and the lap time there, in
/// milliseconds.
#[derive(Debug, Clone, Copy, PartialEq, Eq, Structural)]
pub struct ReferencePoint {
    pub position_key: Option<i64>,
    pub time_ms: i32,
}

/// The magnitude bits of an `f32`: all but the sign bit.
pub open spec fn magnitude_bits(bits: u32) -> int {
    if bits >= 0x8000_0000 { bits - 0x8000_0000 } else { bits as int }
}

/// The order key of an `f32` given by its bits: for every two finite or
/// infinite values `a < b` exactly when `key(a) < key(b)`, and `-0.0` and
/// `0.0` share a key. NaN (all exponent bits set and a mantissa that is
/// not zero) has none, as it is ordered against nothing.
pub open spec fn spec_position_key(bits: u32) -> Option<i64> {
    if magnitude_bits(bits) > 0x7f80_0000 {
        None
    } else if bits >= 0x8000_0000 {
        Some(-magnitude_bits(bits) as i64)
    } else {
        Some(bits as i64)
    }
}

/// The order key of the `f32` with bits `bits`.
pub fn position_key(bits: u32) -> (k: Option<i64>)
    ensures
        k == spec_position_key(bits),
{
    let magnitude: u32 = if bits >= 0x8000_0000 { bits - 0x8000_0000 } else { bits };
    if magnitude > 0x7f80_0000 {
        None
    } else if bits >= 0x8000_0000 {
        Some(-(magnitude as i64))
    } else {
        Some(bits as i64)
    }
}

/// `a < b` for two positions given by their order keys: false when either
/// is NaN, as the comparison of the floats is.
pub open spec fn position_before(a: Option<i64>, b: Option<i64>) -> bool {
    match (a, b) {
        (Some(x), Some(y)) => x < y,
        _ => false,
    }
}

fn is_before(a: Option<i64>, b: Option<i64>) -> (r: bool)
    ensures
        r == position_before(a, b),
{
    match (a, b) {
        (Some(x), Some(y)) => x < y,
        _ => false,
    }
}

/// The first index from `i` on at which the car is before the next
/// reference point, or the last index.
pub open spec fn match_from(refs: Seq<ReferencePoint>, i: int, pos: Option<i64>) -> int
    decreases refs.len() - i,
{
    if i >= refs.len() - 1 {
        i
    } else if position_before(pos, refs[i + 1].position_key) {
        i
    } else {
        match_from(refs, i + 1, pos)
    }
}

/// Where the search starts: from the remembered index, reset to 0 when
/// the lap changed or the car is behind the remembered point.
pub open spec fn search_start(refs: Seq<ReferencePoint>, last_lap: i32, index: usize, lap: i32, pos: Option<i64>) -> int {
    let i0: int = if lap != last_lap { 0 } else { index as int };
    if i0 < refs.len() && position_before(pos, refs[i0].position_key) { 0 } else { i0 }
}

proof fn lemma_match_from(refs: Seq<ReferencePoint>, i: int, pos: Option<i64>)
    requires
        0 <= i < refs.len(),
    ensures
        i <= match_from(refs, i, pos) < refs.len(),
    decreases refs.len() - i,
{
    if i < refs.len() - 1 && !position_before(pos, refs[i + 1].position_key) {
        lemma_match_from(refs, i + 1, pos);
    }
}

/// The lookup shared by both delta items. On success the result is the
/// reference time at the matched point minus the current time.
fn reference_delta(
    last_lap_number: &mut i32,
    index: &mut usize,
    reference: Option<&[ReferencePoint]>,
    current_lap: i32,
    current_pos: Option<i64>,
    current_time: i32,
) -> (r: ComputeResult<i64>)
    ensures
        match reference {
            None => r == Err::<i64, ComputeError>(ComputeError::NoValidData)
                && *final(last_lap_number) == *old(last_lap_number) && *final(index) == *old(index),
            Some(refs) => if refs@.len() == 0 {
                r == Err::<i64, ComputeError>(ComputeError::InvalidReferenceData)
                    && *final(last_lap_number) == *old(last_lap_number) && *final(index) == *old(index)
            } else {
                let s = search_start(refs@, *old(last_lap_number), *old(index), current_lap, current_pos);
                &&& *final(last_lap_number) == current_lap
                &&& if s < refs@.len() {
                    let m = match_from(refs@, s, current_pos);
                    &&& r is Ok && r->Ok_0 == refs@[m].time_ms - current_time
                    &&& *final(index) == m
                } else {
                    &&& r matches Err(ComputeError::ComputationFailed(msg)) && msg@ == "无法在参考圈中找到对应位置"@
                    &&& *final(index) == s
                }
            },
        },
{
    let refs = match reference {
        None => return Err(ComputeError::NoValidData),
        Some(refs) => refs,
    };
    let n = refs.len();
    if n == 0 {
        return Err(ComputeError::InvalidReferenceData);
    }
    if current_lap != *last_lap_number {
        *last_lap_number = current_lap;
        *index = 0;
    }
    if *index < n && is_before(current_pos, refs[*index].position_key) {
        *index = 0;
    }
    let start = *index;
    assert(start == search_start(refs@, *old(last_lap_number), *old(index), current_lap, current_pos));
    let mut i = start;
    proof {
        if start < n {
            lemma_match_from(refs@, start as int, current_pos);
        }
    }
    while i < n
        invariant
            n == refs@.len(),
            n > 0,
            start <= i,
            start < n ==> i <= match_from(refs@, start as int, current_pos) < n,
            start < n ==> match_from(refs@, i as int, current_pos) == match_from(refs@, start as int, current_pos),
            *index == start,
            *last_lap_number == current_lap,
            reference == Some(refs),
            start == search_start(refs@, *old(last_lap_number), *old(index), current_lap, current_pos),
        decreases n - i,
    {
        if i == n - 1 || is_before(current_pos, refs[i + 1].position_key) {
            *index = i;
            return Ok(refs[i].time_ms as i64 - current_time as i64);
        }
        proof {
            lemma_match_from(refs@, i + 1, current_pos);
        }
        i = i + 1;
    }
    Err(ComputeError::ComputationFailed(String::from_str("无法在参考圈中找到对应位置")))
}

/// Time delta of the current lap to the best lap of all time, looked up by
/// track position in a reference lap loaded from a recording.
pub struct DeltaTimeToLifeBestLap {
    last_lap_number: i32,
    index: usize,
}

/// Time delta of the current lap to this session's best lap; the reference
/// is replaced at run time when a faster valid lap is completed.
pub struct DeltaTimeToSessionBestLap {
    last_lap_number: i32,
    index: usize,
}

impl DeltaTimeToLifeBestLap {
    /// The search state: the lap last seen and the reference index reached.
    pub closed spec fn state(&self) -> (i32, usize) {
        (self.last_lap_number, self.index)
    }

    /// A fresh item: no lap seen yet, searching from the start.
    pub fn new() -> (r: Self)
        ensures
            r.state() == (-1i32, 0usize),
    {
        DeltaTimeToLifeBestLap { last_lap_number: -1, index: 0 }
    }

    /// The item's name.
    pub fn name(&self) -> (s: &'static str)
        ensures
            s@ == "delta_time_to_life_best_lap"@,
    {
        "delta_time_to_life_best_lap"
    }

    /// The reference time at the current position minus the current lap
    /// time, in milliseconds (negative: slower than the reference).
    pub fn compute(&mut self, reference: Option<&[ReferencePoint]>, current_lap: i32, current_pos: Option<i64>, current_time: i32) -> (r: ComputeResult<i64>)
        ensures
            match reference {
                None => r == Err::<i64, ComputeError>(ComputeError::NoValidData) && final(self).state() == old(self).state(),
                Some(refs) => if refs@.len() == 0 {
                    r == Err::<i64, ComputeError>(ComputeError::InvalidReferenceData) && final(self).state() == old(self).state()
                } else {
                    let s = search_start(refs@, old(self).state().0, old(self).state().1, current_lap, current_pos);
                    &&& final(self).state().0 == current_lap
                    &&& if s < refs@.len() {
                        let m = match_from(refs@, s, current_pos);
                        r is Ok && r->Ok_0 == refs@[m].time_ms - current_time && final(self).state().1 == m
                    } else {
                        r matches Err(ComputeError::ComputationFailed(msg)) && msg@ == "无法在参考圈中找到对应位置"@
                            && final(self).state().1 == s
                    }
                },
            },
    {
        reference_delta(&mut self.last_lap_number, &mut self.index, reference, current_lap, current_pos, current_time)
    }
}

impl DeltaTimeToSessionBestLap {
    /// The search state: the lap last seen and the reference index reached.
    pub closed spec fn state(&self) -> (i32, usize) {
        (self.last_lap_number, self.index)
    }

    /// A fresh item: no lap seen yet, searching from the start.
    pub fn new() -> (r: Self)
        ensures
            r.state() == (-1i32, 0usize),
    {
        DeltaTimeToSessionBestLap { last_lap_number: -1, index: 0 }
    }

    /// The item's name.
    pub fn name(&self) -> (s: &'static str)
        ensures
            s@ == "delta_time_to_session_best_lap"@,
    {
        "delta_time_to_session_best_lap"
    }

    /// The reference time at the current position minus the current lap
    /// time, in milliseconds; no reference yet gives `NoValidData`.
    pub fn compute(&mut self, reference: Option<&[ReferencePoint]>, current_lap: i32, current_pos: Option<i64>, current_time: i32) -> (r: ComputeResult<i64>)
        ensures
            match reference {
                None => r == Err::<i64, ComputeError>(ComputeError::NoValidData) && final(self).state() == old(self).state(),
                Some(refs) => if refs@.len() == 0 {
                    r == Err::<i64, ComputeError>(ComputeError::InvalidReferenceData) && final(self).state() == old(self).state()
                } else {
                    let s = search_start(refs@, old(self).state().0, old(self).state().1, current_lap, current_pos);
                    &&& final(self).state().0 == current_lap
                    &&& if s < refs@.len() {
                        let m = match_from(refs@, s, current_pos);
                        r is Ok && r->Ok_0 == refs@[m].time_ms - current_time && final(self).state().1 == m
                    } else {
                        r matches Err(ComputeError::ComputationFailed(msg)) && msg@ == "无法在参考圈中找到对应位置"@
                            && final(self).state().1 == s
                    }
                },
            },
    {
        reference_delta(&mut self.last_lap_number, &mut self.index, reference, current_lap, current_pos, current_time)
    }
}

/// A fresh item's search starts at the first reference point whatever the
/// lap and position, so its first answer is read from the start of the
/// reference lap.
pub proof fn lemma_fresh_search_starts_at_zero(refs: Seq<ReferencePoint>, lap: i32, pos: Option<i64>)
    requires
        refs.len() > 0,
    ensures
        search_start(refs, -1i32, 0usize, lap, pos) == 0,
{
}

/// The point matched from a search start `i` is the first one from `i` on
/// at which the car is not yet at the next point: the car is at or past
/// every point after `i` up to the match (or the comparison with it fails,
/// as with NaN), and the match is the last point or the car is before the
/// point after it.
pub proof fn lemma_match_is_first_point_before_next(refs: Seq<ReferencePoint>, i: int, pos: Option<i64>)
    requires
        0 <= i < refs.len(),
    ensures
        i <= match_from(refs, i, pos) < refs.len(),
        forall|j: int| i < j <= match_from(refs, i, pos) ==> !position_before(pos, #[trigger] refs[j].position_key),
        match_from(refs, i, pos) == refs.len() - 1
            || position_before(pos, refs[match_from(refs, i, pos) + 1].position_key),
    decreases refs.len() - i,
{
    lemma_match_from(refs, i, pos);
    if i < refs.len() - 1 && !position_before(pos, refs[i + 1].position_key) {
        lemma_match_is_first_point_before_next(refs, i + 1, pos);
    }
}

/// Position keys: NaN has none, every other value has one, and two values
/// compare as their keys do; a negative value's key is below every
/// non-negative one's, and `-0.0` and `0.0` share the key 0.
pub proof fn lemma_position_keys(a: u32, b: u32)
    ensures
        spec_position_key(a) is None <==> magnitude_bits(a) > 0x7f80_0000,
        spec_position_key(0x8000_0000) == Some(0i64) && spec_position_key(0) == Some(0i64),
        spec_position_key(a) is Some && spec_position_key(b) is Some && a < 0x8000_0000 && b < 0x8000_0000 ==>
            (spec_position_key(a)->Some_0 < spec_position_key(b)->Some_0 <==> a < b),
        spec_position_key(a) is Some && spec_position_key(b) is Some && a >= 0x8000_0000 && b >= 0x8000_0000 ==>
            (spec_position_key(a)->Some_0 < spec_position_key(b)->Some_0 <==> a > b),
        spec_position_key(a) is Some && spec_position_key(b) is Some && a >= 0x8000_0000 && b < 0x8000_0000
            && !(a == 0x8000_0000 && b == 0) ==> spec_position_key(a)->Some_0 < spec_position_key(b)->Some_0,
{
}

/// An entry of the built-in calculated-item catalog.
#[derive(Debug, Clone)]
pub struct BuiltinCalcItemEntry {
    /// Full key, e.g. `calc:delta_time_to_life_best_lap`.
    pub key: ItemKey,
    /// Description.
    pub description: &'static str,
    /// Unit.
    pub unit: Option<&'static str>,
    /// Whether the item needs reference-lap data.
    pub requires_reference: bool,
}

/// The catalog entry `(name, description)` of a calculated item in
/// milliseconds that needs a reference lap.
pub open spec fn builtin_entry_is(e: BuiltinCalcItemEntry, name: Seq<char>, description: Seq<char>) -> bool {
    &&& e.key.item_type == ItemType::Calculated
    &&& e.key.name@ == name
    &&& e.description@ == description
    &&& e.unit matches Some(u) && u@ == "ms"@
    &&& e.requires_reference
}

/// The built-in calculated items: the delta to the all-time best lap and
/// the delta to this session's best lap.
pub fn all_builtin_calculated_items() -> (r: Vec<BuiltinCalcItemEntry>)
    ensures
        r@.len() == 2,
        builtin_entry_is(r@[0], "delta_time_to_life_best_lap"@, "当前圈与历史最佳圈时间差"@),
        builtin_entry_is(r@[1], "delta_time_to_session_best_lap"@, "当前圈与本Session最佳圈时间差"@),
{
    let mut r: Vec<BuiltinCalcItemEntry> = Vec::new();
    r.push(BuiltinCalcItemEntry {
        key: ItemKey::new(ItemType::Calculated, String::from_str("delta_time_to_life_best_lap")),
        description: "当前圈与历史最佳圈时间差",
        unit: Some("ms"),
        requires_reference: true,
    });
    r.push(BuiltinCalcItemEntry {
        key: ItemKey::new(ItemType::Calculated, String::from_str("delta_time_to_session_best_lap")),
        description: "当前圈与本Session最佳圈时间差",
        unit: Some("ms"),
        requires_reference: true,
    });
    r
}

} // verus!
