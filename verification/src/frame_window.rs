//! Trimming the columns read for a frame window. The ticks of the frames
//! come from the first column of the frame-meta group; each column holds
//! the same whole number of cells per frame (a column of arrays holds
//! several), and only the cells of the frames inside the window stay.

use vstd::prelude::*;
use crate::encode_v2::DecodedColumn;
use crate::error::{error_matches, TelemetryResult};
use crate::format_v2::GroupId;
use crate::reader_v2::{columns_view, decoded_views, spec_read_group_columns, BinaryTelemetryReaderV2};

verus! {

/// Whether a frame at tick `t` lies in the window: at or after `start` and
/// at or before `end`, a bound that is not given not limiting it.
pub open spec fn frame_in_window(t: u64, start: Option<u64>, end: Option<u64>) -> bool {
    (match start {
        Some(s) => t >= s,
        None => true,
    }) && (match end {
        Some(e) => t <= e,
        None => true,
    })
}

/// How many cells of a column of `len` cells belong to each of `rows`
/// frames; one when there are no frames.
pub open spec fn cells_per_row(rows: nat, len: nat) -> nat {
    if rows == 0 { 1 } else { len / rows }
}

/// The cells of frame `r` in `col`, for `rows` frames.
pub open spec fn row_cells(col: Seq<u64>, rows: nat, r: int) -> Seq<u64> {
    let w = cells_per_row(rows, col.len()) as int;
    let a = r * w;
    let b = if a + w < col.len() { a + w } else { col.len() as int };
    col.subrange(a, b)
}

/// The cells of the frames among the first `k` whose tick lies in the
/// window, in frame order.
pub open spec fn kept_cells(ticks: Seq<u64>, col: Seq<u64>, start: Option<u64>, end: Option<u64>, k: int) -> Seq<u64>
    decreases k,
{
    if k <= 0 {
        Seq::empty()
    } else {
        let prev = kept_cells(ticks, col, start, end, k - 1);
        if frame_in_window(ticks[k - 1], start, end) {
            prev + row_cells(col, ticks.len(), k - 1)
        } else {
            prev
        }
    }
}

/// A column trimmed to the window of the frames with the given ticks; with
/// neither bound given it stays whole.
pub open spec fn trimmed_column(ticks: Seq<u64>, col: Seq<u64>, start: Option<u64>, end: Option<u64>) -> Seq<u64> {
    if start is None && end is None {
        col
    } else {
        kept_cells(ticks, col, start, end, ticks.len() as int)
    }
}

/// The words of the pieces of a column, one piece after another.
pub open spec fn piece_words(pieces: Seq<(u8, u8, Seq<u64>)>, k: int) -> Seq<u64>
    decreases k,
{
    if k <= 0 {
        Seq::empty()
    } else {
        piece_words(pieces, k - 1) + pieces[k - 1].2
    }
}

/// Whether frame `i` of `ticks` lies in the window, by its tick.
pub open spec fn frame_index_in_window(ticks: Seq<u64>, start: Option<u64>, end: Option<u64>, i: int) -> bool {
    (start is None || ticks[i] >= start->0) && (end is None || ticks[i] <= end->0)
}

/// With one cell per frame, trimming keeps exactly the cells of the frames
/// in the window, in order: the cells at the frames whose tick is at or
/// after the start (when given) and at or before the end (when given).
pub proof fn lemma_trim_keeps_window_cells(ticks: Seq<u64>, col: Seq<u64>, start: Option<u64>, end: Option<u64>, k: int)
    requires
        col.len() == ticks.len(),
        0 <= k <= ticks.len(),
    ensures
        kept_cells(ticks, col, start, end, k) == Seq::new(k as nat, |i: int| i)
            .filter(|i: int| frame_index_in_window(ticks, start, end, i)).map_values(|i: int| col[i]),
    decreases k,
{
    reveal(Seq::filter);
    let pred = |i: int| frame_index_in_window(ticks, start, end, i);
    let idx = Seq::new(k as nat, |i: int| i);
    if k > 0 {
        lemma_trim_keeps_window_cells(ticks, col, start, end, k - 1);
        let prev = Seq::new((k - 1) as nat, |i: int| i);
        assert(idx.drop_last() =~= prev);
        assert(idx.last() == k - 1);
        let f = prev.filter(pred);
        assert(idx.filter(pred) == (if pred(k - 1) { f.push(k - 1) } else { f }));
        if pred(k - 1) {
            let w = cells_per_row(ticks.len(), col.len()) as int;
            assert(w == 1) by {
                vstd::arithmetic::div_mod::lemma_div_basics(col.len() as int);
            }
            assert(row_cells(col, ticks.len(), k - 1) =~= seq![col[k - 1]]);
            assert(f.push(k - 1).map_values(|i: int| col[i]) =~= f.map_values(|i: int| col[i]).push(col[k - 1]));
        }
    } else {
        assert(idx.filter(pred) =~= Seq::<int>::empty());
        assert(kept_cells(ticks, col, start, end, k) =~= Seq::<u64>::empty());
    }
}

/// The cells of frame `r` stand inside the column, and end at or before
/// the cells of the next frame begin.
proof fn lemma_row_bounds(rows: nat, len: nat, r: int)
    requires
        0 <= r < rows,
    ensures
        0 <= r * (cells_per_row(rows, len) as int),
        r * (cells_per_row(rows, len) as int) + (cells_per_row(rows, len) as int) <= len,
{
    let w = cells_per_row(rows, len) as int;
    let n = rows as int;
    let l = len as int;
    assert(w == l / n);
    vstd::arithmetic::div_mod::lemma_fundamental_div_mod(l, n);
    vstd::arithmetic::div_mod::lemma_mod_pos_bound(l, n);
    vstd::arithmetic::div_mod::lemma_div_pos_is_pos(l, n);
    assert(n * w <= l);
    assert(0 <= r * w && r * w + w <= n * w) by (nonlinear_arith)
        requires
            0 <= r < n,
            0 <= w,
    ;
}

/// Concatenate the words of the pieces of a column.
pub fn column_words(pieces: &[DecodedColumn]) -> (r: Vec<u64>)
    ensures
        r@ == piece_words(decoded_views(pieces@), pieces@.len() as int),
{
    let ghost pv = decoded_views(pieces@);
    let mut out: Vec<u64> = Vec::new();
    let mut k: usize = 0;
    while k < pieces.len()
        invariant
            k <= pieces@.len(),
            pv == decoded_views(pieces@),
            pv.len() == pieces@.len(),
            out@ == piece_words(pv, k as int),
        decreases pieces@.len() - k,
    {
        let words = &pieces[k].words;
        assert(pv[k as int].2 == words@);
        let ghost before = out@;
        let mut i: usize = 0;
        while i < words.len()
            invariant
                i <= words@.len(),
                out@ == before + words@.subrange(0, i as int),
            decreases words@.len() - i,
        {
            out.push(words[i]);
            assert(words@.subrange(0, i + 1) =~= words@.subrange(0, i as int).push(words@[i as int]));
            i = i + 1;
        }
        assert(words@.subrange(0, words@.len() as int) =~= words@);
        k = k + 1;
    }
    out
}

/// Keep of `col` the cells of the frames whose tick lies in the window.
pub fn trim_column(ticks: &[u64], col: &[u64], start: Option<u64>, end: Option<u64>) -> (r: Vec<u64>)
    ensures
        r@ == kept_cells(ticks@, col@, start, end, ticks@.len() as int),
{
    let rows = ticks.len();
    let len = col.len();
    let w: usize = if rows == 0 { 1 } else { len / rows };
    assert(w == cells_per_row(rows as nat, len as nat));
    let mut out: Vec<u64> = Vec::new();
    let mut r: usize = 0;
    while r < rows
        invariant
            r <= rows,
            rows == ticks@.len(),
            len == col@.len(),
            w == cells_per_row(rows as nat, len as nat),
            out@ == kept_cells(ticks@, col@, start, end, r as int),
        decreases rows - r,
    {
        proof { lemma_row_bounds(rows as nat, len as nat, r as int); }
        let keep = match (start, end) {
            (None, None) => true,
            (Some(s), None) => ticks[r] >= s,
            (None, Some(e)) => ticks[r] <= e,
            (Some(s), Some(e)) => ticks[r] >= s && ticks[r] <= e,
        };
        if keep {
            let a: usize = r * w;
            let b: usize = if a + w < len { a + w } else { len };
            let ghost before = out@;
            let mut i: usize = a;
            while i < b
                invariant
                    a <= i <= b,
                    b <= len,
                    len == col@.len(),
                    out@ == before + col@.subrange(a as int, i as int),
                decreases b - i,
            {
                out.push(col[i]);
                assert(col@.subrange(a as int, i + 1) =~= col@.subrange(a as int, i as int).push(col@[i as int]));
                i = i + 1;
            }
            assert(row_cells(col@, rows as nat, r as int) == col@.subrange(a as int, b as int));
        }
        r = r + 1;
    }
    out
}

/// Trim every column to the window of the frames with the given ticks;
/// with neither bound given the columns stay as they are.
pub fn trim_to_frames(ticks: &[u64], cols: Vec<Vec<u64>>, start: Option<u64>, end: Option<u64>) -> (r: Vec<Vec<u64>>)
    ensures
        r@.len() == cols@.len(),
        forall|i: int| 0 <= i < cols@.len() ==> #[trigger] r@[i]@ == trimmed_column(ticks@, cols@[i]@, start, end),
{
    if start.is_none() && end.is_none() {
        return cols;
    }
    let mut out: Vec<Vec<u64>> = Vec::new();
    let mut k: usize = 0;
    while k < cols.len()
        invariant
            k <= cols@.len(),
            !(start is None && end is None),
            out@.len() == k,
            forall|i: int| 0 <= i < k ==> #[trigger] out@[i]@ == trimmed_column(ticks@, cols@[i]@, start, end),
        decreases cols@.len() - k,
    {
        let c = trim_column(ticks, cols[k].as_slice(), start, end);
        out.push(c);
        k = k + 1;
    }
    out
}

/// The words of each column of a group, trimmed to the window of the frames
/// with the given ticks.
pub open spec fn windowed_columns(cols: Seq<Seq<(u8, u8, Seq<u64>)>>, ticks: Seq<u64>, start: Option<u64>, end: Option<u64>) -> Seq<Seq<u64>> {
    Seq::new(cols.len(), |i: int| trimmed_column(ticks, piece_words(cols[i], cols[i].len() as int), start, end))
}

/// Concatenate the pieces of each column and trim them to the frame window.
pub fn window_columns(cols: Vec<Vec<DecodedColumn>>, ticks: &[u64], start: Option<u64>, end: Option<u64>) -> (r: Vec<Vec<u64>>)
    ensures
        r@.len() == cols@.len(),
        forall|i: int| 0 <= i < cols@.len() ==> #[trigger] r@[i]@ == windowed_columns(columns_view(cols@), ticks@, start, end)[i],
{
    let mut words: Vec<Vec<u64>> = Vec::new();
    let mut k: usize = 0;
    while k < cols.len()
        invariant
            k <= cols@.len(),
            words@.len() == k,
            forall|i: int| 0 <= i < k ==> #[trigger] words@[i]@ == piece_words(decoded_views(cols@[i]@), cols@[i]@.len() as int),
        decreases cols@.len() - k,
    {
        let w = column_words(cols[k].as_slice());
        words.push(w);
        k = k + 1;
    }
    let r = trim_to_frames(ticks, words, start, end);
    assert forall|i: int| 0 <= i < cols@.len() implies #[trigger] r@[i]@ == windowed_columns(columns_view(cols@), ticks@, start, end)[i] by {
        assert(columns_view(cols@)[i] == decoded_views(cols@[i]@));
        assert(decoded_views(cols@[i]@).len() == cols@[i]@.len());
    }
    r
}

impl BinaryTelemetryReaderV2 {
    /// Read access group `group` for a frame window as words per column,
    /// trimmed to the frames of the window whose ticks are given (those of
    /// the frame-meta group, read for the same window). Nothing when the
    /// group cannot be found anywhere, as for `read_group_columns`.
    pub fn read_group_window(&self, group: GroupId, ticks: &[u64], start: Option<u64>, end: Option<u64>)
        -> (r: TelemetryResult<Option<Vec<Vec<u64>>>>)
        requires
            self.wf(),
        ensures
            match spec_read_group_columns(self.data(), self.opened().row_group_offsets, self.opened().skip_entries,
                group.id_value(), start, end) {
                Ok(None) => r matches Ok(None),
                Ok(Some(cols)) => r matches Ok(Some(got)) && got@.len() == cols.len()
                    && forall|i: int| 0 <= i < cols.len() ==> #[trigger] got@[i]@ == windowed_columns(cols, ticks@, start, end)[i],
                Err(d) => r is Err && error_matches(r->Err_0, d),
            },
    {
        match self.read_group_columns(group, start, end) {
            Err(e) => Err(e),
            Ok(None) => Ok(None),
            Ok(Some(cols)) => {
                let ghost cv = columns_view(cols@);
                assert(cv.len() == cols@.len());
                Ok(Some(window_columns(cols, ticks, start, end)))
            },
        }
    }
}

} // verus!
