//! The dashboard's plain data: sink errors, channel and service counters,
//! reference sources, item kinds and the CSV cells of its trace.

use vstd::prelude::*;
use crate::item_key::{ItemKey, ItemType};

verus! {

/// Why a sink could not take a frame.
#[derive(Debug, Clone, Copy, PartialEq, Eq, Structural)]
pub enum SendError {
    /// The channel is full.
    ChannelFull,
    /// The channel is disconnected.
    Disconnected,
}

impl SendError {
    /// The error's message.
    pub fn to_string(&self) -> (s: String)
        ensures
            s@ == (match self {
                SendError::ChannelFull => "sink channel full"@,
                SendError::Disconnected => "sink channel disconnected"@,
            }),
    {
        match self {
            SendError::ChannelFull => String::from_str("sink channel full"),
            SendError::Disconnected => String::from_str("sink channel disconnected"),
        }
    }
}

/// Point-in-time counters of a latest-value dashboard channel.
#[derive(Debug, Clone, Copy, Default, PartialEq, Eq)]
pub struct LatestValueStats {
    pub published_frames: u64,
    pub overwritten_frames: u64,
    pub received_frames: u64,
    pub cleared_frames: u64,
    pub stale_generation_frames: u64,
}

/// Point-in-time counters of the dashboard service.
#[derive(Debug, Clone, Copy, Default, PartialEq, Eq)]
pub struct DashboardServiceStats {
    pub input_frames: u64,
    pub produced_frames: u64,
    pub sink_dropped_frames: u64,
    pub computed_values: u64,
    pub compute_errors: u64,
    pub subscription_replacements: u64,
    pub last_sample_tick: u64,
    pub last_timestamp_ns: u64,
    pub last_compute_duration_ns: u64,
    pub max_compute_duration_ns: u64,
    pub subscription_generation: u64,
}

/// Where a reference lap comes from: a recording and a lap number in it.
#[derive(Debug, Clone, PartialEq, Eq, Hash)]
pub struct ReferenceSource {
    pub file_path: String,
    pub lap_number: i32,
}

/// The kind of a dashboard item.
#[derive(Debug, Clone, Copy, PartialEq, Eq, Structural)]
pub enum DashboardItemKind {
    RawItem,
    CalculatedItem,
    SystemItem,
}

/// The dashboard kind of an item key, by its type.
pub fn dashboard_kind_for_key(key: &ItemKey) -> (k: DashboardItemKind)
    ensures
        k == (match key.item_type {
            ItemType::Raw => DashboardItemKind::RawItem,
            ItemType::Calculated => DashboardItemKind::CalculatedItem,
            ItemType::System => DashboardItemKind::SystemItem,
        }),
{
    match key.item_type {
        ItemType::Raw => DashboardItemKind::RawItem,
        ItemType::Calculated => DashboardItemKind::CalculatedItem,
        ItemType::System => DashboardItemKind::SystemItem,
    }
}

/// `c` forces a CSV cell to be quoted.
pub open spec fn is_csv_special(c: char) -> bool {
    c == ',' || c == '"' || c == '\n' || c == '\r'
}

/// `s` with every `"` doubled.
pub open spec fn double_quotes(s: Seq<char>) -> Seq<char>
    decreases s.len(),
{
    if s.len() == 0 {
        Seq::empty()
    } else {
        double_quotes(s.drop_last()) + if s.last() == '"' { seq!['"', '"'] } else { seq![s.last()] }
    }
}

/// A CSV cell: the value itself, or, if it holds a comma, quote or line
/// break, the value in quotes with its quotes doubled.
pub open spec fn spec_csv_cell(s: Seq<char>) -> Seq<char> {
    if exists|i: int| 0 <= i < s.len() && is_csv_special(#[trigger] s[i]) {
        seq!['"'] + double_quotes(s) + seq!['"']
    } else {
        s
    }
}

/// A quoted CSV cell's content with each doubled quote read as one quote.
pub open spec fn undouble_quotes(s: Seq<char>) -> Seq<char>
    decreases s.len(),
{
    if s.len() == 0 {
        Seq::empty()
    } else if s.last() == '"' && s.len() >= 2 {
        undouble_quotes(s.subrange(0, s.len() - 2)).push('"')
    } else {
        undouble_quotes(s.drop_last()).push(s.last())
    }
}

/// What a CSV reader takes a cell to hold: for a quoted cell, what stands
/// between the quotes with doubled quotes read as one; otherwise the cell.
pub open spec fn csv_cell_value(c: Seq<char>) -> Seq<char> {
    if c.len() >= 2 && c[0] == '"' && c.last() == '"' {
        undouble_quotes(c.subrange(1, c.len() - 1))
    } else {
        c
    }
}

proof fn lemma_undouble_doubled(s: Seq<char>)
    ensures
        undouble_quotes(double_quotes(s)) == s,
    decreases s.len(),
{
    if s.len() > 0 {
        lemma_undouble_doubled(s.drop_last());
        let d = double_quotes(s.drop_last());
        let tail = if s.last() == '"' { seq!['"', '"'] } else { seq![s.last()] };
        let ds = d + tail;
        assert(double_quotes(s) == ds);
        if s.last() == '"' {
            assert(ds.last() == '"');
            assert(ds.subrange(0, ds.len() - 2) =~= d);
        } else {
            assert(ds.drop_last() =~= d);
        }
        assert(s.drop_last().push(s.last()) =~= s);
    }
}

/// A CSV cell reads back as the value it was made from, and a value is
/// quoted exactly when it holds a comma, a quote or a line break.
pub proof fn lemma_csv_cell_reads_back(s: Seq<char>)
    ensures
        csv_cell_value(spec_csv_cell(s)) == s,
        (spec_csv_cell(s) != s) <==> exists|i: int| 0 <= i < s.len() && is_csv_special(#[trigger] s[i]),
{
    if exists|i: int| 0 <= i < s.len() && is_csv_special(#[trigger] s[i]) {
        let c = spec_csv_cell(s);
        let d = double_quotes(s);
        assert(c == seq!['"'] + d + seq!['"']);
        assert(c.subrange(1, c.len() - 1) =~= d);
        lemma_undouble_doubled(s);
        assert(c.len() != s.len()) by {
            lemma_doubled_len(s);
        }
    } else {
        if s.len() >= 2 && s[0] == '"' {
            assert(is_csv_special(s[0]));
        }
    }
}

/// Doubling quotes never shortens a text.
proof fn lemma_doubled_len(s: Seq<char>)
    ensures
        double_quotes(s).len() >= s.len(),
    decreases s.len(),
{
    if s.len() > 0 {
        lemma_doubled_len(s.drop_last());
    }
}

/// The CSV cell for `value`.
pub fn csv_cell(value: &str) -> (cell: String)
    ensures
        cell@ == spec_csv_cell(value@),
{
    let n = value.unicode_len();
    let mut special = false;
    let mut i: usize = 0;
    while i < n
        invariant
            n == value@.len(),
            i <= n,
            special <==> exists|j: int| 0 <= j < i && is_csv_special(#[trigger] value@[j]),
        decreases n - i,
    {
        let c = value.get_char(i);
        if c == ',' || c == '"' || c == '\n' || c == '\r' {
            special = true;
        }
        i = i + 1;
    }
    if !special {
        return String::from_str(value);
    }
    let mut out = String::from_str("\"");
    proof { reveal_strlit("\""); }
    let ghost start = out@;
    let mut k: usize = 0;
    while k < n
        invariant
            n == value@.len(),
            k <= n,
            start == seq!['"'],
            out@ == start + double_quotes(value@.subrange(0, k as int)),
        decreases n - k,
    {
        let c = value.get_char(k);
        if c == '"' {
            proof { reveal_strlit("\"\""); }
            out.append("\"\"");
        } else {
            let piece = value.substring_char(k, k + 1);
            out.append(piece);
            assert(piece@ =~= seq![c]);
        }
        proof {
            let pre = value@.subrange(0, k + 1);
            assert(pre.drop_last() =~= value@.subrange(0, k as int));
            assert(pre.last() == c);
        }
        k = k + 1;
    }
    proof { reveal_strlit("\""); }
    out.append("\"");
    assert(value@.subrange(0, n as int) =~= value@);
    out
}

} // verus!
