//! The latest-value dashboard channel: a slot of capacity one that always
//! holds the newest values. A frame of a newer subscription generation
//! discards whatever is pending; a frame of the pending generation is merged
//! into it (its tick and time win, its values are added on top); a frame of
//! an older generation is dropped as stale. Locking, waking and the
//! readiness notification are the caller's part; this module decides what
//! the slot and the counters become.

use vstd::prelude::*;
use crate::dashboard::{LatestValueStats, SendError};
use crate::distributor::try_send;

verus! {

/// The values computed for one tick, for one subscription generation. Each
/// value is an item name and the bit pattern of its `f64`; when a name
/// occurs twice, the later value counts.
#[derive(Debug)]
pub struct ValuesFrame {
    pub subscription_generation: u64,
    pub sample_tick: u64,
    pub timestamp_ns: u64,
    pub values: Vec<(String, u64)>,
}

/// A frame as plain values.
pub struct ValuesFrameView {
    pub subscription_generation: u64,
    pub sample_tick: u64,
    pub timestamp_ns: u64,
    pub values: Seq<(Seq<char>, u64)>,
}

impl View for ValuesFrame {
    type V = ValuesFrameView;

    open spec fn view(&self) -> ValuesFrameView {
        ValuesFrameView {
            subscription_generation: self.subscription_generation,
            sample_tick: self.sample_tick,
            timestamp_ns: self.timestamp_ns,
            values: self.values@.map_values(|p: (String, u64)| (p.0@, p.1)),
        }
    }
}

/// What the values of a frame say: each name with its last value.
pub open spec fn values_map(vs: Seq<(Seq<char>, u64)>) -> Map<Seq<char>, u64>
    decreases vs.len(),
{
    if vs.len() == 0 {
        Map::empty()
    } else {
        values_map(vs.drop_last()).insert(vs.last().0, vs.last().1)
    }
}

/// Values added on top of others say what both say, the later winning.
pub proof fn lemma_values_map_append(a: Seq<(Seq<char>, u64)>, b: Seq<(Seq<char>, u64)>)
    ensures
        values_map(a + b) == values_map(a).union_prefer_right(values_map(b)),
    decreases b.len(),
{
    if b.len() == 0 {
        assert(a + b =~= a);
        assert(values_map(a).union_prefer_right(values_map(b)) =~= values_map(a));
    } else {
        lemma_values_map_append(a, b.drop_last());
        assert((a + b).drop_last() =~= a + b.drop_last());
        assert((a + b).last() == b.last());
        assert(values_map(a + b) =~= values_map(a).union_prefer_right(values_map(b)));
    }
}

/// The slot of the channel, the oldest generation it still accepts, and
/// whether a readiness notification waits to be taken (notifications are
/// coalesced: at most one waits).
#[derive(Debug)]
pub struct LatestValueState {
    pub slot: Option<ValuesFrame>,
    pub generation_floor: u64,
    pub notified: bool,
}

/// The state as plain values.
pub struct LatestValueStateView {
    pub slot: Option<ValuesFrameView>,
    pub generation_floor: u64,
    pub notified: bool,
}

impl View for LatestValueState {
    type V = LatestValueStateView;

    open spec fn view(&self) -> LatestValueStateView {
        LatestValueStateView {
            slot: match self.slot {
                Some(f) => Some(f@),
                None => None,
            },
            generation_floor: self.generation_floor,
            notified: self.notified,
        }
    }
}

impl LatestValueState {
    /// An empty slot that accepts every generation, with no notification.
    pub fn new() -> (r: Self)
        ensures
            r@.slot is None,
            r@.generation_floor == 0,
            !r@.notified,
    {
        LatestValueState { slot: None, generation_floor: 0, notified: false }
    }
}

/// A pending frame always belongs to the generation the slot accepts.
pub open spec fn state_inv(s: LatestValueStateView) -> bool {
    s.slot matches Some(p) ==> p.subscription_generation == s.generation_floor
}

/// Counters moved on by one, wrapping as an atomic counter does.
pub open spec fn bump(n: u64) -> u64 {
    if n == u64::MAX { 0 } else { (n + 1) as u64 }
}

/// What sending `f` does to the slot and counters, with a receiver still
/// there: it is published; a frame older than the floor is stale and
/// changes nothing else; a newer one raises the floor and discards what is
/// pending (an overwrite); then a pending frame of the same generation
/// takes the frame's tick, time and values on top of its own, one of
/// another generation is replaced (each an overwrite), and an empty slot
/// takes the frame; a frame that is not stale leaves a notification
/// waiting.
pub open spec fn spec_send(s: LatestValueStateView, st: LatestValueStats, f: ValuesFrameView) -> (LatestValueStateView, LatestValueStats) {
    let st1 = LatestValueStats { published_frames: bump(st.published_frames), ..st };
    if f.subscription_generation < s.generation_floor {
        (s, LatestValueStats { stale_generation_frames: bump(st1.stale_generation_frames), ..st1 })
    } else {
        let newer = f.subscription_generation > s.generation_floor;
        let slot1 = if newer { None } else { s.slot };
        let floor1 = if newer { f.subscription_generation } else { s.generation_floor };
        let ow1 = if newer && s.slot is Some { bump(st1.overwritten_frames) } else { st1.overwritten_frames };
        match slot1 {
            Some(p) => {
                let merged = if p.subscription_generation != f.subscription_generation {
                    f
                } else {
                    ValuesFrameView { sample_tick: f.sample_tick, timestamp_ns: f.timestamp_ns, values: p.values + f.values, ..p }
                };
                (LatestValueStateView { slot: Some(merged), generation_floor: floor1, notified: true },
                 LatestValueStats { overwritten_frames: bump(ow1), ..st1 })
            },
            None => (LatestValueStateView { slot: Some(f), generation_floor: floor1, notified: true },
                     LatestValueStats { overwritten_frames: ow1, ..st1 }),
        }
    }
}

fn bump_counter(n: u64) -> (r: u64)
    ensures
        r == bump(n),
{
    n.wrapping_add(1)
}

/// Offer a frame to the channel. Without a receiver it is refused and
/// nothing changes.
pub fn send_latest(state: &mut LatestValueState, stats: &mut LatestValueStats, receiver_connected: bool, frame: ValuesFrame)
    -> (r: Result<(), SendError>)
    ensures
        !receiver_connected ==> r == Err::<(), SendError>(SendError::Disconnected) && final(state)@ == old(state)@
            && *final(stats) == *old(stats),
        receiver_connected ==> r is Ok && (final(state)@, *final(stats)) == spec_send(old(state)@, *old(stats), frame@),
{
    if !receiver_connected {
        return Err(SendError::Disconnected);
    }
    let ghost fv = frame@;
    stats.published_frames = bump_counter(stats.published_frames);
    if frame.subscription_generation < state.generation_floor {
        stats.stale_generation_frames = bump_counter(stats.stale_generation_frames);
        return Ok(());
    }
    if frame.subscription_generation > state.generation_floor {
        state.generation_floor = frame.subscription_generation;
        let old_slot = state.slot.take();
        if old_slot.is_some() {
            stats.overwritten_frames = bump_counter(stats.overwritten_frames);
        }
    }
    let pending = state.slot.take();
    match pending {
        Some(mut p) => {
            state.notified = true;
            if p.subscription_generation != frame.subscription_generation {
                state.slot = Some(frame);
            } else {
                let ghost pv = p@;
                let mut fr = frame;
                p.sample_tick = fr.sample_tick;
                p.timestamp_ns = fr.timestamp_ns;
                p.values.append(&mut fr.values);
                assert(p@.values =~= pv.values + fv.values);
                state.slot = Some(p);
            }
            stats.overwritten_frames = bump_counter(stats.overwritten_frames);
        },
        None => {
            state.notified = true;
            state.slot = Some(frame);
        },
    }
    Ok(())
}

/// Why nothing could be received.
#[derive(Debug, Clone, Copy, PartialEq, Eq, Structural)]
pub enum RecvOutcome {
    /// Nothing is pending yet.
    Empty,
    /// Nothing is pending and no sender is left.
    Disconnected,
}

/// Take the pending frame, if any, together with its notification;
/// otherwise say whether senders remain.
pub fn try_recv(state: &mut LatestValueState, stats: &mut LatestValueStats, sender_connected: bool)
    -> (r: Result<ValuesFrame, RecvOutcome>)
    ensures
        match old(state)@.slot {
            Some(p) => r matches Ok(f) && f@ == p && final(state)@.slot is None && !final(state)@.notified
                && final(stats).received_frames == bump(old(stats).received_frames),
            None => r == Err::<ValuesFrame, RecvOutcome>(if sender_connected { RecvOutcome::Empty } else { RecvOutcome::Disconnected })
                && final(state)@.slot is None && final(state)@.notified == old(state)@.notified
                && final(stats).received_frames == old(stats).received_frames,
        },
        final(state)@.generation_floor == old(state)@.generation_floor,
        final(stats).published_frames == old(stats).published_frames,
        final(stats).overwritten_frames == old(stats).overwritten_frames,
        final(stats).cleared_frames == old(stats).cleared_frames,
        final(stats).stale_generation_frames == old(stats).stale_generation_frames,
{
    match state.slot.take() {
        Some(f) => {
            state.notified = false;
            stats.received_frames = bump_counter(stats.received_frames);
            Ok(f)
        },
        None => {
            if sender_connected {
                Err(RecvOutcome::Empty)
            } else {
                Err(RecvOutcome::Disconnected)
            }
        },
    }
}

/// Discard the pending frame and any waiting notification; whether there
/// was a frame.
pub fn clear_pending(state: &mut LatestValueState, stats: &mut LatestValueStats) -> (r: bool)
    ensures
        r == old(state)@.slot is Some,
        final(state)@.slot is None,
        !final(state)@.notified,
        final(state)@.generation_floor == old(state)@.generation_floor,
        *final(stats) == (if r { LatestValueStats { cleared_frames: bump(old(stats).cleared_frames), ..*old(stats) } } else { *old(stats) }),
{
    let cleared = state.slot.take().is_some();
    state.notified = false;
    if cleared {
        stats.cleared_frames = bump_counter(stats.cleared_frames);
    }
    cleared
}

/// Accept no generation older than `generation` from now on, and discard
/// the pending frame and any waiting notification; whether there was a
/// frame.
pub fn advance_generation(state: &mut LatestValueState, stats: &mut LatestValueStats, generation: u64) -> (r: bool)
    ensures
        r == old(state)@.slot is Some,
        final(state)@.slot is None,
        !final(state)@.notified,
        final(state)@.generation_floor == (if generation > old(state)@.generation_floor { generation } else { old(state)@.generation_floor }),
        *final(stats) == (if r { LatestValueStats { cleared_frames: bump(old(stats).cleared_frames), ..*old(stats) } } else { *old(stats) }),
{
    if generation > state.generation_floor {
        state.generation_floor = generation;
    }
    clear_pending(state, stats)
}

/// Take the waiting notification, as a reader watching the notification
/// channel does; whether one was waiting. The slot stays as it is.
pub fn take_notification(state: &mut LatestValueState) -> (r: bool)
    ensures
        r == old(state)@.notified,
        !final(state)@.notified,
        final(state)@.slot == old(state)@.slot,
        final(state)@.generation_floor == old(state)@.generation_floor,
{
    let r = state.notified;
    state.notified = false;
    r
}

/// Every operation keeps a pending frame in the generation the slot
/// accepts, so values of different generations are never merged: a frame
/// is merged into a pending one only when both have the same generation.
pub proof fn lemma_send_keeps_generations_apart(s: LatestValueStateView, st: LatestValueStats, f: ValuesFrameView)
    requires
        state_inv(s),
    ensures
        state_inv(spec_send(s, st, f).0),
        spec_send(s, st, f).0.slot matches Some(p) ==> p.subscription_generation == (if f.subscription_generation < s.generation_floor {
            s.generation_floor
        } else {
            f.subscription_generation
        }),
        f.subscription_generation >= s.generation_floor ==> (spec_send(s, st, f).0.slot matches Some(p)
            && p.sample_tick == f.sample_tick && p.timestamp_ns == f.timestamp_ns),
{
}

/// Every frame offered to a connected channel is counted as published; a
/// frame of an older generation than the slot accepts changes nothing else
/// and is counted as stale; any other frame leaves a frame pending and a
/// notification waiting, and a pending frame it displaces or merges into
/// is counted as overwritten.
pub proof fn lemma_send_counts_and_notifies(s: LatestValueStateView, st: LatestValueStats, f: ValuesFrameView)
    ensures
        spec_send(s, st, f).1.published_frames == (if st.published_frames == u64::MAX { 0 } else { (st.published_frames + 1) as u64 }),
        spec_send(s, st, f).1.received_frames == st.received_frames,
        spec_send(s, st, f).1.cleared_frames == st.cleared_frames,
        f.subscription_generation < s.generation_floor ==> spec_send(s, st, f).0 == s
            && spec_send(s, st, f).1.stale_generation_frames == bump(st.stale_generation_frames)
            && spec_send(s, st, f).1.overwritten_frames == st.overwritten_frames,
        f.subscription_generation >= s.generation_floor ==> spec_send(s, st, f).0.slot is Some
            && spec_send(s, st, f).0.notified
            && spec_send(s, st, f).0.generation_floor == f.subscription_generation
            && spec_send(s, st, f).1.stale_generation_frames == st.stale_generation_frames
            && spec_send(s, st, f).1.overwritten_frames == (if s.slot is Some { bump(st.overwritten_frames) } else { st.overwritten_frames }),
{
}

/// A merged frame says what the pending frame said with the new frame's
/// values on top.
pub proof fn lemma_send_merges_values(s: LatestValueStateView, st: LatestValueStats, f: ValuesFrameView)
    requires
        state_inv(s),
        s.slot is Some,
        f.subscription_generation == s.generation_floor,
    ensures
        spec_send(s, st, f).0.slot matches Some(p)
            && values_map(p.values) == values_map(s.slot->0.values).union_prefer_right(values_map(f.values)),
{
    lemma_values_map_append(s.slot->0.values, f.values);
}

/// A sink that hands each frame to a bounded channel, dropping it when the
/// channel is full.
pub struct ChannelSink {
    sender: crossbeam_channel::Sender<ValuesFrame>,
}

impl ChannelSink {
    /// The sending end that the sink hands its frames to.
    pub closed spec fn sender(&self) -> crossbeam_channel::Sender<ValuesFrame> {
        self.sender
    }

    /// A sink over the sending end of a channel.
    pub fn new(sender: crossbeam_channel::Sender<ValuesFrame>) -> (r: Self)
        ensures
            r.sender() == sender,
    {
        ChannelSink { sender }
    }

    /// Offer a frame without waiting: refused when the channel is full or
    /// every receiver is gone.
    pub fn send(&self, frame: ValuesFrame) -> (r: Result<(), SendError>) {
        try_send(&self.sender, frame)
    }
}

/// A sink that discards every frame.
pub struct NullSink;

impl NullSink {
    /// Accept and discard a frame; this never fails.
    pub fn send(&self, frame: ValuesFrame) -> (r: Result<(), SendError>)
        ensures
            r is Ok,
    {
        Ok(())
    }
}

} // verus!
