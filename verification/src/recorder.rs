//! The decisions of the live recorder's polling loop. Each turn it reads
//! the game's status from shared memory, then this module says what to do:
//! start a recording when the session goes live, take a sample while it is
//! live, keep the recording open while paused, and finish it when the
//! session ends. Status lines are throttled to one per status interval.

use vstd::prelude::*;

verus! {

/// The game status in which a session is running.
pub const STATUS_LIVE: i32 = 2;
/// The game status in which a session is paused.
pub const STATUS_PAUSE: i32 = 3;
/// The shortest interval between two status lines, in milliseconds.
pub const MIN_LOG_INTERVAL_MS: u64 = 250;

/// What the recorder does on one turn of its loop.
#[derive(Debug, Clone, Copy, PartialEq, Eq, Structural)]
pub enum RecorderAction {
    /// Open a new recording, then take a sample.
    StartAndSample,
    /// Take a sample into the open recording.
    Sample,
    /// Say that sampling is suspended while the game is paused.
    NotePaused,
    /// Finish the open recording and stop: the session ended.
    Finish,
    /// Say that the recorder is waiting for a live session.
    NoteWaiting,
    /// Nothing this turn.
    Idle,
}

/// The action for a status read from the game, given whether a recording
/// is open and whether a status line is due.
pub open spec fn spec_recorder_action(status: i32, recording: bool, log_due: bool) -> RecorderAction {
    if status == STATUS_LIVE {
        if recording { RecorderAction::Sample } else { RecorderAction::StartAndSample }
    } else if status == STATUS_PAUSE {
        if recording && log_due { RecorderAction::NotePaused } else { RecorderAction::Idle }
    } else if recording {
        RecorderAction::Finish
    } else if log_due {
        RecorderAction::NoteWaiting
    } else {
        RecorderAction::Idle
    }
}

/// Decide what to do with a status read from the game.
pub fn recorder_action(status: i32, recording: bool, log_due: bool) -> (a: RecorderAction)
    ensures
        a == spec_recorder_action(status, recording, log_due),
{
    if status == STATUS_LIVE {
        if recording { RecorderAction::Sample } else { RecorderAction::StartAndSample }
    } else if status == STATUS_PAUSE {
        if recording && log_due { RecorderAction::NotePaused } else { RecorderAction::Idle }
    } else if recording {
        RecorderAction::Finish
    } else if log_due {
        RecorderAction::NoteWaiting
    } else {
        RecorderAction::Idle
    }
}

/// What the recorder does when the game's memory cannot be read any more.
#[derive(Debug, Clone, Copy, PartialEq, Eq, Structural)]
pub enum LostAction {
    /// Finish the open recording and stop without an error.
    FinishAndStop,
    /// Drop the connection and try again later, saying so if a line is due.
    Reconnect { log: bool },
    /// Stop with the error.
    Fail,
}

/// When reading the game's status fails: an open recording is finished,
/// else the recorder reconnects.
pub fn on_status_lost(recording: bool, log_due: bool) -> (a: LostAction)
    ensures
        recording ==> a == LostAction::FinishAndStop,
        !recording ==> a == (LostAction::Reconnect { log: log_due }),
{
    if recording { LostAction::FinishAndStop } else { LostAction::Reconnect { log: log_due } }
}

/// When reading a sample fails: an open recording is finished, else the
/// error stops the recorder.
pub fn on_sample_lost(recording: bool) -> (a: LostAction)
    ensures
        recording ==> a == LostAction::FinishAndStop,
        !recording ==> a == LostAction::Fail,
{
    if recording { LostAction::FinishAndStop } else { LostAction::Fail }
}

/// Whether a status line is due: the status interval has passed since the
/// last one (a clock reading before it counts as no time passed).
pub fn log_due(last_ns: u64, now_ns: u64, interval_ns: u64) -> (r: bool)
    ensures
        r == (now_ns >= last_ns && now_ns - last_ns >= interval_ns),
{
    now_ns >= last_ns && now_ns - last_ns >= interval_ns
}

/// The status interval actually used: at least the shortest one.
pub fn status_interval_ms(requested_ms: u64) -> (r: u64)
    ensures
        r == (if requested_ms < MIN_LOG_INTERVAL_MS { MIN_LOG_INTERVAL_MS } else { requested_ms }),
{
    if requested_ms < MIN_LOG_INTERVAL_MS { MIN_LOG_INTERVAL_MS } else { requested_ms }
}

/// The flush interval: none when 0 is asked for, else at least the
/// shortest interval.
pub fn flush_interval_ms(requested_ms: u64) -> (r: Option<u64>)
    ensures
        requested_ms == 0 ==> r is None,
        requested_ms != 0 ==> r == Some(if requested_ms < MIN_LOG_INTERVAL_MS { MIN_LOG_INTERVAL_MS } else { requested_ms }),
{
    if requested_ms == 0 { None } else { Some(status_interval_ms(requested_ms)) }
}

/// The tick of the next sample: one more, stopping at the largest `u64`.
pub fn next_sample_tick(tick: u64) -> (r: u64)
    ensures
        r == (if tick == u64::MAX { tick } else { (tick + 1) as u64 }),
{
    tick.saturating_add(1)
}

/// A recording is opened only when the session is live and none is open,
/// and the recorder stops only when one is open: an ended session never
/// loses samples of a recording that was not finished.
pub proof fn lemma_recorder_actions(status: i32, recording: bool, log_due: bool)
    ensures
        spec_recorder_action(status, recording, log_due) == RecorderAction::StartAndSample
            <==> status == STATUS_LIVE && !recording,
        spec_recorder_action(status, recording, log_due) == RecorderAction::Finish
            ==> recording && status != STATUS_LIVE && status != STATUS_PAUSE,
        recording && status != STATUS_LIVE && status != STATUS_PAUSE
            ==> spec_recorder_action(status, recording, log_due) == RecorderAction::Finish,
{
}

/// The whole decision table: while live (status 2) a sample is taken,
/// opening a recording first when none is open; while paused (status 3)
/// nothing is recorded and only an open recording is noted, when a line
/// is due; in any other status an open recording is finished, and
/// otherwise the recorder notes that it waits, when a line is due.
pub proof fn lemma_recorder_decision_table(status: i32, recording: bool, log_due: bool)
    ensures
        status == 2 ==> spec_recorder_action(status, recording, log_due)
            == (if recording { RecorderAction::Sample } else { RecorderAction::StartAndSample }),
        status == 3 ==> spec_recorder_action(status, recording, log_due)
            == (if recording && log_due { RecorderAction::NotePaused } else { RecorderAction::Idle }),
        status != 2 && status != 3 ==> spec_recorder_action(status, recording, log_due)
            == (if recording { RecorderAction::Finish } else if log_due { RecorderAction::NoteWaiting } else { RecorderAction::Idle }),
{
}

} // verus!
