//! What one playback does with its source: the trim window, the volume, and
//! the decision taken at each poll of the stop flag.

use vstd::prelude::*;

verus! {

/// Why a playback failed.
#[derive(Clone, Copy, Debug, PartialEq, Eq, Structural)]
pub enum PlaybackError {
    /// The source file is missing or cannot be read.
    FileNotFound,
    /// The source is not audio that can be decoded.
    DecodeError,
    /// No output device could be opened.
    DeviceError,
    /// The trim window ends at or before its start.
    InvalidTrim,
}

/// The longest that a playback sleeps between two looks at the stop flag, in
/// milliseconds.
pub const POLL_INTERVAL_MS: u64 = 50;

/// How long a new dispatch waits before it clears a stop flag that is still
/// raised, in milliseconds.
pub const STOP_RESET_DELAY_MS: u64 = 100;

/// The volume that leaves a source as loud as it is. Volumes are counted in
/// millionths of it.
pub const FULL_VOLUME: u32 = 1_000_000;

/// The part of a source that is played: from `skip_ms` on, for `take_ms`
/// milliseconds or, without a limit, to the end of the source.
#[derive(Clone, Copy, Debug, PartialEq, Eq)]
pub struct TrimPlan {
    pub skip_ms: u64,
    pub take_ms: Option<u64>,
}

/// Whether the two bounds are both given and the window between them is
/// empty or turned round.
pub open spec fn trim_is_invalid(start: Option<u64>, end: Option<u64>) -> bool {
    start is Some && end is Some && end.unwrap() <= start.unwrap()
}

/// The window that valid bounds describe, in milliseconds: with both, from
/// `start` up to `end`; with `end` alone, from the beginning up to `end`; with
/// `start` alone, from `start` to the end of the source; with neither, all of
/// it.
pub open spec fn trim_window(start: Option<u64>, end: Option<u64>) -> TrimPlan {
    let skip = match start {
        Some(s) => s,
        None => 0,
    };
    TrimPlan {
        skip_ms: skip,
        take_ms: match end {
            Some(e) => Some((e - skip) as u64),
            None => None,
        },
    }
}

/// Validates the trim bounds and turns them into the window to play.
pub fn plan_trim(start: Option<u64>, end: Option<u64>) -> (r: Result<TrimPlan, PlaybackError>)
    ensures
        r == if trim_is_invalid(start, end) {
            Err::<TrimPlan, PlaybackError>(PlaybackError::InvalidTrim)
        } else {
            Ok::<TrimPlan, PlaybackError>(trim_window(start, end))
        },
{
    let skip: u64 = match start {
        Some(s) => s,
        None => 0,
    };
    match end {
        Some(e) => {
            if start.is_some() && e <= skip {
                Err(PlaybackError::InvalidTrim)
            } else {
                Ok(TrimPlan { skip_ms: skip, take_ms: Some(e - skip) })
            }
        },
        None => Ok(TrimPlan { skip_ms: skip, take_ms: None }),
    }
}

/// A window with both bounds starts at the first and lasts as long as the
/// bounds are apart.
pub proof fn lemma_trim_window_length(start: u64, end: u64)
    requires
        start < end,
    ensures
        !trim_is_invalid(Some(start), Some(end)),
        trim_window(Some(start), Some(end)).skip_ms == start,
        trim_window(Some(start), Some(end)).take_ms == Some((end - start) as u64),
        trim_window(Some(start), Some(end)).skip_ms + trim_window(
            Some(start),
            Some(end),
        ).take_ms.unwrap() == end,
{
}

/// A volume held to the range from silence to full.
pub open spec fn clamped(volume: u32) -> u32 {
    if volume > FULL_VOLUME {
        FULL_VOLUME
    } else {
        volume
    }
}

/// Holds a volume to the range from silence to full.
pub fn clamp_volume(volume: u32) -> (r: u32)
    ensures
        r == clamped(volume),
        r <= FULL_VOLUME,
{
    if volume > FULL_VOLUME {
        FULL_VOLUME
    } else {
        volume
    }
}

/// The volume at which a sound goes out: the master volume times the sound's
/// own, in millionths, rounded down.
pub open spec fn scaled_volume(master: u32, own: u32) -> int {
    (master as int * own as int) / (FULL_VOLUME as int)
}

/// The volume at which a sound goes out under a master volume.
pub fn effective_volume(master: u32, own: u32) -> (r: u64)
    ensures
        r == scaled_volume(master, own),
{
    let m: u64 = master as u64;
    let o: u64 = own as u64;
    assert(m * o <= 0xFFFF_FFFF * 0xFFFF_FFFF) by (nonlinear_arith)
        requires
            m <= 0xFFFF_FFFF,
            o <= 0xFFFF_FFFF,
    ;
    (m * o) / (FULL_VOLUME as u64)
}

/// Two volumes within range give a volume within range, and full volume
/// changes nothing.
pub proof fn lemma_scaled_volume(master: u32, own: u32)
    requires
        master <= FULL_VOLUME,
        own <= FULL_VOLUME,
    ensures
        0 <= scaled_volume(master, own) <= FULL_VOLUME,
        scaled_volume(master, own) <= own,
        scaled_volume(master, own) <= master,
        scaled_volume(FULL_VOLUME, own) == own,
        scaled_volume(master, FULL_VOLUME) == master,
{
    let m = master as int;
    let o = own as int;
    let f = FULL_VOLUME as int;
    assert(0 <= m * o <= f * o && m * o <= m * f) by (nonlinear_arith)
        requires
            0 <= m <= f,
            0 <= o <= f,
    ;
    assert((f * o) / f == o && (m * f) / f == m) by (nonlinear_arith)
        requires
            f > 0,
    ;
    assert((m * o) / f <= (f * o) / f && (m * o) / f <= (m * f) / f && 0 <= (m * o) / f)
        by (nonlinear_arith)
        requires
            0 <= m * o <= f * o,
            m * o <= m * f,
            f > 0,
    ;
}

/// The volume at which a sound goes out under a master volume: each of the
/// two is held to the range from silence to full, and the master volume
/// scales the sound's own. The result is within the range.
pub open spec fn output_volume(master: u32, own: u32) -> u32 {
    scaled_volume(clamped(master), clamped(own)) as u32
}

/// The volume at which a sound goes out under a master volume, within the
/// range from silence to full.
pub fn dispatch_volume(master: u32, own: u32) -> (r: u32)
    ensures
        r == output_volume(master, own),
        r <= FULL_VOLUME,
{
    proof {
        lemma_scaled_volume(clamped(master), clamped(own));
    }
    let scaled = effective_volume(clamp_volume(master), clamp_volume(own));
    scaled as u32
}

/// What a playing task does after a look at its sink and at the stop flag.
#[derive(Clone, Copy, Debug, PartialEq, Eq, Structural)]
pub enum PollDecision {
    /// The sink has run dry: the sound is over.
    Finish,
    /// The stop flag is raised: halt the output now and release it.
    Halt,
    /// Keep playing and look again after this many milliseconds.
    Wait(u64),
}

/// The decision at a poll: a sink that has run dry ends the playback; else a
/// raised stop flag halts it; else it sleeps for one poll interval.
pub open spec fn poll_decision(drained: bool, stop_requested: bool) -> PollDecision {
    if drained {
        PollDecision::Finish
    } else if stop_requested {
        PollDecision::Halt
    } else {
        PollDecision::Wait(POLL_INTERVAL_MS)
    }
}

/// Decides what a playing task does next.
pub fn poll(drained: bool, stop_requested: bool) -> (r: PollDecision)
    ensures
        r == poll_decision(drained, stop_requested),
{
    if drained {
        PollDecision::Finish
    } else if stop_requested {
        PollDecision::Halt
    } else {
        PollDecision::Wait(POLL_INTERVAL_MS)
    }
}

/// A task never sleeps through a raised stop flag, and never sleeps longer
/// than a tenth of a second: once the flag is raised, the next poll ends the
/// task.
pub proof fn lemma_stop_is_seen_at_next_poll(drained: bool, stop_requested: bool)
    ensures
        stop_requested ==> !(poll_decision(drained, stop_requested) is Wait),
        poll_decision(drained, stop_requested) is Wait ==> poll_decision(
            drained,
            stop_requested,
        )->Wait_0 <= 100,
{
}

/// How long a new dispatch waits before it clears the stop flag: a flag left
/// raised by an earlier stop gets the delay, so that the tasks it was meant
/// for see it; a lowered flag needs none.
pub open spec fn stop_reset_delay(stop_requested: bool) -> Option<u64> {
    if stop_requested {
        Some(STOP_RESET_DELAY_MS)
    } else {
        None
    }
}

/// Decides whether a new dispatch has to wait and clear the stop flag first.
pub fn reset_delay(stop_requested: bool) -> (r: Option<u64>)
    ensures
        r == stop_reset_delay(stop_requested),
{
    if stop_requested {
        Some(STOP_RESET_DELAY_MS)
    } else {
        None
    }
}

} // verus!
