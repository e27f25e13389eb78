//! One playback task, step by step.
//!
//! The task decides; its caller does the work. The caller carries out the
//! step that the task hands it (open the file, decode, open the device, play,
//! sleep) and reports what happened as an event, for which the task hands
//! out the next step. A task runs on a thread of its own: nothing here
//! blocks, and nothing is shared between tasks but the stop flag that the
//! caller reads at each poll.

use crate::device::{chosen_device, names_of, resolve_device, DeviceChoice};
use crate::dispatch::{PlaybackRequest, PlaybackRequestView};
use crate::playback::{
    clamp_volume, clamped, plan_trim, poll, poll_decision, trim_is_invalid, trim_window,
    PlaybackError, PollDecision, POLL_INTERVAL_MS,
};
use vstd::prelude::*;

verus! {

/// How far a task has come.
#[derive(Clone, Copy, Debug, PartialEq, Eq, Structural)]
pub enum Stage {
    /// The source file is being opened.
    Opening,
    /// The source is being decoded.
    Decoding,
    /// The output devices are being listed, to find the one asked for.
    Resolving,
    /// The chosen output device is being opened.
    Connecting(DeviceChoice),
    /// The sound is playing.
    Playing,
    /// The sound played to its end.
    Completed,
    /// The sound was cut short by the stop flag.
    Halted,
    /// The task failed.
    Failed(PlaybackError),
}

/// What the caller reports back.
#[derive(Debug)]
pub enum Event {
    FileOpened,
    /// The file is missing or cannot be read.
    FileUnavailable,
    Decoded,
    /// The data is not audio that can be decoded.
    Undecodable,
    /// The names of the output devices, in the order of the system's list. A
    /// device whose name cannot be read has `None`.
    Devices(Vec<Option<String>>),
    DeviceOpened,
    /// The chosen device could not be opened.
    DeviceUnavailable,
    /// One look at the sink and at the stop flag.
    Polled { drained: bool, stop_requested: bool },
}

/// What the caller is to do next.
#[derive(Clone, Copy, Debug, PartialEq, Eq)]
pub enum Step {
    OpenFile,
    Decode,
    ListDevices,
    OpenDevice(DeviceChoice),
    /// Set the volume, in millionths of full volume and no more than full,
    /// queue the source from `skip_ms` on, for `take_ms` milliseconds or to
    /// its end, and poll.
    Start { skip_ms: u64, take_ms: Option<u64>, volume: u32 },
    /// Sleep this many milliseconds, then poll.
    Wait(u64),
    /// Stop the output at once, release it, and end the task.
    Halt,
    /// End the task: the sound is over.
    Succeed,
    /// End the task with this error.
    Fail(PlaybackError),
}

/// Whether a task in this stage is over.
pub open spec fn is_over(stage: Stage) -> bool {
    stage is Completed || stage is Halted || stage is Failed
}

/// How a task that is over ended; a task cut short by the stop flag ended
/// well.
pub open spec fn outcome(stage: Stage) -> Option<Result<(), PlaybackError>> {
    match stage {
        Stage::Completed | Stage::Halted => Some(Ok(())),
        Stage::Failed(e) => Some(Err(e)),
        _ => None,
    }
}

/// The step that a stage is waiting on.
pub open spec fn pending(stage: Stage) -> Step {
    match stage {
        Stage::Opening => Step::OpenFile,
        Stage::Decoding => Step::Decode,
        Stage::Resolving => Step::ListDevices,
        Stage::Connecting(choice) => Step::OpenDevice(choice),
        Stage::Playing => Step::Wait(POLL_INTERVAL_MS),
        Stage::Completed => Step::Succeed,
        Stage::Halted => Step::Halt,
        Stage::Failed(e) => Step::Fail(e),
    }
}

/// The stage after a failure, and the step that reports it.
pub open spec fn failing(error: PlaybackError) -> (Stage, Step) {
    (Stage::Failed(error), Step::Fail(error))
}

/// The stage that follows `stage` on `event`, and the step to take.
///
/// The file is opened, then decoded. A request that names a device has the
/// devices listed and the first that answers to the name chosen, the
/// default where none does; a request that names none goes to the default
/// without a list. Once the device is open the trim bounds are checked and
/// the sound starts, at the volume of the request held to full volume.
/// While it plays, each poll ends the task where the sink
/// has run dry, halts it where the stop flag is raised, and sleeps
/// otherwise. A failure ends the task, and a task that is over stays as it
/// is. An event that the stage is not waiting for changes nothing: the
/// pending step is handed out again.
pub open spec fn next(request: PlaybackRequestView, stage: Stage, event: Event) -> (Stage, Step) {
    match (stage, event) {
        (Stage::Opening, Event::FileOpened) => (Stage::Decoding, Step::Decode),
        (Stage::Opening, Event::FileUnavailable) => failing(PlaybackError::FileNotFound),
        (Stage::Decoding, Event::Decoded) => if request.device is Some {
            (Stage::Resolving, Step::ListDevices)
        } else {
            (
                Stage::Connecting(DeviceChoice::SystemDefault),
                Step::OpenDevice(DeviceChoice::SystemDefault),
            )
        },
        (Stage::Decoding, Event::Undecodable) => failing(PlaybackError::DecodeError),
        (Stage::Resolving, Event::Devices(names)) => {
            let choice = chosen_device(names_of(names@), request.device);
            (Stage::Connecting(choice), Step::OpenDevice(choice))
        },
        (Stage::Connecting(_), Event::DeviceOpened) => if trim_is_invalid(
            request.trim_start,
            request.trim_end,
        ) {
            failing(PlaybackError::InvalidTrim)
        } else {
            let window = trim_window(request.trim_start, request.trim_end);
            (
                Stage::Playing,
                Step::Start {
                    skip_ms: window.skip_ms,
                    take_ms: window.take_ms,
                    volume: clamped(request.volume),
                },
            )
        },
        (Stage::Connecting(_), Event::DeviceUnavailable) => failing(PlaybackError::DeviceError),
        (Stage::Playing, Event::Polled { drained, stop_requested }) => match poll_decision(
            drained,
            stop_requested,
        ) {
            PollDecision::Finish => (Stage::Completed, Step::Succeed),
            PollDecision::Halt => (Stage::Halted, Step::Halt),
            PollDecision::Wait(ms) => (Stage::Playing, Step::Wait(ms)),
        },
        _ => (stage, pending(stage)),
    }
}

/// One playback task: its request and how far it has come.
pub struct PlaybackTask {
    request: PlaybackRequest,
    stage: Stage,
}

impl PlaybackTask {
    /// The request that the task carries out.
    pub closed spec fn request(&self) -> PlaybackRequestView {
        self.request@
    }

    /// How far the task has come.
    pub closed spec fn stage(&self) -> Stage {
        self.stage
    }

    /// A task for `request`, about to open the file.
    pub fn new(request: PlaybackRequest) -> (r: Self)
        ensures
            r.request() == request@,
            r.stage() == Stage::Opening,
    {
        PlaybackTask { request, stage: Stage::Opening }
    }

    /// The path of the source file.
    pub fn path(&self) -> (r: &str)
        ensures
            r@ == self.request().path,
    {
        self.request.path.as_str()
    }

    /// How far the task has come.
    pub fn current_stage(&self) -> (r: Stage)
        ensures
            r == self.stage(),
    {
        self.stage
    }

    /// The step that the task is waiting on. For a new task this is the
    /// first step.
    pub fn pending_step(&self) -> (r: Step)
        ensures
            r == pending(self.stage()),
    {
        match self.stage {
            Stage::Opening => Step::OpenFile,
            Stage::Decoding => Step::Decode,
            Stage::Resolving => Step::ListDevices,
            Stage::Connecting(choice) => Step::OpenDevice(choice),
            Stage::Playing => Step::Wait(POLL_INTERVAL_MS),
            Stage::Completed => Step::Succeed,
            Stage::Halted => Step::Halt,
            Stage::Failed(e) => Step::Fail(e),
        }
    }

    /// How the task ended, once it is over.
    pub fn result(&self) -> (r: Option<Result<(), PlaybackError>>)
        ensures
            r == outcome(self.stage()),
    {
        match self.stage {
            Stage::Completed | Stage::Halted => Some(Ok(())),
            Stage::Failed(e) => Some(Err(e)),
            _ => None,
        }
    }

    /// Ends the task with `error`.
    fn fail(&mut self, error: PlaybackError) -> (r: Step)
        ensures
            final(self).request() == old(self).request(),
            (final(self).stage(), r) == failing(error),
    {
        self.stage = Stage::Failed(error);
        Step::Fail(error)
    }

    /// Takes in what the caller reports and hands out the next step.
    pub fn advance(&mut self, event: Event) -> (r: Step)
        ensures
            final(self).request() == old(self).request(),
            (final(self).stage(), r) == next(old(self).request(), old(self).stage(), event),
    {
        match (self.stage, event) {
            (Stage::Opening, Event::FileOpened) => {
                self.stage = Stage::Decoding;
                Step::Decode
            },
            (Stage::Opening, Event::FileUnavailable) => self.fail(PlaybackError::FileNotFound),
            (Stage::Decoding, Event::Decoded) => {
                if self.request.device.is_some() {
                    self.stage = Stage::Resolving;
                    Step::ListDevices
                } else {
                    self.stage = Stage::Connecting(DeviceChoice::SystemDefault);
                    Step::OpenDevice(DeviceChoice::SystemDefault)
                }
            },
            (Stage::Decoding, Event::Undecodable) => self.fail(PlaybackError::DecodeError),
            (Stage::Resolving, Event::Devices(names)) => {
                let choice = resolve_device(&names, &self.request.device);
                self.stage = Stage::Connecting(choice);
                Step::OpenDevice(choice)
            },
            (Stage::Connecting(_), Event::DeviceOpened) => {
                match plan_trim(self.request.trim_start, self.request.trim_end) {
                    Ok(window) => {
                        self.stage = Stage::Playing;
                        Step::Start {
                            skip_ms: window.skip_ms,
                            take_ms: window.take_ms,
                            volume: clamp_volume(self.request.volume),
                        }
                    },
                    Err(_) => self.fail(PlaybackError::InvalidTrim),
                }
            },
            (Stage::Connecting(_), Event::DeviceUnavailable) => self.fail(
                PlaybackError::DeviceError,
            ),
            (Stage::Playing, Event::Polled { drained, stop_requested }) => {
                match poll(drained, stop_requested) {
                    PollDecision::Finish => {
                        self.stage = Stage::Completed;
                        Step::Succeed
                    },
                    PollDecision::Halt => {
                        self.stage = Stage::Halted;
                        Step::Halt
                    },
                    PollDecision::Wait(ms) => Step::Wait(ms),
                }
            },
            _ => self.pending_step(),
        }
    }
}

/// The stage that a task reaches from `stage` on the events of `events`, one
/// after the other.
pub open spec fn stage_after(request: PlaybackRequestView, stage: Stage, events: Seq<Event>) -> Stage
    decreases events.len(),
{
    if events.len() == 0 {
        stage
    } else {
        next(request, stage_after(request, stage, events.drop_last()), events.last()).0
    }
}

/// A task that is over stays as it is, whatever is reported to it, and the
/// step that it hands out ends the task.
pub proof fn lemma_over_is_final(request: PlaybackRequestView, stage: Stage, event: Event)
    requires
        is_over(stage),
    ensures
        next(request, stage, event).0 == stage,
        next(request, stage, event).1 == pending(stage),
        !(next(request, stage, event).1 is Wait),
{
}

/// A task never sleeps through a raised stop flag: a task that polls while
/// the flag is raised is over after that poll, without an error, and a task
/// that is sent to sleep sleeps no longer than a tenth of a second.
pub proof fn lemma_stop_ends_playing(request: PlaybackRequestView, drained: bool)
    ensures
        is_over(next(request, Stage::Playing, Event::Polled { drained, stop_requested: true }).0),
        outcome(next(request, Stage::Playing, Event::Polled { drained, stop_requested: true }).0)
            == Some(Ok::<(), PlaybackError>(())),
        forall|stage: Stage, event: Event| #[trigger]
            next(request, stage, event).1 is Wait ==> next(request, stage, event).1->Wait_0
                <= 100,
{
}

/// Each failure comes from its own step and from nowhere else: a file that
/// cannot be opened, data that cannot be decoded, a device that cannot be
/// opened, or trim bounds that are turned round.
pub proof fn lemma_failures(request: PlaybackRequestView, stage: Stage, event: Event)
    requires
        !is_over(stage),
    ensures
        next(request, stage, event).0 == Stage::Failed(PlaybackError::FileNotFound) <==> stage
            is Opening && event is FileUnavailable,
        next(request, stage, event).0 == Stage::Failed(PlaybackError::DecodeError) <==> stage
            is Decoding && event is Undecodable,
        next(request, stage, event).0 == Stage::Failed(PlaybackError::DeviceError) <==> stage
            is Connecting && event is DeviceUnavailable,
        next(request, stage, event).0 == Stage::Failed(PlaybackError::InvalidTrim) <==> stage
            is Connecting && event is DeviceOpened && trim_is_invalid(
            request.trim_start,
            request.trim_end,
        ),
{
}

/// Whatever is reported after a task is over, it stays over with the same
/// outcome.
pub proof fn lemma_outcome_is_kept(request: PlaybackRequestView, stage: Stage, events: Seq<Event>)
    requires
        is_over(stage),
    ensures
        stage_after(request, stage, events) == stage,
    decreases events.len(),
{
    if events.len() > 0 {
        lemma_outcome_is_kept(request, stage, events.drop_last());
        lemma_over_is_final(request, stage, events.last());
    }
}

} // verus!
