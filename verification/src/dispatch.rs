//! Turning a request to play a sound into the playbacks that carry it out.

use crate::playback::{dispatch_volume, output_volume, FULL_VOLUME};
use crate::settings::SettingsView;
use crate::sound::{clone_text, same_text, text_of, SoundView};
use crate::state::{position_of, AudioState, BoardError};
use vstd::prelude::*;

verus! {

/// One playback: a source, the device it goes to, and how it is played.
/// The volume is in millionths of full volume, times in milliseconds.
#[derive(Debug, PartialEq, Eq)]
pub struct PlaybackRequest {
    pub path: String,
    /// The name asked for; `None` asks for the system's default device.
    pub device: Option<String>,
    pub volume: u32,
    pub trim_start: Option<u64>,
    pub trim_end: Option<u64>,
}

/// A playback as a mathematical value.
pub struct PlaybackRequestView {
    pub path: Seq<char>,
    pub device: Option<Seq<char>>,
    pub volume: u32,
    pub trim_start: Option<u64>,
    pub trim_end: Option<u64>,
}

impl View for PlaybackRequest {
    type V = PlaybackRequestView;

    open spec fn view(&self) -> PlaybackRequestView {
        PlaybackRequestView {
            path: self.path@,
            device: text_of(self.device),
            volume: self.volume,
            trim_start: self.trim_start,
            trim_end: self.trim_end,
        }
    }
}

/// The playbacks of one dispatch: one to the primary device and, where the
/// monitor is another device, one to the monitor. Each is a task of its own.
#[derive(Debug, PartialEq, Eq)]
pub struct Dispatch {
    pub primary: PlaybackRequest,
    pub monitor: Option<PlaybackRequest>,
}

/// Whether a dispatch goes to the monitor too: a monitor is set and it is not
/// the primary device.
pub open spec fn fans_out(primary: Option<Seq<char>>, monitor: Option<Seq<char>>) -> bool {
    monitor is Some && primary != monitor
}

/// The playback of `sound` on `device` under `settings`. Its volume is
/// within the range from silence to full.
pub open spec fn request_for(
    sound: SoundView,
    settings: SettingsView,
    device: Option<Seq<char>>,
) -> PlaybackRequestView {
    PlaybackRequestView {
        path: sound.file_path,
        device,
        volume: output_volume(settings.master_volume, sound.volume),
        trim_start: sound.start_ms,
        trim_end: sound.end_ms,
    }
}

impl Dispatch {
    /// How many playback tasks the dispatch starts: one or two.
    pub open spec fn tasks(&self) -> int {
        if self.monitor is Some {
            2
        } else {
            1
        }
    }

    /// How many playback tasks the dispatch starts.
    pub fn task_count(&self) -> (r: usize)
        ensures
            r == self.tasks(),
            1 <= r <= 2,
    {
        if self.monitor.is_some() {
            2
        } else {
            1
        }
    }
}

impl AudioState {
    /// Plans the playbacks for the sound with this identifier, from the
    /// sound and the settings as they are now. `file_exists` says whether
    /// the sound's file is there.
    pub fn plan_dispatch(&self, id: &str, file_exists: bool) -> (r: Result<Dispatch, BoardError>)
        ensures
            match position_of(self.sounds(), id@) {
                None => r == Err::<Dispatch, BoardError>(BoardError::SoundNotFound),
                Some(at) => if !file_exists {
                    r == Err::<Dispatch, BoardError>(BoardError::FileNotFound)
                } else {
                    let sound = self.sounds()[at];
                    let settings = self.settings();
                    &&& r is Ok
                    &&& r.unwrap().primary@ == request_for(sound, settings, settings.primary_device)
                    &&& r.unwrap().primary.volume <= FULL_VOLUME
                    &&& r.unwrap().monitor is Some == fans_out(
                        settings.primary_device,
                        settings.monitor_device,
                    )
                    &&& r.unwrap().tasks() == if fans_out(
                        settings.primary_device,
                        settings.monitor_device,
                    ) {
                        2int
                    } else {
                        1int
                    }
                    &&& r.unwrap().monitor is Some ==> r.unwrap().monitor.unwrap()@ == request_for(
                        sound,
                        settings,
                        settings.monitor_device,
                    )
                    &&& r.unwrap().monitor is Some ==> r.unwrap().monitor.unwrap().volume
                        <= FULL_VOLUME
                },
            },
    {
        let sound = match self.sound(id) {
            Some(sound) => sound,
            None => {
                return Err(BoardError::SoundNotFound);
            },
        };
        if !file_exists {
            return Err(BoardError::FileNotFound);
        }
        let settings = self.get_settings();
        let volume = dispatch_volume(settings.master_volume, sound.volume);
        let primary = PlaybackRequest {
            path: sound.file_path.clone(),
            device: clone_text(&settings.primary_device),
            volume,
            trim_start: sound.start_ms,
            trim_end: sound.end_ms,
        };
        let monitor = if settings.monitor_device.is_some() && !same_text(
            &settings.primary_device,
            &settings.monitor_device,
        ) {
            Some(
                PlaybackRequest {
                    path: sound.file_path,
                    device: settings.monitor_device,
                    volume,
                    trim_start: sound.start_ms,
                    trim_end: sound.end_ms,
                },
            )
        } else {
            None
        };
        Ok(Dispatch { primary, monitor })
    }
}

} // verus!
