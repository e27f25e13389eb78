//! The settings of the board.

use crate::playback::{clamp_volume, clamped};
use crate::sound::{clone_text, text_of};
use vstd::prelude::*;

verus! {

/// Whether the board writes its sounds and settings to disk: a release build
/// does, a debug build does not.
pub fn should_persist(debug_build: bool) -> (r: bool)
    ensures
        r == !debug_build,
{
    !debug_build
}

/// The colour theme of a board that was never given one.
pub fn default_theme() -> (r: String)
    ensures
        r@ == "green"@,
{
    "green".to_string()
}

/// The master volume of a board that was never given one: four fifths of
/// full volume.
pub const DEFAULT_MASTER_VOLUME: u32 = 800_000;

/// The settings. The master volume is in millionths of full volume.
#[derive(Debug, PartialEq, Eq)]
pub struct Settings {
    pub primary_device: Option<String>,
    pub monitor_device: Option<String>,
    pub master_volume: u32,
    pub stop_all_keybind: Option<String>,
    pub compact_mode: bool,
    pub theme: String,
    pub minimize_to_tray: bool,
}

/// The settings as a mathematical value.
pub struct SettingsView {
    pub primary_device: Option<Seq<char>>,
    pub monitor_device: Option<Seq<char>>,
    pub master_volume: u32,
    pub stop_all_keybind: Option<Seq<char>>,
    pub compact_mode: bool,
    pub theme: Seq<char>,
    pub minimize_to_tray: bool,
}

impl View for Settings {
    type V = SettingsView;

    open spec fn view(&self) -> SettingsView {
        SettingsView {
            primary_device: text_of(self.primary_device),
            monitor_device: text_of(self.monitor_device),
            master_volume: self.master_volume,
            stop_all_keybind: text_of(self.stop_all_keybind),
            compact_mode: self.compact_mode,
            theme: self.theme@,
            minimize_to_tray: self.minimize_to_tray,
        }
    }
}

impl Clone for Settings {
    fn clone(&self) -> (r: Self)
        ensures
            r@ == self@,
    {
        Settings {
            primary_device: clone_text(&self.primary_device),
            monitor_device: clone_text(&self.monitor_device),
            master_volume: self.master_volume,
            stop_all_keybind: clone_text(&self.stop_all_keybind),
            compact_mode: self.compact_mode,
            theme: self.theme.clone(),
            minimize_to_tray: self.minimize_to_tray,
        }
    }
}

/// The settings of a board that was never configured.
pub open spec fn default_settings() -> SettingsView {
    SettingsView {
        primary_device: None,
        monitor_device: None,
        master_volume: DEFAULT_MASTER_VOLUME,
        stop_all_keybind: None,
        compact_mode: false,
        theme: "green"@,
        minimize_to_tray: false,
    }
}

/// The monitor device that a name from the front end stands for: an empty
/// name means that there is none.
pub open spec fn monitor_named(name: Seq<char>) -> Option<Seq<char>> {
    if name.len() == 0 {
        None
    } else {
        Some(name)
    }
}

impl Default for Settings {
    fn default() -> (r: Self)
        ensures
            r@ == default_settings(),
    {
        Settings {
            primary_device: None,
            monitor_device: None,
            master_volume: DEFAULT_MASTER_VOLUME,
            stop_all_keybind: None,
            compact_mode: false,
            theme: default_theme(),
            minimize_to_tray: false,
        }
    }
}

impl Settings {
    /// Sends the sounds to the device of this name.
    pub fn set_primary_device(&mut self, device_name: String)
        ensures
            final(self)@ == (SettingsView { primary_device: Some(device_name@), ..old(self)@ }),
    {
        self.primary_device = Some(device_name);
    }

    /// Sends the sounds to the device of this name as well; an empty name
    /// switches the monitor off.
    pub fn set_monitor_device(&mut self, device_name: String)
        ensures
            final(self)@ == (SettingsView {
                monitor_device: monitor_named(device_name@),
                ..old(self)@
            }),
    {
        if device_name.as_str().is_empty() {
            self.monitor_device = None;
        } else {
            self.monitor_device = Some(device_name);
        }
    }

    /// Sets the master volume, held to the range from silence to full.
    pub fn set_master_volume(&mut self, volume: u32)
        ensures
            final(self)@ == (SettingsView { master_volume: clamped(volume), ..old(self)@ }),
    {
        self.master_volume = clamp_volume(volume);
    }

    /// Sets or clears the chord that stops everything.
    pub fn set_stop_all_keybind(&mut self, keybind: Option<String>)
        ensures
            final(self)@ == (SettingsView { stop_all_keybind: text_of(keybind), ..old(self)@ }),
    {
        self.stop_all_keybind = keybind;
    }

    /// Switches the compact layout on or off.
    pub fn set_compact_mode(&mut self, enabled: bool)
        ensures
            final(self)@ == (SettingsView { compact_mode: enabled, ..old(self)@ }),
    {
        self.compact_mode = enabled;
    }

    /// Sets the colour theme.
    pub fn set_theme(&mut self, theme: String)
        ensures
            final(self)@ == (SettingsView { theme: theme@, ..old(self)@ }),
    {
        self.theme = theme;
    }

    /// Decides whether closing the window hides it in the tray instead.
    pub fn set_minimize_to_tray(&mut self, enabled: bool)
        ensures
            final(self)@ == (SettingsView { minimize_to_tray: enabled, ..old(self)@ }),
    {
        self.minimize_to_tray = enabled;
    }
}

} // verus!
