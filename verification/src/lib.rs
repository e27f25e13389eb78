//! Keybind-triggered audio dispatch: chord normalisation and matching, a
//! keybind registry, and the planning of playback across output devices.

pub mod accelerator;
pub mod bootstrap;
pub mod chord;
pub mod device;
pub mod dispatch;
pub mod engine;
pub mod intake;
pub mod keys;
pub mod playback;
pub mod registry;
pub mod settings;
pub mod sound;
pub mod state;
pub mod task;
pub mod text;
pub mod tracker;
pub mod updates;
