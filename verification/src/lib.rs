//! Playback engine for a falling-notes piano visualizer.
//!
//! All times are integers in microseconds, speeds are in thousandths and
//! progress is in millionths of the song, so every scheduling decision is
//! exact and can be stated and proved.

pub mod config;
pub mod gate;
pub mod note;
pub mod notes;
pub mod output;
pub mod player;
pub mod position;
pub mod rewind;
pub mod scene;
pub mod schedule;
pub mod timer;
