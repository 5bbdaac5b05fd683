//! Video-to-GIF conversion: ffmpeg argument building, the colour filter and
//! dithering presets, and the state machine of the interactive terminal UI.

pub mod text;
pub mod filters;
pub mod convert;
pub mod cli;
pub mod tui;
