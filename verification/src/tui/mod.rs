//! The interactive terminal UI: options form, file browser, and key handling.

pub mod form;
pub mod browser;
pub mod state;
