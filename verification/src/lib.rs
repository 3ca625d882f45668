//! Keystroke overlay engine: decodes raw input-device records, classifies the
//! symbols a keyboard layout reports for them, tracks modifier state and keeps a
//! bounded, run-length compressed history of recent key chords for display.

pub mod args;
pub mod error;
pub mod event;
pub mod history;
pub mod layout;
pub mod modifiers;
pub mod overlay;
pub mod runs;
