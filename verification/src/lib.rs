//! Decisions of a daemon that turns a DJ application's BPM and beat-position
//! messages into a 24-pulse-per-quarter-note MIDI clock.
//!
//! Every quantity is an integer: tempo in hundredths of a beat per minute,
//! beat distance in 127ths of a beat, time in nanoseconds since a monotonic
//! origin chosen by the caller, and the phase-correction gain in millionths.

pub mod state;
pub mod output;
pub mod config;
pub mod input;
pub mod clock;
pub mod clock_laws;
pub mod engine_laws;
pub mod ports;
