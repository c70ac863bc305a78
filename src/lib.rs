//! The voice engine of a keyboard synthesizer, with its behaviour proved.
//!
//! - `key`: notes, keys and the computer-keyboard note layout.
//! - `patch`: the built-in generators, patches as a generator plus a node
//!   chain, and the noise generator's integer core.
//! - `adsr`: envelope parameters and the per-sample envelope state machine.
//! - `voices`: the table of live voices and the output actions it decides.
//! - `engine`: the runtime state that one control loop owns, its commands,
//!   its snapshot, and how key changes and commands act on the voices.
//! - `input`: turning polled key snapshots into key changes, with focus
//!   handling, the patch key and the quit chords.
//!
//! Levels are integers: amplitudes and sustain in millionths of full scale,
//! volume in thousandths of unity gain, durations in microseconds.

pub mod adsr;
pub mod engine;
pub mod input;
pub mod key;
pub mod patch;
pub mod voices;
