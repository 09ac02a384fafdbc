//! Verified decision core of a pedal steel guitar capture pipeline.
//!
//! The numeric signal processing (spectral magnitudes, pitch conversion,
//! smoothing) runs outside this crate. What lives here is everything the
//! pipeline decides from those measurements: which strings are ringing, when
//! a new note starts, how the two bar estimators are fused, how audio is
//! buffered and scheduled for analysis, and how the wire formats at the
//! edges are framed and checked.

pub mod audio_buffer;
pub mod audio_input;
pub mod bar_inference;
pub mod coordinator;
pub mod jsonl_reader;
pub mod osc_sender;
pub mod serial_reader;
pub mod simulator;
pub mod string_detector;
pub mod text;
pub mod types;
pub mod ws_server;
