//! Core of a real-time audio looper: loopers that record, overdub and play
//! back layers of audio, driven block by block by an audio callback and
//! asynchronously by control commands.
//!
//! Samples are fixed-point signed values: `FULL_SCALE` stands for an
//! amplitude of one. The surrounding application converts the driver's
//! floating-point samples to and from this representation at the boundary.

pub mod channel;
pub mod engine;
pub mod laws;
pub mod midi;
pub mod mix;
pub mod model;
pub mod types;

use vstd::prelude::*;

verus! {

/// Fixed-point representation of an amplitude of 1.0.
pub const FULL_SCALE: i64 = 1_000_000;

/// Peak amplitude (absolute value) above which an armed looper starts
/// recording: one tenth of full scale.
pub const THRESHOLD: u64 = 100_000;

/// Engine sample rate in samples per second.
pub const SAMPLE_RATE: u64 = 44100;

} // verus!
