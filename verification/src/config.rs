//! Fixed constants of signal handling and feature extraction.

use vstd::prelude::*;

verus! {

/// Lowest sample rate, in hertz, that a waveform may declare.
pub const SAMPLE_RATE_MIN: u32 = 8_000;

/// Highest sample rate, in hertz, that a waveform may declare.
pub const SAMPLE_RATE_MAX: u32 = 48_000;

/// The amplitude that a sample is measured against: a sample `v` stands for
/// the amplitude `v / FULL_SCALE`.
pub const FULL_SCALE: u32 = 65_536;

/// Number of samples in one analysis window.
pub const WINDOW_SIZE: usize = 1024;

/// Number of samples between the starts of two consecutive windows.
pub const HOP_SIZE: usize = 512;

/// Number of magnitude bins in one spectrogram frame, one per quantized pitch.
pub const NUM_BINS: usize = 48;

/// Least magnitude at which the strongest bin of a frame counts as a pitch.
pub const MIN_ENERGY: u32 = 1024;

} // verus!
