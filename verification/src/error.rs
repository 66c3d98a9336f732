//! Errors reported by the library.

use vstd::prelude::*;

verus! {

/// What can go wrong between a waveform and a ranked list of tunes.
#[derive(Debug, Clone, Copy, PartialEq, Eq, Structural)]
pub enum FolkError {
    /// The declared sample rate lies outside the supported band.
    InvalidSampleRate,
    /// The sample data is malformed.
    InvalidSignal,
    /// There is no persisted tune index to load.
    IndexNotFound,
    /// The persisted tune index is malformed.
    IndexCorrupt,
}

} // verus!
