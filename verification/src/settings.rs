//! Matching configuration shared by the tune index and the query engine.

use vstd::prelude::*;
use crate::config::{HOP_SIZE, MIN_ENERGY, NUM_BINS, WINDOW_SIZE};

verus! {

/// Longest n-gram that the candidate lookup can key on.
pub const MAX_NGRAM_LEN: usize = 7;

/// The configuration of an index: how the transcriptions that it holds were
/// extracted, the length of the melodic n-grams by which candidates are
/// found, and the weights of the alignment score.
#[derive(Debug, Clone, Copy, PartialEq, Eq, Structural)]
pub struct TuneSettings {
    /// Number of samples in one analysis window of the extraction.
    pub window_size: usize,
    /// Number of samples between two windows of the extraction.
    pub hop_size: usize,
    /// Number of pitch bins, and so of distinct pitches, of the extraction.
    pub pitch_bins: usize,
    /// Least magnitude that counted as a pitch in the extraction.
    pub energy_threshold: u32,
    /// Number of consecutive tokens in one n-gram.
    pub ngram_len: usize,
    /// Gain of aligning one query token with one tune token.
    pub match_reward: u32,
    /// Loss per step of pitch difference between two aligned notes.
    pub pitch_penalty: u32,
    /// Loss per frame of duration difference between two aligned tokens of
    /// the same kind.
    pub duration_penalty: u32,
    /// Loss of aligning a note with a rest.
    pub mismatch_penalty: u32,
    /// Loss of skipping one token of either melody.
    pub gap_penalty: u32,
}

impl TuneSettings {
    /// Whether the n-gram length is one that the candidate lookup supports.
    pub open spec fn valid(self) -> bool {
        1 <= self.ngram_len <= MAX_NGRAM_LEN
    }

    /// Whether the transcriptions of the index were extracted as this
    /// library extracts them, so that a transcription made here measures
    /// pitch and duration as they do.
    pub open spec fn fits_extractor(self) -> bool {
        &&& self.window_size == WINDOW_SIZE
        &&& self.hop_size == HOP_SIZE
        &&& self.pitch_bins == NUM_BINS
        &&& self.energy_threshold == MIN_ENERGY
    }

    /// Decides `fits_extractor`.
    pub fn is_fit_for_extractor(&self) -> (b: bool)
        ensures
            b == self.fits_extractor(),
    {
        self.window_size == WINDOW_SIZE && self.hop_size == HOP_SIZE && self.pitch_bins
            == NUM_BINS && self.energy_threshold == MIN_ENERGY
    }

    /// Decides `valid`.
    pub fn is_valid(&self) -> (b: bool)
        ensures
            b == self.valid(),
    {
        1 <= self.ngram_len && self.ngram_len <= MAX_NGRAM_LEN
    }
}

} // verus!
