//! Recognition of traditional instrumental folk tunes.
//!
//! A recording becomes a melodic transcription, and the transcription is
//! matched against an index of known tune settings:
//!
//! - `signal` accepts a waveform at a supported sample rate, and `frames`
//!   cuts its samples into overlapping analysis windows, in one piece or
//!   chunk by chunk.
//! - `pitch` estimates the pitch of each spectrogram frame, `decode`
//!   collapses the estimates into tokens, and `extract` does both. The
//!   frequency transform between a window of samples and a frame of
//!   magnitudes is floating-point arithmetic and is left to the caller, who
//!   hands the magnitudes over as integers.
//! - `index` holds the settings of all tunes with an inverted index of their
//!   n-grams (`ngram`), `align` scores a query against one setting, and
//!   `query` ranks all tunes for a query (`ranking`).
//! - `records` finds the rank of the right tune for every transcription of a
//!   labelled dataset.
//! - `guarantees` proves what holds of every ranking.

pub mod align;
pub mod config;
pub mod decode;
pub mod error;
pub mod extract;
pub mod frames;
pub mod guarantees;
pub mod index;
pub mod ngram;
pub mod pitch;
pub mod query;
pub mod ranking;
pub mod records;
pub mod settings;
pub mod signal;
pub mod transcription;

pub use crate::error::FolkError;
pub use crate::frames::FeatureExtractor;
pub use crate::index::{IndexSource, TuneIndex, TuneIndexEntry};
pub use crate::pitch::{ContourPoint, PitchContour, Spectrogram};
pub use crate::query::QueryEngine;
pub use crate::ranking::RankedMatch;
pub use crate::records::{TranscriptionRecord, TranscriptionRecordRanked};
pub use crate::settings::TuneSettings;
pub use crate::signal::AudioSignal;
pub use crate::transcription::{Token, Transcription};
