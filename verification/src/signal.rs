//! Signal preprocessing: sample-rate validation and the waveform type.

use vstd::prelude::*;
use crate::config::{SAMPLE_RATE_MAX, SAMPLE_RATE_MIN};
use crate::error::FolkError;
use crate::frames::{contents, frames_of, FeatureExtractor};

verus! {

/// Whether `sample_rate` lies within the supported band, bounds included.
pub open spec fn rate_supported(sample_rate: u32) -> bool {
    SAMPLE_RATE_MIN <= sample_rate <= SAMPLE_RATE_MAX
}

/// Accepts exactly the sample rates of the supported band.
pub fn validate_sample_rate(sample_rate: u32) -> (r: Result<(), FolkError>)
    ensures
        r is Ok <==> rate_supported(sample_rate),
        r is Err ==> r == Err::<(), FolkError>(FolkError::InvalidSampleRate),
{
    if sample_rate > SAMPLE_RATE_MAX {
        return Err(FolkError::InvalidSampleRate);
    }
    if sample_rate < SAMPLE_RATE_MIN {
        return Err(FolkError::InvalidSampleRate);
    }
    Ok(())
}

/// A mono waveform at a supported sample rate. A sample `v` stands for the
/// amplitude `v / FULL_SCALE`, which lies within one half of zero.
#[derive(Debug, PartialEq, Eq)]
pub struct AudioSignal {
    samples: Vec<i16>,
    sample_rate: u32,
}

impl AudioSignal {
    /// The samples, in order.
    pub closed spec fn samples(&self) -> Seq<i16> {
        self.samples@
    }

    /// The sample rate, in hertz.
    pub closed spec fn sample_rate(&self) -> u32 {
        self.sample_rate
    }

    /// The invariant of a signal: its sample rate is supported.
    #[verifier::type_invariant]
    pub open spec fn wf(&self) -> bool {
        rate_supported(self.sample_rate())
    }

    /// Makes a signal of the samples of a waveform, unless the waveform
    /// declares a sample rate outside the supported band.
    pub fn preprocess(samples: Vec<i16>, sample_rate: u32) -> (r: Result<AudioSignal, FolkError>)
        ensures
            r is Ok <==> rate_supported(sample_rate),
            r is Err ==> r == Err::<AudioSignal, FolkError>(FolkError::InvalidSampleRate),
            r matches Ok(signal) ==> signal.samples() == samples@ && signal.sample_rate()
                == sample_rate && signal.wf(),
    {
        match validate_sample_rate(sample_rate) {
            Err(e) => Err(e),
            Ok(_) => Ok(AudioSignal { samples, sample_rate }),
        }
    }

    /// The sample rate, in hertz.
    pub fn rate(&self) -> (rate: u32)
        ensures
            rate == self.sample_rate(),
            rate_supported(rate),
    {
        proof {
            use_type_invariant(self);
        }
        self.sample_rate
    }

    /// The number of samples.
    pub fn len(&self) -> (n: usize)
        ensures
            n == self.samples().len(),
    {
        self.samples.len()
    }

    /// The sample at position `i`.
    pub fn sample(&self, i: usize) -> (v: i16)
        requires
            i < self.samples().len(),
        ensures
            v == self.samples()[i as int],
    {
        self.samples[i]
    }

    /// All complete analysis windows of the signal, in order: none where
    /// the signal is shorter than one window.
    pub fn windows(&self) -> (frames: Vec<Vec<i16>>)
        ensures
            contents(frames@) == frames_of(self.samples()),
    {
        let mut extractor = FeatureExtractor::new();
        let frames = extractor.feed_signal(&self.samples);
        frames
    }
}

} // verus!
