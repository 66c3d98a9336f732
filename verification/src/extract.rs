//! Feature extraction: from a spectrogram to a transcription.

use vstd::prelude::*;
use crate::config::MIN_ENERGY;
use crate::decode::{decode, expand, is_run_length};
use crate::error::FolkError;
use crate::pitch::{is_peak, is_quiet, pitch_contour, well_shaped, Spectrogram};
use crate::transcription::{Token, Transcription};

verus! {

/// Whether `symbol` is what sounds in a frame with bins `bins`: the peak bin
/// where it reaches the least energy, and nothing where it does not.
pub open spec fn sounds_in(symbol: Option<u8>, bins: Seq<u32>) -> bool {
    exists|p: int|
        #[trigger] is_peak(bins, p) && symbol == if bins[p] >= MIN_ENERGY {
            Some(p as u8)
        } else {
            None
        }
}

/// Whether no frame has energy.
pub open spec fn all_quiet(frames: Seq<Vec<u32>>) -> bool {
    forall|k: int| 0 <= k < frames.len() ==> is_quiet((#[trigger] frames[k])@)
}

/// Transcribes a spectrogram: detects the pitch of each frame and collapses
/// the runs of equal pitch into tokens. The transcription spans the frames
/// of the spectrogram, each with what sounds in it, in the shortest form. A
/// spectrogram without frames gives an empty transcription, one without
/// energy a single rest over all its frames.
pub fn transcribe(spectrogram: &Spectrogram) -> (r: Result<Transcription, FolkError>)
    ensures
        r is Ok <==> well_shaped(spectrogram.frames@),
        r is Err ==> r == Err::<Transcription, FolkError>(FolkError::InvalidSignal),
        r matches Ok(t) ==> {
            &&& is_run_length(t@)
            &&& expand(t@).len() == spectrogram.frames.len()
            &&& forall|k: int|
                0 <= k < spectrogram.frames.len() ==> sounds_in(
                    #[trigger] expand(t@)[k],
                    spectrogram.frames[k]@,
                )
            &&& spectrogram.frames.len() == 0 ==> t@.len() == 0
            &&& spectrogram.frames.len() > 0 && all_quiet(spectrogram.frames@) ==> t@ == seq![
                Token::Rest { duration: spectrogram.frames.len() as u64 },
            ]
        },
{
    match pitch_contour(spectrogram) {
        Err(e) => Err(e),
        Ok(contour) => {
            let t = decode(&contour);
            Ok(t)
        },
    }
}

} // verus!
