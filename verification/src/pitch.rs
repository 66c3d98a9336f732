//! Pitch detection: from the magnitude bins of each spectrogram frame to a
//! pitch contour.

use vstd::prelude::*;
use crate::config::{MIN_ENERGY, NUM_BINS};
use crate::error::FolkError;

verus! {

/// A time-frequency energy surface: one frame per analysis window, each a
/// sequence of quantized magnitudes, one per pitch bin.
#[derive(Debug, Clone, PartialEq, Eq)]
pub struct Spectrogram {
    pub frames: Vec<Vec<u32>>,
}

/// The pitch estimate of one frame: the pitch bin that sounds, or none, and
/// the magnitude of the strongest bin as the confidence of the estimate.
#[derive(Debug, Clone, Copy, PartialEq, Eq, Structural)]
pub struct ContourPoint {
    pub frame: usize,
    pub pitch: Option<u8>,
    pub confidence: u32,
}

/// The pitch estimates of all frames, in order.
#[derive(Debug, Clone, PartialEq, Eq)]
pub struct PitchContour {
    pub points: Vec<ContourPoint>,
}

/// Whether bin `p` is the peak of a frame: no bin is stronger, and every bin
/// below it is weaker.
pub open spec fn is_peak(bins: Seq<u32>, p: int) -> bool {
    &&& 0 <= p < bins.len()
    &&& forall|j: int| 0 <= j < bins.len() ==> #[trigger] bins[j] <= bins[p]
    &&& forall|j: int| 0 <= j < p ==> #[trigger] bins[j] < bins[p]
}

/// Whether `point` is the estimate of frame number `k` with bins `bins`,
/// whose peak is bin `p`: the pitch is `p` where the peak reaches the least
/// energy, and none where it does not.
pub open spec fn estimates(point: ContourPoint, k: int, bins: Seq<u32>, p: int) -> bool {
    &&& is_peak(bins, p)
    &&& point.frame == k
    &&& point.confidence == bins[p]
    &&& point.pitch == if bins[p] >= MIN_ENERGY {
        Some(p as u8)
    } else {
        None
    }
}

/// Whether `point` is the estimate of frame number `k` with bins `bins`.
pub open spec fn is_estimate(point: ContourPoint, k: int, bins: Seq<u32>) -> bool {
    exists|p: int| #[trigger] estimates(point, k, bins, p)
}

/// Whether every frame has one magnitude per pitch bin.
pub open spec fn well_shaped(frames: Seq<Vec<u32>>) -> bool {
    forall|k: int| 0 <= k < frames.len() ==> (#[trigger] frames[k]).len() == NUM_BINS
}

/// What a frame is without energy: no bin reaches the least energy.
pub open spec fn is_quiet(bins: Seq<u32>) -> bool {
    forall|j: int| 0 <= j < bins.len() ==> #[trigger] bins[j] < MIN_ENERGY
}

/// A frame has one peak.
pub proof fn lemma_peak_unique(bins: Seq<u32>, p: int, r: int)
    requires
        is_peak(bins, p),
        is_peak(bins, r),
    ensures
        p == r,
{
    if p < r {
        assert(bins[p] < bins[r]);
    }
    if r < p {
        assert(bins[r] < bins[p]);
    }
}

/// Finds the peak of a frame that is not empty.
fn strongest_bin(bins: &Vec<u32>) -> (p: usize)
    requires
        bins.len() > 0,
    ensures
        is_peak(bins@, p as int),
{
    let mut p: usize = 0;
    let mut j: usize = 1;
    while j < bins.len()
        invariant
            0 <= p < j <= bins.len(),
            forall|i: int| 0 <= i < j ==> #[trigger] bins[i] <= bins[p as int],
            forall|i: int| 0 <= i < p ==> #[trigger] bins[i] < bins[p as int],
        decreases bins.len() - j,
    {
        if bins[j] > bins[p] {
            p = j;
        }
        j += 1;
    }
    p
}

/// Estimates the pitch of frame number `k`.
fn detect_pitch(k: usize, bins: &Vec<u32>) -> (point: ContourPoint)
    requires
        bins.len() == NUM_BINS,
    ensures
        is_estimate(point, k as int, bins@),
        is_quiet(bins@) <==> point.pitch is None,
{
    let p: usize = strongest_bin(bins);
    let confidence: u32 = bins[p];
    let pitch: Option<u8> = if confidence >= MIN_ENERGY {
        Some(p as u8)
    } else {
        None
    };
    let point = ContourPoint { frame: k, pitch, confidence };
    assert(estimates(point, k as int, bins@, p as int));
    point
}

/// Estimates the pitch of every frame. A spectrogram with a frame that has
/// not one magnitude per pitch bin is rejected as an invalid signal.
pub fn pitch_contour(spectrogram: &Spectrogram) -> (r: Result<PitchContour, FolkError>)
    ensures
        r is Ok <==> well_shaped(spectrogram.frames@),
        r is Err ==> r == Err::<PitchContour, FolkError>(FolkError::InvalidSignal),
        r matches Ok(contour) ==> contour.points.len() == spectrogram.frames.len() && forall|
            k: int,
        |
            0 <= k < contour.points.len() ==> is_estimate(
                #[trigger] contour.points[k],
                k,
                spectrogram.frames[k]@,
            ) && (is_quiet(spectrogram.frames[k]@) <==> contour.points[k].pitch is None),
{
    let mut points: Vec<ContourPoint> = Vec::new();
    let mut k: usize = 0;
    while k < spectrogram.frames.len()
        invariant
            k <= spectrogram.frames.len(),
            points.len() == k,
            well_shaped(spectrogram.frames@.subrange(0, k as int)),
            forall|i: int|
                0 <= i < k ==> is_estimate(#[trigger] points[i], i, spectrogram.frames[i]@) && (
                is_quiet(spectrogram.frames[i]@) <==> points[i].pitch is None),
        decreases spectrogram.frames.len() - k,
    {
        let bins: &Vec<u32> = &spectrogram.frames[k];
        if bins.len() != NUM_BINS {
            return Err(FolkError::InvalidSignal);
        }
        let point = detect_pitch(k, bins);
        points.push(point);
        k += 1;
    }
    assert(spectrogram.frames@.subrange(0, k as int) == spectrogram.frames@);
    Ok(PitchContour { points })
}

} // verus!
