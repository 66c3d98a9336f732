//! Framing: cutting a stream of samples into overlapping analysis windows.
//!
//! Samples may arrive in chunks of any size. The windows that come out are
//! those of the whole stream, however it was cut into chunks.

use vstd::prelude::*;
use crate::config::{HOP_SIZE, WINDOW_SIZE};

verus! {

/// The number of complete windows in a signal of `len` samples.
pub open spec fn frame_count(len: nat) -> nat {
    if len < WINDOW_SIZE {
        0
    } else {
        ((len - WINDOW_SIZE) / (HOP_SIZE as int) + 1) as nat
    }
}

/// The `k`-th window of `signal`.
pub open spec fn frame_at(signal: Seq<i16>, k: int) -> Seq<i16> {
    signal.subrange(k * HOP_SIZE, k * HOP_SIZE + WINDOW_SIZE)
}

/// All complete windows of `signal`, in order.
pub open spec fn frames_of(signal: Seq<i16>) -> Seq<Seq<i16>> {
    Seq::new(frame_count(signal.len()), |k: int| frame_at(signal, k))
}

/// The samples of `signal` from the start of its first incomplete window.
pub open spec fn remainder_of(signal: Seq<i16>) -> Seq<i16> {
    signal.skip(frame_count(signal.len()) * HOP_SIZE)
}

/// The contents of the windows.
pub open spec fn contents(frames: Seq<Vec<i16>>) -> Seq<Seq<i16>> {
    Seq::new(frames.len(), |k: int| frames[k]@)
}

/// `count` is the number of complete windows in `len` samples exactly when
/// the window after the last one does not fit and the last one does.
pub proof fn lemma_frame_count(len: nat, count: nat)
    requires
        len < count * HOP_SIZE + WINDOW_SIZE,
        count > 0 ==> (count - 1) * HOP_SIZE + WINDOW_SIZE <= len,
    ensures
        frame_count(len) == count,
{
    if len >= WINDOW_SIZE {
        assert((len - WINDOW_SIZE) / 512 == count - 1);
    }
}

/// The first incomplete window starts within the signal and is shorter
/// than a window.
pub proof fn lemma_remainder_len(len: nat)
    ensures
        frame_count(len) * HOP_SIZE <= len < frame_count(len) * HOP_SIZE + WINDOW_SIZE,
        frame_count(len) > 0 ==> (frame_count(len) - 1) * HOP_SIZE + WINDOW_SIZE <= len,
{
}

/// Stable frame boundaries: a signal fed in two chunks gives the windows
/// of the first chunk, then those of what the first chunk left over
/// followed by the second, and these are the windows of the whole; the same
/// samples are left over either way.
pub proof fn lemma_chunking(a: Seq<i16>, b: Seq<i16>)
    ensures
        frames_of(a + b) == frames_of(a) + frames_of(remainder_of(a) + b),
        remainder_of(a + b) == remainder_of(remainder_of(a) + b),
{
    let whole = a + b;
    let ca = frame_count(a.len());
    let rest = remainder_of(a) + b;
    let cr = frame_count(rest.len());
    assert forall|k: int| 0 <= k < ca + cr implies frame_at(whole, k) == (frames_of(a) + frames_of(
        rest,
    ))[k] by {
        if k < ca {
            assert(frame_at(whole, k) == frame_at(a, k));
        } else {
            assert(frame_at(whole, k) == frame_at(rest, k - ca));
        }
    }
}

/// A signal without amplitude that is at least one window long has a
/// window, and none of its windows has amplitude.
pub proof fn lemma_silent_windows(signal: Seq<i16>)
    requires
        signal.len() >= WINDOW_SIZE,
        forall|i: int| 0 <= i < signal.len() ==> #[trigger] signal[i] == 0,
    ensures
        frames_of(signal).len() >= 1,
        forall|k: int, i: int|
            0 <= k < frames_of(signal).len() && 0 <= i < WINDOW_SIZE ==> (#[trigger] frames_of(
                signal,
            )[k][i]) == 0,
{
}

/// Cuts a stream of samples into analysis windows. It keeps the samples of
/// the window that is not yet complete.
#[derive(Debug)]
pub struct FeatureExtractor {
    pending: Vec<i16>,
}

impl FeatureExtractor {
    /// The samples held back for the next window.
    pub closed spec fn pending(&self) -> Seq<i16> {
        self.pending@
    }

    /// The invariant of an extractor: it holds back less than one window.
    #[verifier::type_invariant]
    pub open spec fn wf(&self) -> bool {
        self.pending().len() < WINDOW_SIZE
    }

    /// An extractor that has seen no sample.
    pub fn new() -> (extractor: FeatureExtractor)
        ensures
            extractor.pending() == Seq::<i16>::empty(),
            extractor.wf(),
    {
        FeatureExtractor { pending: Vec::new() }
    }

    /// The number of samples held back for the next window.
    pub fn pending_len(&self) -> (n: usize)
        ensures
            n == self.pending().len(),
            n < WINDOW_SIZE,
    {
        proof {
            use_type_invariant(self);
        }
        self.pending.len()
    }

    /// Feeds the next chunk of the signal and returns the windows that it
    /// completes: those of the samples held back followed by the chunk.
    pub fn feed_signal(&mut self, chunk: &Vec<i16>) -> (frames: Vec<Vec<i16>>)
        ensures
            contents(frames@) == frames_of(old(self).pending() + chunk@),
            final(self).pending() == remainder_of(old(self).pending() + chunk@),
            final(self).wf(),
    {
        proof {
            use_type_invariant(&*self);
        }
        let ghost total = self.pending@ + chunk@;
        let mut buffer: Vec<i16> = Vec::new();
        let mut i: usize = 0;
        while i < self.pending.len()
            invariant
                i <= self.pending.len(),
                buffer@ == self.pending@.subrange(0, i as int),
            decreases self.pending.len() - i,
        {
            buffer.push(self.pending[i]);
            i += 1;
        }
        let held: usize = buffer.len();
        i = 0;
        while i < chunk.len()
            invariant
                i <= chunk.len(),
                held == self.pending.len(),
                buffer@ == self.pending@ + chunk@.subrange(0, i as int),
            decreases chunk.len() - i,
        {
            buffer.push(chunk[i]);
            i += 1;
        }
        let mut frames: Vec<Vec<i16>> = Vec::new();
        let mut start: usize = 0;
        while buffer.len() - start >= WINDOW_SIZE
            invariant
                buffer@ == total,
                start <= buffer.len(),
                start == frames.len() * HOP_SIZE,
                frames.len() > 0 ==> (frames.len() - 1) * HOP_SIZE + WINDOW_SIZE <= buffer.len(),
                forall|k: int| 0 <= k < frames.len() ==> (#[trigger] frames[k])@ == frame_at(total, k),
            decreases buffer.len() - start,
        {
            let mut frame: Vec<i16> = Vec::new();
            let mut j: usize = 0;
            while j < WINDOW_SIZE
                invariant
                    j <= WINDOW_SIZE,
                    start + WINDOW_SIZE <= buffer.len(),
                    frame@ == buffer@.subrange(start as int, start + j),
                decreases WINDOW_SIZE - j,
            {
                frame.push(buffer[start + j]);
                j += 1;
            }
            frames.push(frame);
            start += HOP_SIZE;
        }
        let mut rest: Vec<i16> = Vec::new();
        let mut k: usize = start;
        while k < buffer.len()
            invariant
                start <= k <= buffer.len(),
                rest@ == buffer@.subrange(start as int, k as int),
            decreases buffer.len() - k,
        {
            rest.push(buffer[k]);
            k += 1;
        }
        self.pending = rest;
        frames
    }
}

} // verus!
