//! Decoding: from a pitch contour to a transcription, one token per run of
//! frames with the same pitch.

use vstd::prelude::*;
use crate::pitch::{ContourPoint, PitchContour};
use crate::transcription::{Token, Transcription};

verus! {

/// The pitches of a contour, frame by frame.
pub open spec fn pitches(points: Seq<ContourPoint>) -> Seq<Option<u8>> {
    Seq::new(points.len(), |k: int| points[k].pitch)
}

/// `count` frames of the same pitch, or of silence.
pub open spec fn run(symbol: Option<u8>, count: nat) -> Seq<Option<u8>> {
    Seq::new(count, |k: int| symbol)
}

/// The frames that a melody spans: each token as many times as it lasts.
pub open spec fn expand(tokens: Seq<Token>) -> Seq<Option<u8>>
    decreases tokens.len(),
{
    if tokens.len() == 0 {
        Seq::empty()
    } else {
        expand(tokens.drop_last()) + run(tokens.last().symbol(), tokens.last().frames())
    }
}

/// Whether a melody is in its shortest form: every token lasts at least one
/// frame, and no token repeats the pitch, or the silence, of the one before.
pub open spec fn is_run_length(tokens: Seq<Token>) -> bool {
    &&& forall|k: int| 0 <= k < tokens.len() ==> (#[trigger] tokens[k]).frames() >= 1
    &&& forall|k: int|
        0 <= k && k + 1 < tokens.len() ==> (#[trigger] tokens[k]).symbol() != tokens[k
            + 1].symbol()
}

/// Whether no frame of the contour has a pitch.
pub open spec fn is_silent(points: Seq<ContourPoint>) -> bool {
    forall|k: int| 0 <= k < points.len() ==> (#[trigger] points[k]).pitch is None
}

/// The token of a run of `count` frames.
pub open spec fn run_token(symbol: Option<u8>, count: u64) -> Token {
    match symbol {
        Some(pitch) => Token::Note { pitch, duration: count },
        None => Token::Rest { duration: count },
    }
}

/// Makes `run_token`.
fn make_token(symbol: Option<u8>, count: u64) -> (token: Token)
    ensures
        token == run_token(symbol, count),
{
    match symbol {
        Some(pitch) => Token::Note { pitch, duration: count },
        None => Token::Rest { duration: count },
    }
}

/// Decides whether two pitch estimates are the same.
fn same_symbol(a: Option<u8>, b: Option<u8>) -> (same: bool)
    ensures
        same == (a == b),
{
    match (a, b) {
        (Some(x), Some(y)) => x == y,
        (None, None) => true,
        _ => false,
    }
}

/// A melody with one more token spans the frames of the melody, then those
/// of the token.
pub proof fn lemma_expand_push(tokens: Seq<Token>, token: Token)
    ensures
        expand(tokens.push(token)) == expand(tokens) + run(token.symbol(), token.frames()),
{
    let longer = tokens.push(token);
    assert(longer.drop_last() == tokens);
}

/// Two melodies in shortest form that span the same frames are the same
/// melody: a contour has one decoding.
pub proof fn lemma_decoding_unique(a: Seq<Token>, b: Seq<Token>)
    requires
        is_run_length(a),
        is_run_length(b),
        expand(a) == expand(b),
    ensures
        a == b,
    decreases a.len(),
{
    if a.len() == 0 {
        if b.len() > 0 {
            assert(expand(b).len() >= 1);
        }
    } else if b.len() == 0 {
        assert(expand(a).len() >= 1);
    } else {
        let x = a.last();
        let y = b.last();
        let a1 = a.drop_last();
        let b1 = b.drop_last();
        let ea = expand(a1);
        let eb = expand(b1);
        let whole = expand(a);
        assert(whole[whole.len() - 1] == x.symbol());
        if x.frames() < y.frames() {
            lemma_last_frame(a1);
        }
        if y.frames() < x.frames() {
            lemma_last_frame(b1);
        }
        assert(ea =~= whole.subrange(0, ea.len() as int));
        assert(eb =~= whole.subrange(0, eb.len() as int));
        lemma_decoding_unique(a1, b1);
        assert(a =~= a1.push(x));
    }
}

/// The last frame of a melody is of its last token, where that token lasts
/// at all. A melody of no token spans no frame.
proof fn lemma_last_frame(tokens: Seq<Token>)
    ensures
        tokens.len() == 0 ==> expand(tokens).len() == 0,
        tokens.len() > 0 && tokens.last().frames() >= 1 ==> expand(tokens).len() >= 1 && expand(
            tokens,
        )[expand(tokens).len() - 1] == tokens.last().symbol(),
{
}

/// Collapses each run of frames with the same pitch into one note, and each
/// run of frames without pitch into one rest, of the length of the run. An
/// empty contour gives an empty transcription, a silent one a single rest
/// over all its frames.
pub fn decode(contour: &PitchContour) -> (transcription: Transcription)
    ensures
        expand(transcription@) == pitches(contour.points@),
        is_run_length(transcription@),
        contour.points.len() == 0 ==> transcription@.len() == 0,
        contour.points.len() > 0 && is_silent(contour.points@) ==> transcription@ == seq![
            Token::Rest { duration: contour.points.len() as u64 },
        ],
{
    let points: &Vec<ContourPoint> = &contour.points;
    let ghost wanted = pitches(points@);
    let mut tokens: Vec<Token> = Vec::new();
    if points.len() == 0 {
        return Transcription { tokens };
    }
    let mut current: Option<u8> = points[0].pitch;
    let mut count: u64 = 1;
    let mut i: usize = 1;
    while i < points.len()
        invariant
            wanted == pitches(points@),
            1 <= i <= points.len(),
            1 <= count <= i,
            expand(tokens@) + run(current, count as nat) == wanted.subrange(0, i as int),
            is_run_length(tokens@),
            tokens.len() > 0 ==> tokens@.last().symbol() != current,
            (forall|k: int| 0 <= k < i ==> (#[trigger] points[k]).pitch is None) ==> tokens.len()
                == 0 && current is None && count == i,
        decreases points.len() - i,
    {
        let next: Option<u8> = points[i].pitch;
        let ghost before = tokens@;
        if same_symbol(next, current) {
            count += 1;
        } else {
            let token = make_token(current, count);
            tokens.push(token);
            proof {
                lemma_expand_push(before, token);
                assert forall|k: int| 0 <= k < tokens.len() implies (#[trigger] tokens[k]).frames()
                    >= 1 by {
                }
            }
            current = next;
            count = 1;
        }
        i += 1;
    }
    let ghost before = tokens@;
    let token = make_token(current, count);
    tokens.push(token);
    proof {
        lemma_expand_push(before, token);
    }
    Transcription { tokens }
}

} // verus!
