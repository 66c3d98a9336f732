//! Melodic tokens and transcriptions.

use vstd::prelude::*;

verus! {

/// One element of a melody: a sounding pitch or a silence, held for a number
/// of spectrogram frames.
#[derive(Debug, Clone, Copy, PartialEq, Eq, Structural)]
pub enum Token {
    /// A quantized pitch held for `duration` frames.
    Note { pitch: u8, duration: u64 },
    /// Silence held for `duration` frames.
    Rest { duration: u64 },
}

impl Token {
    /// The pitch of a note, `None` for a rest.
    pub open spec fn symbol(self) -> Option<u8> {
        match self {
            Token::Note { pitch, duration } => Some(pitch),
            Token::Rest { duration } => None,
        }
    }

    /// The number of frames that the token spans.
    pub open spec fn frames(self) -> nat {
        match self {
            Token::Note { pitch, duration } => duration as nat,
            Token::Rest { duration } => duration as nat,
        }
    }
}

/// A melody as an ordered sequence of tokens.
#[derive(Debug, Clone, PartialEq, Eq)]
pub struct Transcription {
    pub tokens: Vec<Token>,
}

impl View for Transcription {
    type V = Seq<Token>;

    open spec fn view(&self) -> Seq<Token> {
        self.tokens@
    }
}

impl Transcription {
    /// A transcription made of the given tokens.
    pub fn new(tokens: Vec<Token>) -> (t: Transcription)
        ensures
            t@ == tokens@,
    {
        Transcription { tokens }
    }

    /// The number of tokens.
    pub fn len(&self) -> (n: usize)
        ensures
            n == self@.len(),
    {
        self.tokens.len()
    }

    /// A copy that holds the same tokens.
    pub fn duplicate(&self) -> (t: Transcription)
        ensures
            t@ == self@,
    {
        let mut tokens: Vec<Token> = Vec::new();
        let mut i: usize = 0;
        while i < self.tokens.len()
            invariant
                i <= self.tokens.len(),
                tokens@ == self.tokens@.subrange(0, i as int),
            decreases self.tokens.len() - i,
        {
            tokens.push(self.tokens[i]);
            i += 1;
        }
        Transcription { tokens }
    }
}

} // verus!
