//! Melodic n-grams: runs of consecutive tokens, reduced to their pitches and
//! packed into an integer key.

use vstd::prelude::*;
use crate::settings::MAX_NGRAM_LEN;
use crate::transcription::Token;

verus! {

/// Number of distinct symbol codes: one per pitch and one for a rest.
pub const KEY_RADIX: u64 = 257;

/// The code of a token within a key: zero for a rest, the pitch plus one
/// for a note. Durations play no part.
pub open spec fn symbol_code(token: Token) -> nat {
    match token {
        Token::Note { pitch, duration } => (pitch + 1) as nat,
        Token::Rest { duration } => 0,
    }
}

/// The key of the `n` tokens that start at `start`: their codes read as the
/// digits of a number, the first token the most significant.
pub open spec fn ngram_key(tokens: Seq<Token>, start: int, n: nat) -> nat
    decreases n,
{
    if n == 0 {
        0
    } else {
        ngram_key(tokens, start, (n - 1) as nat) * 257 + symbol_code(tokens[start + n - 1])
    }
}

/// The number of keys of `n` digits.
pub open spec fn key_space(n: nat) -> nat
    decreases n,
{
    if n == 0 {
        1
    } else {
        key_space((n - 1) as nat) * 257
    }
}

/// Whether some n-gram of `tokens`, of length `n`, has the key `key`.
pub open spec fn has_key(tokens: Seq<Token>, n: nat, key: nat) -> bool {
    exists|j: int| 0 <= j && j + n <= tokens.len() && #[trigger] ngram_key(tokens, j, n) == key
}

/// Whether the key of some n-gram of `q`, of length `m`, is also the key of
/// an n-gram of `t`, of length `n`.
pub open spec fn shares_ngram(q: Seq<Token>, m: nat, t: Seq<Token>, n: nat) -> bool {
    exists|j: int| 0 <= j && j + m <= q.len() && has_key(t, n, #[trigger] ngram_key(q, j, m))
}

/// A key of `n` digits lies below `key_space(n)`.
pub proof fn lemma_key_bound(tokens: Seq<Token>, start: int, n: nat)
    ensures
        ngram_key(tokens, start, n) < key_space(n),
    decreases n,
{
    if n > 0 {
        lemma_key_bound(tokens, start, (n - 1) as nat);
    }
}

/// Every key of a supported length fits in 57 bits.
pub proof fn lemma_key_space_fits(n: nat)
    requires
        n <= MAX_NGRAM_LEN,
    ensures
        key_space(n) <= 74051159531521793,
{
    reveal_with_fuel(key_space, 8);
}

/// Two n-grams have the same key exactly when they agree, token by token,
/// on what sounds: the same pitch, or a rest in both.
pub proof fn lemma_key_equality(a: Seq<Token>, i: int, b: Seq<Token>, j: int, n: nat)
    ensures
        ngram_key(a, i, n) == ngram_key(b, j, n) <==> (forall|k: int|
            0 <= k < n ==> (#[trigger] a[i + k]).symbol() == b[j + k].symbol()),
    decreases n,
{
    if n > 0 {
        let n1 = (n - 1) as nat;
        lemma_key_equality(a, i, b, j, n1);
    }
}

/// Whether the `n` tokens of `a` from `i` and the `n` tokens of `b` from `j`
/// agree, one by one, on what sounds.
pub open spec fn same_symbols(a: Seq<Token>, i: int, b: Seq<Token>, j: int, n: nat) -> bool {
    forall|k: int| 0 <= k < n ==> (#[trigger] a[i + k]).symbol() == b[j + k].symbol()
}

/// Whether some n-gram of `q` and some n-gram of `t`, both of length `n`,
/// agree on what sounds.
pub open spec fn shares_melody(q: Seq<Token>, t: Seq<Token>, n: nat) -> bool {
    exists|i: int, j: int|
        0 <= i && i + n <= q.len() && 0 <= j && j + n <= t.len() && #[trigger] same_symbols(
            q,
            i,
            t,
            j,
            n,
        )
}

/// Two melodies share a key exactly when an n-gram of one sounds like an
/// n-gram of the other.
pub proof fn lemma_shared_key_is_shared_melody(q: Seq<Token>, t: Seq<Token>, n: nat)
    ensures
        shares_ngram(q, n, t, n) <==> shares_melody(q, t, n),
{
    if shares_ngram(q, n, t, n) {
        let i = choose|i: int|
            0 <= i && i + n <= q.len() && has_key(t, n, #[trigger] ngram_key(q, i, n));
        let j = choose|j: int|
            0 <= j && j + n <= t.len() && #[trigger] ngram_key(t, j, n) == ngram_key(q, i, n);
        lemma_key_equality(q, i, t, j, n);
        assert(same_symbols(q, i, t, j, n));
    }
    if shares_melody(q, t, n) {
        let (i, j) = choose|i: int, j: int|
            0 <= i && i + n <= q.len() && 0 <= j && j + n <= t.len() && #[trigger] same_symbols(
                q,
                i,
                t,
                j,
                n,
            );
        lemma_key_equality(q, i, t, j, n);
        assert(has_key(t, n, ngram_key(q, i, n)));
    }
}

/// Computes the key of the `n` tokens of `tokens` that start at `start`.
pub fn key_at(tokens: &Vec<Token>, start: usize, n: usize) -> (key: u64)
    requires
        n <= MAX_NGRAM_LEN,
        start + n <= tokens.len(),
    ensures
        key == ngram_key(tokens@, start as int, n as nat),
{
    let mut key: u64 = 0;
    let mut k: usize = 0;
    while k < n
        invariant
            k <= n <= MAX_NGRAM_LEN,
            start + n <= tokens.len(),
            key == ngram_key(tokens@, start as int, k as nat),
        decreases n - k,
    {
        proof {
            lemma_key_bound(tokens@, start as int, k as nat);
            lemma_key_space_fits((k + 1) as nat);
        }
        let code: u64 = match tokens[start + k] {
            Token::Note { pitch, duration } => pitch as u64 + 1,
            Token::Rest { duration } => 0,
        };
        key = key * KEY_RADIX + code;
        k += 1;
    }
    key
}

} // verus!
