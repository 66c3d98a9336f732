//! What holds of every ranking, proved from the definition of a ranking
//! alone.

use vstd::prelude::*;
use crate::align::{lemma_score_bounds, lemma_self_score};
use crate::index::{is_candidate, tune_ids_of, TuneIndexEntry};
use crate::ngram::{has_key, ngram_key};
use crate::query::{is_best_match, is_ranking, is_ranking_by, query_scores, represents, tunes_of};
use crate::ranking::{distinct_tunes, ranked, RankedMatch};
use crate::settings::TuneSettings;
use crate::transcription::Token;

verus! {

/// A tune has one entry that stands for it, and so one match.
pub proof fn lemma_one_match_per_tune(
    entries: Seq<TuneIndexEntry>,
    scores: Seq<int>,
    a: RankedMatch,
    b: RankedMatch,
)
    requires
        is_best_match(a, entries, scores),
        is_best_match(b, entries, scores),
        a.tune_id == b.tune_id,
    ensures
        a == b,
{
}

/// A ranking is total: it holds a match of every tune of the index, of no
/// other tune, and of no tune twice.
pub proof fn lemma_ranking_total(
    entries: Seq<TuneIndexEntry>,
    scores: Seq<int>,
    matches: Seq<RankedMatch>,
)
    requires
        is_ranking_by(entries, scores, matches),
    ensures
        tunes_of(matches) == tune_ids_of(entries),
        distinct_tunes(matches),
{
}

/// The scores of a ranking never rise from one match to the next.
pub proof fn lemma_ranking_descends(matches: Seq<RankedMatch>)
    requires
        ranked(matches),
    ensures
        forall|k: int|
            0 <= k && k + 1 < matches.len() ==> (#[trigger] matches[k]).score >= matches[k
                + 1].score,
{
}

/// Two ranked lists that hold the same matches agree on their first `k`
/// places.
proof fn lemma_same_prefix(r1: Seq<RankedMatch>, r2: Seq<RankedMatch>, k: nat)
    requires
        ranked(r1),
        ranked(r2),
        forall|i: int| 0 <= i < r1.len() ==> r2.contains(#[trigger] r1[i]),
        forall|i: int| 0 <= i < r2.len() ==> r1.contains(#[trigger] r2[i]),
        k <= r1.len(),
    ensures
        k <= r2.len(),
        forall|i: int| 0 <= i < k ==> #[trigger] r1[i] == r2[i],
    decreases k,
{
    if k > 0 {
        let last = (k - 1) as int;
        lemma_same_prefix(r1, r2, (k - 1) as nat);
        let x = r1[last];
        let p = choose|p: int| 0 <= p < r2.len() && r2[p] == x;
        if p < last {
            assert(r1[p] == r2[p]);
        }
    }
}

/// A query has one ranking: two lists that are both the ranking of the same
/// entries under the same scores are the same list.
pub proof fn lemma_ranking_unique(
    entries: Seq<TuneIndexEntry>,
    scores: Seq<int>,
    r1: Seq<RankedMatch>,
    r2: Seq<RankedMatch>,
)
    requires
        is_ranking_by(entries, scores, r1),
        is_ranking_by(entries, scores, r2),
    ensures
        r1 == r2,
{
    lemma_same_prefix(r1, r2, r1.len());
    lemma_same_prefix(r2, r1, r2.len());
}

/// Determinism of a query: whatever two runs return for the same entries,
/// settings and query, they return the same list.
pub proof fn lemma_query_deterministic(
    entries: Seq<TuneIndexEntry>,
    n: nat,
    w: TuneSettings,
    q: Seq<Token>,
    r1: Seq<RankedMatch>,
    r2: Seq<RankedMatch>,
)
    requires
        is_ranking(entries, n, w, q, r1),
        is_ranking(entries, n, w, q, r2),
    ensures
        r1 == r2,
{
    lemma_ranking_unique(entries, query_scores(entries, n, w, q), r1, r2);
}

/// A melody is a candidate for itself, where query and index take n-grams
/// of the same length.
pub proof fn lemma_candidate_for_itself(q: Seq<Token>, n: nat)
    ensures
        is_candidate(q, n, q, n),
{
    if q.len() >= n {
        assert(has_key(q, n, ngram_key(q, 0, n)));
    }
}

/// Self-match: where the query is the canonical transcription of entry `e`,
/// and query and index take n-grams of the same length, the tune of `e`
/// gets the highest score of the ranking. Only tunes that score as high and
/// have a lower identifier stand before it.
pub proof fn lemma_self_match(
    entries: Seq<TuneIndexEntry>,
    w: TuneSettings,
    e: int,
    matches: Seq<RankedMatch>,
) -> (k: int)
    requires
        0 <= e < entries.len(),
        is_ranking(entries, w.ngram_len as nat, w, entries[e].transcription@, matches),
    ensures
        0 <= k < matches.len(),
        matches[k].tune_id == entries[e].tune_id,
        matches[k].score == w.match_reward * entries[e].transcription@.len(),
        forall|i: int| 0 <= i < matches.len() ==> (#[trigger] matches[i]).score <= matches[k].score,
        forall|i: int|
            0 <= i < k ==> (#[trigger] matches[i]).score == matches[k].score && matches[i].tune_id
                < matches[k].tune_id,
{
    let q = entries[e].transcription@;
    let n = w.ngram_len as nat;
    let scores = query_scores(entries, n, w, q);
    let top = w.match_reward * q.len();
    assert forall|d: int| 0 <= d < entries.len() implies 0 <= #[trigger] scores[d] <= top by {
        lemma_score_bounds(q, entries[d].transcription@, w);
    }
    lemma_candidate_for_itself(q, n);
    lemma_self_score(q, w);
    let k = choose|k: int|
        0 <= k < matches.len() && (#[trigger] matches[k]).tune_id == entries[e].tune_id;
    k
}

/// A query without tokens finds every tune with the score zero, so that
/// its ranking lists the tunes by ascending identifier.
pub proof fn lemma_empty_query(
    entries: Seq<TuneIndexEntry>,
    n: nat,
    w: TuneSettings,
    matches: Seq<RankedMatch>,
)
    requires
        is_ranking(entries, n, w, Seq::<Token>::empty(), matches),
    ensures
        forall|k: int| 0 <= k < matches.len() ==> (#[trigger] matches[k]).score == 0,
        forall|a: int, b: int|
            #![trigger matches[a], matches[b]]
            0 <= a < b < matches.len() ==> matches[a].tune_id < matches[b].tune_id,
{
    let q = Seq::<Token>::empty();
    let scores = query_scores(entries, n, w, q);
    assert forall|k: int| 0 <= k < matches.len() implies (#[trigger] matches[k]).score == 0 by {
        let e = choose|e: int| #[trigger] represents(matches[k], entries, scores, e);
        lemma_score_bounds(q, entries[e].transcription@, w);
    }
}

/// A tune none of whose settings is a candidate gets the score zero, and
/// with it a place at the end of the ranking: no tune behind it scores above
/// zero, and a tune before it scores above zero or has a lower identifier.
pub proof fn lemma_unretrieved_last(
    entries: Seq<TuneIndexEntry>,
    n: nat,
    w: TuneSettings,
    q: Seq<Token>,
    matches: Seq<RankedMatch>,
    k: int,
)
    requires
        is_ranking(entries, n, w, q, matches),
        0 <= k < matches.len(),
        forall|e: int|
            0 <= e < entries.len() && (#[trigger] entries[e]).tune_id == matches[k].tune_id
                ==> !is_candidate(q, w.ngram_len as nat, entries[e].transcription@, n),
    ensures
        matches[k].score == 0,
        forall|i: int| k < i < matches.len() ==> (#[trigger] matches[i]).score == 0,
        forall|i: int|
            0 <= i < k ==> (#[trigger] matches[i]).score > 0 || matches[i].tune_id
                < matches[k].tune_id,
{
}

} // verus!
