//! The query engine: candidate retrieval, scoring, reduction to one match
//! per tune, and ranking.

use vstd::prelude::*;
use crate::align::{alignment_score, similarity, MAX_QUERY_TOKENS};
use crate::index::{in_order, is_candidate, TuneIndex, TuneIndexEntry};
use crate::ranking::{distinct_tunes, ranked, sort_matches, RankedMatch};
use crate::settings::TuneSettings;
use crate::transcription::{Token, Transcription};

verus! {

broadcast use vstd::seq_lib::group_to_multiset_ensures;

/// Ranks the tunes of an index by their similarity to a query. It holds the
/// matching configuration and nothing that a query could change.
#[derive(Debug, Clone, Copy)]
pub struct QueryEngine {
    settings: TuneSettings,
}

/// The score of a setting with transcription `t` for the query `q`: its
/// similarity to `q` if it is a candidate, and zero if it is not. The index
/// was built with n-grams of length `n`.
pub open spec fn entry_score(q: Seq<Token>, w: TuneSettings, t: Seq<Token>, n: nat) -> int {
    if is_candidate(q, w.ngram_len as nat, t, n) {
        alignment_score(q, t, w)
    } else {
        0
    }
}

/// The scores of all entries for the query `q`, entry by entry.
pub open spec fn query_scores(
    entries: Seq<TuneIndexEntry>,
    n: nat,
    w: TuneSettings,
    q: Seq<Token>,
) -> Seq<int> {
    Seq::new(entries.len(), |e: int| entry_score(q, w, entries[e].transcription@, n))
}

/// Whether entry `e` stands for its tune: no setting of the tune scores
/// higher, and of those that score as high it is the first.
pub open spec fn is_best_of_tune(entries: Seq<TuneIndexEntry>, scores: Seq<int>, e: int) -> bool {
    &&& 0 <= e < entries.len()
    &&& forall|d: int|
        0 <= d < entries.len() && (#[trigger] entries[d]).tune_id == entries[e].tune_id
            ==> scores[d] < scores[e] || (scores[d] == scores[e] && e <= d)
}

/// Whether `m` is the match of entry `e`, and `e` stands for its tune.
pub open spec fn represents(
    m: RankedMatch,
    entries: Seq<TuneIndexEntry>,
    scores: Seq<int>,
    e: int,
) -> bool {
    &&& is_best_of_tune(entries, scores, e)
    &&& m.tune_id == entries[e].tune_id
    &&& m.setting_id == entries[e].setting_id
    &&& m.score == scores[e]
}

/// Whether `m` is the match of the entry that stands for its tune.
pub open spec fn is_best_match(m: RankedMatch, entries: Seq<TuneIndexEntry>, scores: Seq<int>) -> bool {
    exists|e: int| #[trigger] represents(m, entries, scores, e)
}

/// Whether some match is of the tune `id`.
pub open spec fn has_tune(matches: Seq<RankedMatch>, id: u32) -> bool {
    exists|k: int| 0 <= k < matches.len() && (#[trigger] matches[k]).tune_id == id
}

/// Whether `matches` is the ranking of the tunes of `entries` under the
/// given scores: every match is the best of its tune, every tune has a
/// match, and each match ranks before all that follow it.
pub open spec fn is_ranking_by(
    entries: Seq<TuneIndexEntry>,
    scores: Seq<int>,
    matches: Seq<RankedMatch>,
) -> bool {
    &&& forall|k: int|
        0 <= k < matches.len() ==> is_best_match(#[trigger] matches[k], entries, scores)
    &&& forall|e: int|
        0 <= e < entries.len() ==> has_tune(matches, (#[trigger] entries[e]).tune_id)
    &&& ranked(matches)
}

/// Whether `matches` is the ranking of the tunes of `entries` for the query
/// `q` under the settings `w`.
pub open spec fn is_ranking(
    entries: Seq<TuneIndexEntry>,
    n: nat,
    w: TuneSettings,
    q: Seq<Token>,
    matches: Seq<RankedMatch>,
) -> bool {
    is_ranking_by(entries, query_scores(entries, n, w, q), matches)
}

/// The tunes of which `matches` holds a match.
pub open spec fn tunes_of(matches: Seq<RankedMatch>) -> Set<u32> {
    Set::new(|id: u32| has_tune(matches, id))
}

/// The scores as integers.
pub open spec fn as_ints(scores: Seq<u64>) -> Seq<int> {
    Seq::new(scores.len(), |e: int| scores[e] as int)
}

/// Keeps, of the settings of each tune, the one that scores best: the first
/// of them where several do. The matches come out by ascending tune
/// identifier.
fn best_per_tune(index: &TuneIndex, scores: &Vec<u64>) -> (out: Vec<RankedMatch>)
    requires
        scores.len() == index.entries().len(),
    ensures
        forall|k: int|
            0 <= k < out.len() ==> is_best_match(
                #[trigger] out[k],
                index.entries(),
                as_ints(scores@),
            ),
        forall|e: int|
            0 <= e < index.entries().len() ==> has_tune(
                out@,
                (#[trigger] index.entries()[e]).tune_id,
            ),
        forall|a: int, b: int|
            #![trigger out[a], out[b]]
            0 <= a < b < out.len() ==> out[a].tune_id < out[b].tune_id,
{
    proof {
        use_type_invariant(index);
    }
    let ghost entries = index.entries();
    let ghost ints = as_ints(scores@);
    let count: usize = index.entry_count();
    let mut out: Vec<RankedMatch> = Vec::new();
    let mut i: usize = 0;
    while i < count
        invariant
            entries == index.entries(),
            ints == as_ints(scores@),
            count == entries.len(),
            scores.len() == count,
            in_order(entries),
            i <= count,
            forall|k: int| 0 <= k < out.len() ==> is_best_match(#[trigger] out[k], entries, ints),
            forall|e: int| 0 <= e < i ==> has_tune(out@, (#[trigger] entries[e]).tune_id),
            forall|k: int, d: int|
                #![trigger out[k], entries[d]]
                0 <= k < out.len() && i <= d < count ==> out[k].tune_id < entries[d].tune_id,
            forall|a: int, b: int|
                #![trigger out[a], out[b]]
                0 <= a < b < out.len() ==> out[a].tune_id < out[b].tune_id,
            forall|c: int, d: int|
                #![trigger entries[c], entries[d]]
                0 <= c < i && i <= d < count ==> entries[c].tune_id < entries[d].tune_id,
        decreases count - i,
    {
        let tune: u32 = index.entry(i).tune_id;
        let mut best: usize = i;
        let mut j: usize = i + 1;
        while j < count && index.entry(j).tune_id == tune
            invariant
                entries == index.entries(),
                ints == as_ints(scores@),
                count == entries.len(),
                scores.len() == count,
                i < j <= count,
                i <= best < j,
                forall|d: int| i <= d < j ==> (#[trigger] entries[d]).tune_id == tune,
                forall|d: int|
                    i <= d < j ==> (#[trigger] ints[d]) < ints[best as int] || (ints[d]
                        == ints[best as int] && best <= d),
            decreases count - j,
        {
            if scores[j] > scores[best] {
                best = j;
            }
            j += 1;
        }
        let found = RankedMatch {
            tune_id: tune,
            setting_id: index.entry(best).setting_id,
            score: scores[best],
        };
        let ghost earlier = out@;
        out.push(found);
        proof {
            assert(represents(found, entries, ints, best as int));
            assert forall|e: int| 0 <= e < j implies has_tune(
                out@,
                (#[trigger] entries[e]).tune_id,
            ) by {
                if e < i {
                    let k = choose|k: int|
                        0 <= k < earlier.len() && (#[trigger] earlier[k]).tune_id
                            == entries[e].tune_id;
                    assert(out[k].tune_id == entries[e].tune_id);
                } else {
                    assert(out[earlier.len() as int].tune_id == entries[e].tune_id);
                }
            }
        }
        i = j;
    }
    out
}

impl QueryEngine {
    /// The matching configuration of the engine.
    pub closed spec fn settings(&self) -> TuneSettings {
        self.settings
    }

    /// The invariant of an engine: its settings are valid.
    #[verifier::type_invariant]
    pub open spec fn wf(&self) -> bool {
        self.settings().valid()
    }

    /// An engine that matches under `settings`.
    pub fn new(settings: TuneSettings) -> (engine: QueryEngine)
        requires
            settings.valid(),
        ensures
            engine.settings() == settings,
            engine.wf(),
    {
        QueryEngine { settings }
    }

    /// The matching configuration of the engine.
    pub fn tune_settings(&self) -> (settings: TuneSettings)
        ensures
            settings == self.settings(),
            settings.valid(),
    {
        proof {
            use_type_invariant(self);
        }
        self.settings
    }

    /// Scores every entry of the index for the query: candidates by their
    /// similarity to it, all others zero.
    pub fn score_entries(&self, index: &TuneIndex, query: &Transcription) -> (scores: Vec<u64>)
        requires
            query@.len() <= MAX_QUERY_TOKENS,
        ensures
            scores.len() == index.entries().len(),
            as_ints(scores@) == query_scores(
                index.entries(),
                index.settings().ngram_len as nat,
                self.settings(),
                query@,
            ),
    {
        proof {
            use_type_invariant(self);
        }
        let ghost wanted = query_scores(
            index.entries(),
            index.settings().ngram_len as nat,
            self.settings(),
            query@,
        );
        let marks: Vec<bool> = index.candidates(query, self.settings.ngram_len);
        let count: usize = index.entry_count();
        let mut scores: Vec<u64> = Vec::new();
        let mut e: usize = 0;
        while e < count
            invariant
                query@.len() <= MAX_QUERY_TOKENS,
                count == index.entries().len(),
                marks.len() == count,
                wanted == query_scores(
                    index.entries(),
                    index.settings().ngram_len as nat,
                    self.settings(),
                    query@,
                ),
                forall|d: int|
                    0 <= d < count ==> marks[d] == is_candidate(
                        query@,
                        self.settings().ngram_len as nat,
                        #[trigger] index.entries()[d].transcription@,
                        index.settings().ngram_len as nat,
                    ),
                e <= count,
                scores.len() == e,
                forall|d: int| 0 <= d < e ==> #[trigger] scores[d] as int == wanted[d],
            decreases count - e,
        {
            let score: u64 = if marks[e] {
                similarity(query, &index.entry(e).transcription, &self.settings)
            } else {
                0
            };
            scores.push(score);
            e += 1;
        }
        scores
    }

    /// Ranks the tunes of the index by their similarity to the query. Every
    /// tune of the index comes out once, with its best-scoring setting: the
    /// highest score first, and the lower tune identifier first among equal
    /// scores.
    pub fn run_query(&self, index: &TuneIndex, query: &Transcription) -> (matches: Vec<
        RankedMatch,
    >)
        requires
            query@.len() <= MAX_QUERY_TOKENS,
        ensures
            is_ranking(
                index.entries(),
                index.settings().ngram_len as nat,
                self.settings(),
                query@,
                matches@,
            ),
            tunes_of(matches@) == index.tune_ids(),
            distinct_tunes(matches@),
            forall|k: int|
                0 <= k && k + 1 < matches.len() ==> (#[trigger] matches[k]).score >= matches[k
                    + 1].score,
    {
        let scores: Vec<u64> = self.score_entries(index, query);
        let reduced: Vec<RankedMatch> = best_per_tune(index, &scores);
        let matches: Vec<RankedMatch> = sort_matches(&reduced);
        proof {
            let entries = index.entries();
            let ints = as_ints(scores@);
            assert forall|k: int| 0 <= k < matches.len() implies is_best_match(
                #[trigger] matches[k],
                entries,
                ints,
            ) by {
                assert(matches@.to_multiset().count(matches[k]) > 0);
                let p = choose|p: int| 0 <= p < reduced.len() && reduced[p] == matches[k];
            }
            assert forall|e: int| 0 <= e < entries.len() implies has_tune(
                matches@,
                (#[trigger] entries[e]).tune_id,
            ) by {
                let p = choose|p: int|
                    0 <= p < reduced.len() && (#[trigger] reduced[p]).tune_id
                        == entries[e].tune_id;
                assert(reduced@.to_multiset().count(reduced[p]) > 0);
            }
        }
        matches
    }
}

} // verus!
