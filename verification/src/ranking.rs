//! Scored candidates and their order: by score, the best first, and by tune
//! identifier among equal scores.

use vstd::prelude::*;
use vstd::seq_lib::lemma_multiset_commutative;

verus! {

broadcast use vstd::seq_lib::group_to_multiset_ensures;

/// One scored candidate: the best setting of a tune and its similarity to
/// the query.
#[derive(Debug, Clone, Copy, PartialEq, Eq, Structural)]
pub struct RankedMatch {
    pub tune_id: u32,
    pub setting_id: u32,
    pub score: u64,
}

/// Whether `a` ranks before `b`: its score is higher, or the scores are
/// equal and its tune identifier is lower.
pub open spec fn ranks_before(a: RankedMatch, b: RankedMatch) -> bool {
    a.score > b.score || (a.score == b.score && a.tune_id < b.tune_id)
}

/// Whether every match ranks before all that follow it.
pub open spec fn ranked(matches: Seq<RankedMatch>) -> bool {
    forall|a: int, b: int|
        #![trigger matches[a], matches[b]]
        0 <= a < b < matches.len() ==> ranks_before(matches[a], matches[b])
}

/// Whether no two matches are of the same tune.
pub open spec fn distinct_tunes(matches: Seq<RankedMatch>) -> bool {
    forall|a: int, b: int|
        #![trigger matches[a], matches[b]]
        0 <= a < b < matches.len() ==> matches[a].tune_id != matches[b].tune_id
}

/// Decides `ranks_before`.
pub fn precedes(a: &RankedMatch, b: &RankedMatch) -> (r: bool)
    ensures
        r == ranks_before(*a, *b),
{
    a.score > b.score || (a.score == b.score && a.tune_id < b.tune_id)
}

/// Merges two ranked lists into one.
fn merge(left: &Vec<RankedMatch>, right: &Vec<RankedMatch>) -> (out: Vec<RankedMatch>)
    requires
        ranked(left@),
        ranked(right@),
        forall|a: int, b: int|
            #![trigger left[a], right[b]]
            0 <= a < left.len() && 0 <= b < right.len() ==> left[a].tune_id != right[b].tune_id,
    ensures
        ranked(out@),
        out@.to_multiset() == left@.to_multiset().add(right@.to_multiset()),
{
    let mut out: Vec<RankedMatch> = Vec::new();
    let mut i: usize = 0;
    let mut j: usize = 0;
    while i < left.len() || j < right.len()
        invariant
            ranked(left@),
            ranked(right@),
            forall|a: int, b: int|
                #![trigger left[a], right[b]]
                0 <= a < left.len() && 0 <= b < right.len() ==> left[a].tune_id
                    != right[b].tune_id,
            i <= left.len(),
            j <= right.len(),
            ranked(out@),
            forall|k: int, a: int|
                #![trigger out[k], left[a]]
                0 <= k < out.len() && i <= a < left.len() ==> ranks_before(out[k], left[a]),
            forall|k: int, b: int|
                #![trigger out[k], right[b]]
                0 <= k < out.len() && j <= b < right.len() ==> ranks_before(out[k], right[b]),
            out@.to_multiset() == left@.subrange(0, i as int).to_multiset().add(
                right@.subrange(0, j as int).to_multiset(),
            ),
        decreases left.len() - i + right.len() - j,
    {
        let take_left: bool = if i == left.len() {
            false
        } else if j == right.len() {
            true
        } else {
            precedes(&left[i], &right[j])
        };
        if take_left {
            let x: RankedMatch = left[i];
            out.push(x);
            proof {
                assert(left@.subrange(0, i + 1) == left@.subrange(0, i as int).push(x));
            }
            i += 1;
        } else {
            let x: RankedMatch = right[j];
            out.push(x);
            proof {
                assert(right@.subrange(0, j + 1) == right@.subrange(0, j as int).push(x));
            }
            j += 1;
        }
    }
    proof {
        assert(left@.subrange(0, i as int) == left@);
        assert(right@.subrange(0, j as int) == right@);
    }
    out
}

/// Ranks the matches of `matches[lo..hi]`.
fn sort_range(matches: &Vec<RankedMatch>, lo: usize, hi: usize) -> (out: Vec<RankedMatch>)
    requires
        lo <= hi <= matches.len(),
        distinct_tunes(matches@),
    ensures
        ranked(out@),
        out@.to_multiset() == matches@.subrange(lo as int, hi as int).to_multiset(),
    decreases hi - lo,
{
    let ghost part = matches@.subrange(lo as int, hi as int);
    if hi - lo == 0 {
        let out: Vec<RankedMatch> = Vec::new();
        out
    } else if hi - lo == 1 {
        let mut out: Vec<RankedMatch> = Vec::new();
        out.push(matches[lo]);
        assert(out@ == part);
        out
    } else {
        let mid: usize = lo + (hi - lo) / 2;
        let left = sort_range(matches, lo, mid);
        let right = sort_range(matches, mid, hi);
        let ghost lpart = matches@.subrange(lo as int, mid as int);
        let ghost rpart = matches@.subrange(mid as int, hi as int);
        proof {
            assert(part == lpart + rpart);
            lemma_multiset_commutative(lpart, rpart);
            assert forall|a: int, b: int|
                #![trigger left[a], right[b]]
                0 <= a < left.len() && 0 <= b < right.len() implies left[a].tune_id
                != right[b].tune_id by {
                assert(left@.to_multiset().count(left[a]) > 0);
                assert(right@.to_multiset().count(right[b]) > 0);
            }
        }
        merge(&left, &right)
    }
}

/// Ranks matches of distinct tunes: the result holds the same matches, each
/// before all that it ranks before.
pub(crate) fn sort_matches(matches: &Vec<RankedMatch>) -> (out: Vec<RankedMatch>)
    requires
        distinct_tunes(matches@),
    ensures
        ranked(out@),
        out@.to_multiset() == matches@.to_multiset(),
{
    assert(matches@.subrange(0, matches@.len() as int) == matches@);
    sort_range(matches, 0, matches.len())
}

} // verus!
