//! Labelled transcriptions and the rank at which a query finds their tune.

use vstd::prelude::*;
use crate::align::MAX_QUERY_TOKENS;
use crate::index::{TuneIndex, TuneIndexEntry};
use crate::query::{is_ranking, QueryEngine};
use crate::ranking::RankedMatch;
use crate::settings::TuneSettings;
use crate::transcription::{Token, Transcription};

verus! {

/// A transcription with the tune that it is known to be of.
#[derive(Debug, Clone, PartialEq, Eq)]
pub struct TranscriptionRecord {
    pub rel_path: String,
    pub tune_id: u32,
    pub name: String,
    pub transcription: Transcription,
}

/// A record with the rank at which a query with its transcription found
/// its tune.
#[derive(Debug, Clone, PartialEq, Eq)]
pub struct TranscriptionRecordRanked {
    pub rank: usize,
    pub rel_path: String,
    pub tune_id: u32,
    pub name: String,
    pub transcription: Transcription,
}

/// Whether `rank` is the rank of the tune `tune_id` in `matches`: the place,
/// counted from zero, of the first match of that tune, and the length of the
/// list where it holds none.
pub open spec fn is_rank_of(matches: Seq<RankedMatch>, tune_id: u32, rank: int) -> bool {
    &&& 0 <= rank <= matches.len()
    &&& rank < matches.len() ==> matches[rank].tune_id == tune_id
    &&& forall|k: int| 0 <= k < rank ==> (#[trigger] matches[k]).tune_id != tune_id
}

/// Whether `rank` is the rank of the tune `tune_id` in the ranking of the
/// tunes of `entries` for the query `q`.
pub open spec fn is_query_rank(
    entries: Seq<TuneIndexEntry>,
    n: nat,
    w: TuneSettings,
    q: Seq<Token>,
    tune_id: u32,
    rank: int,
) -> bool {
    exists|matches: Seq<RankedMatch>| #[trigger]
        is_ranking(entries, n, w, q, matches) && is_rank_of(matches, tune_id, rank)
}

/// Whether `ranked` is `record` with the rank `rank` added, and all else
/// unchanged.
pub open spec fn is_ranked(
    ranked: TranscriptionRecordRanked,
    record: TranscriptionRecord,
    rank: int,
) -> bool {
    &&& ranked.rank == rank
    &&& ranked.rel_path == record.rel_path
    &&& ranked.tune_id == record.tune_id
    &&& ranked.name == record.name
    &&& ranked.transcription == record.transcription
}

/// Finds the rank of a tune in a list of matches.
pub fn rank_of(matches: &Vec<RankedMatch>, tune_id: u32) -> (rank: usize)
    ensures
        is_rank_of(matches@, tune_id, rank as int),
{
    let mut k: usize = 0;
    while k < matches.len()
        invariant
            k <= matches.len(),
            forall|i: int| 0 <= i < k ==> (#[trigger] matches[i]).tune_id != tune_id,
        decreases matches.len() - k,
    {
        if matches[k].tune_id == tune_id {
            return k;
        }
        k += 1;
    }
    k
}

/// Adds a rank to a record.
pub fn with_rank(record: TranscriptionRecord, rank: usize) -> (ranked: TranscriptionRecordRanked)
    ensures
        is_ranked(ranked, record, rank as int),
{
    TranscriptionRecordRanked {
        rank,
        rel_path: record.rel_path,
        tune_id: record.tune_id,
        name: record.name,
        transcription: record.transcription,
    }
}

/// Gives each record its rank: the first record the first rank, and so on,
/// as far as both lists go.
pub fn attach_ranks(records: Vec<TranscriptionRecord>, ranks: &Vec<usize>) -> (out: Vec<
    TranscriptionRecordRanked,
>)
    ensures
        out.len() == records.len() || out.len() == ranks.len(),
        out.len() <= records.len(),
        out.len() <= ranks.len(),
        forall|i: int|
            0 <= i < out.len() ==> is_ranked(#[trigger] out[i], records[i], ranks[i] as int),
{
    let ghost all = records@;
    let mut rest: Vec<TranscriptionRecord> = records;
    let mut reversed: Vec<TranscriptionRecord> = Vec::new();
    while rest.len() > 0
        invariant
            rest.len() + reversed.len() == all.len(),
            forall|i: int| 0 <= i < rest.len() ==> #[trigger] rest[i] == all[i],
            forall|i: int|
                0 <= i < reversed.len() ==> #[trigger] reversed[i] == all[all.len() - 1 - i],
        decreases rest.len(),
    {
        let record = rest.pop().unwrap();
        reversed.push(record);
    }
    let mut out: Vec<TranscriptionRecordRanked> = Vec::new();
    while reversed.len() > 0 && out.len() < ranks.len()
        invariant
            out.len() + reversed.len() == all.len(),
            out.len() <= ranks.len(),
            forall|i: int|
                0 <= i < reversed.len() ==> #[trigger] reversed[i] == all[all.len() - 1 - i],
            forall|i: int|
                0 <= i < out.len() ==> is_ranked(#[trigger] out[i], all[i], ranks[i] as int),
        decreases reversed.len(),
    {
        let k: usize = out.len();
        let record = reversed.pop().unwrap();
        let ranked = with_rank(record, ranks[k]);
        out.push(ranked);
    }
    out
}

impl QueryEngine {
    /// The rank at which a query with the transcription of `record` finds
    /// the tune of `record`: the number of tunes in the index where it does
    /// not find it.
    pub fn query_rank(&self, index: &TuneIndex, record: &TranscriptionRecord) -> (rank: usize)
        requires
            record.transcription@.len() <= MAX_QUERY_TOKENS,
        ensures
            is_query_rank(
                index.entries(),
                index.settings().ngram_len as nat,
                self.settings(),
                record.transcription@,
                record.tune_id,
                rank as int,
            ),
    {
        let matches = self.run_query(index, &record.transcription);
        let rank = rank_of(&matches, record.tune_id);
        rank
    }
}

/// Queries the index with the transcription of every record, and gives each
/// record the rank at which its own tune was found. The records come out in
/// the order in which they went in, with nothing but the rank added.
pub fn bulk_query(engine: &QueryEngine, index: &TuneIndex, records: Vec<TranscriptionRecord>) -> (out:
    Vec<TranscriptionRecordRanked>)
    requires
        forall|i: int|
            0 <= i < records.len() ==> (#[trigger] records[i]).transcription@.len()
                <= MAX_QUERY_TOKENS,
    ensures
        out.len() == records.len(),
        forall|i: int|
            0 <= i < out.len() ==> is_ranked(#[trigger] out[i], records[i], out[i].rank as int)
                && is_query_rank(
                index.entries(),
                index.settings().ngram_len as nat,
                engine.settings(),
                records[i].transcription@,
                records[i].tune_id,
                out[i].rank as int,
            ),
{
    let mut ranks: Vec<usize> = Vec::new();
    let mut i: usize = 0;
    while i < records.len()
        invariant
            i <= records.len(),
            ranks.len() == i,
            forall|k: int|
                0 <= k < records.len() ==> (#[trigger] records[k]).transcription@.len()
                    <= MAX_QUERY_TOKENS,
            forall|k: int|
                0 <= k < i ==> is_query_rank(
                    index.entries(),
                    index.settings().ngram_len as nat,
                    engine.settings(),
                    (#[trigger] records[k]).transcription@,
                    records[k].tune_id,
                    ranks[k] as int,
                ),
        decreases records.len() - i,
    {
        let rank = engine.query_rank(index, &records[i]);
        ranks.push(rank);
        i += 1;
    }
    attach_ranks(records, &ranks)
}

} // verus!
