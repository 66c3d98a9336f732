//! The tune index: every known setting of every tune, and an inverted index
//! from n-gram keys to the settings that hold them.

use std::collections::HashMap;
use vstd::prelude::*;
use crate::error::FolkError;
use crate::ngram::{has_key, key_at, ngram_key, shares_ngram};
use crate::settings::{TuneSettings, MAX_NGRAM_LEN};
use crate::transcription::{Token, Transcription};

verus! {

broadcast use vstd::std_specs::hash::group_hash_axioms;

/// One known setting of a tune, with its canonical transcription.
#[derive(Debug, Clone, PartialEq, Eq)]
pub struct TuneIndexEntry {
    pub tune_id: u32,
    pub setting_id: u32,
    pub transcription: Transcription,
}

/// The logical content of a persisted tune index.
#[derive(Debug, Clone, PartialEq, Eq)]
pub struct IndexSource {
    pub settings: TuneSettings,
    pub entries: Vec<TuneIndexEntry>,
}

/// The searchable database of tune settings. It is made by `load` and never
/// changes afterwards.
#[derive(Debug)]
pub struct TuneIndex {
    settings: TuneSettings,
    entries: Vec<TuneIndexEntry>,
    postings: HashMap<u64, Vec<usize>>,
}

/// Whether `a` comes before `b`: by tune identifier, then by setting
/// identifier.
pub open spec fn entry_before(a: TuneIndexEntry, b: TuneIndexEntry) -> bool {
    a.tune_id < b.tune_id || (a.tune_id == b.tune_id && a.setting_id < b.setting_id)
}

/// Whether the entries stand in strictly ascending order, so that no pair of
/// tune and setting identifiers occurs twice.
pub open spec fn in_order(entries: Seq<TuneIndexEntry>) -> bool {
    forall|a: int, b: int|
        #![trigger entries[a], entries[b]]
        0 <= a < b < entries.len() ==> entry_before(entries[a], entries[b])
}

/// Whether some entry is a setting of the tune `id`.
pub open spec fn is_tune_of(entries: Seq<TuneIndexEntry>, id: u32) -> bool {
    exists|e: int| 0 <= e < entries.len() && (#[trigger] entries[e]).tune_id == id
}

/// The identifiers of the tunes that have a setting among `entries`.
pub open spec fn tune_ids_of(entries: Seq<TuneIndexEntry>) -> Set<u32> {
    Set::new(|id: u32| is_tune_of(entries, id))
}

/// Whether an entry with this transcription is looked at for the query `q`:
/// it is if it shares an n-gram with `q`, and every entry is if `q` is too
/// short to have an n-gram. The n-grams of `q` have length `m`, those of the
/// entry length `n`.
pub open spec fn is_candidate(q: Seq<Token>, m: nat, t: Seq<Token>, n: nat) -> bool {
    q.len() < m || shares_ngram(q, m, t, n)
}

/// Whether the inverted index lists entry `e` under `key`.
spec fn listed(postings: Map<u64, Vec<usize>>, key: u64, e: usize) -> bool {
    postings.contains_key(key) && postings[key]@.contains(e)
}

/// Whatever is listed under a key is an entry that has an n-gram with that
/// key.
spec fn postings_sound(postings: Map<u64, Vec<usize>>, entries: Seq<TuneIndexEntry>, n: nat) -> bool {
    forall|key: u64, e: usize| #[trigger]
        listed(postings, key, e) ==> e < entries.len() && has_key(
            entries[e as int].transcription@,
            n,
            key as nat,
        )
}

/// The n-grams of entry `e` that start before `upto` are listed.
spec fn postings_cover(
    postings: Map<u64, Vec<usize>>,
    entries: Seq<TuneIndexEntry>,
    n: nat,
    e: usize,
    upto: int,
) -> bool {
    forall|j: int|
        0 <= j < upto && j + n <= entries[e as int].transcription@.len() ==> listed(
            postings,
            #[trigger] ngram_key(entries[e as int].transcription@, j, n) as u64,
            e,
        )
}

/// Some n-gram of `q` that starts before `upto` has a key that `t` has too.
spec fn shared_before(q: Seq<Token>, m: nat, t: Seq<Token>, n: nat, upto: int) -> bool {
    exists|j: int|
        0 <= j < upto && j + m <= q.len() && has_key(t, n, #[trigger] ngram_key(q, j, m))
}

/// Lists entry `e` under `key`, and leaves every other listing as it was.
fn add_posting(postings: &mut HashMap<u64, Vec<usize>>, key: u64, e: usize)
    ensures
        listed(final(postings)@, key, e),
        forall|k: u64, x: usize| #[trigger]
            listed(old(postings)@, k, x) ==> listed(final(postings)@, k, x),
        forall|k: u64, x: usize| #[trigger]
            listed(final(postings)@, k, x) ==> listed(old(postings)@, k, x) || (k == key && x
                == e),
{
    let found: Option<Vec<usize>> = postings.remove(&key);
    let mut list: Vec<usize> = match found {
        Some(l) => l,
        None => Vec::new(),
    };
    let ghost before: Seq<usize> = list@;
    if list.len() == 0 || list[list.len() - 1] != e {
        list.push(e);
        assert(list@[list@.len() - 1] == e);
        assert forall|x: usize| before.contains(x) implies list@.contains(x) by {
            let i = choose|i: int| 0 <= i < before.len() && before[i] == x;
            assert(list@[i] == x);
        }
    }
    postings.insert(key, list);
}

/// Builds the inverted index of the n-grams of length `n` of all entries.
fn build_postings(entries: &Vec<TuneIndexEntry>, n: usize) -> (postings: HashMap<u64, Vec<usize>>)
    requires
        1 <= n <= MAX_NGRAM_LEN,
    ensures
        postings_sound(postings@, entries@, n as nat),
        forall|e: usize|
            e < entries.len() ==> postings_cover(
                postings@,
                entries@,
                n as nat,
                e,
                entries[e as int].transcription@.len() as int,
            ),
{
    let mut postings: HashMap<u64, Vec<usize>> = HashMap::new();
    let mut e: usize = 0;
    while e < entries.len()
        invariant
            1 <= n <= MAX_NGRAM_LEN,
            e <= entries.len(),
            postings_sound(postings@, entries@, n as nat),
            forall|d: usize|
                d < e ==> postings_cover(
                    postings@,
                    entries@,
                    n as nat,
                    d,
                    entries[d as int].transcription@.len() as int,
                ),
        decreases entries.len() - e,
    {
        let tokens = &entries[e].transcription.tokens;
        let mut j: usize = 0;
        while tokens.len() >= n && j <= tokens.len() - n
            invariant
                1 <= n <= MAX_NGRAM_LEN,
                e < entries.len(),
                tokens@ == entries[e as int].transcription@,
                j <= tokens.len(),
                postings_sound(postings@, entries@, n as nat),
                forall|d: usize|
                    d < e ==> postings_cover(
                        postings@,
                        entries@,
                        n as nat,
                        d,
                        entries[d as int].transcription@.len() as int,
                    ),
                postings_cover(postings@, entries@, n as nat, e, j as int),
            decreases tokens.len() - j,
        {
            let key: u64 = key_at(tokens, j, n);
            add_posting(&mut postings, key, e);
            j += 1;
        }
        e += 1;
    }
    postings
}

/// Strict order of neighbours is strict order of all.
proof fn lemma_neighbours_in_order(entries: Seq<TuneIndexEntry>, upto: int)
    requires
        0 <= upto <= entries.len(),
        forall|a: int| 0 < a < upto ==> entry_before(#[trigger] entries[a - 1], entries[a]),
    ensures
        in_order(entries.subrange(0, upto)),
    decreases upto,
{
    if upto > 0 {
        lemma_neighbours_in_order(entries, upto - 1);
        let shorter = entries.subrange(0, upto - 1);
        let longer = entries.subrange(0, upto);
        assert forall|a: int, b: int|
            #![trigger longer[a], longer[b]]
            0 <= a < b < longer.len() implies entry_before(longer[a], longer[b]) by {
            if b == upto - 1 && a < b - 1 {
                assert(entry_before(shorter[a], shorter[b - 1]));
            }
        }
    }
}

/// Decides `in_order`.
fn check_order(entries: &Vec<TuneIndexEntry>) -> (ok: bool)
    ensures
        ok == in_order(entries@),
{
    let mut e: usize = 1;
    while e < entries.len()
        invariant
            1 <= e,
            forall|a: int| 0 < a < e && a < entries.len() ==> entry_before(
                #[trigger] entries[a - 1],
                entries[a],
            ),
        decreases entries.len() - e,
    {
        let a = &entries[e - 1];
        let b = &entries[e];
        let before = a.tune_id < b.tune_id || (a.tune_id == b.tune_id && a.setting_id
            < b.setting_id);
        if !before {
            return false;
        }
        e += 1;
    }
    proof {
        lemma_neighbours_in_order(entries@, entries@.len() as int);
        assert(entries@.subrange(0, entries@.len() as int) == entries@);
    }
    true
}

impl IndexSource {
    /// Whether the content can be loaded: the settings are valid and the
    /// entries stand in strictly ascending order of tune and setting
    /// identifier.
    pub open spec fn well_formed(&self) -> bool {
        self.settings.valid() && in_order(self.entries@)
    }
}

impl TuneIndex {
    /// The matching configuration that the index was built with.
    pub closed spec fn settings(&self) -> TuneSettings {
        self.settings
    }

    /// The settings of the index, in ascending order of tune and setting
    /// identifier.
    pub closed spec fn entries(&self) -> Seq<TuneIndexEntry> {
        self.entries@
    }

    /// Whether the inverted index lists, under each key, exactly the entries
    /// that have an n-gram with that key.
    pub closed spec fn postings_exact(&self) -> bool {
        &&& postings_sound(self.postings@, self.entries@, self.settings.ngram_len as nat)
        &&& forall|e: usize|
            e < self.entries.len() ==> postings_cover(
                self.postings@,
                self.entries@,
                self.settings.ngram_len as nat,
                e,
                self.entries[e as int].transcription@.len() as int,
            )
    }

    /// The invariant of an index: it holds of every index that `load` made.
    #[verifier::type_invariant]
    pub open spec fn wf(&self) -> bool {
        &&& self.settings().valid()
        &&& in_order(self.entries())
        &&& self.postings_exact()
    }

    /// The identifiers of the tunes that have a setting in the index.
    pub open spec fn tune_ids(&self) -> Set<u32> {
        tune_ids_of(self.entries())
    }

    /// Loads the index from its persisted content. An absent source is
    /// `IndexNotFound`, a malformed one `IndexCorrupt`; any other is loaded
    /// as it stands.
    pub fn load(source: Option<IndexSource>) -> (r: Result<TuneIndex, FolkError>)
        ensures
            source is None ==> r == Err::<TuneIndex, FolkError>(FolkError::IndexNotFound),
            source matches Some(src) ==> !src.well_formed() ==> r == Err::<TuneIndex, FolkError>(
                FolkError::IndexCorrupt,
            ),
            source matches Some(src) ==> src.well_formed() ==> (r matches Ok(index) && index.wf()
                && index.settings() == src.settings && index.entries() == src.entries@),
    {
        match source {
            None => Err(FolkError::IndexNotFound),
            Some(src) => {
                if !src.settings.is_valid() {
                    return Err(FolkError::IndexCorrupt);
                }
                if !check_order(&src.entries) {
                    return Err(FolkError::IndexCorrupt);
                }
                let postings = build_postings(&src.entries, src.settings.ngram_len);
                Ok(TuneIndex { settings: src.settings, entries: src.entries, postings })
            },
        }
    }

    /// The matching configuration that the index was built with.
    pub fn tune_settings(&self) -> (settings: TuneSettings)
        ensures
            settings == self.settings(),
            settings.valid(),
    {
        proof {
            use_type_invariant(self);
        }
        self.settings
    }

    /// The number of settings in the index.
    pub fn entry_count(&self) -> (count: usize)
        ensures
            count == self.entries().len(),
    {
        self.entries.len()
    }

    /// The setting at position `e`.
    pub fn entry(&self, e: usize) -> (entry: &TuneIndexEntry)
        requires
            e < self.entries().len(),
        ensures
            *entry == self.entries()[e as int],
    {
        &self.entries[e]
    }

    /// Finds the setting `setting_id` of the tune `tune_id`: its position
    /// among the entries, or `None` where the index holds no such setting.
    pub fn find(&self, tune_id: u32, setting_id: u32) -> (r: Option<usize>)
        ensures
            r matches Some(e) ==> e < self.entries().len() && self.entries()[e as int].tune_id
                == tune_id && self.entries()[e as int].setting_id == setting_id,
            r is None ==> forall|e: int|
                0 <= e < self.entries().len() ==> !((#[trigger] self.entries()[e]).tune_id
                    == tune_id && self.entries()[e].setting_id == setting_id),
    {
        proof {
            use_type_invariant(self);
        }
        let mut lo: usize = 0;
        let mut hi: usize = self.entries.len();
        while lo < hi
            invariant
                in_order(self.entries@),
                lo <= hi <= self.entries.len(),
                forall|e: int|
                    0 <= e < lo ==> (#[trigger] self.entries[e]).tune_id < tune_id || (
                    self.entries[e].tune_id == tune_id && self.entries[e].setting_id < setting_id),
                forall|e: int|
                    hi <= e < self.entries.len() ==> (#[trigger] self.entries[e]).tune_id > tune_id
                        || (self.entries[e].tune_id == tune_id && self.entries[e].setting_id
                        > setting_id),
            decreases hi - lo,
        {
            let mid: usize = lo + (hi - lo) / 2;
            let entry = &self.entries[mid];
            if entry.tune_id == tune_id && entry.setting_id == setting_id {
                return Some(mid);
            }
            let below: bool = entry.tune_id < tune_id || (entry.tune_id == tune_id
                && entry.setting_id < setting_id);
            if below {
                lo = mid + 1;
            } else {
                hi = mid;
            }
        }
        None
    }

    /// Marks the entries that are candidates for `query`, whose n-grams are
    /// taken with length `ngram_len`.
    pub fn candidates(&self, query: &Transcription, ngram_len: usize) -> (marks: Vec<bool>)
        requires
            1 <= ngram_len <= MAX_NGRAM_LEN,
        ensures
            marks.len() == self.entries().len(),
            forall|e: int|
                0 <= e < self.entries().len() ==> marks[e] == is_candidate(
                    query@,
                    ngram_len as nat,
                    #[trigger] self.entries()[e].transcription@,
                    self.settings().ngram_len as nat,
                ),
    {
        proof {
            use_type_invariant(self);
        }
        let ghost q = query@;
        let ghost m = ngram_len as nat;
        let ghost n = self.settings.ngram_len as nat;
        let count: usize = self.entries.len();
        let too_short: bool = query.tokens.len() < ngram_len;
        let mut marks: Vec<bool> = Vec::new();
        let mut e: usize = 0;
        while e < count
            invariant
                e <= count,
                marks.len() == e,
                forall|d: int| 0 <= d < e ==> marks[d] == too_short,
            decreases count - e,
        {
            marks.push(too_short);
            e += 1;
        }
        if too_short {
            return marks;
        }
        let last: usize = query.tokens.len() - ngram_len;
        let mut j: usize = 0;
        while j <= last
            invariant
                self.wf(),
                q == query@,
                m == ngram_len,
                n == self.settings.ngram_len,
                1 <= ngram_len <= MAX_NGRAM_LEN,
                count == self.entries.len(),
                last + ngram_len == query.tokens.len(),
                j <= last + 1,
                marks.len() == count,
                forall|d: int|
                    0 <= d < count ==> marks[d] == shared_before(
                        q,
                        m,
                        #[trigger] self.entries[d].transcription@,
                        n,
                        j as int,
                    ),
            decreases last + 1 - j,
        {
            let key: u64 = key_at(&query.tokens, j, ngram_len);
            let ghost earlier = marks@;
            match self.postings.get(&key) {
                Some(list) => {
                    let mut x: usize = 0;
                    while x < list.len()
                        invariant
                            self.wf(),
                            count == self.entries.len(),
                            marks.len() == count,
                            earlier.len() == count,
                            x <= list.len(),
                            self.postings@.contains_key(key),
                            self.postings@[key] == *list,
                            forall|d: int|
                                0 <= d < count ==> #[trigger] marks[d] == (earlier[d]
                                    || list@.subrange(0, x as int).contains(d as usize)),
                        decreases list.len() - x,
                    {
                        let d: usize = list[x];
                        assert(listed(self.postings@, key, d));
                        marks.set(d, true);
                        proof {
                            let longer = list@.subrange(0, x + 1);
                            assert forall|c: int| 0 <= c < count implies #[trigger] marks[c] == (
                            earlier[c] || longer.contains(c as usize)) by {
                                if c == d {
                                    assert(longer[x as int] == d);
                                }
                            }
                        }
                        x += 1;
                    }
                    assert(list@.subrange(0, list@.len() as int) == list@);
                },
                None => {},
            }
            proof {
                assert forall|d: int| 0 <= d < count implies marks[d] == shared_before(
                    q,
                    m,
                    #[trigger] self.entries[d].transcription@,
                    n,
                    j + 1,
                ) by {
                    let t = self.entries[d].transcription@;
                    assert(has_key(t, n, key as nat) == listed(self.postings@, key, d as usize));
                }
            }
            j += 1;
        }
        marks
    }
}

} // verus!
