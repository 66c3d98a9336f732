use folkfriend::align::similarity;
use folkfriend::error::FolkError;
use folkfriend::index::{IndexSource, TuneIndex, TuneIndexEntry};
use folkfriend::ngram::key_at;
use folkfriend::query::QueryEngine;
use folkfriend::ranking::{precedes, RankedMatch};
use folkfriend::settings::{TuneSettings, MAX_NGRAM_LEN};
use folkfriend::transcription::{Token, Transcription};

fn weights() -> TuneSettings {
    TuneSettings {
        window_size: 1024,
        hop_size: 512,
        pitch_bins: 48,
        energy_threshold: 1024,
        ngram_len: 2,
        match_reward: 10,
        pitch_penalty: 2,
        duration_penalty: 1,
        mismatch_penalty: 15,
        gap_penalty: 4,
    }
}

fn note(pitch: u8, duration: u64) -> Token {
    Token::Note { pitch, duration }
}

fn rest(duration: u64) -> Token {
    Token::Rest { duration }
}

fn melody(pitches: &[u8]) -> Transcription {
    Transcription::new(pitches.iter().map(|p| note(*p, 2)).collect())
}

fn entry(tune_id: u32, setting_id: u32, transcription: Transcription) -> TuneIndexEntry {
    TuneIndexEntry { tune_id, setting_id, transcription }
}

fn small_index() -> TuneIndex {
    let entries = vec![
        entry(1, 10, melody(&[60, 62, 64])),
        entry(1, 11, melody(&[60, 62, 65])),
        entry(2, 20, melody(&[64, 62, 60])),
        entry(
            3,
            30,
            Transcription::new(vec![note(60, 2), note(61, 9), note(62, 2), note(64, 2)]),
        ),
    ];
    TuneIndex::load(Some(IndexSource { settings: weights(), entries })).unwrap()
}

fn hit(tune_id: u32, setting_id: u32, score: u64) -> RankedMatch {
    RankedMatch { tune_id, setting_id, score }
}

#[test]
fn key_reads_symbols_as_digits() {
    let tokens = vec![note(0, 1), rest(1), note(255, 1)];
    assert_eq!(key_at(&tokens, 0, 2), 257);
    assert_eq!(key_at(&tokens, 1, 2), 256);
    assert_eq!(key_at(&tokens, 0, 3), 66305);
    assert_eq!(key_at(&tokens, 2, 1), 256);
    assert_eq!(key_at(&tokens, 1, 0), 0);
    let high = vec![note(255, 1); 7];
    assert_eq!(key_at(&high, 0, 7), 74051159531521792);
}

#[test]
fn key_ignores_durations() {
    let a = vec![note(60, 1), rest(5), note(62, 9)];
    let b = vec![note(60, 7), rest(1), note(62, 2)];
    assert_eq!(key_at(&a, 0, 3), key_at(&b, 0, 3));
    let c = vec![note(60, 1), note(0, 5), note(62, 9)];
    assert_ne!(key_at(&a, 0, 3), key_at(&c, 0, 3));
}

#[test]
fn similarity_of_a_melody_with_itself_is_the_full_reward() {
    let q = melody(&[60, 62, 64]);
    assert_eq!(similarity(&q, &q, &weights()), 30);
    let one = melody(&[60]);
    assert_eq!(similarity(&one, &one, &weights()), 10);
}

#[test]
fn similarity_has_its_exact_values() {
    let w = weights();
    let q = melody(&[60, 62, 64]);
    assert_eq!(similarity(&q, &melody(&[60, 62, 65]), &w), 28);
    assert_eq!(similarity(&q, &melody(&[64, 62, 60]), &w), 14);
    let with_insertion =
        Transcription::new(vec![note(60, 2), note(61, 9), note(62, 2), note(64, 2)]);
    assert_eq!(similarity(&q, &with_insertion, &w), 26);
    assert_eq!(
        similarity(
            &Transcription::new(vec![note(60, 2)]),
            &Transcription::new(vec![note(60, 5)]),
            &w
        ),
        7
    );
    assert_eq!(
        similarity(
            &Transcription::new(vec![rest(3), note(60, 1)]),
            &Transcription::new(vec![rest(1), note(60, 1)]),
            &w
        ),
        18
    );
    assert_eq!(
        similarity(
            &Transcription::new(vec![rest(3)]),
            &Transcription::new(vec![note(60, 1)]),
            &w
        ),
        0
    );
}

#[test]
fn similarity_with_nothing_is_zero() {
    let w = weights();
    let empty = Transcription::new(Vec::new());
    assert_eq!(similarity(&empty, &melody(&[60, 62]), &w), 0);
    assert_eq!(similarity(&melody(&[60, 62]), &empty, &w), 0);
    assert_eq!(similarity(&empty, &empty, &w), 0);
}

#[test]
fn similarity_stays_in_range_with_the_largest_weights() {
    let w = TuneSettings {
        window_size: 1024,
        hop_size: 512,
        pitch_bins: 48,
        energy_threshold: 1024,
        ngram_len: 1,
        match_reward: u32::MAX,
        pitch_penalty: u32::MAX,
        duration_penalty: u32::MAX,
        mismatch_penalty: u32::MAX,
        gap_penalty: u32::MAX,
    };
    let q = Transcription::new(vec![note(0, 0), note(255, u64::MAX)]);
    assert_eq!(similarity(&q, &q, &w), 2 * (u32::MAX as u64));
    let t = Transcription::new(vec![note(255, u64::MAX), note(0, 0)]);
    assert_eq!(similarity(&q, &t, &w), u32::MAX as u64);
}

#[test]
fn absent_index_is_not_found() {
    assert_eq!(TuneIndex::load(None).err(), Some(FolkError::IndexNotFound));
}

#[test]
fn index_with_invalid_settings_is_corrupt() {
    let mut settings = weights();
    settings.ngram_len = 0;
    let source = IndexSource { settings, entries: vec![entry(1, 1, melody(&[60]))] };
    assert_eq!(TuneIndex::load(Some(source)).err(), Some(FolkError::IndexCorrupt));
    settings.ngram_len = MAX_NGRAM_LEN + 1;
    let source = IndexSource { settings, entries: Vec::new() };
    assert_eq!(TuneIndex::load(Some(source)).err(), Some(FolkError::IndexCorrupt));
    settings.ngram_len = MAX_NGRAM_LEN;
    let source = IndexSource { settings, entries: Vec::new() };
    assert!(TuneIndex::load(Some(source)).is_ok());
}

#[test]
fn index_out_of_order_is_corrupt() {
    let swapped = vec![entry(2, 1, melody(&[60])), entry(1, 1, melody(&[62]))];
    let source = IndexSource { settings: weights(), entries: swapped };
    assert_eq!(TuneIndex::load(Some(source)).err(), Some(FolkError::IndexCorrupt));
    let settings_swapped = vec![entry(1, 2, melody(&[60])), entry(1, 1, melody(&[62]))];
    let source = IndexSource { settings: weights(), entries: settings_swapped };
    assert_eq!(TuneIndex::load(Some(source)).err(), Some(FolkError::IndexCorrupt));
}

#[test]
fn index_with_a_setting_twice_is_corrupt() {
    let twice = vec![entry(1, 1, melody(&[60])), entry(1, 1, melody(&[62]))];
    let source = IndexSource { settings: weights(), entries: twice };
    assert_eq!(TuneIndex::load(Some(source)).err(), Some(FolkError::IndexCorrupt));
}

#[test]
fn loaded_index_holds_its_source() {
    let index = small_index();
    assert_eq!(index.tune_settings(), weights());
    assert_eq!(QueryEngine::new(index.tune_settings()).tune_settings(), weights());
    assert_eq!(index.entry_count(), 4);
    assert_eq!(*index.entry(0), entry(1, 10, melody(&[60, 62, 64])));
    assert_eq!(*index.entry(2), entry(2, 20, melody(&[64, 62, 60])));
}

#[test]
fn loading_twice_gives_the_same_index() {
    let a = small_index();
    let b = small_index();
    assert_eq!(a.tune_settings(), b.tune_settings());
    assert_eq!(a.entry_count(), b.entry_count());
    for e in 0..a.entry_count() {
        assert_eq!(a.entry(e), b.entry(e));
    }
    let q = melody(&[60, 62, 64, 62]);
    assert_eq!(a.candidates(&q, 2), b.candidates(&q, 2));
}

#[test]
fn settings_are_found_by_their_identifiers() {
    let index = small_index();
    assert_eq!(index.find(1, 10), Some(0));
    assert_eq!(index.find(1, 11), Some(1));
    assert_eq!(index.find(2, 20), Some(2));
    assert_eq!(index.find(3, 30), Some(3));
    assert_eq!(index.find(1, 12), None);
    assert_eq!(index.find(0, 10), None);
    assert_eq!(index.find(4, 0), None);
    assert_eq!(index.find(2, 19), None);
}

#[test]
fn candidates_share_an_ngram_with_the_query() {
    let index = small_index();
    assert_eq!(index.candidates(&melody(&[60, 62, 64]), 2), vec![true, true, false, true]);
    assert_eq!(index.candidates(&melody(&[62, 60]), 2), vec![false, false, true, false]);
    assert_eq!(index.candidates(&melody(&[1, 2, 3, 4]), 2), vec![false, false, false, false]);
}

#[test]
fn every_entry_is_a_candidate_for_a_query_without_ngram() {
    let index = small_index();
    assert_eq!(index.candidates(&melody(&[99]), 2), vec![true, true, true, true]);
    assert_eq!(index.candidates(&melody(&[]), 2), vec![true, true, true, true]);
}

#[test]
fn matches_precede_by_score_then_by_tune() {
    assert!(precedes(&hit(9, 1, 5), &hit(1, 1, 4)));
    assert!(!precedes(&hit(1, 1, 4), &hit(9, 1, 5)));
    assert!(precedes(&hit(1, 7, 4), &hit(2, 1, 4)));
    assert!(!precedes(&hit(2, 1, 4), &hit(1, 7, 4)));
    assert!(!precedes(&hit(1, 1, 4), &hit(1, 2, 4)));
}

#[test]
fn each_tune_keeps_its_best_setting() {
    let index = small_index();
    let engine = QueryEngine::new(index.tune_settings());
    let ranking = engine.run_query(&index, &melody(&[60, 62, 65]));
    assert_eq!(ranking, vec![hit(1, 11, 30), hit(2, 20, 0), hit(3, 30, 0)]);
}

#[test]
fn first_setting_stands_for_its_tune_among_equal_scores() {
    let entries = vec![
        entry(4, 7, melody(&[60, 62, 64])),
        entry(4, 8, melody(&[60, 62, 64])),
        entry(4, 9, melody(&[60, 62, 64, 66])),
    ];
    let index = TuneIndex::load(Some(IndexSource { settings: weights(), entries })).unwrap();
    let engine = QueryEngine::new(index.tune_settings());
    assert_eq!(engine.run_query(&index, &melody(&[60, 62, 64])), vec![hit(4, 7, 30)]);
    assert_eq!(engine.run_query(&index, &melody(&[60, 62, 64, 66])), vec![hit(4, 9, 40)]);
}

#[test]
fn equal_scores_rank_by_tune_identifier() {
    let entries = vec![
        entry(3, 1, melody(&[60, 62, 64])),
        entry(5, 1, melody(&[70, 72, 74])),
        entry(8, 1, melody(&[60, 62, 64])),
        entry(9, 1, melody(&[70, 72, 74, 60, 62])),
    ];
    let index = TuneIndex::load(Some(IndexSource { settings: weights(), entries })).unwrap();
    let engine = QueryEngine::new(index.tune_settings());
    assert_eq!(
        engine.run_query(&index, &melody(&[60, 62, 64])),
        vec![hit(3, 1, 30), hit(8, 1, 30), hit(9, 1, 20), hit(5, 1, 0)]
    );
}

#[test]
fn query_ranks_every_tune_once() {
    let index = small_index();
    let engine = QueryEngine::new(index.tune_settings());
    let ranking = engine.run_query(&index, &melody(&[60, 62, 64]));
    assert_eq!(ranking, vec![hit(1, 10, 30), hit(3, 30, 26), hit(2, 20, 0)]);
}

#[test]
fn entries_scored_are_the_candidates() {
    let index = small_index();
    let engine = QueryEngine::new(index.tune_settings());
    assert_eq!(engine.score_entries(&index, &melody(&[60, 62, 64])), vec![30, 28, 0, 26]);
    assert_eq!(engine.score_entries(&index, &melody(&[64])), vec![10, 8, 10, 10]);
}

#[test]
fn query_is_deterministic() {
    let index = small_index();
    let engine = QueryEngine::new(index.tune_settings());
    let again = QueryEngine::new(small_index().tune_settings());
    for pitches in [&[60u8, 62, 64][..], &[64, 62, 60], &[60], &[], &[1, 2, 3, 4, 5]] {
        let q = melody(pitches);
        let first = engine.run_query(&index, &q);
        assert_eq!(engine.run_query(&index, &q), first);
        assert_eq!(again.run_query(&small_index(), &q), first);
    }
}

#[test]
fn ranking_is_total_and_descending() {
    let index = small_index();
    let engine = QueryEngine::new(index.tune_settings());
    for pitches in [&[60u8, 62, 64][..], &[64, 62, 60], &[60], &[], &[1, 2, 3, 4, 5], &[62, 64, 60, 62]] {
        let ranking = engine.run_query(&index, &melody(pitches));
        let mut tunes: Vec<u32> = ranking.iter().map(|m| m.tune_id).collect();
        tunes.sort();
        assert_eq!(tunes, vec![1, 2, 3]);
        for pair in ranking.windows(2) {
            assert!(pair[0].score >= pair[1].score);
            assert!(precedes(&pair[0], &pair[1]));
        }
    }
}

#[test]
fn own_transcription_ranks_first() {
    let index = small_index();
    let engine = QueryEngine::new(index.tune_settings());
    for e in 0..index.entry_count() {
        let own = index.entry(e);
        let ranking = engine.run_query(&index, &own.transcription);
        assert_eq!(ranking[0].tune_id, own.tune_id);
        assert_eq!(ranking[0].score, 10 * own.transcription.len() as u64);
    }
}

#[test]
fn empty_query_ranks_by_tune_with_score_zero() {
    let index = small_index();
    let engine = QueryEngine::new(index.tune_settings());
    let ranking = engine.run_query(&index, &melody(&[]));
    assert_eq!(ranking, vec![hit(1, 10, 0), hit(2, 20, 0), hit(3, 30, 0)]);
}

#[test]
fn short_query_is_scored_against_every_entry() {
    let index = small_index();
    let engine = QueryEngine::new(index.tune_settings());
    let ranking = engine.run_query(&index, &melody(&[64]));
    assert_eq!(ranking, vec![hit(1, 10, 10), hit(2, 20, 10), hit(3, 30, 10)]);
}

#[test]
fn query_of_an_empty_index_is_empty() {
    let index = TuneIndex::load(Some(IndexSource { settings: weights(), entries: Vec::new() }))
        .unwrap();
    let engine = QueryEngine::new(index.tune_settings());
    assert_eq!(engine.run_query(&index, &melody(&[60, 62])), Vec::new());
}

#[test]
fn silence_can_be_queried() {
    let index = small_index();
    let engine = QueryEngine::new(index.tune_settings());
    let silence = Transcription::new(vec![rest(40)]);
    let ranking = engine.run_query(&index, &silence);
    assert_eq!(ranking, vec![hit(1, 10, 0), hit(2, 20, 0), hit(3, 30, 0)]);
}

#[test]
fn settings_fit_the_extractor_by_its_constants() {
    assert!(weights().is_fit_for_extractor());
    assert!(weights().is_valid());
    let mut other = weights();
    other.hop_size = 256;
    assert!(!other.is_fit_for_extractor());
    assert!(other.is_valid());
    let mut quiet = weights();
    quiet.energy_threshold = 1;
    assert!(!quiet.is_fit_for_extractor());
}
