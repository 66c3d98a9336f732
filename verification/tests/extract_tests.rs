use folkfriend::config::{MIN_ENERGY, NUM_BINS};
use folkfriend::decode::decode;
use folkfriend::error::FolkError;
use folkfriend::extract::transcribe;
use folkfriend::index::{IndexSource, TuneIndex, TuneIndexEntry};
use folkfriend::pitch::{pitch_contour, ContourPoint, PitchContour, Spectrogram};
use folkfriend::query::QueryEngine;
use folkfriend::settings::TuneSettings;
use folkfriend::signal::AudioSignal;
use folkfriend::transcription::{Token, Transcription};

fn frame_with(peaks: &[(usize, u32)]) -> Vec<u32> {
    let mut bins = vec![0u32; NUM_BINS];
    for (bin, magnitude) in peaks {
        bins[*bin] = *magnitude;
    }
    bins
}

fn contour_of(pitches: &[Option<u8>]) -> PitchContour {
    let points = pitches
        .iter()
        .enumerate()
        .map(|(k, p)| ContourPoint { frame: k, pitch: *p, confidence: 0 })
        .collect();
    PitchContour { points }
}

fn single_point(bins: Vec<u32>) -> ContourPoint {
    pitch_contour(&Spectrogram { frames: vec![bins] }).unwrap().points[0]
}

#[test]
fn peak_is_the_first_of_the_strongest_bins() {
    let point = single_point(frame_with(&[(7, 9000), (3, 9000), (40, 9000), (5, 8999)]));
    assert_eq!(point, ContourPoint { frame: 0, pitch: Some(3), confidence: 9000 });
    let point = single_point(frame_with(&[(0, 2000)]));
    assert_eq!(point, ContourPoint { frame: 0, pitch: Some(0), confidence: 2000 });
    let point = single_point(vec![u32::MAX; NUM_BINS]);
    assert_eq!(point, ContourPoint { frame: 0, pitch: Some(0), confidence: u32::MAX });
}

#[test]
fn pitch_is_the_peak_at_or_above_the_least_energy() {
    let point = single_point(frame_with(&[(10, MIN_ENERGY), (20, MIN_ENERGY - 1)]));
    assert_eq!(point, ContourPoint { frame: 0, pitch: Some(10), confidence: MIN_ENERGY });
    let point = single_point(frame_with(&[(47, 5000), (3, 4999)]));
    assert_eq!(point, ContourPoint { frame: 0, pitch: Some(47), confidence: 5000 });
}

#[test]
fn frame_below_the_least_energy_has_no_pitch() {
    let point = single_point(frame_with(&[(10, MIN_ENERGY - 1)]));
    assert_eq!(point, ContourPoint { frame: 0, pitch: None, confidence: MIN_ENERGY - 1 });
    let point = single_point(frame_with(&[]));
    assert_eq!(point, ContourPoint { frame: 0, pitch: None, confidence: 0 });
}

#[test]
fn contour_has_one_point_per_frame() {
    let spectrogram = Spectrogram {
        frames: vec![frame_with(&[(5, 2000)]), frame_with(&[]), frame_with(&[(6, 3000)])],
    };
    let contour = pitch_contour(&spectrogram).unwrap();
    assert_eq!(
        contour.points,
        vec![
            ContourPoint { frame: 0, pitch: Some(5), confidence: 2000 },
            ContourPoint { frame: 1, pitch: None, confidence: 0 },
            ContourPoint { frame: 2, pitch: Some(6), confidence: 3000 },
        ]
    );
}

#[test]
fn malformed_frame_is_an_invalid_signal() {
    let short = Spectrogram { frames: vec![frame_with(&[(5, 2000)]), vec![0u32; NUM_BINS - 1]] };
    assert_eq!(pitch_contour(&short), Err(FolkError::InvalidSignal));
    assert_eq!(transcribe(&short), Err(FolkError::InvalidSignal));
    let long = Spectrogram { frames: vec![vec![0u32; NUM_BINS + 1]] };
    assert_eq!(pitch_contour(&long), Err(FolkError::InvalidSignal));
    let empty_frame = Spectrogram { frames: vec![Vec::new()] };
    assert_eq!(transcribe(&empty_frame), Err(FolkError::InvalidSignal));
}

#[test]
fn runs_of_equal_pitch_become_one_token() {
    let contour = contour_of(&[Some(3), Some(3), None, None, None, Some(3), Some(4), Some(4)]);
    assert_eq!(
        decode(&contour),
        Transcription::new(vec![
            Token::Note { pitch: 3, duration: 2 },
            Token::Rest { duration: 3 },
            Token::Note { pitch: 3, duration: 1 },
            Token::Note { pitch: 4, duration: 2 },
        ])
    );
}

#[test]
fn empty_contour_decodes_to_nothing() {
    assert_eq!(decode(&contour_of(&[])), Transcription::new(Vec::new()));
    assert_eq!(
        transcribe(&Spectrogram { frames: Vec::new() }),
        Ok(Transcription::new(Vec::new()))
    );
}

#[test]
fn silence_is_a_single_rest_over_all_frames() {
    let contour = contour_of(&[None; 9]);
    assert_eq!(decode(&contour), Transcription::new(vec![Token::Rest { duration: 9 }]));
    let spectrogram = Spectrogram { frames: vec![vec![0u32; NUM_BINS]; 17] };
    assert_eq!(
        transcribe(&spectrogram),
        Ok(Transcription::new(vec![Token::Rest { duration: 17 }]))
    );
    let one = Spectrogram { frames: vec![vec![0u32; NUM_BINS]] };
    assert_eq!(transcribe(&one), Ok(Transcription::new(vec![Token::Rest { duration: 1 }])));
}

#[test]
fn spectrogram_is_transcribed_frame_by_frame() {
    let spectrogram = Spectrogram {
        frames: vec![
            frame_with(&[(12, 9000)]),
            frame_with(&[(12, 8000), (13, 7000)]),
            frame_with(&[(12, 100)]),
            frame_with(&[(14, 1024), (15, 1024)]),
        ],
    };
    let transcription = transcribe(&spectrogram).unwrap();
    assert_eq!(
        transcription,
        Transcription::new(vec![
            Token::Note { pitch: 12, duration: 2 },
            Token::Rest { duration: 1 },
            Token::Note { pitch: 14, duration: 1 },
        ])
    );
    assert_eq!(transcription.len(), 3);
    assert_eq!(transcription.duplicate(), transcription);
}

fn magnitudes_of(window: &[i16]) -> Vec<u32> {
    let mut bins = Vec::with_capacity(NUM_BINS);
    for bin in 0..NUM_BINS {
        let omega = 2.0 * std::f64::consts::PI * (bin as f64 + 1.0) / window.len() as f64;
        let mut re = 0.0f64;
        let mut im = 0.0f64;
        for (i, sample) in window.iter().enumerate() {
            let amplitude = f64::from(*sample) / 65536.0;
            re += amplitude * (omega * i as f64).cos();
            im -= amplitude * (omega * i as f64).sin();
        }
        bins.push(((re * re + im * im).sqrt() * 65536.0) as u32);
    }
    bins
}

#[test]
fn silent_signal_gives_only_rests_and_can_be_queried() {
    for len in [1024usize, 1025, 4096, 10_000] {
        let signal = AudioSignal::preprocess(vec![0i16; len], 44_100).unwrap();
        let windows = signal.windows();
        assert!(!windows.is_empty());
        let frames: Vec<Vec<u32>> = windows.iter().map(|w| magnitudes_of(w)).collect();
        let transcription = transcribe(&Spectrogram { frames }).unwrap();
        assert_eq!(
            transcription,
            Transcription::new(vec![Token::Rest { duration: windows.len() as u64 }])
        );
        assert!(transcription.tokens.iter().all(|t| matches!(t, Token::Rest { .. })));

        let settings = TuneSettings {
            window_size: 1024,
            hop_size: 512,
            pitch_bins: 48,
            energy_threshold: 1024,
            ngram_len: 3,
            match_reward: 5,
            pitch_penalty: 1,
            duration_penalty: 1,
            mismatch_penalty: 5,
            gap_penalty: 2,
        };
        let entries = vec![
            TuneIndexEntry {
                tune_id: 1,
                setting_id: 1,
                transcription: Transcription::new(vec![
                    Token::Note { pitch: 5, duration: 2 },
                    Token::Rest { duration: 1 },
                ]),
            },
            TuneIndexEntry {
                tune_id: 2,
                setting_id: 1,
                transcription: Transcription::new(vec![Token::Note { pitch: 7, duration: 2 }]),
            },
        ];
        let index = TuneIndex::load(Some(IndexSource { settings, entries })).unwrap();
        let engine = QueryEngine::new(index.tune_settings());
        let ranking = engine.run_query(&index, &transcription);
        assert_eq!(ranking.len(), 2);
        assert_eq!(ranking[0].tune_id, 1);
        assert_eq!(ranking[0].score, 6u64.saturating_sub(windows.len() as u64));
        assert_eq!(ranking[1].tune_id, 2);
        assert_eq!(ranking[1].score, 0);
    }
}

#[test]
fn tone_is_transcribed_as_one_note() {
    let len = 4096usize;
    let samples: Vec<i16> = (0..len)
        .map(|i| {
            let phase = 2.0 * std::f64::consts::PI * 8.0 * i as f64 / 1024.0;
            (20_000.0 * phase.sin()) as i16
        })
        .collect();
    let signal = AudioSignal::preprocess(samples, 44_100).unwrap();
    let windows = signal.windows();
    assert_eq!(windows.len(), 7);
    let frames: Vec<Vec<u32>> = windows.iter().map(|w| magnitudes_of(w)).collect();
    let transcription = transcribe(&Spectrogram { frames }).unwrap();
    assert_eq!(transcription, Transcription::new(vec![Token::Note { pitch: 7, duration: 7 }]));
}
