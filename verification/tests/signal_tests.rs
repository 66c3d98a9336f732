use folkfriend::config::{HOP_SIZE, SAMPLE_RATE_MAX, SAMPLE_RATE_MIN, WINDOW_SIZE};
use folkfriend::error::FolkError;
use folkfriend::frames::FeatureExtractor;
use folkfriend::signal::{validate_sample_rate, AudioSignal};

fn ramp(len: usize) -> Vec<i16> {
    (0..len).map(|i| (i % 1000) as i16).collect()
}

#[test]
fn sample_rate_at_the_bounds_is_accepted() {
    assert_eq!(validate_sample_rate(SAMPLE_RATE_MIN), Ok(()));
    assert_eq!(validate_sample_rate(SAMPLE_RATE_MAX), Ok(()));
    assert_eq!(validate_sample_rate(44_100), Ok(()));
}

#[test]
fn sample_rate_one_beyond_the_bounds_is_rejected() {
    assert_eq!(validate_sample_rate(SAMPLE_RATE_MIN - 1), Err(FolkError::InvalidSampleRate));
    assert_eq!(validate_sample_rate(SAMPLE_RATE_MAX + 1), Err(FolkError::InvalidSampleRate));
    assert_eq!(validate_sample_rate(0), Err(FolkError::InvalidSampleRate));
    assert_eq!(validate_sample_rate(u32::MAX), Err(FolkError::InvalidSampleRate));
}

#[test]
fn sample_rate_bounds_have_their_values() {
    assert_eq!(SAMPLE_RATE_MIN, 8_000);
    assert_eq!(SAMPLE_RATE_MAX, 48_000);
}

#[test]
fn preprocess_keeps_samples_and_rate() {
    let signal = AudioSignal::preprocess(vec![1, -2, 3], SAMPLE_RATE_MAX).unwrap();
    assert_eq!(signal.len(), 3);
    assert_eq!(signal.sample(0), 1);
    assert_eq!(signal.sample(1), -2);
    assert_eq!(signal.sample(2), 3);
    assert_eq!(signal.rate(), SAMPLE_RATE_MAX);
}

#[test]
fn preprocess_rejects_unsupported_rate() {
    assert_eq!(
        AudioSignal::preprocess(vec![1, 2, 3], SAMPLE_RATE_MAX + 1),
        Err(FolkError::InvalidSampleRate)
    );
    assert_eq!(
        AudioSignal::preprocess(Vec::new(), SAMPLE_RATE_MIN - 1),
        Err(FolkError::InvalidSampleRate)
    );
    assert!(AudioSignal::preprocess(Vec::new(), SAMPLE_RATE_MIN).is_ok());
}

#[test]
fn signal_shorter_than_a_window_has_no_frame() {
    let signal = AudioSignal::preprocess(ramp(WINDOW_SIZE - 1), 44_100).unwrap();
    assert!(signal.windows().is_empty());
    let empty = AudioSignal::preprocess(Vec::new(), 44_100).unwrap();
    assert!(empty.windows().is_empty());
}

#[test]
fn signal_of_one_window_has_one_frame() {
    let samples = ramp(WINDOW_SIZE);
    let signal = AudioSignal::preprocess(samples.clone(), 44_100).unwrap();
    let frames = signal.windows();
    assert_eq!(frames.len(), 1);
    assert_eq!(frames[0], samples);
}

#[test]
fn frames_start_one_hop_apart() {
    let samples = ramp(2048);
    let signal = AudioSignal::preprocess(samples.clone(), 44_100).unwrap();
    let frames = signal.windows();
    assert_eq!(frames.len(), 3);
    for (k, frame) in frames.iter().enumerate() {
        assert_eq!(frame.len(), WINDOW_SIZE);
        assert_eq!(frame[..], samples[k * HOP_SIZE..k * HOP_SIZE + WINDOW_SIZE]);
    }
    let longer = AudioSignal::preprocess(ramp(2048 + HOP_SIZE - 1), 44_100).unwrap();
    assert_eq!(longer.windows().len(), 3);
    let next = AudioSignal::preprocess(ramp(2048 + HOP_SIZE), 44_100).unwrap();
    assert_eq!(next.windows().len(), 4);
}

#[test]
fn extractor_holds_back_the_incomplete_window() {
    let mut extractor = FeatureExtractor::new();
    assert_eq!(extractor.pending_len(), 0);
    let frames = extractor.feed_signal(&ramp(1000));
    assert!(frames.is_empty());
    assert_eq!(extractor.pending_len(), 1000);
    let frames = extractor.feed_signal(&ramp(24));
    assert_eq!(frames.len(), 1);
    assert_eq!(extractor.pending_len(), 512);
    let frames = extractor.feed_signal(&Vec::new());
    assert!(frames.is_empty());
    assert_eq!(extractor.pending_len(), 512);
}

#[test]
fn frames_do_not_depend_on_chunking() {
    let samples = ramp(5000);
    let whole = AudioSignal::preprocess(samples.clone(), 44_100).unwrap().windows();
    for chunk_len in [1usize, 7, 511, 512, 513, 1024, 1500, 4999] {
        let mut extractor = FeatureExtractor::new();
        let mut frames: Vec<Vec<i16>> = Vec::new();
        for chunk in samples.chunks(chunk_len) {
            frames.extend(extractor.feed_signal(&chunk.to_vec()));
        }
        assert_eq!(frames, whole);
        assert_eq!(extractor.pending_len(), 5000 - whole.len() * HOP_SIZE);
    }
}

#[test]
fn one_chunk_can_complete_many_windows() {
    let mut extractor = FeatureExtractor::new();
    let first = extractor.feed_signal(&ramp(1023));
    assert!(first.is_empty());
    let samples = ramp(10_000);
    let frames = extractor.feed_signal(&samples);
    assert_eq!(frames.len(), (1023 + 10_000 - WINDOW_SIZE) / HOP_SIZE + 1);
    assert_eq!(frames[0][..1023], ramp(1023)[..]);
    assert_eq!(frames[0][1023], samples[0]);
    assert_eq!(frames[2][0], samples[1]);
}
