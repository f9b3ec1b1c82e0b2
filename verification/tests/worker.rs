use subwin::bridge::MessageFromBackend;
use subwin::speech::{CaptionSegment, Transcriber};
use subwin::worker::{TranscriptionWorker, STABILIZER_WINDOW_MILLISECONDS, TARGET_RATE};

fn segment(start: i64, end: i64, text: &str) -> CaptionSegment {
    CaptionSegment { start_milliseconds: start, end_milliseconds: end, text: text.to_string() }
}

fn update(time_taken: u128, text: &str) -> Option<MessageFromBackend> {
    Some(MessageFromBackend::TranscriptionStateUpdate {
        time_taken,
        new_segment_text: text.to_string(),
    })
}

fn texts(segments: &[CaptionSegment]) -> Vec<String> {
    segments.iter().map(|s| s.text.clone()).collect()
}

/// A decoder that answers from a script, one entry for each call.
struct Scripted {
    accepted: usize,
    answers: Vec<(Vec<CaptionSegment>, u128)>,
}

impl Transcriber<f32, ()> for Scripted {
    fn min_transcription_samples(sample_rate: u32) -> usize {
        (sample_rate / 10) as usize
    }

    fn accept_samples(&mut self, samples: &[f32]) {
        self.accepted += samples.len();
    }

    fn try_transcribe(&mut self, _params: ()) -> (Vec<CaptionSegment>, u128) {
        if self.answers.is_empty() {
            (Vec::new(), 0)
        } else {
            self.answers.remove(0)
        }
    }
}

#[test]
fn worker_constants() {
    assert_eq!(TARGET_RATE, 16_000);
    assert_eq!(STABILIZER_WINDOW_MILLISECONDS, 1500);
}

#[test]
fn new_worker_has_seen_nothing() {
    let worker = TranscriptionWorker::new();
    assert_eq!(worker.total_samples_seen(), 0);
    assert!(worker.history().is_empty());
    assert!(worker.active().is_empty());
}

#[test]
fn happy_path_revises_then_finalizes() {
    let mut worker = TranscriptionWorker::new();
    let first = worker.absorb(16000, vec![segment(0, 1000, "hello")], 11);
    assert_eq!(first, update(11, "hello"));
    assert_eq!(texts(worker.active()), vec!["hello"]);
    assert!(worker.history().is_empty());

    let second = worker.absorb(16000, vec![segment(0, 2000, "hello world")], 12);
    assert_eq!(second, update(12, "hello world"));
    assert_eq!(texts(worker.active()), vec!["hello world"]);
    assert!(worker.history().is_empty());

    let third = worker.absorb(
        32000,
        vec![segment(0, 2000, "hello world"), segment(3000, 3900, "again")],
        13,
    );
    assert_eq!(third, update(13, "hello world again"));
    assert_eq!(texts(worker.history()), vec!["hello world"]);
    assert_eq!(texts(worker.active()), vec!["again"]);
    assert_eq!(worker.total_samples_seen(), 64000);
}

#[test]
fn silence_emits_nothing() {
    let mut worker = TranscriptionWorker::new();
    for _ in 0..6 {
        assert_eq!(worker.absorb(8000, vec![], 0), None);
    }
    assert_eq!(worker.total_samples_seen(), 48000);
    assert!(worker.history().is_empty());
    assert!(worker.active().is_empty());
}

#[test]
fn same_line_is_not_sent_twice() {
    let mut worker = TranscriptionWorker::new();
    assert_eq!(worker.absorb(16000, vec![segment(0, 900, "same")], 5), update(5, "same"));
    assert_eq!(worker.absorb(1600, vec![segment(0, 950, " same ")], 6), None);
    assert_eq!(worker.absorb(1600, vec![segment(0, 990, "other")], 7), update(7, "other"));
}

#[test]
fn empty_update_keeps_the_active_segments() {
    let mut worker = TranscriptionWorker::new();
    assert_eq!(worker.absorb(16000, vec![segment(0, 900, "kept")], 5), update(5, "kept"));
    assert_eq!(worker.absorb(8000, vec![], 0), None);
    assert_eq!(texts(worker.active()), vec!["kept"]);
    assert_eq!(worker.absorb(8000, vec![segment(0, 100, "[BLANK_AUDIO]")], 3), None);
    assert_eq!(texts(worker.active()), vec!["kept"]);
}

#[test]
fn blank_line_is_not_sent() {
    let mut worker = TranscriptionWorker::new();
    assert_eq!(worker.absorb(16000, vec![segment(0, 900, "   ")], 5), None);
    assert_eq!(worker.active().len(), 1);
}

#[test]
fn now_is_counted_from_all_samples_pulled() {
    let mut worker = TranscriptionWorker::new();
    // 39,999 samples are 2499 ms: the cutoff is 999 ms, the segment is open.
    assert_eq!(worker.absorb(39_999, vec![segment(0, 1000, "edge")], 1), update(1, "edge"));
    assert_eq!(worker.history().len(), 0);
    // One more sample makes 2500 ms: the cutoff reaches the segment's end.
    assert_eq!(worker.absorb(1, vec![segment(0, 1000, "edge")], 2), None);
    assert_eq!(texts(worker.history()), vec!["edge"]);
    assert!(worker.active().is_empty());
}

#[test]
fn step_feeds_the_decoder_and_absorbs_its_answer() {
    let mut worker = TranscriptionWorker::new();
    let mut decoder = Scripted {
        accepted: 0,
        answers: vec![
            (vec![], 0),
            (vec![segment(0, 1000, "hello")], 21),
            (vec![segment(0, 2000, "hello world")], 22),
        ],
    };
    let samples = vec![0.25f32; 8000];
    assert_eq!(worker.step(&mut decoder, &samples, ()), None);
    assert_eq!(worker.step(&mut decoder, &samples, ()), update(21, "hello"));
    assert_eq!(worker.step(&mut decoder, &[], ()), None);
    assert_eq!(decoder.answers.len(), 1);
    assert_eq!(worker.step(&mut decoder, &samples, ()), update(22, "hello world"));
    assert_eq!(decoder.accepted, 24000);
    assert_eq!(worker.total_samples_seen(), 24000);
}

#[test]
fn can_count_reports_room() {
    let worker = TranscriptionWorker::new();
    assert!(worker.can_count(0));
    assert!(worker.can_count(9_223_372_036_854_775));
    assert!(!worker.can_count(9_223_372_036_854_776));
}
