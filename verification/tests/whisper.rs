use subwin::speech::{
    milliseconds_to_samples, CaptionSegment, CONTEXT_LENGTH_MILLISECONDS, REPEAT_RUN_MILLISECONDS,
};
use std::collections::VecDeque;

use subwin::whisper::{
    decode_outcome, pad_into, timestamps_in_range, DecodeEngine, DecodeOutcome, RawSegment,
    WhisperTranscriber,
};

fn raw(start: i64, end: i64, text: &str) -> RawSegment {
    RawSegment { start_timestamp: start, end_timestamp: end, text: text.to_string() }
}

fn triples(segments: &[CaptionSegment]) -> Vec<(i64, i64, String)> {
    segments
        .iter()
        .map(|s| (s.start_milliseconds, s.end_milliseconds, s.text.clone()))
        .collect()
}

fn ramp(from: u32, count: u32) -> Vec<u32> {
    (from..from + count).collect()
}

#[test]
fn timing_constants() {
    assert_eq!(CONTEXT_LENGTH_MILLISECONDS, 3000);
    assert_eq!(REPEAT_RUN_MILLISECONDS, 500);
}

#[test]
fn milliseconds_to_samples_examples() {
    assert_eq!(milliseconds_to_samples(3000, 16000), 48000);
    assert_eq!(milliseconds_to_samples(500, 16000), 8000);
    assert_eq!(milliseconds_to_samples(1, 999), 0);
    assert_eq!(milliseconds_to_samples(1, 1000), 1);
    assert_eq!(milliseconds_to_samples(3000, 44100), 132300);
    assert_eq!(milliseconds_to_samples(0, 16000), 0);
}

#[test]
fn min_transcription_samples_is_a_tenth_of_a_second() {
    assert_eq!(WhisperTranscriber::<u32>::min_transcription_samples(16000), 1600);
    assert_eq!(WhisperTranscriber::<u32>::min_transcription_samples(9), 0);
    assert_eq!(WhisperTranscriber::<u32>::min_transcription_samples(44100), 4410);
}

#[test]
fn new_transcriber_is_empty() {
    let transcriber = WhisperTranscriber::<u32>::new(16000, 0);
    assert_eq!(transcriber.target_rate(), 16000);
    assert_eq!(transcriber.window_len(), 0);
    assert_eq!(transcriber.since_last_decode(), 0);
    assert_eq!(transcriber.total_samples_seen(), 0);
    assert!(!transcriber.is_decode_due());
}

#[test]
fn no_decode_before_half_a_second_has_arrived() {
    let mut transcriber = WhisperTranscriber::<u32>::new(16000, 0);
    transcriber.accept_samples(&ramp(0, 7999));
    assert!(!transcriber.is_decode_due());
    assert!(transcriber.begin_decode().is_none());
    assert_eq!(transcriber.since_last_decode(), 7999);
    transcriber.accept_samples(&[7999]);
    assert!(transcriber.is_decode_due());
    let input = transcriber.begin_decode().map(|s| s.to_vec());
    assert_eq!(input, Some(ramp(0, 8000)));
    assert_eq!(transcriber.since_last_decode(), 8000);
}

#[test]
fn window_keeps_the_newest_three_seconds() {
    let mut transcriber = WhisperTranscriber::<u32>::new(1000, 0);
    transcriber.accept_samples(&ramp(0, 2500));
    assert_eq!(transcriber.window_len(), 2500);
    transcriber.accept_samples(&ramp(2500, 1000));
    assert_eq!(transcriber.window_len(), 3000);
    assert_eq!(transcriber.total_samples_seen(), 3500);
    let input = transcriber.begin_decode().map(|s| s.to_vec());
    assert_eq!(input, Some(ramp(500, 3000)));
}

#[test]
fn window_is_handed_out_in_order_after_it_wrapped() {
    let mut transcriber = WhisperTranscriber::<u32>::new(1000, 0);
    let mut next = 0;
    for chunk in [700u32, 900, 1100, 650, 800, 1234, 17] {
        transcriber.accept_samples(&ramp(next, chunk));
        next += chunk;
    }
    let input = transcriber.begin_decode().map(|s| s.to_vec());
    assert_eq!(input, Some(ramp(next - 3000, 3000)));
    assert_eq!(transcriber.window_len(), 3000);
}

#[test]
fn one_call_with_more_than_the_window_keeps_its_tail() {
    let mut transcriber = WhisperTranscriber::<u32>::new(100, 0);
    transcriber.accept_samples(&ramp(0, 1000));
    assert_eq!(transcriber.window_len(), 300);
    let input = transcriber.begin_decode().map(|s| s.to_vec());
    assert_eq!(input, Some(ramp(700, 300)));
}

#[test]
fn silent_window_yields_nothing_and_counts_as_decoded() {
    let mut transcriber = WhisperTranscriber::<u32>::new(16000, 0);
    transcriber.accept_samples(&vec![0; 8000]);
    assert!(transcriber.begin_decode().is_some());
    let (segments, elapsed) = transcriber.finish_decode(DecodeOutcome::Silent);
    assert!(segments.is_empty());
    assert_eq!(elapsed, 0);
    assert_eq!(transcriber.since_last_decode(), 0);
    assert_eq!(transcriber.total_samples_seen(), 8000);
    assert_eq!(transcriber.window_len(), 8000);
    assert!(transcriber.begin_decode().is_none());
}

#[test]
fn failed_decode_stays_due() {
    let mut transcriber = WhisperTranscriber::<u32>::new(16000, 0);
    transcriber.accept_samples(&vec![5; 8000]);
    assert!(transcriber.begin_decode().is_some());
    let (segments, elapsed) = transcriber.finish_decode(DecodeOutcome::Failed);
    assert!(segments.is_empty());
    assert_eq!(elapsed, 0);
    assert_eq!(transcriber.since_last_decode(), 8000);
    assert!(transcriber.is_decode_due());
}

#[test]
fn segments_are_placed_from_the_start_of_the_window() {
    let mut transcriber = WhisperTranscriber::<u32>::new(16000, 0);
    transcriber.accept_samples(&vec![1; 48000]);
    transcriber.accept_samples(&vec![2; 16000]);
    assert_eq!(transcriber.window_start_milliseconds(), 1000);
    assert!(transcriber.begin_decode().is_some());
    let outcome = DecodeOutcome::Decoded {
        segments: vec![raw(0, 100, " hello"), raw(100, 250, "   "), raw(250, 300, "world")],
        elapsed_milliseconds: 42,
    };
    let (segments, elapsed) = transcriber.finish_decode(outcome);
    assert_eq!(elapsed, 42);
    assert_eq!(
        triples(&segments),
        vec![(1000, 2000, " hello".to_string()), (3500, 4000, "world".to_string())]
    );
    assert_eq!(transcriber.since_last_decode(), 0);
    assert_eq!(transcriber.total_samples_seen(), 64000);
}

#[test]
fn window_start_rounds_down_to_whole_milliseconds() {
    let mut transcriber = WhisperTranscriber::<u32>::new(16000, 0);
    transcriber.accept_samples(&vec![1; 48000]);
    transcriber.accept_samples(&vec![1; 8007]);
    assert_eq!(transcriber.window_start_milliseconds(), 500);
    transcriber.accept_samples(&vec![1; 9]);
    assert_eq!(transcriber.window_start_milliseconds(), 501);
}

#[test]
fn decoded_without_segments() {
    let mut transcriber = WhisperTranscriber::<u32>::new(16000, 0);
    transcriber.accept_samples(&vec![1; 9000]);
    let outcome = DecodeOutcome::Decoded { segments: vec![], elapsed_milliseconds: 7 };
    let (segments, elapsed) = transcriber.finish_decode(outcome);
    assert!(segments.is_empty());
    assert_eq!(elapsed, 7);
    assert_eq!(transcriber.since_last_decode(), 0);
}

#[test]
fn can_accept_reports_room() {
    let transcriber = WhisperTranscriber::<u32>::new(16000, 0);
    assert!(transcriber.can_accept(0));
    assert!(transcriber.can_accept(48000));
    assert!(transcriber.can_accept(9_223_372_036_854_775));
    assert!(!transcriber.can_accept(9_223_372_036_854_776));
    assert!(!transcriber.can_accept(usize::MAX));
}

#[test]
fn timestamps_in_range_examples() {
    assert!(timestamps_in_range(&[], 0));
    assert!(timestamps_in_range(&[raw(0, 300, "a"), raw(-5, 7, "b")], 1000));
    assert!(timestamps_in_range(&[raw(0, 922_337_203_685_477_580, "a")], 7));
    assert!(!timestamps_in_range(&[raw(0, 922_337_203_685_477_580, "a")], 8));
    assert!(!timestamps_in_range(&[raw(i64::MAX, 0, "a")], 0));
    assert!(!timestamps_in_range(&[raw(0, 1, "a"), raw(i64::MIN, 0, "b")], 0));
    assert!(timestamps_in_range(&[raw(-922_337_203_685_477_580, 0, "a")], 0));
    assert!(!timestamps_in_range(&[raw(-922_337_203_685_477_581, 0, "a")], 0));
}

#[test]
fn short_window_is_padded_with_silence() {
    let mut window: VecDeque<u32> = VecDeque::with_capacity(4);
    for sample in [9, 9, 1, 2, 3] {
        if window.len() == 4 {
            window.pop_front();
        }
        window.push_back(sample);
    }
    let mut scratch = vec![7, 7, 7, 7, 7, 7, 7, 7, 7];
    pad_into(&mut scratch, &window, 7, 0);
    assert_eq!(scratch, vec![9, 1, 2, 3, 0, 0, 0]);
    pad_into(&mut scratch, &VecDeque::new(), 2, 5);
    assert_eq!(scratch, vec![5, 5]);
}

/// An engine that answers from a script and notes what it was asked.
struct Scripted {
    silent: bool,
    answer: Option<Vec<RawSegment>>,
    elapsed: u128,
    clock_started: usize,
    asked_silent: Vec<Vec<u32>>,
    decoded: Vec<(u8, Vec<u32>)>,
}

impl Scripted {
    fn new(silent: bool, answer: Option<Vec<RawSegment>>, elapsed: u128) -> Self {
        Scripted {
            silent,
            answer,
            elapsed,
            clock_started: 0,
            asked_silent: Vec::new(),
            decoded: Vec::new(),
        }
    }
}

impl DecodeEngine<u32, u8> for Scripted {
    fn start_clock(&mut self) {
        self.clock_started += 1;
    }

    fn is_silent(&mut self, samples: &[u32]) -> bool {
        self.asked_silent.push(samples.to_vec());
        self.silent
    }

    fn decode(&mut self, params: u8, samples: &[u32]) -> Option<Vec<RawSegment>> {
        self.decoded.push((params, samples.to_vec()));
        self.answer.take()
    }

    fn elapsed_milliseconds(&mut self) -> u128 {
        self.elapsed
    }
}

#[test]
fn try_transcribe_leaves_the_engine_alone_until_a_decode_is_due() {
    let mut transcriber = WhisperTranscriber::<u32>::new(1000, 0);
    let mut engine = Scripted::new(false, Some(vec![raw(0, 10, "early")]), 5);
    transcriber.accept_samples(&ramp(0, 499));
    let (segments, elapsed) = transcriber.try_transcribe(&mut engine, 1);
    assert!(segments.is_empty());
    assert_eq!(elapsed, 0);
    assert_eq!(engine.clock_started, 0);
    assert!(engine.asked_silent.is_empty());
    assert!(engine.decoded.is_empty());
    assert_eq!(transcriber.since_last_decode(), 499);
}

#[test]
fn try_transcribe_decodes_the_window() {
    let mut transcriber = WhisperTranscriber::<u32>::new(1000, 0);
    let answer = vec![raw(0, 50, "hello"), raw(50, 60, " "), raw(60, 100, " world ")];
    let mut engine = Scripted::new(false, Some(answer), 31);
    transcriber.accept_samples(&ramp(0, 3000));
    transcriber.accept_samples(&ramp(3000, 1500));
    let (segments, elapsed) = transcriber.try_transcribe(&mut engine, 7);
    assert_eq!(elapsed, 31);
    assert_eq!(
        triples(&segments),
        vec![(1500, 2000, "hello".to_string()), (2100, 2500, " world ".to_string())]
    );
    assert_eq!(engine.clock_started, 1);
    assert_eq!(engine.asked_silent, vec![ramp(1500, 3000)]);
    assert_eq!(engine.decoded, vec![(7, ramp(1500, 3000))]);
    assert_eq!(transcriber.since_last_decode(), 0);
    assert_eq!(transcriber.total_samples_seen(), 4500);
}

#[test]
fn try_transcribe_skips_a_silent_window() {
    let mut transcriber = WhisperTranscriber::<u32>::new(1000, 0);
    let mut engine = Scripted::new(true, Some(vec![raw(0, 10, "noise")]), 9);
    transcriber.accept_samples(&vec![0; 600]);
    let (segments, elapsed) = transcriber.try_transcribe(&mut engine, 1);
    assert!(segments.is_empty());
    assert_eq!(elapsed, 0);
    assert_eq!(engine.asked_silent.len(), 1);
    assert!(engine.decoded.is_empty());
    assert_eq!(transcriber.since_last_decode(), 0);
}

#[test]
fn try_transcribe_keeps_a_failed_decode_due() {
    let mut transcriber = WhisperTranscriber::<u32>::new(1000, 0);
    let mut engine = Scripted::new(false, None, 9);
    transcriber.accept_samples(&ramp(0, 600));
    let (segments, elapsed) = transcriber.try_transcribe(&mut engine, 1);
    assert!(segments.is_empty());
    assert_eq!(elapsed, 0);
    assert_eq!(engine.decoded.len(), 1);
    assert_eq!(transcriber.since_last_decode(), 600);
    assert!(transcriber.is_decode_due());
}

#[test]
fn try_transcribe_counts_unplaceable_times_as_a_failure() {
    let mut transcriber = WhisperTranscriber::<u32>::new(1000, 0);
    let mut engine = Scripted::new(false, Some(vec![raw(0, i64::MAX, "late")]), 9);
    transcriber.accept_samples(&ramp(0, 600));
    let (segments, elapsed) = transcriber.try_transcribe(&mut engine, 1);
    assert!(segments.is_empty());
    assert_eq!(elapsed, 0);
    assert_eq!(transcriber.since_last_decode(), 600);
}

#[test]
fn outcome_is_made_from_the_engine_answers() {
    assert!(matches!(decode_outcome(true, None, 0, 0), DecodeOutcome::Silent));
    assert!(matches!(
        decode_outcome(true, Some(vec![raw(0, 10, "unheard")]), 5, 0),
        DecodeOutcome::Silent
    ));
    assert!(matches!(decode_outcome(false, None, 5, 0), DecodeOutcome::Failed));
    match decode_outcome(false, Some(vec![raw(0, 10, "a"), raw(10, 20, " ")]), 17, 1000) {
        DecodeOutcome::Decoded { segments, elapsed_milliseconds } => {
            assert_eq!(elapsed_milliseconds, 17);
            assert_eq!(segments.len(), 2);
            assert_eq!(
                (segments[0].start_timestamp, segments[0].end_timestamp, segments[0].text.as_str()),
                (0, 10, "a")
            );
            assert_eq!(segments[1].text, " ");
        }
        other => panic!("unexpected outcome: {:?}", other),
    }
    assert!(matches!(
        decode_outcome(false, Some(vec![]), 3, 0),
        DecodeOutcome::Decoded { elapsed_milliseconds: 3, .. }
    ));
    assert!(matches!(
        decode_outcome(false, Some(vec![raw(0, i64::MAX, "late")]), 3, 0),
        DecodeOutcome::Failed
    ));
    assert!(matches!(
        decode_outcome(false, Some(vec![raw(0, 922_337_203_685_477_580, "edge")]), 3, 8),
        DecodeOutcome::Failed
    ));
    assert!(matches!(
        decode_outcome(false, Some(vec![raw(0, 922_337_203_685_477_580, "edge")]), 3, 7),
        DecodeOutcome::Decoded { .. }
    ));
}
