use rubato::{FftFixedInOut, ResampleError, Resampler};
use subwin::bridge::MessageFromBackend;
use subwin::capture::{CaptureOutcome, ResampleCallbackState};
use subwin::resampler::{ResampleEngine, StreamingResampler};
use subwin::device::derive_audio_device_settings;
use subwin::session::plan_session;
use subwin::speech::{CaptionSegment, Transcriber};
use subwin::whisper::{DecodeEngine, RawSegment, WhisperTranscriber};
use subwin::worker::TranscriptionWorker;

/// The FFT engine of rubato, for one channel.
struct Fft(FftFixedInOut<f32>);

impl ResampleEngine<f32> for Fft {
    fn process(&mut self, input: &[f32], output: &mut [f32]) -> Result<usize, ResampleError> {
        self.0.process_into_buffer(&[input], &mut [output], None).map(|frames| frames.1)
    }
}

fn frame_mean(frame: &[f32]) -> f32 {
    frame.iter().sum::<f32>() / frame.len() as f32
}

fn root_mean_square(samples: &[f32]) -> f64 {
    if samples.is_empty() {
        return 0.0;
    }
    let sum: f64 = samples.iter().map(|sample| f64::from(*sample) * f64::from(*sample)).sum();
    (sum / samples.len() as f64).sqrt()
}

/// An engine that hears speech in the first second of the session: "hello"
/// on its first decode, "hello world" on every later one, for as long as
/// that second is part of what it is given.
struct Stub {
    decodes: usize,
    windows: Vec<usize>,
    /// Samples that the schedule has taken in so far.
    heard: i64,
}

impl DecodeEngine<f32, ()> for Stub {
    fn start_clock(&mut self) {}

    fn is_silent(&mut self, samples: &[f32]) -> bool {
        let level = root_mean_square(samples);
        level == 0.0 || 20.0 * level.log10() <= -60.0
    }

    fn decode(&mut self, _params: (), samples: &[f32]) -> Option<Vec<RawSegment>> {
        self.decodes += 1;
        self.windows.push(samples.len());
        let text = if self.decodes == 1 { "hello" } else { "hello world" };
        let window_start_ms = (self.heard - samples.len() as i64) * 1000 / 16000;
        if window_start_ms >= 1000 {
            return Some(Vec::new());
        }
        Some(vec![RawSegment {
            start_timestamp: -window_start_ms / 10,
            end_timestamp: (1000 - window_start_ms) / 10,
            text: text.to_string(),
        }])
    }

    fn elapsed_milliseconds(&mut self) -> u128 {
        self.decodes as u128
    }
}

struct Captioner {
    schedule: WhisperTranscriber<f32>,
    engine: Stub,
}

impl Transcriber<f32, ()> for Captioner {
    fn min_transcription_samples(sample_rate: u32) -> usize {
        WhisperTranscriber::<f32>::min_transcription_samples(sample_rate)
    }

    fn accept_samples(&mut self, samples: &[f32]) {
        assert!(self.schedule.can_accept(samples.len()));
        self.schedule.accept_samples(samples);
        self.engine.heard = self.schedule.total_samples_seen();
    }

    fn try_transcribe(&mut self, params: ()) -> (Vec<CaptionSegment>, u128) {
        self.schedule.try_transcribe(&mut self.engine, params)
    }
}

/// Runs `seconds` of stereo audio from a 48 kHz device through capture,
/// conversion and the worker, and returns the lines sent out, the worker
/// and the captioner.
fn run_session(seconds: usize, level: f32) -> (Vec<(u128, String)>, TranscriptionWorker, Captioner) {
    let settings = derive_audio_device_settings(48000, 2, Some(4096), 16000);
    let plan = plan_session(&settings);
    assert_eq!(plan.buffer_frames, 4095);
    let engine = FftFixedInOut::<f32>::new(
        plan.source_rate as usize,
        plan.target_rate as usize,
        plan.buffer_frames as usize,
        1,
    )
    .unwrap();
    let input_buffer = engine.input_buffer_allocate(true).remove(0);
    let output_buffer = engine.output_buffer_allocate(true).remove(0);
    let resampler = StreamingResampler::new(
        Fft(engine),
        input_buffer,
        output_buffer,
        plan.source_rate,
        plan.target_rate,
    )
    .unwrap();
    let mut capture =
        ResampleCallbackState::new(resampler, plan.buffer_frames, plan.channels, 0.0);
    let mut captioner = Captioner {
        schedule: WhisperTranscriber::new(plan.target_rate, 0.0),
        engine: Stub { decodes: 0, windows: Vec::new(), heard: 0 },
    };
    let mut worker = TranscriptionWorker::new();
    let mut sent = Vec::new();
    let mut handoff: Vec<f32> = Vec::new();
    let samples_per_buffer = plan.buffer_frames as usize * plan.channels as usize;
    let buffers = seconds * 48000 / plan.buffer_frames as usize;
    let mut phase = 0usize;
    for _ in 0..buffers {
        let mut data = Vec::with_capacity(samples_per_buffer);
        for _ in 0..plan.buffer_frames {
            let value = level * (((phase % 96) as f32 / 48.0) - 1.0);
            data.push(value);
            data.push(value);
            phase += 1;
        }
        handoff.clear();
        let outcome = capture.process_input(&data, &mut handoff, &frame_mean);
        assert!(matches!(outcome, CaptureOutcome::Resampled { .. }));
        for chunk in handoff.chunks(plan.buffer_frames as usize) {
            assert!(worker.can_count(chunk.len()));
            match worker.step(&mut captioner, chunk, ()) {
                Some(MessageFromBackend::TranscriptionStateUpdate { time_taken, new_segment_text }) => {
                    sent.push((time_taken, new_segment_text));
                }
                Some(other) => panic!("unexpected message: {:?}", other),
                None => {}
            }
        }
    }
    (sent, worker, captioner)
}

#[test]
fn ten_seconds_of_speech_give_growing_captions() {
    let (sent, worker, captioner) = run_session(10, 0.5);
    assert_eq!(sent, vec![(1, "hello".to_string()), (2, "hello world".to_string())]);
    // Every sample that capture put out reached the worker and the schedule.
    assert_eq!(worker.total_samples_seen(), captioner.schedule.total_samples_seen());
    assert_eq!(worker.total_samples_seen(), 117 * 4095 / 3);
    // A decode ran for about every half second of audio, on at most three seconds.
    assert!(captioner.engine.decodes >= 18 && captioner.engine.decodes <= 20);
    assert!(captioner.engine.windows.iter().all(|&window| window >= 8000 && window <= 48000));
    assert_eq!(*captioner.engine.windows.last().unwrap(), 48000);
    // Once the tail has passed, the segment is history, and it is there once.
    let history = worker.history();
    assert_eq!(history.len(), 1);
    assert_eq!(history[0].text, "hello world");
    assert_eq!(history[0].start_milliseconds, 0);
    assert_eq!(history[0].end_milliseconds, 1000);
    assert!(worker.active().is_empty());
}

#[test]
fn three_seconds_of_silence_give_no_caption() {
    let (sent, worker, captioner) = run_session(3, 0.0);
    assert!(sent.is_empty());
    assert_eq!(captioner.engine.decodes, 0);
    assert!(worker.history().is_empty());
    assert!(worker.active().is_empty());
    assert!(worker.total_samples_seen() > 0);
}
