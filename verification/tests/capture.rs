use rubato::{FftFixedInOut, ResampleError, Resampler};
use subwin::capture::{outcome_of, CaptureOutcome, ResampleCallbackState};
use subwin::resampler::{ResampleEngine, ResamplerError, StreamingResampler};

/// The FFT engine of rubato, for one channel.
struct Fft(FftFixedInOut<f32>);

impl ResampleEngine<f32> for Fft {
    fn process(&mut self, input: &[f32], output: &mut [f32]) -> Result<usize, ResampleError> {
        self.0.process_into_buffer(&[input], &mut [output], None).map(|frames| frames.1)
    }
}

/// An engine that counts its runs and fails when told to.
struct Counting {
    runs: usize,
    fail: bool,
}

impl ResampleEngine<f32> for Counting {
    fn process(&mut self, _input: &[f32], output: &mut [f32]) -> Result<usize, ResampleError> {
        self.runs += 1;
        if self.fail {
            Err(ResampleError::SyncNotAdjustable)
        } else {
            Ok(output.len())
        }
    }
}

fn mean(frame: &[f32]) -> f32 {
    frame.iter().sum::<f32>() / frame.len() as f32
}

fn capture(
    sample_rate: u32,
    target_rate: u32,
    buffer_frames: u32,
    channels: u16,
) -> ResampleCallbackState<f32, Fft> {
    let engine = FftFixedInOut::<f32>::new(
        sample_rate as usize,
        target_rate as usize,
        buffer_frames as usize,
        1,
    )
    .unwrap();
    let input = engine.input_buffer_allocate(true).remove(0);
    let output = engine.output_buffer_allocate(true).remove(0);
    let resampler =
        StreamingResampler::new(Fft(engine), input, output, sample_rate, target_rate).unwrap();
    ResampleCallbackState::new(resampler, buffer_frames, channels, 0.0)
}

fn counting(fail: bool) -> ResampleCallbackState<f32, Counting> {
    let resampler = StreamingResampler::new(
        Counting { runs: 0, fail },
        vec![0.0f32; 4],
        vec![0.0f32; 2],
        2,
        1,
    )
    .ok()
    .unwrap();
    ResampleCallbackState::new(resampler, 4, 2, 0.0)
}

#[test]
fn buffer_of_unexpected_length_is_left_out() {
    let mut state = capture(32000, 16000, 1024, 2);
    let mut output: Vec<f32> = Vec::new();
    let outcome = state.process_input(&vec![0.5; 2047], &mut output, &mean);
    assert!(matches!(outcome, CaptureOutcome::UnexpectedLength { expected: 2048, actual: 2047 }));
    let outcome = state.process_input(&vec![0.5; 1024], &mut output, &mean);
    assert!(matches!(outcome, CaptureOutcome::UnexpectedLength { expected: 2048, actual: 1024 }));
    assert!(output.is_empty());
}

#[test]
fn buffer_of_unexpected_length_changes_nothing() {
    let mut data = Vec::new();
    for index in 0..1024 {
        data.push((index % 32) as f32 / 32.0);
        data.push(0.25f32);
    }
    let mut plain = capture(32000, 16000, 1024, 2);
    let mut disturbed = capture(32000, 16000, 1024, 2);
    let mut plain_output: Vec<f32> = Vec::new();
    let mut disturbed_output: Vec<f32> = Vec::new();
    for _ in 0..3 {
        plain.process_input(&data, &mut plain_output, &mean);
        let skipped = disturbed.process_input(&data[..2000], &mut disturbed_output, &mean);
        assert!(matches!(skipped, CaptureOutcome::UnexpectedLength { .. }));
        disturbed.process_input(&data, &mut disturbed_output, &mean);
    }
    assert_eq!(plain_output, disturbed_output);
}

#[test]
fn growth_of_the_accumulator_is_reported_once() {
    let mut state = counting(false);
    let mut output: Vec<f32> = Vec::new();
    let skipped = state.process_input(&[0.0; 7], &mut output, &mean);
    assert!(matches!(skipped, CaptureOutcome::UnexpectedLength { expected: 8, actual: 7 }));
    let first = state.process_input(&[0.0; 8], &mut output, &mean);
    assert!(matches!(first, CaptureOutcome::Resampled { written: 2, accumulator_grew: true }));
    let second = state.process_input(&[0.0; 8], &mut output, &mean);
    assert!(matches!(second, CaptureOutcome::Resampled { written: 2, accumulator_grew: false }));
}

#[test]
fn converter_failure_is_reported() {
    let mut state = counting(true);
    let mut output: Vec<f32> = Vec::new();
    let outcome = state.process_input(&[0.0; 8], &mut output, &mean);
    assert!(matches!(
        outcome,
        CaptureOutcome::Failed {
            error: ResamplerError::ResampleError(ResampleError::SyncNotAdjustable),
            accumulator_grew: true
        }
    ));
    assert!(output.is_empty());
}

#[test]
fn stereo_buffer_is_mixed_and_converted() {
    let mut state = capture(32000, 16000, 1024, 2);
    let mut output: Vec<f32> = Vec::new();
    let mut data = Vec::new();
    for _ in 0..1024 {
        data.push(0.75f32);
        data.push(0.25f32);
    }
    let first = state.process_input(&data, &mut output, &mean);
    assert!(matches!(first, CaptureOutcome::Resampled { written: 512, accumulator_grew: true }));
    for _ in 0..3 {
        let next = state.process_input(&data, &mut output, &mean);
        assert!(matches!(
            next,
            CaptureOutcome::Resampled { written: 512, accumulator_grew: false }
        ));
    }
    assert_eq!(output.len(), 4 * 512);
    assert!(output[3 * 512..].iter().all(|sample| (sample - 0.5).abs() < 0.01));
}

#[test]
fn more_channels_than_two_are_mixed_frame_by_frame() {
    let mut state = capture(16000, 16000, 256, 4);
    let mut output: Vec<f32> = Vec::new();
    let mut data = Vec::new();
    for _ in 0..256 {
        data.extend_from_slice(&[1.0f32, 0.0, 0.5, 0.5]);
    }
    for _ in 0..4 {
        let outcome = state.process_input(&data, &mut output, &mean);
        assert!(matches!(outcome, CaptureOutcome::Resampled { written: 256, .. }));
    }
    assert!(output[3 * 256..].iter().all(|sample| (sample - 0.5).abs() < 0.01));
}

#[test]
fn block_that_differs_from_the_buffer_is_queued() {
    // At 48 kHz the converter works on 1026 samples, the device delivers 1024.
    let mut state = capture(48000, 16000, 1024, 1);
    let mut output: Vec<f32> = Vec::new();
    let data = vec![0.5f32; 1024];
    let first = state.process_input(&data, &mut output, &mean);
    assert!(matches!(first, CaptureOutcome::Resampled { written: 0, .. }));
    let second = state.process_input(&data, &mut output, &mean);
    assert!(matches!(second, CaptureOutcome::Resampled { written: 342, .. }));
    assert_eq!(output.len(), 342);
}

#[test]
fn outcome_follows_the_converter() {
    assert!(matches!(
        outcome_of(Ok(342), true),
        CaptureOutcome::Resampled { written: 342, accumulator_grew: true }
    ));
    let failure = ResamplerError::ResampleError(ResampleError::SyncNotAdjustable);
    assert!(matches!(
        outcome_of(Err(failure), false),
        CaptureOutcome::Failed {
            error: ResamplerError::ResampleError(ResampleError::SyncNotAdjustable),
            accumulator_grew: false
        }
    ));
}
