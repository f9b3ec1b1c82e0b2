//! What the capture callback does with one buffer from the device: check
//! its size, mix it down to mono, and send it through the sample-rate
//! converter.

use crate::mixer::{downmix, is_frame_mean};
use crate::resampler::{
    is_drain, AudioResampler, ResampleEngine, ResamplerError, StreamingResampler, StreamingState,
};
use vstd::prelude::*;

verus! {

/// What became of one buffer from the device.
#[derive(Debug)]
pub enum CaptureOutcome {
    /// The buffer did not have the expected number of samples, and was left
    /// out.
    UnexpectedLength { expected: u64, actual: usize },
    /// The buffer was mixed down, but the converter failed on it.
    Failed { error: ResamplerError, accumulator_grew: bool },
    /// The buffer was mixed down and converted; `written` samples were
    /// put out. `accumulator_grew` says that the mono accumulator was
    /// shorter than the buffer needs and had to be enlarged.
    Resampled { written: usize, accumulator_grew: bool },
}

/// The state that the capture callback keeps between buffers.
pub struct ResampleCallbackState<T, E> {
    /// Number of channels in the incoming stream, at least one.
    channels: u16,
    /// Number of frames in each buffer from the device.
    target_buffer_size: u32,
    /// The converter to the target rate.
    resampler: StreamingResampler<T, E>,
    /// Where a buffer is mixed down to mono.
    samples_accumulator: Vec<T>,
    /// The sample with which the accumulator is filled when it grows.
    silence: T,
}

/// The callback's state as a mathematical value.
pub ghost struct CaptureState<T> {
    /// Channels in the incoming stream.
    pub channels: int,
    /// Frames in each buffer from the device.
    pub target_buffer_size: int,
    /// The converter's state.
    pub resampler: StreamingState<T>,
    /// Length of the mono accumulator.
    pub accumulator_len: int,
}

/// The number of samples in a buffer of `frames` frames with `channels`
/// samples each.
pub open spec fn buffer_samples(frames: int, channels: int) -> int {
    frames * channels
}

/// `mono` is `data` mixed down: one sample per frame, each the mean of its
/// frame as `average` computes it.
pub open spec fn is_downmix<T, F: Fn(&[T]) -> T>(
    average: F,
    data: Seq<T>,
    channels: int,
    mono: Seq<T>,
) -> bool {
    &&& mono.len() * channels == data.len()
    &&& forall|i: int| 0 <= i < mono.len() ==> is_frame_mean(average, data, i, channels, #[trigger] mono[i])
}

/// What became of a buffer that was mixed down, given how the converter
/// answered.
pub fn outcome_of(result: Result<usize, ResamplerError>, accumulator_grew: bool) -> (outcome:
    CaptureOutcome)
    ensures
        match result {
            Ok(written) => outcome == (CaptureOutcome::Resampled { written, accumulator_grew }),
            Err(error) => outcome == (CaptureOutcome::Failed { error, accumulator_grew }),
        },
{
    match result {
        Ok(written) => CaptureOutcome::Resampled { written, accumulator_grew },
        Err(error) => CaptureOutcome::Failed { error, accumulator_grew },
    }
}

/// Makes `accumulator` exactly `frames` long: a longer one is cut, a
/// shorter one is filled up with `silence`. Says whether it had to grow.
fn resize_accumulator<T: Copy>(accumulator: &mut Vec<T>, frames: usize, silence: T) -> (grew: bool)
    ensures
        final(accumulator)@.len() == frames,
        grew == (old(accumulator)@.len() < frames),
{
    let grew = frames > accumulator.len();
    accumulator.truncate(frames);
    while accumulator.len() < frames
        invariant
            accumulator@.len() <= frames,
        decreases frames - accumulator@.len(),
    {
        accumulator.push(silence);
    }
    grew
}

impl<T: Copy, E: ResampleEngine<T>> ResampleCallbackState<T, E> {
    /// The state as a mathematical value.
    pub closed spec fn view(&self) -> CaptureState<T> {
        CaptureState {
            channels: self.channels as int,
            target_buffer_size: self.target_buffer_size as int,
            resampler: self.resampler@,
            accumulator_len: self.samples_accumulator@.len() as int,
        }
    }

    /// The state is one that the operations below can have produced: there
    /// is at least one channel, and the converter's sizes are valid.
    pub open spec fn wf(&self) -> bool {
        self@.channels > 0 && self@.resampler.sizes.valid()
    }

    /// The state for a device that delivers buffers of `target_buffer_size`
    /// frames with `channels` samples each, to be converted by `resampler`.
    /// The accumulator starts empty, with room for one buffer; when it
    /// grows it is filled with `silence`.
    pub fn new(
        resampler: StreamingResampler<T, E>,
        target_buffer_size: u32,
        channels: u16,
        silence: T,
    ) -> (state: Self)
        requires
            channels > 0,
            resampler@.sizes.valid(),
        ensures
            state.wf(),
            state@ == (CaptureState {
                channels: channels as int,
                target_buffer_size: target_buffer_size as int,
                resampler: resampler@,
                accumulator_len: 0,
            }),
    {
        Self {
            channels,
            target_buffer_size,
            resampler,
            samples_accumulator: Vec::with_capacity(target_buffer_size as usize),
            silence,
        }
    }

    /// Takes one buffer of interleaved samples from the device. A buffer
    /// that does not hold exactly the expected number of frames is left
    /// out, and nothing changes. Any other buffer is mixed down to mono by
    /// `average`, frame by frame, and the mono samples go through the
    /// converter, which appends what it makes of them to `output`.
    pub fn process_input<F: Fn(&[T]) -> T>(
        &mut self,
        data: &[T],
        output: &mut Vec<T>,
        average: &F,
    ) -> (outcome: CaptureOutcome)
        requires
            old(self).wf(),
            forall|frame: &[T]|
                frame@.len() == old(self)@.channels ==> call_requires(*average, (frame,)),
        ensures
            final(self).wf(),
            final(self)@.channels == old(self)@.channels,
            final(self)@.target_buffer_size == old(self)@.target_buffer_size,
            final(self)@.resampler.sizes == old(self)@.resampler.sizes,
            data@.len() != buffer_samples(old(self)@.target_buffer_size, old(self)@.channels)
                <==> outcome is UnexpectedLength,
            outcome matches CaptureOutcome::UnexpectedLength { expected, actual } ==> {
                &&& expected == buffer_samples(old(self)@.target_buffer_size, old(self)@.channels)
                &&& actual == data@.len()
                &&& *final(self) == *old(self)
                &&& final(output)@ == old(output)@
            },
            !(outcome is UnexpectedLength) ==> final(self)@.accumulator_len == old(
                self,
            )@.target_buffer_size,
            outcome matches CaptureOutcome::Resampled { accumulator_grew, .. }
                ==> accumulator_grew == (old(self)@.accumulator_len < old(
                self,
            )@.target_buffer_size),
            outcome matches CaptureOutcome::Failed { accumulator_grew, .. } ==> accumulator_grew
                == (old(self)@.accumulator_len < old(self)@.target_buffer_size),
            !(outcome is UnexpectedLength) ==> exists|
                mono: Seq<T>,
                taken: int,
                emitted: Seq<Seq<T>>,
                result: Result<usize, ResamplerError>,
            |
                {
                    &&& is_downmix(*average, data@, old(self)@.channels, mono)
                    &&& #[trigger] is_drain(
                        old(self)@.resampler,
                        mono,
                        taken,
                        emitted,
                        final(self)@.resampler,
                        old(output)@,
                        final(output)@,
                        result,
                    )
                    &&& match outcome {
                        CaptureOutcome::Resampled { written, .. } => result == Ok::<
                            usize,
                            ResamplerError,
                        >(written),
                        CaptureOutcome::Failed { error, .. } => result == Err::<
                            usize,
                            ResamplerError,
                        >(error),
                        CaptureOutcome::UnexpectedLength { .. } => false,
                    }
                },
    {
        assert(self.target_buffer_size * self.channels <= 0xFFFF_FFFF * 0xFFFF) by (nonlinear_arith)
            requires
                0 <= self.target_buffer_size <= 0xFFFF_FFFF,
                0 <= self.channels <= 0xFFFF,
        ;
        let expected_samples: u64 = self.target_buffer_size as u64 * self.channels as u64;
        if data.len() as u64 != expected_samples {
            return CaptureOutcome::UnexpectedLength {
                expected: expected_samples,
                actual: data.len(),
            };
        }
        let received_frames: usize = data.len() / (self.channels as usize);
        assert(received_frames == self.target_buffer_size) by (nonlinear_arith)
            requires
                data@.len() == self.target_buffer_size * self.channels,
                received_frames == data@.len() / (self.channels as nat),
                self.channels > 0,
        ;
        let accumulator_grew = resize_accumulator(
            &mut self.samples_accumulator,
            received_frames,
            self.silence,
        );
        downmix(self.samples_accumulator.as_mut_slice(), data, self.channels as usize, average);
        let ghost mono = self.samples_accumulator@;
        let ghost before = self.resampler@;
        let result = self.resampler.process_callback(self.samples_accumulator.as_slice(), output);
        proof {
            let (taken, emitted) = choose|taken: int, emitted: Seq<Seq<T>>|
                #[trigger] is_drain(
                    before,
                    mono,
                    taken,
                    emitted,
                    self.resampler@,
                    old(output)@,
                    output@,
                    result,
                );
            assert(is_drain(
                old(self)@.resampler,
                mono,
                taken,
                emitted,
                self@.resampler,
                old(output)@,
                output@,
                result,
            ));
        }
        outcome_of(result, accumulator_grew)
    }
}

} // verus!
