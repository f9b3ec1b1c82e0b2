//! Downmixing of interleaved audio to mono.
//!
//! How samples are averaged is for the caller to say: the functions here
//! take the averaging as a function of one frame, and see to it that every
//! frame is averaged once and its mean lands where it belongs.

use vstd::prelude::*;
use vstd::slice::slice_subrange;

verus! {

/// The samples of frame `index` in interleaved `data` with `channels`
/// samples to a frame.
pub open spec fn frame_at<T>(data: Seq<T>, index: int, channels: int) -> Seq<T> {
    data.subrange(index * channels, index * channels + channels)
}

/// `mean` is what `average` may return for frame `index` of `data`.
pub open spec fn is_frame_mean<T, F: Fn(&[T]) -> T>(
    average: F,
    data: Seq<T>,
    index: int,
    channels: int,
    mean: T,
) -> bool {
    exists|frame: &[T]|
        frame@ == frame_at(data, index, channels) && #[trigger] call_ensures(
            average,
            (frame,),
            mean,
        )
}

/// `mean` is what `average` may return for the pair `left`, `right`.
pub open spec fn is_pair_mean<T, F: Fn(&[T]) -> T>(average: F, left: T, right: T, mean: T) -> bool {
    exists|pair: &[T]| pair@ == seq![left, right] && #[trigger] call_ensures(average, (pair,), mean)
}

/// Where the averaging is known to return `mean_of` of the frame that it is
/// given, the mean of a pair is `mean_of` of that pair: what the mixing
/// functions say of each place then names the sample that stands there.
pub proof fn lemma_pair_mean_is<T, F: Fn(&[T]) -> T>(
    average: F,
    mean_of: spec_fn(Seq<T>) -> T,
    left: T,
    right: T,
    mean: T,
)
    requires
        forall|frame: &[T], result: T| #[trigger]
            call_ensures(average, (frame,), result) ==> result == mean_of(frame@),
        is_pair_mean(average, left, right, mean),
    ensures
        mean == mean_of(seq![left, right]),
{
    let pair = choose|pair: &[T]|
        pair@ == seq![left, right] && #[trigger] call_ensures(average, (pair,), mean);
    assert(mean == mean_of(pair@));
}

/// Mixes interleaved frames of `channels` samples down to mono: the mean
/// of frame `i`, as `average` computes it, is written to place `i` of the
/// accumulator. A last, incomplete frame is left out, and so is the part of
/// the accumulator behind the last mean. Returns the number of frames.
pub fn downmix<T: Copy, F: Fn(&[T]) -> T>(
    samples_accumulator: &mut [T],
    samples_frame_data: &[T],
    channels: usize,
    average: &F,
) -> (frames: usize)
    requires
        channels > 0,
        old(samples_accumulator)@.len() >= samples_frame_data@.len() / (channels as nat),
        forall|frame: &[T]| frame@.len() == channels ==> call_requires(*average, (frame,)),
    ensures
        frames == samples_frame_data@.len() / (channels as nat),
        final(samples_accumulator)@.len() == old(samples_accumulator)@.len(),
        forall|i: int|
            0 <= i < frames ==> is_frame_mean(
                *average,
                samples_frame_data@,
                i,
                channels as int,
                #[trigger] final(samples_accumulator)@[i],
            ),
        forall|i: int|
            frames <= i < old(samples_accumulator)@.len() ==> final(samples_accumulator)@[i] == old(
                samples_accumulator,
            )@[i],
{
    let frames: usize = samples_frame_data.len() / channels;
    let mut index: usize = 0;
    while index < frames
        invariant
            channels > 0,
            samples_frame_data@.len() <= usize::MAX,
            frames == samples_frame_data@.len() / (channels as nat),
            index <= frames,
            samples_accumulator@.len() == old(samples_accumulator)@.len(),
            samples_accumulator@.len() >= frames,
            forall|frame: &[T]| frame@.len() == channels ==> call_requires(*average, (frame,)),
            forall|i: int|
                0 <= i < index ==> is_frame_mean(
                    *average,
                    samples_frame_data@,
                    i,
                    channels as int,
                    #[trigger] samples_accumulator@[i],
                ),
            forall|i: int|
                index <= i < old(samples_accumulator)@.len() ==> samples_accumulator@[i] == old(
                    samples_accumulator,
                )@[i],
        decreases frames - index,
    {
        assert((index + 1) * channels <= samples_frame_data@.len()) by (nonlinear_arith)
            requires
                index < frames,
                frames == samples_frame_data@.len() / (channels as nat),
                channels > 0,
        ;
        assert(0 <= index * channels && index * channels + channels == (index + 1) * channels)
            by (nonlinear_arith)
            requires
                0 <= index,
                0 < channels,
        ;
        let start: usize = index * channels;
        let frame = slice_subrange(samples_frame_data, start, start + channels);
        let mean = average(frame);
        samples_accumulator[index] = mean;
        index = index + 1;
    }
    frames
}

/// Mixes interleaved stereo samples `[L0, R0, L1, R1, ...]` down to mono:
/// place `i` of the accumulator receives the mean, as `average` computes
/// it, of the pair `L_i`, `R_i`. Returns the number of frames.
pub fn mix_stereo_to_mono<T: Copy, F: Fn(&[T]) -> T>(
    samples_accumulator: &mut [T],
    samples_frame_data: &[T],
    average: &F,
) -> (frames: usize)
    requires
        old(samples_accumulator)@.len() >= samples_frame_data@.len() / 2,
        forall|frame: &[T]| frame@.len() == 2 ==> call_requires(*average, (frame,)),
    ensures
        frames == samples_frame_data@.len() / 2,
        final(samples_accumulator)@.len() == old(samples_accumulator)@.len(),
        forall|i: int|
            0 <= i < frames ==> is_pair_mean(
                *average,
                samples_frame_data@[2 * i],
                samples_frame_data@[2 * i + 1],
                #[trigger] final(samples_accumulator)@[i],
            ),
        forall|i: int|
            frames <= i < old(samples_accumulator)@.len() ==> final(samples_accumulator)@[i] == old(
                samples_accumulator,
            )@[i],
{
    let frames = downmix(samples_accumulator, samples_frame_data, 2, average);
    proof {
        assert forall|i: int| 0 <= i < frames implies is_pair_mean(
            *average,
            samples_frame_data@[2 * i],
            samples_frame_data@[2 * i + 1],
            #[trigger] samples_accumulator@[i],
        ) by {
            let frame = choose|frame: &[T]|
                frame@ == frame_at(samples_frame_data@, i, 2) && #[trigger] call_ensures(
                    *average,
                    (frame,),
                    samples_accumulator@[i],
                );
            assert(frame@ =~= seq![samples_frame_data@[2 * i], samples_frame_data@[2 * i + 1]]);
        }
    }
    frames
}

} // verus!
