//! Caption segments and the timing constants of the decode schedule.

use vstd::prelude::*;

verus! {

/// Length, in milliseconds, of the recent audio that every decode sees.
pub const CONTEXT_LENGTH_MILLISECONDS: u32 = 3000;

/// Audio, in milliseconds, that has to arrive between two decodes.
pub const REPEAT_RUN_MILLISECONDS: u32 = 500;

/// A caption segment as a mathematical value.
pub ghost struct Segment {
    pub start: int,
    pub end: int,
    pub text: Seq<char>,
}

/// A piece of recognized speech with its place on the session's time line,
/// in milliseconds since the session began.
#[derive(Debug)]
pub struct CaptionSegment {
    pub start_milliseconds: i64,
    pub end_milliseconds: i64,
    pub text: String,
}

impl View for CaptionSegment {
    type V = Segment;

    open spec fn view(&self) -> Segment {
        Segment {
            start: self.start_milliseconds as int,
            end: self.end_milliseconds as int,
            text: self.text@,
        }
    }
}

impl DeepView for CaptionSegment {
    type V = Segment;

    open spec fn deep_view(&self) -> Segment {
        self.view()
    }
}

impl Clone for CaptionSegment {
    fn clone(&self) -> (copy: Self)
        ensures
            copy == *self,
    {
        CaptionSegment {
            start_milliseconds: self.start_milliseconds,
            end_milliseconds: self.end_milliseconds,
            text: self.text.clone(),
        }
    }
}

/// Number of whole samples that `milliseconds` of audio hold at
/// `sample_rate` samples per second.
pub open spec fn samples_in(milliseconds: int, sample_rate: int) -> int {
    sample_rate * milliseconds / 1000
}

/// Converts a duration to a number of samples at the given rate.
pub fn milliseconds_to_samples(milliseconds: u32, sample_rate: u32) -> (samples: usize)
    requires
        samples_in(milliseconds as int, sample_rate as int) <= usize::MAX,
    ensures
        samples == samples_in(milliseconds as int, sample_rate as int),
{
    assert(sample_rate as int * milliseconds as int <= 0xFFFF_FFFF * 0xFFFF_FFFF) by (nonlinear_arith)
        requires
            0 <= sample_rate as int <= 0xFFFF_FFFF,
            0 <= milliseconds as int <= 0xFFFF_FFFF,
    ;
    let product: u64 = sample_rate as u64 * milliseconds as u64;
    (product / 1000) as usize
}

/// What a transcriber offers to the loop that feeds it: it takes samples of
/// type `T` as they arrive and, when asked, may decode what it has gathered.
/// `P` is whatever the engine behind it wants to be told on each decode.
pub trait Transcriber<T, P> {
    /// The least number of samples that a decode is run on.
    fn min_transcription_samples(sample_rate: u32) -> usize;

    /// Takes newly arrived mono samples.
    fn accept_samples(&mut self, samples: &[T]);

    /// Decodes the gathered audio if a decode is due. Returns the segments
    /// found, placed on the session's time line, and the time that the
    /// decode took in milliseconds; no segments and zero where none was
    /// made.
    fn try_transcribe(&mut self, params: P) -> (Vec<CaptionSegment>, u128);
}

} // verus!
