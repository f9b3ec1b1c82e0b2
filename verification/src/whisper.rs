//! The schedule of a streaming transcriber: a rolling window over the most
//! recent audio, the rule that says when a decode is due and on which
//! samples it runs, and the placing of what the engine found on the
//! session's time line. The engine itself is not part of this module: it is
//! handed the samples and hands back what it heard.

use crate::fifo::{drop_oldest, keep_last, push_all};
use crate::speech::{
    milliseconds_to_samples, samples_in, CaptionSegment, Segment, CONTEXT_LENGTH_MILLISECONDS,
    REPEAT_RUN_MILLISECONDS,
};
use crate::text::{is_blank, visible_extent};
use std::collections::VecDeque;
use vstd::prelude::*;

verus! {

/// A segment as the engine reports it: times in hundredths of a second from
/// the start of the audio that it was given.
#[derive(Debug)]
pub struct RawSegment {
    pub start_timestamp: i64,
    pub end_timestamp: i64,
    pub text: String,
}

/// A raw segment as a mathematical value.
pub ghost struct RawSpan {
    pub start: int,
    pub end: int,
    pub text: Seq<char>,
}

impl View for RawSegment {
    type V = RawSpan;

    open spec fn view(&self) -> RawSpan {
        RawSpan {
            start: self.start_timestamp as int,
            end: self.end_timestamp as int,
            text: self.text@,
        }
    }
}

impl DeepView for RawSegment {
    type V = RawSpan;

    open spec fn deep_view(&self) -> RawSpan {
        self.view()
    }
}

/// How a decode that was begun has ended.
#[derive(Debug)]
pub enum DecodeOutcome {
    /// The audio was too quiet to be worth decoding.
    Silent,
    /// The engine failed.
    Failed,
    /// The engine ran; these are its segments and the time it took.
    Decoded { segments: Vec<RawSegment>, elapsed_milliseconds: u128 },
}

/// How a decode has ended, as a mathematical value.
pub ghost enum Answer {
    Silent,
    Failed,
    Decoded { segments: Seq<RawSpan>, elapsed_milliseconds: u128 },
}

impl View for DecodeOutcome {
    type V = Answer;

    open spec fn view(&self) -> Answer {
        match self {
            DecodeOutcome::Silent => Answer::Silent,
            DecodeOutcome::Failed => Answer::Failed,
            DecodeOutcome::Decoded { segments, elapsed_milliseconds } => Answer::Decoded {
                segments: segments.deep_view(),
                elapsed_milliseconds: *elapsed_milliseconds,
            },
        }
    }
}

/// What the schedule needs of the engine that decodes for it. `P` is
/// whatever the engine wants to be told on each decode.
pub trait DecodeEngine<T, P> {
    /// Starts measuring the time of a decode.
    fn start_clock(&mut self);

    /// Whether the samples are too quiet to be worth decoding.
    fn is_silent(&mut self, samples: &[T]) -> bool;

    /// Decodes the samples. Returns the segments heard, with times counted
    /// from the first sample, or nothing where the engine failed.
    fn decode(&mut self, params: P, samples: &[T]) -> Option<Vec<RawSegment>>;

    /// Milliseconds since the clock was started.
    fn elapsed_milliseconds(&mut self) -> u128;
}

/// The state of the schedule as a mathematical value.
pub ghost struct Schedule<T> {
    /// The most recent samples, oldest first.
    pub window: Seq<T>,
    /// Samples taken in since a decode last ran or was found silent.
    pub since_last_decode: int,
    /// Samples taken in since the session began.
    pub total_samples_seen: int,
    /// Samples per second.
    pub target_rate: int,
    /// The sample that stands for silence, used for padding.
    pub silence: T,
}

/// The least number of samples that a decode is run on: a tenth of a second.
pub open spec fn min_samples(sample_rate: int) -> int {
    sample_rate / 10
}

/// The most samples that the rolling window holds.
pub open spec fn context_samples(sample_rate: int) -> int {
    samples_in(CONTEXT_LENGTH_MILLISECONDS as int, sample_rate)
}

/// The samples that have to arrive between two decodes.
pub open spec fn repeat_samples(sample_rate: int) -> int {
    samples_in(REPEAT_RUN_MILLISECONDS as int, sample_rate)
}

/// The samples that a decode runs on: the window itself where it holds at
/// least `least` samples, else the window followed by silence up to that
/// length.
pub open spec fn decode_input<T>(window: Seq<T>, least: int, silence: T) -> Seq<T> {
    if window.len() >= least {
        window
    } else {
        window + Seq::new((least - window.len()) as nat, |i: int| silence)
    }
}

/// Where on the session's time line, in milliseconds, the audio of a decode
/// begins: the samples seen before the first sample of the decoded slice,
/// as a time.
pub open spec fn window_start_ms(total_samples_seen: int, slice_len: int, sample_rate: int) -> int {
    (total_samples_seen - slice_len) * 1000 / sample_rate
}

/// The engine's segments placed on the session's time line, without those
/// whose text is blank.
pub open spec fn caption_segments(raw: Seq<RawSpan>, start_ms: int) -> Seq<Segment>
    decreases raw.len(),
{
    if raw.len() == 0 {
        Seq::empty()
    } else {
        let before = caption_segments(raw.drop_last(), start_ms);
        let last = raw.last();
        if is_blank(last.text) {
            before
        } else {
            before.push(
                Segment {
                    start: start_ms + last.start * 10,
                    end: start_ms + last.end * 10,
                    text: last.text,
                },
            )
        }
    }
}

/// Every time of `raw`, placed on the time line, can be held in 64 bits.
pub open spec fn timestamps_fit(raw: Seq<RawSpan>, start_ms: int) -> bool {
    forall|i: int|
        0 <= i < raw.len() ==> {
            &&& i64::MIN <= (#[trigger] raw[i]).start * 10
            &&& start_ms + raw[i].start * 10 <= i64::MAX
            &&& i64::MIN <= raw[i].end * 10
            &&& start_ms + raw[i].end * 10 <= i64::MAX
        }
}

/// Enough samples have arrived since the last decode for the next one.
pub open spec fn is_due<T>(schedule: Schedule<T>) -> bool {
    schedule.since_last_decode >= repeat_samples(schedule.target_rate)
}

/// The samples that the next decode runs on.
pub open spec fn input_of<T>(schedule: Schedule<T>) -> Seq<T> {
    decode_input(schedule.window, min_samples(schedule.target_rate), schedule.silence)
}

/// Where on the time line the samples of the next decode begin.
pub open spec fn start_of<T>(schedule: Schedule<T>) -> int {
    window_start_ms(
        schedule.total_samples_seen,
        input_of(schedule).len() as int,
        schedule.target_rate,
    )
}

/// What a decode leaves behind: the schedule after it, the segments found,
/// and the time it took.
pub ghost struct Finished<T> {
    pub schedule: Schedule<T>,
    pub segments: Seq<Segment>,
    pub elapsed_milliseconds: u128,
}

/// How a decode that was due ends. A silent window yields nothing and
/// counts as decoded. A failure yields nothing, and the decode stays due.
/// After a decode, each segment whose text is not blank is placed on the
/// session's time line: ten milliseconds for each hundredth of a second,
/// counted from where the decoded samples begin.
pub open spec fn finish<T>(schedule: Schedule<T>, answer: Answer) -> Finished<T> {
    match answer {
        Answer::Silent => Finished {
            schedule: Schedule { since_last_decode: 0, ..schedule },
            segments: Seq::empty(),
            elapsed_milliseconds: 0,
        },
        Answer::Failed => Finished { schedule, segments: Seq::empty(), elapsed_milliseconds: 0 },
        Answer::Decoded { segments, elapsed_milliseconds } => Finished {
            schedule: Schedule { since_last_decode: 0, ..schedule },
            segments: caption_segments(segments, start_of(schedule)),
            elapsed_milliseconds,
        },
    }
}

/// The times of a decode's segments, where it has any, can be placed.
pub open spec fn answer_fits<T>(schedule: Schedule<T>, answer: Answer) -> bool {
    answer matches Answer::Decoded { segments, .. } ==> timestamps_fit(segments, start_of(schedule))
}

/// What placing on the time line keeps: no segment has a blank text, each
/// comes from a raw segment with the same text, moved by the start of the
/// window, and a raw segment that does not end before it starts gives a
/// segment that does not either.
pub proof fn lemma_caption_segments_properties(raw: Seq<RawSpan>, start_ms: int)
    ensures
        caption_segments(raw, start_ms).len() <= raw.len(),
        forall|i: int|
            0 <= i < caption_segments(raw, start_ms).len() ==> {
                let segment = #[trigger] caption_segments(raw, start_ms)[i];
                &&& !is_blank(segment.text)
                &&& exists|k: int|
                    0 <= k < raw.len() && segment.text == (#[trigger] raw[k]).text && segment.start
                        == start_ms + raw[k].start * 10 && segment.end == start_ms + raw[k].end
                        * 10
            },
    decreases raw.len(),
{
    if raw.len() > 0 {
        let front = raw.drop_last();
        lemma_caption_segments_properties(front, start_ms);
        let out = caption_segments(raw, start_ms);
        let before = caption_segments(front, start_ms);
        assert forall|i: int| 0 <= i < out.len() implies ({
            let segment = #[trigger] out[i];
            &&& !is_blank(segment.text)
            &&& exists|k: int|
                0 <= k < raw.len() && segment.text == (#[trigger] raw[k]).text && segment.start
                    == start_ms + raw[k].start * 10 && segment.end == start_ms + raw[k].end * 10
        }) by {
            if i < before.len() {
                assert(out[i] == before[i]);
                let k = choose|k: int|
                    0 <= k < front.len() && before[i].text == (#[trigger] front[k]).text
                        && before[i].start == start_ms + front[k].start * 10 && before[i].end
                        == start_ms + front[k].end * 10;
                assert(raw[k] == front[k]);
            } else {
                assert(out[i].text == raw[raw.len() - 1].text);
            }
        }
    }
}

/// Half a second of audio is never less than a tenth of a second of it.
pub proof fn lemma_repeat_covers_min(sample_rate: int)
    requires
        sample_rate >= 0,
    ensures
        min_samples(sample_rate) <= repeat_samples(sample_rate) <= context_samples(sample_rate),
{
    assert(sample_rate * 500 / 1000 >= sample_rate / 10) by (nonlinear_arith)
        requires
            sample_rate >= 0,
    ;
    assert(sample_rate * 500 / 1000 <= sample_rate * 3000 / 1000) by (nonlinear_arith)
        requires
            sample_rate >= 0,
    ;
}

/// The scheduling state of a transcriber over samples of type `T`.
pub struct WhisperTranscriber<T> {
    /// Samples taken in since the last decode.
    since_last_decode: usize,
    /// Where a short window is padded with silence.
    scratch_buffer: Vec<T>,
    /// The most recent samples.
    segment_window: VecDeque<T>,
    /// The most samples that the window holds.
    length_samples: usize,
    /// Samples between two decodes.
    repeat_run_samples: usize,
    /// The least number of samples that a decode runs on.
    min_transcode_samples: usize,
    target_rate: u32,
    total_samples_seen: i64,
    silence: T,
}

/// Fills `scratch` with the samples of `window`, then with `silence` up to
/// `least` samples.
pub fn pad_into<T: Copy>(scratch: &mut Vec<T>, window: &VecDeque<T>, least: usize, silence: T)
    requires
        window@.len() < least,
    ensures
        final(scratch)@ == decode_input(window@, least as int, silence),
{
    scratch.clear();
    let mut index: usize = 0;
    while index < window.len()
        invariant
            index <= window.len(),
            scratch@ == window@.take(index as int),
        decreases window.len() - index,
    {
        scratch.push(window[index]);
        index = index + 1;
        assert(scratch@ =~= window@.take(index as int));
    }
    assert(window@.take(window@.len() as int) =~= window@);
    while scratch.len() < least
        invariant
            window@.len() <= scratch@.len() <= least,
            scratch@ == window@ + Seq::new((scratch@.len() - window@.len()) as nat, |i: int| silence),
        decreases least - scratch.len(),
    {
        scratch.push(silence);
        assert(scratch@ =~= window@ + Seq::new(
            (scratch@.len() - window@.len()) as nat,
            |i: int| silence,
        ));
    }
}

/// The samples of `window` as one slice. Calls `VecDeque::make_contiguous`,
/// which moves the samples within the queue's storage so that they lie in
/// one piece, and leaves their order as it is.
#[verifier::external_body]
fn contiguous<T>(window: &mut VecDeque<T>) -> (slice: &[T])
    ensures
        slice@ == old(window)@,
        final(window)@ == old(window)@,
{
    window.make_contiguous()
}

impl<T: Copy> WhisperTranscriber<T> {
    /// The state as a mathematical value.
    pub closed spec fn view(&self) -> Schedule<T> {
        Schedule {
            window: self.segment_window@,
            since_last_decode: self.since_last_decode as int,
            total_samples_seen: self.total_samples_seen as int,
            target_rate: self.target_rate as int,
            silence: self.silence,
        }
    }

    /// The state is one that the operations below can have produced.
    pub closed spec fn wf(&self) -> bool {
        &&& self.target_rate > 0
        &&& self.length_samples == context_samples(self.target_rate as int)
        &&& self.repeat_run_samples == repeat_samples(self.target_rate as int)
        &&& self.min_transcode_samples == min_samples(self.target_rate as int)
        &&& self.segment_window@.len() <= self.length_samples
        &&& self.segment_window@.len() <= self.total_samples_seen
        &&& 0 <= self.since_last_decode <= self.total_samples_seen
        &&& self.total_samples_seen * 1000 <= i64::MAX
    }

    /// What a well-formed state is known to satisfy.
    pub proof fn lemma_wf(&self)
        requires
            self.wf(),
        ensures
            self@.target_rate > 0,
            self@.window.len() <= context_samples(self@.target_rate),
            self@.window.len() <= self@.total_samples_seen,
            0 <= self@.since_last_decode <= self@.total_samples_seen,
            self@.total_samples_seen * 1000 <= i64::MAX,
    {
    }

    /// `count` more samples can be taken in without the counters leaving
    /// their range.
    pub open spec fn has_room(&self, count: int) -> bool {
        &&& (self@.total_samples_seen + count) * 1000 <= i64::MAX
        &&& self@.since_last_decode + count <= usize::MAX
    }

    /// Enough samples have arrived since the last decode for the next one.
    pub open spec fn decode_due(&self) -> bool {
        is_due(self@)
    }

    /// A fresh schedule for audio at `target_rate` samples per second. The
    /// window is empty, nothing has been seen, and short windows will be
    /// padded with `silence`.
    pub fn new(target_rate: u32, silence: T) -> (transcriber: Self)
        requires
            target_rate > 0,
            context_samples(target_rate as int) <= usize::MAX,
        ensures
            transcriber.wf(),
            transcriber@ == (Schedule {
                window: Seq::empty(),
                since_last_decode: 0,
                total_samples_seen: 0,
                target_rate: target_rate as int,
                silence,
            }),
    {
        proof {
            lemma_repeat_covers_min(target_rate as int);
        }
        let min_transcode_samples = Self::min_transcription_samples(target_rate);
        let length_samples = milliseconds_to_samples(CONTEXT_LENGTH_MILLISECONDS, target_rate);
        let repeat_run_samples = milliseconds_to_samples(REPEAT_RUN_MILLISECONDS, target_rate);
        Self {
            total_samples_seen: 0,
            target_rate,
            since_last_decode: 0,
            segment_window: VecDeque::with_capacity(length_samples),
            scratch_buffer: Vec::with_capacity(min_transcode_samples),
            length_samples,
            repeat_run_samples,
            min_transcode_samples,
            silence,
        }
    }

    /// The least number of samples that a decode is run on at this rate.
    pub fn min_transcription_samples(sample_rate: u32) -> (samples: usize)
        ensures
            samples == min_samples(sample_rate as int),
    {
        (sample_rate as usize) / 10
    }

    /// Samples per second.
    pub fn target_rate(&self) -> (rate: u32)
        ensures
            rate == self@.target_rate,
    {
        self.target_rate
    }

    /// Samples taken in since the last decode.
    pub fn since_last_decode(&self) -> (samples: usize)
        ensures
            samples == self@.since_last_decode,
    {
        self.since_last_decode
    }

    /// Samples taken in since the session began.
    pub fn total_samples_seen(&self) -> (samples: i64)
        ensures
            samples == self@.total_samples_seen,
    {
        self.total_samples_seen
    }

    /// Number of samples in the window.
    pub fn window_len(&self) -> (samples: usize)
        ensures
            samples == self@.window.len(),
    {
        self.segment_window.len()
    }

    /// Whether `count` more samples can be taken in.
    pub fn can_accept(&self, count: usize) -> (room: bool)
        requires
            self.wf(),
        ensures
            room == self.has_room(count as int),
    {
        let limit: i64 = 9_223_372_036_854_775;
        assert(limit * 1000 <= i64::MAX < (limit + 1) * 1000);
        let total_fits = if self.total_samples_seen > limit {
            false
        } else {
            let left: i64 = limit - self.total_samples_seen;
            count as u64 <= left as u64
        };
        let room_since: usize = usize::MAX - self.since_last_decode;
        total_fits && count <= room_since
    }

    /// Takes in newly arrived samples: they are appended to the window,
    /// from which the oldest samples then leave until no more than three
    /// seconds of audio are left.
    pub fn accept_samples(&mut self, samples: &[T])
        requires
            old(self).wf(),
            old(self).has_room(samples.len() as int),
        ensures
            final(self).wf(),
            final(self)@ == (Schedule {
                window: keep_last(
                    old(self)@.window + samples@,
                    context_samples(old(self)@.target_rate),
                ),
                since_last_decode: old(self)@.since_last_decode + samples.len(),
                total_samples_seen: old(self)@.total_samples_seen + samples.len(),
                ..old(self)@
            }),
    {
        push_all(&mut self.segment_window, samples);
        self.since_last_decode = self.since_last_decode + samples.len();
        drop_oldest(&mut self.segment_window, self.length_samples);
        self.total_samples_seen = self.total_samples_seen + samples.len() as i64;
    }

    /// Whether enough samples have arrived for the next decode.
    pub fn is_decode_due(&self) -> (due: bool)
        requires
            self.wf(),
        ensures
            due == self.decode_due(),
    {
        self.since_last_decode >= self.repeat_run_samples
    }

    /// Begins a decode if one is due, and hands out the samples to run it
    /// on: the window, padded with silence where it is shorter than a tenth
    /// of a second. Where no decode is due nothing is handed out. The
    /// schedule itself does not change.
    pub fn begin_decode(&mut self) -> (input: Option<&[T]>)
        requires
            old(self).wf(),
        ensures
            final(self).wf(),
            final(self)@ == old(self)@,
            input is Some <==> old(self).decode_due(),
            input is None ==> *final(self) == *old(self),
            input matches Some(slice) ==> slice@ == input_of(old(self)@),
    {
        if self.since_last_decode < self.repeat_run_samples {
            return None;
        }
        if self.segment_window.len() >= self.min_transcode_samples {
            Some(contiguous(&mut self.segment_window))
        } else {
            pad_into(
                &mut self.scratch_buffer,
                &self.segment_window,
                self.min_transcode_samples,
                self.silence,
            );
            Some(self.scratch_buffer.as_slice())
        }
    }

    /// Where on the session's time line, in milliseconds, the audio of the
    /// decode that is due begins.
    pub fn window_start_milliseconds(&self) -> (start: i64)
        requires
            self.wf(),
            self.decode_due(),
        ensures
            start == start_of(self@),
            start >= 0,
    {
        proof {
            lemma_repeat_covers_min(self.target_rate as int);
        }
        let slice_len: usize = if self.segment_window.len() >= self.min_transcode_samples {
            self.segment_window.len()
        } else {
            self.min_transcode_samples
        };
        let before: i64 = self.total_samples_seen - slice_len as i64;
        assert(0 <= before * 1000 <= self.total_samples_seen * 1000) by (nonlinear_arith)
            requires
                0 <= before <= self.total_samples_seen,
        ;
        before * 1000 / (self.target_rate as i64)
    }

    /// Ends the decode that was begun, as `finish` says. No segment that
    /// is handed out has a blank text, and none ends before it starts
    /// unless the engine reported it so.
    pub fn finish_decode(&mut self, outcome: DecodeOutcome) -> (found: (Vec<CaptionSegment>, u128))
        requires
            old(self).wf(),
            old(self).decode_due(),
            answer_fits(old(self)@, outcome@),
        ensures
            final(self).wf(),
            final(self)@ == finish(old(self)@, outcome@).schedule,
            found.0.deep_view() == finish(old(self)@, outcome@).segments,
            found.1 == finish(old(self)@, outcome@).elapsed_milliseconds,
            forall|i: int| 0 <= i < found.0.len() ==> !is_blank((#[trigger] found.0[i]).text@),
            outcome matches DecodeOutcome::Decoded { segments, .. } ==> ((forall|k: int|
                0 <= k < segments.len() ==> (#[trigger] segments[k]).start_timestamp
                    <= segments[k].end_timestamp) ==> forall|i: int|
                0 <= i < found.0.len() ==> (#[trigger] found.0[i]).start_milliseconds
                    <= found.0[i].end_milliseconds),
    {
        match outcome {
            DecodeOutcome::Silent => {
                self.since_last_decode = 0;
                let none: Vec<CaptionSegment> = Vec::new();
                assert(none.deep_view() =~= Seq::<Segment>::empty());
                (none, 0)
            },
            DecodeOutcome::Failed => {
                let none: Vec<CaptionSegment> = Vec::new();
                assert(none.deep_view() =~= Seq::<Segment>::empty());
                (none, 0)
            },
            DecodeOutcome::Decoded { segments, elapsed_milliseconds } => {
                let start_ms = self.window_start_milliseconds();
                let ghost raw = segments.deep_view();
                let placed = place_segments(segments, start_ms);
                self.since_last_decode = 0;
                proof {
                    lemma_caption_segments_properties(raw, start_ms as int);
                    assert forall|i: int| 0 <= i < placed.len() implies !is_blank(
                        (#[trigger] placed[i]).text@,
                    ) by {
                        assert(placed[i]@ == placed.deep_view()[i]);
                    }
                    if forall|k: int|
                        0 <= k < segments.len() ==> (#[trigger] segments[k]).start_timestamp
                            <= segments[k].end_timestamp {
                        assert forall|i: int| 0 <= i < placed.len() implies (
                        #[trigger] placed[i]).start_milliseconds
                            <= placed[i].end_milliseconds by {
                            let segment = placed.deep_view()[i];
                            assert(placed[i]@ == segment);
                            let k = choose|k: int|
                                0 <= k < raw.len() && segment.text == (#[trigger] raw[k]).text
                                    && segment.start == start_ms + raw[k].start * 10 && segment.end
                                    == start_ms + raw[k].end * 10;
                            assert(raw[k] == segments[k]@);
                        }
                    }
                }
                (placed, elapsed_milliseconds)
            },
        }
    }

    /// Decodes the gathered audio if a decode is due. Where none is due,
    /// nothing changes, and the engine is left as it is. Otherwise the
    /// clock is started and the engine is asked whether the samples are
    /// silent; only where they are not, it decodes them, and the clock is
    /// read. What the engine answers is its own affair; whatever it is, the
    /// outcome is what `reply` makes of it, and the decode ends as `finish`
    /// says. Returns the segments found and the time taken.
    pub fn try_transcribe<P, E: DecodeEngine<T, P>>(&mut self, engine: &mut E, params: P) -> (found:
        (Vec<CaptionSegment>, u128))
        requires
            old(self).wf(),
        ensures
            final(self).wf(),
            !old(self).decode_due() ==> {
                &&& found.0@.len() == 0
                &&& found.1 == 0
                &&& *final(self) == *old(self)
                &&& *final(engine) == *old(engine)
            },
            old(self).decode_due() ==> exists|
                silent: bool,
                heard: Option<Seq<RawSpan>>,
                elapsed: u128,
            |
                {
                    let answer = #[trigger] reply(silent, heard, elapsed, start_of(old(self)@));
                    &&& final(self)@ == finish(old(self)@, answer).schedule
                    &&& found.0.deep_view() == finish(old(self)@, answer).segments
                    &&& found.1 == finish(old(self)@, answer).elapsed_milliseconds
                },
            forall|i: int| 0 <= i < found.0.len() ==> !is_blank((#[trigger] found.0[i]).text@),
    {
        if !self.is_decode_due() {
            return (Vec::new(), 0);
        }
        let start_ms = self.window_start_milliseconds();
        engine.start_clock();
        let outcome = match self.begin_decode() {
            None => DecodeOutcome::Failed,
            Some(samples) => {
                if engine.is_silent(samples) {
                    decode_outcome(true, None, 0, start_ms)
                } else {
                    let heard = engine.decode(params, samples);
                    let elapsed = engine.elapsed_milliseconds();
                    decode_outcome(false, heard, elapsed, start_ms)
                }
            },
        };
        let ghost answer = outcome@;
        let found = self.finish_decode(outcome);
        proof {
            assert(self@ == finish(old(self)@, answer).schedule);
        }
        found
    }
}

/// What the schedule makes of an engine's answers. Silent samples are not
/// decoded. An engine that failed, or that heard segments whose times
/// cannot be placed on the time line from `start_ms` on, gives a failed
/// decode. Otherwise the decode gave what the engine heard, in the time
/// that the clock showed.
pub open spec fn reply(
    silent: bool,
    heard: Option<Seq<RawSpan>>,
    elapsed_milliseconds: u128,
    start_ms: int,
) -> Answer {
    if silent {
        Answer::Silent
    } else {
        match heard {
            None => Answer::Failed,
            Some(segments) => if timestamps_fit(segments, start_ms) {
                Answer::Decoded { segments, elapsed_milliseconds }
            } else {
                Answer::Failed
            },
        }
    }
}

/// What `heard` holds, as a mathematical value.
pub open spec fn heard_view(heard: Option<Vec<RawSegment>>) -> Option<Seq<RawSpan>> {
    match heard {
        Some(segments) => Some(segments.deep_view()),
        None => None,
    }
}

/// Makes the outcome of a decode from the engine's answers: whether it
/// found the samples silent, what it heard where it decoded them, and how
/// long that took, for samples that begin at `start_ms` on the time line.
pub fn decode_outcome(
    silent: bool,
    heard: Option<Vec<RawSegment>>,
    elapsed_milliseconds: u128,
    start_ms: i64,
) -> (outcome: DecodeOutcome)
    ensures
        outcome@ == reply(silent, heard_view(heard), elapsed_milliseconds, start_ms as int),
{
    if silent {
        return DecodeOutcome::Silent;
    }
    match heard {
        None => DecodeOutcome::Failed,
        Some(segments) => {
            let listed = segments.as_slice();
            assert(listed.deep_view() =~= segments.deep_view());
            if timestamps_in_range(listed, start_ms) {
                DecodeOutcome::Decoded { segments, elapsed_milliseconds }
            } else {
                DecodeOutcome::Failed
            }
        },
    }
}

/// Whether every time of `raw` can be placed on the time line from
/// `start_ms` on.
pub fn timestamps_in_range(raw: &[RawSegment], start_ms: i64) -> (fit: bool)
    ensures
        fit == timestamps_fit(raw.deep_view(), start_ms as int),
{
    let mut index: usize = 0;
    while index < raw.len()
        invariant
            index <= raw.len(),
            timestamps_fit(raw.deep_view().take(index as int), start_ms as int),
        decreases raw.len() - index,
    {
        let start = raw[index].start_timestamp;
        let end = raw[index].end_timestamp;
        let fits = time_fits(start, start_ms) && time_fits(end, start_ms);
        if !fits {
            assert(raw.deep_view()[index as int] == raw[index as int]@);
            return false;
        }
        proof {
            let seen = raw.deep_view().take(index + 1);
            assert forall|i: int| 0 <= i < seen.len() implies {
                &&& i64::MIN <= (#[trigger] seen[i]).start * 10
                &&& start_ms + seen[i].start * 10 <= i64::MAX
                &&& i64::MIN <= seen[i].end * 10
                &&& start_ms + seen[i].end * 10 <= i64::MAX
            } by {
                if i < index {
                    assert(seen[i] == raw.deep_view().take(index as int)[i]);
                } else {
                    assert(seen[i] == raw[index as int]@);
                }
            }
        }
        index = index + 1;
    }
    assert(raw.deep_view().take(raw.len() as int) =~= raw.deep_view());
    true
}

/// Whether a time in hundredths of a second, placed at `start_ms`, can be
/// held in 64 bits.
fn time_fits(hundredths: i64, start_ms: i64) -> (fits: bool)
    ensures
        fits == (i64::MIN <= hundredths * 10 && start_ms + hundredths * 10 <= i64::MAX),
{
    let low: i64 = -922_337_203_685_477_580;
    let high: i64 = 922_337_203_685_477_580;
    if hundredths < low || hundredths > high {
        if hundredths > high {
            // Ten times this is beyond the range by itself; with a start that
            // reaches far enough below zero the sum can still fit.
            let excess: i128 = hundredths as i128 * 10 + start_ms as i128;
            excess <= i64::MAX as i128
        } else {
            false
        }
    } else {
        let scaled: i64 = hundredths * 10;
        scaled as i128 + start_ms as i128 <= i64::MAX as i128
    }
}

/// Places the engine's segments on the time line and drops the blank ones.
fn place_segments(segments: Vec<RawSegment>, start_ms: i64) -> (placed: Vec<CaptionSegment>)
    requires
        timestamps_fit(segments.deep_view(), start_ms as int),
        start_ms >= 0,
    ensures
        placed.deep_view() == caption_segments(segments.deep_view(), start_ms as int),
{
    let ghost raw = segments.deep_view();
    let mut placed: Vec<CaptionSegment> = Vec::new();
    proof {
        assert(raw.take(0) =~= Seq::<RawSpan>::empty());
        assert(placed.deep_view() =~= caption_segments(raw.take(0), start_ms as int));
    }
    for segment in walk: segments
        invariant
            walk.seq().map_values(|s: RawSegment| s@) == raw,
            timestamps_fit(raw, start_ms as int),
            start_ms >= 0,
            placed.deep_view() == caption_segments(raw.take(walk.index() as int), start_ms as int),
    {
        let ghost index = walk.index() as int;
        let ghost before = placed.deep_view();
        proof {
            assert(raw.take(index + 1).drop_last() =~= raw.take(index));
            assert(raw.take(index + 1).last() == segment@);
            assert(raw[index] == segment@);
        }
        let extent = visible_extent(segment.text.as_str());
        if extent.visible {
            let start_milliseconds: i64 = start_ms + segment.start_timestamp * 10;
            let end_milliseconds: i64 = start_ms + segment.end_timestamp * 10;
            let caption = CaptionSegment { start_milliseconds, end_milliseconds, text: segment.text };
            placed.push(caption);
            assert(placed.deep_view() =~= before.push(caption@));
        }
    }
    proof {
        assert(raw.take(raw.len() as int) =~= raw);
    }
    placed
}

} // verus!
