//! The transcription worker's bookkeeping: what happens between pulling
//! samples from the capture side and telling the front-end about a new
//! caption line.

use crate::bridge::MessageFromBackend;
use crate::composer::{compose_caption_text, composed};
use crate::speech::{CaptionSegment, Segment, Transcriber};
use crate::stabilizer::{ends_grow, stabilize, CaptionsStabilizer};
use vstd::prelude::*;

verus! {

/// Sample rate, in samples per second, of the audio that is transcribed.
pub const TARGET_RATE: u32 = 16_000;

/// How far behind the present, in milliseconds, a caption may still change.
pub const STABILIZER_WINDOW_MILLISECONDS: i64 = 1500;

/// What the worker remembers from one round to the next.
pub struct TranscriptionWorker {
    stabilizer: CaptionsStabilizer,
    total_samples_seen: i64,
    history_segments: Vec<CaptionSegment>,
    active_segments: Vec<CaptionSegment>,
    last_sent_text: String,
}

/// The worker's memory as a mathematical value.
pub ghost struct WorkerState {
    /// Samples pulled since the session began.
    pub total_samples_seen: int,
    /// Every finalized segment so far, oldest first.
    pub history: Seq<Segment>,
    /// The open segments of the latest decode that found any.
    pub active: Seq<Segment>,
    /// The caption line that was last sent out.
    pub last_sent_text: Seq<char>,
    /// End of the most recently finalized segment.
    pub last_final_end: int,
}

/// The result of one round: the memory afterwards, and the decode time and
/// caption line to send out, if any.
pub ghost struct Round {
    pub state: WorkerState,
    pub emitted: Option<(u128, Seq<char>)>,
}

/// The present on the session's time line, in milliseconds, after
/// `total_samples_seen` samples.
pub open spec fn now_ms(total_samples_seen: int) -> int {
    total_samples_seen * 1000 / (TARGET_RATE as int)
}

/// One round of the worker, after `pulled` samples arrived and the decoder
/// answered with `segments` in `duration` milliseconds. The segments are
/// stabilized at the present time. Where that yields nothing, nothing else
/// changes. Otherwise the finalized segments join the history, the open
/// ones replace the active segments, and the caption line is composed anew;
/// it is sent out unless it is empty or the same as the last one sent.
pub open spec fn advance(
    state: WorkerState,
    pulled: int,
    segments: Seq<Segment>,
    duration: u128,
) -> Round {
    let total = state.total_samples_seen + pulled;
    let outcome = stabilize(
        segments,
        now_ms(total) - STABILIZER_WINDOW_MILLISECONDS,
        80,
        state.last_final_end,
    );
    let counted = WorkerState {
        total_samples_seen: total,
        last_final_end: outcome.last_final_end,
        ..state
    };
    if outcome.history.len() == 0 && outcome.active.len() == 0 {
        Round { state: counted, emitted: None }
    } else {
        let history = state.history + outcome.history;
        let line = composed(history, outcome.active);
        let updated = WorkerState { history, active: outcome.active, ..counted };
        if line.len() == 0 || line == state.last_sent_text {
            Round { state: updated, emitted: None }
        } else {
            Round {
                state: WorkerState { last_sent_text: line, ..updated },
                emitted: Some((duration, line)),
            }
        }
    }
}

/// The history is a stream that only grows in time: every finalized
/// segment ends more than 80 ms after the one before it, and the last
/// finalized end is the end of the last of them.
pub open spec fn is_caption_stream(state: WorkerState) -> bool {
    &&& ends_grow(state.history, 0, 80)
    &&& state.last_final_end == if state.history.len() > 0 {
        state.history.last().end
    } else {
        0
    }
}

/// A stream stays one when segments are appended that continue it.
pub proof fn lemma_stream_extends(history: Seq<Segment>, last: int, added: Seq<Segment>)
    requires
        ends_grow(history, 0, 80),
        last == if history.len() > 0 {
            history.last().end
        } else {
            0
        },
        ends_grow(added, last, 80),
    ensures
        ends_grow(history + added, 0, 80),
{
    let all = history + added;
    assert forall|i: int| 0 <= i < all.len() implies 0 + 80 < (#[trigger] all[i]).end by {
        if i < history.len() {
            assert(all[i] == history[i]);
        } else {
            assert(all[i] == added[i - history.len()]);
            if history.len() > 0 {
                assert(history[history.len() - 1].end > 80);
            }
        }
    }
    assert forall|i: int, j: int| 0 <= i < j < all.len() implies (#[trigger] all[i]).end + 80 < (
    #[trigger] all[j]).end by {
        if j < history.len() {
            assert(all[i] == history[i] && all[j] == history[j]);
        } else if i >= history.len() {
            assert(all[i] == added[i - history.len()] && all[j] == added[j - history.len()]);
        } else {
            assert(all[i] == history[i] && all[j] == added[j - history.len()]);
            if i < history.len() - 1 {
                assert(history[i].end + 80 < history[history.len() - 1].end);
            }
        }
    }
}

/// What a message says, where it is a caption update.
pub open spec fn caption_update_of(message: Option<MessageFromBackend>) -> Option<
    (u128, Seq<char>),
> {
    match message {
        Some(MessageFromBackend::TranscriptionStateUpdate { time_taken, new_segment_text }) => Some(
            (time_taken, new_segment_text@),
        ),
        _ => None,
    }
}

impl TranscriptionWorker {
    /// The memory as a mathematical value.
    pub closed spec fn view(&self) -> WorkerState {
        WorkerState {
            total_samples_seen: self.total_samples_seen as int,
            history: self.history_segments.deep_view(),
            active: self.active_segments.deep_view(),
            last_sent_text: self.last_sent_text@,
            last_final_end: self.stabilizer.last_final_end(),
        }
    }

    /// The memory is one that the operations below can have produced.
    pub closed spec fn wf(&self) -> bool {
        &&& self.stabilizer.tail() == STABILIZER_WINDOW_MILLISECONDS
        &&& self.stabilizer.fuzz() == 80
        &&& 0 <= self.total_samples_seen
        &&& self.total_samples_seen * 1000 <= i64::MAX
        &&& is_caption_stream(self@)
    }

    /// `count` more samples can be counted without the time line leaving
    /// its range.
    pub open spec fn has_room(&self, count: int) -> bool {
        (self@.total_samples_seen + count) * 1000 <= i64::MAX
    }

    /// A worker at the start of a session: nothing seen, nothing shown.
    pub fn new() -> (worker: Self)
        ensures
            worker.wf(),
            is_caption_stream(worker@),
            worker@ == (WorkerState {
                total_samples_seen: 0,
                history: Seq::empty(),
                active: Seq::empty(),
                last_sent_text: Seq::empty(),
                last_final_end: 0,
            }),
    {
        let worker = Self {
            stabilizer: CaptionsStabilizer::new(STABILIZER_WINDOW_MILLISECONDS),
            total_samples_seen: 0,
            history_segments: Vec::new(),
            active_segments: Vec::new(),
            last_sent_text: String::new(),
        };
        assert(worker.history_segments.deep_view() =~= Seq::<Segment>::empty());
        assert(worker.active_segments.deep_view() =~= Seq::<Segment>::empty());
        worker
    }

    /// Samples pulled since the session began.
    pub fn total_samples_seen(&self) -> (samples: i64)
        ensures
            samples == self@.total_samples_seen,
    {
        self.total_samples_seen
    }

    /// Whether `count` more samples can be counted.
    pub fn can_count(&self, count: usize) -> (room: bool)
        requires
            self.wf(),
        ensures
            room == self.has_room(count as int),
    {
        let limit: i64 = 9_223_372_036_854_775;
        assert(limit * 1000 <= i64::MAX < (limit + 1) * 1000);
        if self.total_samples_seen > limit {
            false
        } else {
            let left: i64 = limit - self.total_samples_seen;
            count as u64 <= left as u64
        }
    }

    /// Every finalized segment so far.
    pub fn history(&self) -> (segments: &[CaptionSegment])
        ensures
            segments.deep_view() == self@.history,
    {
        let segments = self.history_segments.as_slice();
        assert(segments.deep_view() =~= self.history_segments.deep_view());
        segments
    }

    /// The open segments of the latest decode that found any.
    pub fn active(&self) -> (segments: &[CaptionSegment])
        ensures
            segments.deep_view() == self@.active,
    {
        let segments = self.active_segments.as_slice();
        assert(segments.deep_view() =~= self.active_segments.deep_view());
        segments
    }

    /// Takes the decoder's answer to `pulled` newly arrived samples and says
    /// what to send to the front-end, if anything.
    pub fn absorb(&mut self, pulled: usize, segments: Vec<CaptionSegment>, duration: u128) -> (message:
        Option<MessageFromBackend>)
        requires
            old(self).wf(),
            old(self).has_room(pulled as int),
        ensures
            final(self).wf(),
            final(self)@ == advance(old(self)@, pulled as int, segments.deep_view(), duration).state,
            caption_update_of(message) == advance(
                old(self)@,
                pulled as int,
                segments.deep_view(),
                duration,
            ).emitted,
            message is Some ==> message->0 is TranscriptionStateUpdate,
            final(self)@.last_final_end >= old(self)@.last_final_end,
            old(self)@.history.is_prefix_of(final(self)@.history),
            is_caption_stream(final(self)@),
    {
        let ghost history_before = self.history_segments.deep_view();
        self.total_samples_seen = self.total_samples_seen + pulled as i64;
        let now_milliseconds: i64 = self.total_samples_seen * 1000 / (TARGET_RATE as i64);
        let mut update = self.stabilizer.push(now_milliseconds, segments);
        if update.active.is_empty() && update.history.is_empty() {
            assert(update.active.deep_view().len() == 0);
            assert(update.history.deep_view().len() == 0);
            return None;
        }
        let ghost finalized = update.history.deep_view();
        proof {
            lemma_stream_extends(history_before, old(self)@.last_final_end, finalized);
        }
        self.history_segments.append(&mut update.history);
        assert(self.history_segments.deep_view() =~= history_before + finalized);
        assert((history_before + finalized).len() > 0 ==> self.stabilizer.last_final_end() == (
        history_before + finalized).last().end) by {
            if finalized.len() > 0 {
                assert((history_before + finalized).last() == finalized.last());
            } else {
                assert(history_before + finalized =~= history_before);
            }
        }
        self.active_segments = update.active;
        let caption_text = compose_caption_text(self.history(), self.active());
        if caption_text.as_str().is_empty() || caption_text == self.last_sent_text {
            return None;
        }
        self.last_sent_text = caption_text.clone();
        Some(
            MessageFromBackend::TranscriptionStateUpdate {
                time_taken: duration,
                new_segment_text: caption_text,
            },
        )
    }

    /// One round of the worker's loop on newly pulled `samples`: they go to
    /// the decoder, the decoder is asked to transcribe, and its answer is
    /// absorbed. With no samples nothing happens. What the decoder answers
    /// is its own affair; whatever it is, the round goes as `advance` says.
    pub fn step<T, P, D: Transcriber<T, P>>(
        &mut self,
        decoder: &mut D,
        samples: &[T],
        params: P,
    ) -> (message: Option<MessageFromBackend>)
        requires
            old(self).wf(),
            old(self).has_room(samples.len() as int),
        ensures
            final(self).wf(),
            samples.len() == 0 ==> {
                &&& message is None
                &&& *final(self) == *old(self)
                &&& *final(decoder) == *old(decoder)
            },
            samples.len() > 0 ==> exists|segments: Seq<Segment>, duration: u128|
                {
                    let round = #[trigger] advance(
                        old(self)@,
                        samples.len() as int,
                        segments,
                        duration,
                    );
                    final(self)@ == round.state && caption_update_of(message) == round.emitted
                },
            final(self)@.last_final_end >= old(self)@.last_final_end,
            old(self)@.history.is_prefix_of(final(self)@.history),
            is_caption_stream(final(self)@),
    {
        if samples.len() == 0 {
            return None;
        }
        decoder.accept_samples(samples);
        let (segments, duration) = decoder.try_transcribe(params);
        let ghost found = segments.deep_view();
        let message = self.absorb(samples.len(), segments, duration);
        proof {
            let round = advance(old(self)@, samples.len() as int, found, duration);
            assert(self@ == round.state && caption_update_of(message) == round.emitted);
        }
        message
    }
}

} // verus!
