//! Turns the overlapping hypotheses of successive decodes into a caption
//! stream that only grows: segments far enough behind the present are
//! finalized once, the others stay open to revision.

use crate::speech::{CaptionSegment, Segment};
use crate::text::{is_bracket_tag, visible_extent};
use vstd::prelude::*;

verus! {

/// What one decode contributes: segments that are now final, and the
/// segments that may still change.
#[derive(Debug, Default)]
pub struct CaptionUpdate {
    pub history: Vec<CaptionSegment>,
    pub active: Vec<CaptionSegment>,
}

/// The stabilizer's memory between decodes.
#[derive(Debug)]
pub struct CaptionsStabilizer {
    /// How far behind the present a segment may still change.
    tail_ms: i64,
    /// How close to the last finalized end a segment counts as a repeat.
    dedupe_fuzz_ms: i64,
    /// End of the most recently finalized segment.
    last_final_end_ms: i64,
}

/// The result of stabilizing one decode, as a mathematical value.
pub ghost struct Outcome {
    pub history: Seq<Segment>,
    pub active: Seq<Segment>,
    pub last_final_end: int,
}

/// `a` stands no later than `b` in the order by start, then by end.
pub open spec fn no_later(a: Segment, b: Segment) -> bool {
    a.start < b.start || (a.start == b.start && a.end <= b.end)
}

/// The segments that carry speech: those whose text is no bracketed marker.
pub open spec fn speech_only(segments: Seq<Segment>) -> Seq<Segment> {
    segments.filter(|s: Segment| !is_bracket_tag(s.text))
}

/// `x` put into the ordered sequence `sorted`, behind every segment that is
/// no later than `x`.
pub open spec fn insert_by_time(sorted: Seq<Segment>, x: Segment) -> Seq<Segment>
    decreases sorted.len(),
{
    if sorted.len() == 0 {
        seq![x]
    } else if no_later(sorted.last(), x) {
        sorted.push(x)
    } else {
        insert_by_time(sorted.drop_last(), x).push(sorted.last())
    }
}

/// The segments in order of start, then end; segments that agree in both
/// keep the order in which they came.
pub open spec fn sort_by_time(segments: Seq<Segment>) -> Seq<Segment>
    decreases segments.len(),
{
    if segments.len() == 0 {
        Seq::empty()
    } else {
        insert_by_time(sort_by_time(segments.drop_last()), segments.last())
    }
}

/// Walks ordered segments and sorts each into history or active. A segment
/// that ends after `cutoff` is active. One that ends at or before it is
/// finalized, unless it ends within `fuzz` of the last finalized end, which
/// marks it as a repeat from an earlier, overlapping decode.
pub open spec fn classify(sorted: Seq<Segment>, cutoff: int, fuzz: int, last_final_end: int) -> Outcome
    decreases sorted.len(),
{
    if sorted.len() == 0 {
        Outcome { history: Seq::empty(), active: Seq::empty(), last_final_end }
    } else {
        let before = classify(sorted.drop_last(), cutoff, fuzz, last_final_end);
        let segment = sorted.last();
        if segment.end > cutoff {
            Outcome { active: before.active.push(segment), ..before }
        } else if segment.end <= before.last_final_end + fuzz {
            before
        } else {
            Outcome {
                history: before.history.push(segment),
                active: before.active,
                last_final_end: if segment.end > before.last_final_end {
                    segment.end
                } else {
                    before.last_final_end
                },
            }
        }
    }
}

/// One whole stabilizing step: markers dropped, the rest ordered and
/// classified.
pub open spec fn stabilize(
    segments: Seq<Segment>,
    cutoff: int,
    fuzz: int,
    last_final_end: int,
) -> Outcome {
    classify(sort_by_time(speech_only(segments)), cutoff, fuzz, last_final_end)
}

/// A position with only later segments behind it, and a segment no later
/// than `x` just before it, is where `x` is inserted.
pub proof fn lemma_insert_position(sorted: Seq<Segment>, x: Segment, position: int)
    requires
        0 <= position <= sorted.len(),
        forall|k: int| position <= k < sorted.len() ==> !no_later(#[trigger] sorted[k], x),
        position == 0 || no_later(sorted[position - 1], x),
    ensures
        insert_by_time(sorted, x) == sorted.insert(position, x),
    decreases sorted.len(),
{
    if sorted.len() == 0 {
        assert(seq![x] =~= sorted.insert(position, x));
    } else if position == sorted.len() {
        assert(sorted.push(x) =~= sorted.insert(position, x));
    } else {
        let front = sorted.drop_last();
        assert(!no_later(sorted[sorted.len() - 1], x));
        lemma_insert_position(front, x, position);
        assert(front.insert(position, x).push(sorted.last()) =~= sorted.insert(position, x));
    }
}

/// Inserting keeps an ordered sequence ordered, and adds exactly `x`.
pub proof fn lemma_insert_keeps_order(sorted: Seq<Segment>, x: Segment)
    requires
        forall|i: int, j: int|
            0 <= i < j < sorted.len() ==> no_later(#[trigger] sorted[i], #[trigger] sorted[j]),
    ensures
        forall|i: int, j: int|
            0 <= i < j < insert_by_time(sorted, x).len() ==> no_later(
                #[trigger] insert_by_time(sorted, x)[i],
                #[trigger] insert_by_time(sorted, x)[j],
            ),
        insert_by_time(sorted, x).to_multiset() == sorted.to_multiset().insert(x),
        insert_by_time(sorted, x).len() == sorted.len() + 1,
    decreases sorted.len(),
{
    let out = insert_by_time(sorted, x);
    broadcast use vstd::seq_lib::group_to_multiset_ensures;

    if sorted.len() == 0 {
        assert(seq![x] =~= Seq::<Segment>::empty().push(x));
        assert(sorted =~= Seq::<Segment>::empty());
    } else if no_later(sorted.last(), x) {
        assert forall|i: int, j: int| 0 <= i < j < out.len() implies no_later(
            #[trigger] out[i],
            #[trigger] out[j],
        ) by {
            if j == sorted.len() {
                if i < sorted.len() - 1 {
                    assert(no_later(sorted[i], sorted[sorted.len() - 1]));
                }
            }
        }
    } else {
        let front = sorted.drop_last();
        let inner = insert_by_time(front, x);
        assert forall|i: int, j: int| 0 <= i < j < front.len() implies no_later(
            #[trigger] front[i],
            #[trigger] front[j],
        ) by {
            assert(front[i] == sorted[i] && front[j] == sorted[j]);
        }
        lemma_insert_keeps_order(front, x);
        assert(sorted =~= front.push(sorted.last()));
        assert forall|i: int, j: int| 0 <= i < j < out.len() implies no_later(
            #[trigger] out[i],
            #[trigger] out[j],
        ) by {
            if j == inner.len() {
                // out[i] is x or a segment of `front`; both are no later
                // than the last segment of `sorted`.
                assert(inner.to_multiset().count(inner[i]) > 0);
                if inner[i] != x {
                    assert(front.to_multiset().count(inner[i]) > 0);
                    let k = choose|k: int| 0 <= k < front.len() && front[k] == inner[i];
                    assert(no_later(sorted[k], sorted[sorted.len() - 1]));
                }
            }
        }
        assert(out.to_multiset() =~= sorted.to_multiset().insert(x));
    }
}

/// Ordering rearranges the segments and adds or loses none, and its result
/// is in order of start, then end.
pub proof fn lemma_sort_by_time_orders(segments: Seq<Segment>)
    ensures
        sort_by_time(segments).len() == segments.len(),
        sort_by_time(segments).to_multiset() == segments.to_multiset(),
        forall|i: int, j: int|
            0 <= i < j < segments.len() ==> no_later(
                #[trigger] sort_by_time(segments)[i],
                #[trigger] sort_by_time(segments)[j],
            ),
    decreases segments.len(),
{
    broadcast use vstd::seq_lib::group_to_multiset_ensures;

    if segments.len() > 0 {
        let front = segments.drop_last();
        lemma_sort_by_time_orders(front);
        lemma_insert_keeps_order(sort_by_time(front), segments.last());
        assert(segments =~= front.push(segments.last()));
    } else {
        assert(segments =~= Seq::<Segment>::empty());
    }
}

/// `a` and `b` start together and end together.
pub open spec fn same_time(a: Segment, b: Segment) -> bool {
    a.start == b.start && a.end == b.end
}

/// Inserting `x` puts it behind the segments of its own time, and leaves
/// the segments of any one time in the order they had.
pub proof fn lemma_insert_is_stable(sorted: Seq<Segment>, x: Segment, like: Segment)
    ensures
        insert_by_time(sorted, x).filter(|s: Segment| same_time(s, like)) == if same_time(
            x,
            like,
        ) {
            sorted.filter(|s: Segment| same_time(s, like)).push(x)
        } else {
            sorted.filter(|s: Segment| same_time(s, like))
        },
    decreases sorted.len(),
{
    reveal(Seq::filter);
    let alike = |s: Segment| same_time(s, like);
    if sorted.len() == 0 {
        assert(seq![x].drop_last() =~= Seq::<Segment>::empty());
        assert(seq![x].last() == x);
        assert(sorted =~= Seq::<Segment>::empty());
    } else if no_later(sorted.last(), x) {
        assert(sorted.push(x).drop_last() =~= sorted);
    } else {
        let front = sorted.drop_last();
        let inner = insert_by_time(front, x);
        lemma_insert_is_stable(front, x, like);
        assert(inner.push(sorted.last()).drop_last() =~= inner);
        assert(inner.push(sorted.last()).last() == sorted.last());
        // A segment of x's own time would be no later than x.
        assert(!(same_time(x, like) && same_time(sorted.last(), like)));
        if alike(sorted.last()) {
            assert(insert_by_time(sorted, x).filter(alike) =~= sorted.filter(alike));
        }
    }
}

/// Ordering is stable: the segments of any one time come out in the order
/// in which they went in.
pub proof fn lemma_sort_by_time_is_stable(segments: Seq<Segment>, like: Segment)
    ensures
        sort_by_time(segments).filter(|s: Segment| same_time(s, like)) == segments.filter(
            |s: Segment| same_time(s, like),
        ),
    decreases segments.len(),
{
    reveal(Seq::filter);
    if segments.len() > 0 {
        lemma_sort_by_time_is_stable(segments.drop_last(), like);
        lemma_insert_is_stable(sort_by_time(segments.drop_last()), segments.last(), like);
    }
}

/// What classification guarantees, whatever the segments: the last
/// finalized end never moves back; history holds only segments at or before
/// the cutoff and beyond the reach of the last finalized end, each ending
/// more than `fuzz` after the one before it; active holds only segments
/// after the cutoff; and every segment handed out was handed in.
pub proof fn lemma_classify_properties(sorted: Seq<Segment>, cutoff: int, fuzz: int, last: int)
    requires
        fuzz >= 0,
    ensures
        ({
            let out = classify(sorted, cutoff, fuzz, last);
            &&& out.last_final_end >= last
            &&& out.history.len() == 0 ==> out.last_final_end == last
            &&& out.history.len() > 0 ==> out.last_final_end == out.history.last().end
            &&& forall|i: int|
                0 <= i < out.history.len() ==> {
                    &&& (#[trigger] out.history[i]).end <= cutoff
                    &&& out.history[i].end > last + fuzz
                    &&& sorted.contains(out.history[i])
                }
            &&& forall|i: int, j: int|
                0 <= i < j < out.history.len() ==> (#[trigger] out.history[i]).end + fuzz < (
                #[trigger] out.history[j]).end
            &&& forall|i: int|
                0 <= i < out.active.len() ==> {
                    &&& (#[trigger] out.active[i]).end > cutoff
                    &&& sorted.contains(out.active[i])
                }
        }),
    decreases sorted.len(),
{
    if sorted.len() > 0 {
        let front = sorted.drop_last();
        let before = classify(front, cutoff, fuzz, last);
        let out = classify(sorted, cutoff, fuzz, last);
        lemma_classify_properties(front, cutoff, fuzz, last);
        assert forall|s: Segment| front.contains(s) implies sorted.contains(s) by {
            let k = choose|k: int| 0 <= k < front.len() && front[k] == s;
            assert(sorted[k] == s);
        }
        assert(sorted.contains(sorted.last())) by {
            assert(sorted[sorted.len() - 1] == sorted.last());
        }
    }
}

/// Segments in order of start, then end.
pub open spec fn in_time_order(segments: Seq<Segment>) -> bool {
    forall|i: int, j: int|
        0 <= i < j < segments.len() ==> no_later(#[trigger] segments[i], #[trigger] segments[j])
}

/// Each segment ends more than `fuzz` after the one before it; the first
/// ends more than `fuzz` after `floor`.
pub open spec fn ends_grow(segments: Seq<Segment>, floor: int, fuzz: int) -> bool {
    &&& forall|i: int| 0 <= i < segments.len() ==> floor + fuzz < (#[trigger] segments[i]).end
    &&& forall|i: int, j: int|
        0 <= i < j < segments.len() ==> (#[trigger] segments[i]).end + fuzz < (
        #[trigger] segments[j]).end
}

/// Classifying segments that are in order hands them out in order.
pub proof fn lemma_classify_keeps_order(sorted: Seq<Segment>, cutoff: int, fuzz: int, last: int)
    requires
        fuzz >= 0,
        in_time_order(sorted),
    ensures
        in_time_order(classify(sorted, cutoff, fuzz, last).history),
        in_time_order(classify(sorted, cutoff, fuzz, last).active),
    decreases sorted.len(),
{
    if sorted.len() > 0 {
        let front = sorted.drop_last();
        let before = classify(front, cutoff, fuzz, last);
        let out = classify(sorted, cutoff, fuzz, last);
        assert forall|i: int, j: int| 0 <= i < j < front.len() implies no_later(
            #[trigger] front[i],
            #[trigger] front[j],
        ) by {
            assert(front[i] == sorted[i] && front[j] == sorted[j]);
        }
        lemma_classify_keeps_order(front, cutoff, fuzz, last);
        lemma_classify_properties(front, cutoff, fuzz, last);
        assert forall|s: Segment| front.contains(s) implies no_later(s, sorted.last()) by {
            let k = choose|k: int| 0 <= k < front.len() && front[k] == s;
            assert(no_later(sorted[k], sorted[sorted.len() - 1]));
        }
        assert forall|i: int, j: int| 0 <= i < j < out.history.len() implies no_later(
            #[trigger] out.history[i],
            #[trigger] out.history[j],
        ) by {
            if j < before.history.len() {
                assert(out.history[i] == before.history[i] && out.history[j] == before.history[j]);
            } else {
                assert(out.history[i] == before.history[i]);
                assert(front.contains(before.history[i]));
            }
        }
        assert forall|i: int, j: int| 0 <= i < j < out.active.len() implies no_later(
            #[trigger] out.active[i],
            #[trigger] out.active[j],
        ) by {
            if j < before.active.len() {
                assert(out.active[i] == before.active[i] && out.active[j] == before.active[j]);
            } else {
                assert(out.active[i] == before.active[i]);
                assert(front.contains(before.active[i]));
            }
        }
    }
}

impl Clone for CaptionsStabilizer {
    fn clone(&self) -> (copy: Self)
        ensures
            copy == *self,
    {
        proof {
            use_type_invariant(self);
        }
        Self {
            tail_ms: self.tail_ms,
            dedupe_fuzz_ms: self.dedupe_fuzz_ms,
            last_final_end_ms: self.last_final_end_ms,
        }
    }
}

impl CaptionsStabilizer {
    /// The reach of the last finalized end is fixed at 80 ms.
    #[verifier::type_invariant]
    spec fn fixed_fuzz(&self) -> bool {
        self.dedupe_fuzz_ms == 80
    }

    /// How far behind the present a segment may still change.
    pub closed spec fn tail(&self) -> int {
        self.tail_ms as int
    }

    /// How close to the last finalized end a segment counts as a repeat.
    pub closed spec fn fuzz(&self) -> int {
        self.dedupe_fuzz_ms as int
    }

    /// End of the most recently finalized segment.
    pub closed spec fn last_final_end(&self) -> int {
        self.last_final_end_ms as int
    }

    /// A stabilizer that finalizes segments once they end `tail_ms` or more
    /// before the present, and takes ends within 80 ms of the last finalized
    /// one for repeats.
    pub fn new(tail_ms: i64) -> (stabilizer: Self)
        ensures
            stabilizer.tail() == tail_ms,
            stabilizer.fuzz() == 80,
            stabilizer.last_final_end() == 0,
    {
        Self { tail_ms, dedupe_fuzz_ms: 80, last_final_end_ms: 0 }
    }

    /// How far behind the present a segment may still change, in
    /// milliseconds.
    pub fn tail_ms(&self) -> (ms: i64)
        ensures
            ms == self.tail(),
    {
        self.tail_ms
    }

    /// How close to the last finalized end a segment counts as a repeat,
    /// in milliseconds.
    pub fn dedupe_fuzz_ms(&self) -> (ms: i64)
        ensures
            ms == self.fuzz(),
    {
        self.dedupe_fuzz_ms
    }

    /// End of the most recently finalized segment, in milliseconds.
    pub fn last_final_end_ms(&self) -> (ms: i64)
        ensures
            ms == self.last_final_end(),
    {
        self.last_final_end_ms
    }

    /// Takes the segments of one decode, made at `now_milliseconds`, and
    /// says which of them are final from now on and which are still open:
    /// the update is what `stabilize` gives for the cutoff `tail` behind
    /// now. The clauses after that spell out what follows. The last
    /// finalized end never moves back. History and active hold no marker,
    /// and are in order of time. History holds only segments at or before
    /// the cutoff, each ending more than 80 ms after the one before it and
    /// after the end that was last finalized before. Active holds only
    /// segments after the cutoff.
    pub fn push(&mut self, now_milliseconds: i64, segments: Vec<CaptionSegment>) -> (update:
        CaptionUpdate)
        ensures
            final(self).tail() == old(self).tail(),
            old(self).fuzz() == 80,
            final(self).fuzz() == 80,
            ({
                let outcome = stabilize(
                    segments.deep_view(),
                    now_milliseconds - old(self).tail(),
                    80,
                    old(self).last_final_end(),
                );
                &&& update.history.deep_view() == outcome.history
                &&& update.active.deep_view() == outcome.active
                &&& final(self).last_final_end() == outcome.last_final_end
            }),
            final(self).last_final_end() >= old(self).last_final_end(),
            update.history.len() > 0 ==> final(self).last_final_end()
                == update.history.deep_view().last().end,
            update.history.len() == 0 ==> final(self).last_final_end() == old(
                self,
            ).last_final_end(),
            ends_grow(update.history.deep_view(), old(self).last_final_end(), 80),
            in_time_order(update.history.deep_view()),
            in_time_order(update.active.deep_view()),
            forall|i: int|
                0 <= i < update.history.len() ==> {
                    &&& !is_bracket_tag((#[trigger] update.history[i]).text@)
                    &&& update.history[i].end_milliseconds <= now_milliseconds - old(self).tail()
                },
            forall|i: int|
                0 <= i < update.active.len() ==> {
                    &&& !is_bracket_tag((#[trigger] update.active[i]).text@)
                    &&& update.active[i].end_milliseconds > now_milliseconds - old(self).tail()
                },
    {
        proof {
            use_type_invariant(&*self);
        }
        let ghost given = segments.deep_view();
        let ghost cutoff = now_milliseconds - self.tail_ms;
        let ghost fuzz = self.dedupe_fuzz_ms as int;
        let ghost last = self.last_final_end_ms as int;
        let kept = keep_speech(segments);
        let sorted = order_by_time(kept);
        let cutoff_ms: i128 = now_milliseconds as i128 - self.tail_ms as i128;
        let mut update = CaptionUpdate { history: Vec::new(), active: Vec::new() };
        let ghost ordered = sorted.deep_view();
        proof {
            assert(sorted@.take(0).map_values(|s: CaptionSegment| s@) =~= Seq::<Segment>::empty());
        }
        for segment in walk: sorted
            invariant
                walk.seq().map_values(|s: CaptionSegment| s@) == ordered,
                cutoff_ms == cutoff,
                self.tail_ms == old(self).tail_ms,
                self.dedupe_fuzz_ms == fuzz,
                fuzz == 80,
                ({
                    let outcome = classify(ordered.take(walk.index() as int), cutoff, fuzz, last);
                    &&& update.history.deep_view() == outcome.history
                    &&& update.active.deep_view() == outcome.active
                    &&& self.last_final_end_ms == outcome.last_final_end
                }),
        {
            let ghost index = walk.index() as int;
            proof {
                assert(ordered.take(index + 1).drop_last() =~= ordered.take(index));
                assert(ordered.take(index + 1).last() == segment@);
            }
            let ghost history_before = update.history.deep_view();
            let ghost active_before = update.active.deep_view();
            if segment.end_milliseconds as i128 > cutoff_ms {
                update.active.push(segment);
                assert(update.active.deep_view() =~= active_before.push(segment@));
            } else if segment.end_milliseconds as i128 <= self.last_final_end_ms as i128
                + self.dedupe_fuzz_ms as i128 {
            } else {
                if segment.end_milliseconds > self.last_final_end_ms {
                    self.last_final_end_ms = segment.end_milliseconds;
                }
                update.history.push(segment);
                assert(update.history.deep_view() =~= history_before.push(segment@));
            }
        }
        proof {
            assert(ordered.take(ordered.len() as int) =~= ordered);
            lemma_classify_properties(ordered, cutoff, fuzz, last);
            lemma_sort_by_time_orders(speech_only(given));
            lemma_classify_keeps_order(ordered, cutoff, fuzz, last);
            let outcome = classify(ordered, cutoff, fuzz, last);
            assert forall|s: Segment| ordered.contains(s) implies !is_bracket_tag(s.text) by {
                broadcast use vstd::seq_lib::group_to_multiset_ensures;

                assert(ordered.to_multiset().count(s) > 0);
                assert(speech_only(given).to_multiset().count(s) > 0);
                assert(speech_only(given).contains(s));
                given.lemma_filter_contains_rev(|s: Segment| !is_bracket_tag(s.text), s);
            }
            assert forall|i: int| 0 <= i < update.history.len() implies !is_bracket_tag(
                (#[trigger] update.history[i]).text@,
            ) by {
                assert(update.history[i]@ == outcome.history[i]);
            }
            assert forall|i: int| 0 <= i < update.active.len() implies !is_bracket_tag(
                (#[trigger] update.active[i]).text@,
            ) by {
                assert(update.active[i]@ == outcome.active[i]);
            }
            assert forall|i: int| 0 <= i < update.history.len() implies (
            #[trigger] update.history[i]).end_milliseconds == outcome.history[i].end by {
                assert(update.history[i]@ == outcome.history[i]);
            }
            assert forall|i: int| 0 <= i < update.active.len() implies (
            #[trigger] update.active[i]).end_milliseconds == outcome.active[i].end by {
                assert(update.active[i]@ == outcome.active[i]);
            }
        }
        update
    }
}

/// Whether `text` is a bracketed marker rather than speech.
pub fn is_non_speech(text: &str) -> (marker: bool)
    ensures
        marker == is_bracket_tag(text@),
{
    let extent = visible_extent(text);
    extent.visible && extent.first == '[' && extent.last == ']'
}

/// Drops the bracketed markers and keeps the other segments in order.
pub fn keep_speech(segments: Vec<CaptionSegment>) -> (kept: Vec<CaptionSegment>)
    ensures
        kept.deep_view() == speech_only(segments.deep_view()),
{
    let ghost given = segments.deep_view();
    let mut kept: Vec<CaptionSegment> = Vec::new();
    proof {
        assert(given.take(0) =~= Seq::<Segment>::empty());
        reveal(Seq::filter);
        assert(kept.deep_view() =~= speech_only(given.take(0)));
    }
    for segment in walk: segments
        invariant
            walk.seq().map_values(|s: CaptionSegment| s@) == given,
            kept.deep_view() == speech_only(given.take(walk.index() as int)),
    {
        let ghost index = walk.index() as int;
        let ghost kept_before = kept.deep_view();
        proof {
            assert(given.take(index + 1).drop_last() =~= given.take(index));
            assert(given.take(index + 1).last() == segment@);
            reveal(Seq::filter);
        }
        if !is_non_speech(segment.text.as_str()) {
            kept.push(segment);
            assert(kept.deep_view() =~= kept_before.push(segment@));
        }
    }
    proof {
        assert(given.take(given.len() as int) =~= given);
    }
    kept
}

/// Orders segments by start, then by end, leaving segments that agree in
/// both in the order in which they came.
pub fn order_by_time(segments: Vec<CaptionSegment>) -> (sorted: Vec<CaptionSegment>)
    ensures
        sorted.deep_view() == sort_by_time(segments.deep_view()),
{
    let ghost given = segments.deep_view();
    let mut sorted: Vec<CaptionSegment> = Vec::new();
    proof {
        assert(given.take(0) =~= Seq::<Segment>::empty());
        assert(sorted.deep_view() =~= sort_by_time(given.take(0)));
    }
    for segment in walk: segments
        invariant
            walk.seq().map_values(|s: CaptionSegment| s@) == given,
            sorted.deep_view() == sort_by_time(given.take(walk.index() as int)),
    {
        let ghost index = walk.index() as int;
        let ghost before = sorted.deep_view();
        proof {
            assert(given.take(index + 1).drop_last() =~= given.take(index));
            assert(given.take(index + 1).last() == segment@);
        }
        let mut position: usize = sorted.len();
        while position > 0 && !(sorted[position - 1].start_milliseconds < segment.start_milliseconds
            || (sorted[position - 1].start_milliseconds == segment.start_milliseconds
            && sorted[position - 1].end_milliseconds <= segment.end_milliseconds))
            invariant
                position <= sorted.len(),
                sorted.deep_view() == before,
                forall|k: int|
                    position <= k < sorted.len() ==> !no_later(#[trigger] before[k], segment@),
            decreases position,
        {
            assert(before[position - 1] == sorted[position - 1]@);
            position = position - 1;
        }
        proof {
            if position > 0 {
                assert(before[position - 1] == sorted[position - 1]@);
            }
            lemma_insert_position(before, segment@, position as int);
        }
        sorted.insert(position, segment);
        assert(sorted.deep_view() =~= before.insert(position as int, segment@));
    }
    proof {
        assert(given.take(given.len() as int) =~= given);
    }
    sorted
}

} // verus!
