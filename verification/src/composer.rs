//! Joins finalized and open caption segments into the line that is shown.

use crate::speech::{CaptionSegment, Segment};
use crate::text::{
    is_whitespace, lemma_visible_bounds, lemma_visible_end_is, lemma_visible_start_is, trimmed,
    visible_end, visible_extent, visible_start,
};
use vstd::prelude::*;

verus! {

/// The trimmed texts of the segments, in order, without the empty ones.
pub open spec fn visible_texts(segments: Seq<Segment>) -> Seq<Seq<char>>
    decreases segments.len(),
{
    if segments.len() == 0 {
        Seq::empty()
    } else {
        let before = visible_texts(segments.drop_last());
        let text = trimmed(segments.last().text);
        if text.len() > 0 {
            before.push(text)
        } else {
            before
        }
    }
}

/// The parts in a row, with one space between neighbours.
pub open spec fn join_with_space(parts: Seq<Seq<char>>) -> Seq<char>
    decreases parts.len(),
{
    if parts.len() == 0 {
        Seq::empty()
    } else if parts.len() == 1 {
        parts[0]
    } else {
        join_with_space(parts.drop_last()) + seq![' '] + parts.last()
    }
}

/// The text of a list of segments: their trimmed texts joined by spaces.
pub open spec fn segments_text(segments: Seq<Segment>) -> Seq<char> {
    join_with_space(visible_texts(segments))
}

/// The caption line: the text of the history, then the text of the active
/// segments, with a space between them where both have any.
pub open spec fn composed(history: Seq<Segment>, active: Seq<Segment>) -> Seq<char> {
    let finalized = segments_text(history);
    let open = segments_text(active);
    if finalized.len() == 0 {
        open
    } else if open.len() == 0 {
        finalized
    } else {
        finalized + seq![' '] + open
    }
}

/// Every visible text is non-empty, so a joined line is empty only where
/// there is no part at all.
pub proof fn lemma_join_empty_iff(parts: Seq<Seq<char>>)
    requires
        forall|i: int| 0 <= i < parts.len() ==> (#[trigger] parts[i]).len() > 0,
    ensures
        join_with_space(parts).len() == 0 <==> parts.len() == 0,
    decreases parts.len(),
{
    if parts.len() > 1 {
        assert(join_with_space(parts).len() >= parts.last().len());
    }
}

/// No visible text is empty.
pub proof fn lemma_visible_texts_nonempty(segments: Seq<Segment>)
    ensures
        forall|i: int|
            0 <= i < visible_texts(segments).len() ==> (#[trigger] visible_texts(
                segments,
            )[i]).len() > 0,
    decreases segments.len(),
{
    if segments.len() > 0 {
        let before = visible_texts(segments.drop_last());
        lemma_visible_texts_nonempty(segments.drop_last());
        assert forall|i: int| 0 <= i < visible_texts(segments).len() implies (
        #[trigger] visible_texts(segments)[i]).len() > 0 by {
            if i < before.len() {
                assert(visible_texts(segments)[i] == before[i]);
            }
        }
    }
}

/// Joining two lists of non-empty parts one after the other gives the two
/// joined lines with a space between them.
pub proof fn lemma_join_concat(left: Seq<Seq<char>>, right: Seq<Seq<char>>)
    requires
        left.len() > 0,
        right.len() > 0,
    ensures
        join_with_space(left + right) == join_with_space(left) + seq![' '] + join_with_space(
            right,
        ),
    decreases right.len(),
{
    let all = left + right;
    assert(all.drop_last() =~= left + right.drop_last());
    assert(all.last() == right.last());
    if right.len() == 1 {
        assert(left + right.drop_last() =~= left);
        assert(right[0] == right.last());
    } else {
        lemma_join_concat(left, right.drop_last());
        assert(join_with_space(all) =~= join_with_space(left) + seq![' '] + join_with_space(
            right,
        ));
    }
}

/// The visible texts of two lists of segments in a row are the visible
/// texts of the first followed by those of the second.
pub proof fn lemma_visible_texts_concat(left: Seq<Segment>, right: Seq<Segment>)
    ensures
        visible_texts(left + right) == visible_texts(left) + visible_texts(right),
    decreases right.len(),
{
    if right.len() == 0 {
        assert(left + right =~= left);
        assert(visible_texts(left) + visible_texts(right) =~= visible_texts(left));
    } else {
        assert((left + right).drop_last() =~= left + right.drop_last());
        assert((left + right).last() == right.last());
        lemma_visible_texts_concat(left, right.drop_last());
        assert(visible_texts(left + right) =~= visible_texts(left) + visible_texts(right));
    }
}

/// The caption line is made of the trimmed, non-empty texts alone: it is
/// those of the history followed by those of the active segments, joined by
/// single spaces. Whatever else differs between two inputs does not show.
pub proof fn lemma_composed_is_join(history: Seq<Segment>, active: Seq<Segment>)
    ensures
        composed(history, active) == join_with_space(
            visible_texts(history) + visible_texts(active),
        ),
        composed(history, active) == segments_text(history + active),
{
    let left = visible_texts(history);
    let right = visible_texts(active);
    lemma_visible_texts_nonempty(history);
    lemma_visible_texts_nonempty(active);
    lemma_join_empty_iff(left);
    lemma_join_empty_iff(right);
    lemma_visible_texts_concat(history, active);
    if left.len() == 0 {
        assert(left + right =~= right);
    } else if right.len() == 0 {
        assert(left + right =~= left);
    } else {
        lemma_join_concat(left, right);
    }
}

/// White space added in front of a text or behind it is trimmed away.
pub proof fn lemma_trim_ignores_outer_whitespace(
    before: Seq<char>,
    text: Seq<char>,
    after: Seq<char>,
)
    requires
        forall|i: int| 0 <= i < before.len() ==> is_whitespace(#[trigger] before[i]),
        forall|i: int| 0 <= i < after.len() ==> is_whitespace(#[trigger] after[i]),
    ensures
        trimmed(before + text + after) == trimmed(text),
{
    let whole = before + text + after;
    lemma_visible_bounds(text);
    let a = visible_start(text);
    let b = visible_end(text);
    if a == text.len() {
        // nothing visible at all
        assert forall|k: int| 0 <= k < whole.len() implies is_whitespace(#[trigger] whole[k]) by {
            if k < before.len() {
                assert(whole[k] == before[k]);
            } else if k < before.len() + text.len() {
                assert(whole[k] == text[k - before.len()]);
            } else {
                assert(whole[k] == after[k - before.len() - text.len()]);
            }
        }
        lemma_visible_start_is(whole, whole.len() as int);
        lemma_visible_bounds(whole);
    } else {
        let shift = before.len() as int;
        assert forall|k: int| 0 <= k < shift + a implies is_whitespace(#[trigger] whole[k]) by {
            if k < before.len() {
                assert(whole[k] == before[k]);
            } else {
                assert(whole[k] == text[k - shift]);
            }
        }
        assert(whole[shift + a] == text[a]);
        lemma_visible_start_is(whole, shift + a);
        assert forall|k: int| shift + b <= k < whole.len() implies is_whitespace(
            #[trigger] whole[k],
        ) by {
            if k < shift + text.len() {
                assert(whole[k] == text[k - shift]);
            } else {
                assert(whole[k] == after[k - shift - text.len()]);
            }
        }
        assert(whole[shift + b - 1] == text[b - 1]);
        lemma_visible_end_is(whole, shift + b);
        assert(whole.subrange(shift + a, shift + b) =~= text.subrange(a, b));
    }
}

/// Segments whose texts agree once trimmed give the same visible texts.
pub proof fn lemma_visible_texts_by_trimmed(first: Seq<Segment>, second: Seq<Segment>)
    requires
        first.len() == second.len(),
        forall|i: int|
            0 <= i < first.len() ==> trimmed((#[trigger] first[i]).text) == trimmed(
                second[i].text,
            ),
    ensures
        visible_texts(first) == visible_texts(second),
    decreases first.len(),
{
    if first.len() > 0 {
        assert forall|i: int| 0 <= i < first.drop_last().len() implies trimmed(
            (#[trigger] first.drop_last()[i]).text,
        ) == trimmed(second.drop_last()[i].text) by {
            assert(first.drop_last()[i] == first[i]);
            assert(second.drop_last()[i] == second[i]);
        }
        lemma_visible_texts_by_trimmed(first.drop_last(), second.drop_last());
        assert(trimmed(first[first.len() - 1].text) == trimmed(second[first.len() - 1].text));
    }
}

/// Two inputs whose segments agree, one by one, in their trimmed texts
/// compose to the same line: times, and white space around a text, do not
/// matter.
pub proof fn lemma_composed_by_trimmed(
    history: Seq<Segment>,
    active: Seq<Segment>,
    other_history: Seq<Segment>,
    other_active: Seq<Segment>,
)
    requires
        history.len() == other_history.len(),
        active.len() == other_active.len(),
        forall|i: int|
            0 <= i < history.len() ==> trimmed((#[trigger] history[i]).text) == trimmed(
                other_history[i].text,
            ),
        forall|i: int|
            0 <= i < active.len() ==> trimmed((#[trigger] active[i]).text) == trimmed(
                other_active[i].text,
            ),
    ensures
        composed(history, active) == composed(other_history, other_active),
{
    lemma_visible_texts_by_trimmed(history, other_history);
    lemma_visible_texts_by_trimmed(active, other_active);
}

/// Joins the trimmed, non-empty texts of the segments with single spaces.
pub fn segments_to_text(segments: &[CaptionSegment]) -> (line: String)
    ensures
        line@ == segments_text(segments.deep_view()),
{
    let ghost given = segments.deep_view();
    let mut line = String::new();
    let mut parts: usize = 0;
    let mut index: usize = 0;
    proof {
        assert(given.take(0) =~= Seq::<Segment>::empty());
    }
    while index < segments.len()
        invariant
            index <= segments.len(),
            given == segments.deep_view(),
            parts <= index,
            parts == visible_texts(given.take(index as int)).len(),
            line@ == join_with_space(visible_texts(given.take(index as int))),
        decreases segments.len() - index,
    {
        let text: &str = segments[index].text.as_str();
        let extent = visible_extent(text);
        proof {
            assert(given.take(index + 1).drop_last() =~= given.take(index as int));
            assert(given.take(index + 1).last() == segments[index as int]@);
        }
        if extent.visible {
            let part: &str = text.substring_char(extent.start, extent.end);
            let ghost before = visible_texts(given.take(index as int));
            if parts > 0 {
                proof {
                    reveal_strlit(" ");
                    assert(" "@ =~= seq![' ']);
                }
                line.append(" ");
            }
            line.append(part);
            parts = parts + 1;
            proof {
                let now = before.push(part@);
                assert(now.drop_last() =~= before);
                if before.len() == 0 {
                    assert(line@ =~= part@);
                }
            }
        }
        index = index + 1;
    }
    proof {
        assert(given.take(segments.len() as int) =~= given);
    }
    line
}

/// The line to show for the finalized history and the latest active
/// segments.
pub fn compose_caption_text(history: &[CaptionSegment], active: &[CaptionSegment]) -> (line:
    String)
    ensures
        line@ == composed(history.deep_view(), active.deep_view()),
{
    let mut history_text = segments_to_text(history);
    let active_text = segments_to_text(active);
    if history_text.as_str().unicode_len() == 0 {
        active_text
    } else if active_text.as_str().unicode_len() == 0 {
        history_text
    } else {
        proof {
            reveal_strlit(" ");
            assert(" "@ =~= seq![' ']);
        }
        history_text.append(" ");
        history_text.append(active_text.as_str());
        history_text
    }
}

} // verus!
