//! Whitespace trimming and marker detection on caption text.

use vstd::prelude::*;

verus! {

/// White space as Unicode defines it: the characters that trimming removes.
pub open spec fn is_whitespace(c: char) -> bool {
    let code = c as u32;
    ||| 0x09 <= code <= 0x0D
    ||| code == 0x20
    ||| code == 0x85
    ||| code == 0xA0
    ||| code == 0x1680
    ||| 0x2000 <= code <= 0x200A
    ||| code == 0x2028
    ||| code == 0x2029
    ||| code == 0x202F
    ||| code == 0x205F
    ||| code == 0x3000
}

/// Index of the first character that is not white space; the length where
/// there is none.
pub open spec fn visible_start(s: Seq<char>) -> int
    decreases s.len(),
{
    if s.len() == 0 || !is_whitespace(s[0]) {
        0
    } else {
        1 + visible_start(s.drop_first())
    }
}

/// Index just behind the last character that is not white space; zero where
/// there is none.
pub open spec fn visible_end(s: Seq<char>) -> int
    decreases s.len(),
{
    if s.len() == 0 || !is_whitespace(s.last()) {
        s.len() as int
    } else {
        visible_end(s.drop_last())
    }
}

/// The text without its leading and trailing white space.
pub open spec fn trimmed(s: Seq<char>) -> Seq<char> {
    if visible_start(s) < visible_end(s) {
        s.subrange(visible_start(s), visible_end(s))
    } else {
        Seq::empty()
    }
}

/// The text holds nothing but white space.
pub open spec fn is_blank(s: Seq<char>) -> bool {
    trimmed(s).len() == 0
}

/// The text, once trimmed, opens with `[` and closes with `]`: the form of
/// the markers that a decoder emits for sounds that are not speech.
pub open spec fn is_bracket_tag(s: Seq<char>) -> bool {
    let t = trimmed(s);
    t.len() > 0 && t.first() == '[' && t.last() == ']'
}

/// An index with white space everywhere below it, and none at it, is the
/// visible start.
pub proof fn lemma_visible_start_is(s: Seq<char>, a: int)
    requires
        0 <= a <= s.len(),
        forall|k: int| 0 <= k < a ==> is_whitespace(#[trigger] s[k]),
        a == s.len() || !is_whitespace(s[a]),
    ensures
        visible_start(s) == a,
    decreases s.len(),
{
    if a > 0 {
        let rest = s.drop_first();
        assert(is_whitespace(s[0]));
        assert forall|k: int| 0 <= k < a - 1 implies is_whitespace(#[trigger] rest[k]) by {
            assert(rest[k] == s[k + 1]);
        }
        if a - 1 < rest.len() {
            assert(rest[a - 1] == s[a]);
        }
        lemma_visible_start_is(rest, a - 1);
    }
}

/// An index with white space everywhere from it on, and none just below it,
/// is the visible end.
pub proof fn lemma_visible_end_is(s: Seq<char>, b: int)
    requires
        0 <= b <= s.len(),
        forall|k: int| b <= k < s.len() ==> is_whitespace(#[trigger] s[k]),
        b == 0 || !is_whitespace(s[b - 1]),
    ensures
        visible_end(s) == b,
    decreases s.len(),
{
    if b < s.len() {
        let rest = s.drop_last();
        assert(is_whitespace(s[s.len() - 1]));
        assert forall|k: int| b <= k < rest.len() implies is_whitespace(#[trigger] rest[k]) by {
            assert(rest[k] == s[k]);
        }
        if b > 0 {
            assert(rest[b - 1] == s[b - 1]);
        }
        lemma_visible_end_is(rest, b);
    }
}

/// The visible start and end stay within the text, with white space outside
/// them and none on their inner edges.
pub proof fn lemma_visible_bounds(s: Seq<char>)
    ensures
        0 <= visible_start(s) <= s.len(),
        0 <= visible_end(s) <= s.len(),
        forall|k: int| 0 <= k < visible_start(s) ==> is_whitespace(#[trigger] s[k]),
        forall|k: int| visible_end(s) <= k < s.len() ==> is_whitespace(#[trigger] s[k]),
        visible_start(s) < s.len() ==> !is_whitespace(s[visible_start(s)]),
        visible_end(s) > 0 ==> !is_whitespace(s[visible_end(s) - 1]),
        visible_start(s) == s.len() <==> visible_end(s) == 0,
    decreases s.len(),
{
    if s.len() > 0 {
        let front = s.drop_first();
        let back = s.drop_last();
        lemma_visible_bounds(front);
        lemma_visible_bounds(back);
        if is_whitespace(s[0]) {
            assert forall|k: int| 0 <= k < visible_start(s) implies is_whitespace(
                #[trigger] s[k],
            ) by {
                if k > 0 {
                    assert(s[k] == front[k - 1]);
                }
            }
            if visible_start(s) < s.len() {
                assert(s[visible_start(s)] == front[visible_start(front)]);
            }
        }
        if is_whitespace(s.last()) {
            assert forall|k: int| visible_end(s) <= k < s.len() implies is_whitespace(
                #[trigger] s[k],
            ) by {
                if k < s.len() - 1 {
                    assert(s[k] == back[k]);
                }
            }
            if visible_end(s) > 0 {
                assert(s[visible_end(s) - 1] == back[visible_end(back) - 1]);
            }
        }
        if visible_start(s) == s.len() {
            lemma_visible_end_is(s, 0);
        }
        if visible_end(s) == 0 {
            lemma_visible_start_is(s, s.len() as int);
        }
    }
}

/// Trimmed text neither begins nor ends with white space, and trimming it
/// again changes nothing.
pub proof fn lemma_trimmed_is_tight(s: Seq<char>)
    ensures
        trimmed(s).len() > 0 ==> !is_whitespace(trimmed(s).first()) && !is_whitespace(
            trimmed(s).last(),
        ),
        trimmed(trimmed(s)) == trimmed(s),
{
    lemma_visible_bounds(s);
    let t = trimmed(s);
    if t.len() > 0 {
        assert(t.first() == s[visible_start(s)]);
        assert(t.last() == s[visible_end(s) - 1]);
        lemma_visible_start_is(t, 0);
        lemma_visible_end_is(t, t.len() as int);
        assert(t.subrange(0, t.len() as int) =~= t);
    } else {
        assert(visible_start(t) == 0);
        assert(visible_end(t) == 0);
    }
}

/// What one pass over a text finds: whether any character is not white
/// space, where the first and the last such characters stand, and which
/// characters they are.
pub struct Extent {
    pub visible: bool,
    pub start: usize,
    pub end: usize,
    pub first: char,
    pub last: char,
}

/// Whether `c` is white space.
pub fn char_is_whitespace(c: char) -> (b: bool)
    ensures
        b == is_whitespace(c),
{
    let code: u32 = c as u32;
    (0x09 <= code && code <= 0x0D) || code == 0x20 || code == 0x85 || code == 0xA0 || code
        == 0x1680 || (0x2000 <= code && code <= 0x200A) || code == 0x2028 || code == 0x2029
        || code == 0x202F || code == 0x205F || code == 0x3000
}

/// Finds the part of `text` that trimming keeps.
pub fn visible_extent(text: &str) -> (extent: Extent)
    ensures
        extent.visible == !is_blank(text@),
        extent.visible ==> {
            &&& extent.start == visible_start(text@)
            &&& extent.end == visible_end(text@)
            &&& extent.start < extent.end <= text@.len()
            &&& extent.first == trimmed(text@).first()
            &&& extent.last == trimmed(text@).last()
        },
{
    let mut extent = Extent { visible: false, start: 0, end: 0, first: ' ', last: ' ' };
    let length: usize = text.unicode_len();
    let mut position: usize = 0;
    for c in chars: text.chars()
        invariant
            chars.seq() == text@,
            position == chars.index(),
            length == text@.len(),
            !extent.visible ==> forall|k: int| 0 <= k < position ==> is_whitespace(#[trigger] text@[k]),
            extent.visible ==> {
                &&& extent.start < extent.end <= position
                &&& forall|k: int| 0 <= k < extent.start ==> is_whitespace(#[trigger] text@[k])
                &&& forall|k: int| extent.end <= k < position ==> is_whitespace(#[trigger] text@[k])
                &&& extent.first == text@[extent.start as int]
                &&& !is_whitespace(extent.first)
                &&& extent.last == text@[extent.end - 1]
                &&& !is_whitespace(extent.last)
            },
    {
        if !char_is_whitespace(c) {
            if !extent.visible {
                extent.visible = true;
                extent.start = position;
                extent.first = c;
            }
            extent.end = position + 1;
            extent.last = c;
        }
        position = position + 1;
    }
    proof {
        let s = text@;
        lemma_visible_bounds(s);
        if extent.visible {
            lemma_visible_start_is(s, extent.start as int);
            lemma_visible_end_is(s, extent.end as int);
        } else {
            lemma_visible_start_is(s, s.len() as int);
        }
    }
    extent
}

} // verus!
