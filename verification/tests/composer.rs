use subwin::composer::{compose_caption_text, segments_to_text};
use subwin::speech::CaptionSegment;

fn segment(text: &str) -> CaptionSegment {
    CaptionSegment { start_milliseconds: 0, end_milliseconds: 0, text: text.to_string() }
}

#[test]
fn text_of_no_segments_is_empty() {
    assert_eq!(segments_to_text(&[]), "");
    assert_eq!(compose_caption_text(&[], &[]), "");
}

#[test]
fn texts_are_trimmed_and_joined_by_single_spaces() {
    let segments = vec![segment(" hello"), segment("world  "), segment("\tagain\n")];
    assert_eq!(segments_to_text(&segments), "hello world again");
}

#[test]
fn blank_texts_are_left_out() {
    let segments = vec![segment(""), segment("a"), segment("   "), segment("b"), segment("\n")];
    assert_eq!(segments_to_text(&segments), "a b");
    assert_eq!(segments_to_text(&[segment(" "), segment("")]), "");
}

#[test]
fn inner_whitespace_is_kept() {
    assert_eq!(segments_to_text(&[segment(" a  b ")]), "a  b");
}

#[test]
fn compose_joins_history_and_active() {
    let history = vec![segment(" one"), segment("two ")];
    let active = vec![segment(" three ")];
    assert_eq!(compose_caption_text(&history, &active), "one two three");
}

#[test]
fn compose_with_one_side_empty() {
    let some = vec![segment(" text ")];
    let blank = vec![segment("  ")];
    assert_eq!(compose_caption_text(&some, &[]), "text");
    assert_eq!(compose_caption_text(&[], &some), "text");
    assert_eq!(compose_caption_text(&some, &blank), "text");
    assert_eq!(compose_caption_text(&blank, &some), "text");
    assert_eq!(compose_caption_text(&blank, &blank), "");
}

#[test]
fn trailing_whitespace_does_not_change_the_line() {
    let plain = compose_caption_text(&[segment("a"), segment("b")], &[segment("c")]);
    let padded = compose_caption_text(&[segment("a  "), segment("b\n")], &[segment("c \t")]);
    assert_eq!(plain, padded);
    assert_eq!(plain, "a b c");
}

#[test]
fn compose_depends_on_texts_only() {
    let first = vec![CaptionSegment {
        start_milliseconds: 5,
        end_milliseconds: 9,
        text: " x ".to_string(),
    }];
    let second = vec![segment(""), segment("x"), segment(" ")];
    assert_eq!(compose_caption_text(&first, &[]), compose_caption_text(&[], &second));
}

#[test]
fn compose_handles_text_beyond_ascii() {
    let history = vec![segment("\u{a0}привет ")];
    let active = vec![segment("мир\u{3000}")];
    assert_eq!(compose_caption_text(&history, &active), "привет мир");
}
