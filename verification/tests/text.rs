//! Tests of trimming and sentence segmentation.

use sirius::text::{segment_text, trim_str};

#[test]
fn trim_removes_surrounding_whitespace() {
    assert_eq!(trim_str("  hello \t\n"), "hello");
    assert_eq!(trim_str("hello"), "hello");
    assert_eq!(trim_str(""), "");
    assert_eq!(trim_str(" \t \r\n "), "");
    assert_eq!(trim_str("a b"), "a b");
}

#[test]
fn segments_of_two_sentences() {
    let segs = segment_text("Hello. World.");
    assert_eq!(segs, vec!["Hello".to_string(), "World".to_string()]);
}

#[test]
fn segments_keep_order() {
    let segs = segment_text("one.two. three .four");
    assert_eq!(
        segs,
        vec!["one".to_string(), "two".to_string(), "three".to_string(), "four".to_string()]
    );
}

#[test]
fn all_whitespace_text_has_no_segments() {
    assert!(segment_text("   ").is_empty());
    assert!(segment_text("").is_empty());
    assert!(segment_text(" . . . ").is_empty());
}

#[test]
fn empty_pieces_between_dots_are_dropped() {
    let segs = segment_text("..a..b..");
    assert_eq!(segs, vec!["a".to_string(), "b".to_string()]);
}

#[test]
fn text_without_dot_is_one_segment() {
    let segs = segment_text("  just one line  ");
    assert_eq!(segs, vec!["just one line".to_string()]);
}
