//! Tests of word-wrapped text drawing: group splitting, the wrap
//! decision, newline handling, and unbreakable overflow.

use eileda::uf2::{draw, parse, Ufx};

/// A font whose every glyph is 10 pixels wide with an empty bitmap.
fn flat_font() -> Ufx {
    let widths = [10u8; 256];
    let mut data = vec![0u8; 256];
    data.copy_from_slice(&widths);
    parse(&data, 1, 12)
}

#[test]
fn draw_without_wrap_advances_x() {
    let f = flat_font();
    let mut ops = Vec::new();
    // groups "ab " and "cd": 30 then 20 pixels, both below 100.
    let cur = draw(&mut ops, &f, 0, 100, 0, 0, b"ab cd");
    assert_eq!(cur, (50, 0));
    assert!(ops.is_empty());
}

#[test]
fn draw_wraps_before_group_that_would_reach_bound() {
    let f = flat_font();
    let mut ops = Vec::new();
    // "ab " fits (30 < 35); "cd" would reach 50 >= 35, so it breaks
    // the line first: y advances by the line height, x resets.
    let cur = draw(&mut ops, &f, 0, 35, 0, 0, b"ab cd");
    assert_eq!(cur, (20, 12));
}

#[test]
fn wrap_resets_to_left_bound() {
    let f = flat_font();
    let mut ops = Vec::new();
    let cur = draw(&mut ops, &f, 5, 40, 5, 7, b"ab cd");
    // "ab ": 5 + 30 = 35 < 40; "cd": 35 + 20 >= 40 -> break to (5, 19).
    assert_eq!(cur, (25, 19));
}

#[test]
fn newline_renders_as_space_advance() {
    let f = flat_font();
    let mut ops = Vec::new();
    // "a\n" is one group; the newline advances by the space width and
    // never forces a line break by itself.
    let cur = draw(&mut ops, &f, 0, 100, 0, 0, b"a\nb");
    assert_eq!(cur, (30, 0));
}

#[test]
fn unbreakable_group_overflows_without_truncation() {
    let f = flat_font();
    let mut ops = Vec::new();
    // One group of width 40 against a span of 35: it breaks to the
    // left bound first, then renders whole past the bound.
    let cur = draw(&mut ops, &f, 0, 35, 10, 0, b"aaaa");
    assert_eq!(cur, (40, 12));
}

#[test]
fn group_ends_after_each_space() {
    let f = flat_font();
    let mut ops = Vec::new();
    // "a " then "b " then "c": each group ends at (and includes) its
    // space; x accumulates all five glyph widths.
    let cur = draw(&mut ops, &f, 0, 1000, 0, 0, b"a b c");
    assert_eq!(cur, (50, 0));
}
