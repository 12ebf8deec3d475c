use text_engine::cursor::CCursor;
use text_engine::text::{
    byte_index_from_char_index, chars_of, find_line_start, reversed, slice_char_range, utf8_width,
};

#[test]
fn chars_of_gives_the_characters_in_order() {
    assert_eq!(chars_of("a\u{e9}\u{2605}"), vec!['a', '\u{e9}', '\u{2605}']);
    assert_eq!(chars_of(""), Vec::<char>::new());
}

#[test]
fn reversed_gives_the_characters_last_to_first() {
    assert_eq!(reversed(&['a', 'b', 'c']), vec!['c', 'b', 'a']);
    assert_eq!(reversed(&[]), Vec::<char>::new());
}

#[test]
fn line_start_is_behind_the_nearest_line_feed() {
    let text = "ab\ncd\nef";
    assert_eq!(find_line_start(text, CCursor::new(0)).index, 0);
    assert_eq!(find_line_start(text, CCursor::new(2)).index, 0);
    assert_eq!(find_line_start(text, CCursor::new(3)).index, 3);
    assert_eq!(find_line_start(text, CCursor::new(5)).index, 3);
    assert_eq!(find_line_start(text, CCursor::new(6)).index, 6);
    assert_eq!(find_line_start(text, CCursor::new(8)).index, 6);
}

#[test]
fn line_start_without_a_line_feed_is_zero() {
    assert_eq!(find_line_start("abc", CCursor::new(2)).index, 0);
    assert_eq!(find_line_start("", CCursor::new(0)).index, 0);
}

#[test]
fn line_start_counts_characters_not_bytes() {
    assert_eq!(find_line_start("\u{e9}\u{e9}\n\u{e9}x", CCursor::new(5)).index, 3);
}

#[test]
fn line_start_behind_the_text_is_that_of_its_last_line() {
    assert_eq!(find_line_start("ab\ncd", CCursor::new(40)).index, 3);
    assert_eq!(find_line_start("abcd", CCursor::new(40)).index, 0);
}

#[test]
fn line_start_stays_on_the_earlier_row() {
    assert!(!find_line_start("ab\ncd", CCursor::new(4)).prefer_next_row);
}

#[test]
fn utf8_width_of_each_length() {
    assert_eq!(utf8_width('a'), 1);
    assert_eq!(utf8_width('\u{7f}'), 1);
    assert_eq!(utf8_width('\u{80}'), 2);
    assert_eq!(utf8_width('\u{7ff}'), 2);
    assert_eq!(utf8_width('\u{800}'), 3);
    assert_eq!(utf8_width('\u{ffff}'), 3);
    assert_eq!(utf8_width('\u{10000}'), 4);
    assert_eq!(utf8_width('\u{10ffff}'), 4);
}

#[test]
fn byte_index_of_each_character() {
    let s = "a\u{e9}\u{2605}\u{1f600}z";
    assert_eq!(byte_index_from_char_index(s, 0), 0);
    assert_eq!(byte_index_from_char_index(s, 1), 1);
    assert_eq!(byte_index_from_char_index(s, 2), 3);
    assert_eq!(byte_index_from_char_index(s, 3), 6);
    assert_eq!(byte_index_from_char_index(s, 4), 10);
    assert_eq!(byte_index_from_char_index(s, 5), 11);
}

#[test]
fn byte_index_behind_the_text_is_its_length() {
    assert_eq!(byte_index_from_char_index("\u{e9}\u{e9}", 2), 4);
    assert_eq!(byte_index_from_char_index("\u{e9}\u{e9}", 3), 4);
    assert_eq!(byte_index_from_char_index("\u{e9}\u{e9}", usize::MAX), 4);
    assert_eq!(byte_index_from_char_index("", 0), 0);
}

#[test]
fn slice_by_characters() {
    let s = "a\u{e9}\u{2605}\u{1f600}z";
    assert_eq!(slice_char_range(s, 1..3), "\u{e9}\u{2605}");
    assert_eq!(slice_char_range(s, 0..5), s);
    assert_eq!(slice_char_range(s, 2..2), "");
    assert_eq!(slice_char_range(s, 3..4), "\u{1f600}");
}

#[test]
fn slice_is_cut_off_at_the_end_of_the_text() {
    assert_eq!(slice_char_range("h\u{e9}llo", 3..40), "lo");
    assert_eq!(slice_char_range("h\u{e9}llo", 7..9), "");
}
