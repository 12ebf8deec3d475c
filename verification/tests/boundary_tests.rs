use text_engine::boundary::{is_word_char, SelectionBoundary};
use text_engine::cursor::CCursor;

fn bounds(mode: SelectionBoundary, text: &str, index: usize) -> (usize, usize) {
    let range = mode.select_bounded_at(text, CCursor::new(index));
    (range.secondary.index, range.primary.index)
}

#[test]
fn word_selection_inside_a_word() {
    assert_eq!(bounds(SelectionBoundary::Word, "foo bar", 1), (0, 3));
}

#[test]
fn word_selection_at_the_end_of_a_word() {
    assert_eq!(bounds(SelectionBoundary::Word, "foo bar", 3), (0, 3));
}

#[test]
fn word_selection_at_the_start_of_a_word() {
    assert_eq!(bounds(SelectionBoundary::Word, "foo bar", 4), (4, 7));
}

#[test]
fn word_selection_at_the_start_of_the_text() {
    assert_eq!(bounds(SelectionBoundary::Word, "foo bar", 0), (0, 3));
}

#[test]
fn word_selection_at_the_end_of_the_text() {
    assert_eq!(bounds(SelectionBoundary::Word, "foo bar", 7), (4, 7));
}

#[test]
fn word_selection_past_the_end_is_empty() {
    assert_eq!(bounds(SelectionBoundary::Word, "foo bar", 9), (9, 9));
    assert_eq!(bounds(SelectionBoundary::Line, "foo bar", 9), (9, 9));
}

#[test]
fn word_selection_in_an_empty_text() {
    assert_eq!(bounds(SelectionBoundary::Word, "", 0), (0, 0));
    assert_eq!(bounds(SelectionBoundary::Line, "", 0), (0, 0));
}

#[test]
fn word_selection_between_two_separators() {
    assert_eq!(bounds(SelectionBoundary::Word, "a  b", 2), (0, 4));
    assert_eq!(bounds(SelectionBoundary::Word, "ab,  cd", 4), (2, 7));
}

#[test]
fn word_selection_counts_characters_not_bytes() {
    assert_eq!(bounds(SelectionBoundary::Word, "\u{e9}t\u{e9} foo", 5), (4, 7));
}

#[test]
fn selection_ends_prefer_the_rows_they_came_from() {
    let range = SelectionBoundary::Word.select_bounded_at("foo bar", CCursor::new(1));
    assert!(range.secondary.prefer_next_row);
    assert!(!range.primary.prefer_next_row);
}

#[test]
fn line_selection_inside_a_line() {
    assert_eq!(bounds(SelectionBoundary::Line, "ab\ncd ef\ngh", 5), (3, 8));
    assert_eq!(bounds(SelectionBoundary::Line, "ab\ncd ef\ngh", 1), (0, 2));
}

#[test]
fn line_selection_at_the_edges_of_a_line() {
    assert_eq!(bounds(SelectionBoundary::Line, "ab\ncd", 2), (0, 2));
    assert_eq!(bounds(SelectionBoundary::Line, "ab\ncd", 3), (3, 5));
}

#[test]
fn line_breaks_are_line_feed_and_carriage_return() {
    assert!(SelectionBoundary::Line.is_boundary_char('\n'));
    assert!(SelectionBoundary::Line.is_boundary_char('\r'));
    assert!(!SelectionBoundary::Line.is_boundary_char(' '));
    assert!(SelectionBoundary::Word.is_boundary_char(' '));
    assert!(SelectionBoundary::Word.is_boundary_char('\n'));
    assert!(!SelectionBoundary::Word.is_boundary_char('x'));
}

#[test]
fn word_chars_are_ascii_letters_digits_and_underscore() {
    assert!(is_word_char('a'));
    assert!(is_word_char('z'));
    assert!(is_word_char('A'));
    assert!(is_word_char('Z'));
    assert!(is_word_char('0'));
    assert!(is_word_char('9'));
    assert!(is_word_char('_'));
    assert!(!is_word_char(' '));
    assert!(!is_word_char('-'));
    assert!(!is_word_char('\u{e9}'));
    assert!(!is_word_char('`'));
    assert!(!is_word_char('{'));
    assert!(!is_word_char('@'));
    assert!(!is_word_char('['));
    assert!(!is_word_char('/'));
    assert!(!is_word_char(':'));
}

#[test]
fn forward_scan_passes_one_character_and_then_a_run() {
    let chars: Vec<char> = "foo bar".chars().collect();
    let word = SelectionBoundary::Word;
    assert_eq!(word.next_boundary_char_index(&chars, 0), 3);
    assert_eq!(word.next_boundary_char_index(&chars, 2), 4);
    assert_eq!(word.next_boundary_char_index(&chars, 3), 7);
    assert_eq!(word.next_boundary_char_index(&chars, 6), 7);
    assert_eq!(word.next_boundary_char_index(&chars, 7), 7);
    assert_eq!(word.next_boundary_char_index(&chars, 12), 12);
}

#[test]
fn next_bounded_stays_on_the_earlier_row() {
    let next = SelectionBoundary::Word.ccursor_next_bounded("foo bar", CCursor::new(0));
    assert_eq!(next.index, 3);
    assert!(!next.prefer_next_row);
    let line = SelectionBoundary::Line.ccursor_next_bounded("ab\ncd", CCursor::new(0));
    assert_eq!(line.index, 2);
}

#[test]
fn previous_bounded_mirrors_next_bounded() {
    let word = SelectionBoundary::Word;
    let previous = word.ccursor_previous_bounded("foo bar", CCursor::new(7));
    assert_eq!(previous.index, 4);
    assert!(previous.prefer_next_row);
    assert_eq!(word.ccursor_previous_bounded("foo bar", CCursor::new(4)).index, 0);
    assert_eq!(word.ccursor_previous_bounded("foo bar", CCursor::new(1)).index, 0);
    assert_eq!(word.ccursor_previous_bounded("foo bar", CCursor::new(0)).index, 0);
    assert_eq!(word.ccursor_previous_bounded("foo bar", CCursor::new(11)).index, 11);
}

#[test]
fn word_selection_lies_in_line_selection_without_line_breaks() {
    let text = "one two, three_4  five";
    let len = text.chars().count();
    for index in 0..len + 3 {
        let word = bounds(SelectionBoundary::Word, text, index);
        let line = bounds(SelectionBoundary::Line, text, index);
        assert!(line.0 <= word.0 && word.1 <= line.1);
    }
}

#[test]
fn word_selection_lies_in_line_selection_inside_a_word() {
    let text = "ab\ncde f\n\ngh";
    assert_eq!(bounds(SelectionBoundary::Word, text, 4), (3, 6));
    assert_eq!(bounds(SelectionBoundary::Line, text, 4), (3, 8));
    assert_eq!(bounds(SelectionBoundary::Word, text, 1), (0, 2));
    assert_eq!(bounds(SelectionBoundary::Line, text, 1), (0, 2));
}

#[test]
fn separators_of_words_may_run_across_a_line_break() {
    assert_eq!(bounds(SelectionBoundary::Word, "a \n b", 2), (0, 4));
    assert_eq!(bounds(SelectionBoundary::Line, "a \n b", 2), (0, 2));
}

#[test]
fn the_default_granularity_is_the_character() {
    assert_eq!(SelectionBoundary::default(), SelectionBoundary::Character);
}
