use text_engine::cursor::{CCursor, CCursorRange, Cursor, CursorRange, PCursor, RCursor};

fn at(index: usize) -> Cursor {
    Cursor {
        ccursor: CCursor::new(index),
        rcursor: RCursor { row: index / 10, column: index % 10 },
        pcursor: PCursor { paragraph: 0, offset: index, prefer_next_row: false },
    }
}

#[test]
fn new_ccursor_stays_on_the_earlier_row() {
    let c = CCursor::new(7);
    assert_eq!(c.index, 7);
    assert!(!c.prefer_next_row);
}

#[test]
fn default_cursors_are_at_the_start() {
    assert_eq!(CCursor::default(), CCursor { index: 0, prefer_next_row: false });
    assert_eq!(RCursor::default(), RCursor { row: 0, column: 0 });
    assert_eq!(PCursor::default(), PCursor { paragraph: 0, offset: 0, prefer_next_row: false });
    assert_eq!(Cursor::default().ccursor.index, 0);
}

#[test]
fn one_is_empty_and_two_is_anchored_at_min() {
    let one = CCursorRange::one(CCursor::new(3));
    assert_eq!(one.primary, one.secondary);
    let two = CCursorRange::two(CCursor::new(2), CCursor::new(9));
    assert_eq!(two.secondary.index, 2);
    assert_eq!(two.primary.index, 9);
    let range = CursorRange::two(at(2), at(9));
    assert_eq!(range.secondary, at(2));
    assert_eq!(range.primary, at(9));
    assert_eq!(CursorRange::one(at(4)).primary, at(4));
    assert_eq!(CursorRange::one(at(4)).secondary, at(4));
}

#[test]
fn as_ccursor_range_keeps_both_offsets() {
    let range = CursorRange { primary: at(12), secondary: at(5) };
    let chars = range.as_ccursor_range();
    assert_eq!(chars.primary.index, 12);
    assert_eq!(chars.secondary.index, 5);
}

#[test]
fn extend_spans_from_the_least_to_the_greatest_end() {
    let initial = CursorRange::two(at(4), at(7));
    let later = CursorRange::two(at(10), at(15));
    let union = initial.extend(&later);
    assert_eq!(union.secondary, at(4));
    assert_eq!(union.primary, at(15));
    let earlier = CursorRange::two(at(0), at(2));
    let union = initial.extend(&earlier);
    assert_eq!(union.secondary, at(0));
    assert_eq!(union.primary, at(7));
}

#[test]
fn extend_does_not_care_which_end_moves() {
    let initial = CursorRange { primary: at(4), secondary: at(7) };
    let other = CursorRange { primary: at(1), secondary: at(5) };
    let union = initial.extend(&other);
    assert_eq!(union.secondary.ccursor.index, 1);
    assert_eq!(union.primary.ccursor.index, 7);
}

#[test]
fn extend_by_a_range_inside_changes_nothing_but_the_order() {
    let initial = CursorRange { primary: at(3), secondary: at(9) };
    let inside = CursorRange::two(at(5), at(6));
    let union = initial.extend(&inside);
    assert_eq!(union.secondary, at(3));
    assert_eq!(union.primary, at(9));
}
