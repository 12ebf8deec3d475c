//! How the selections at the two granularities lie to each other.

use vstd::prelude::*;

use crate::boundary::{lemma_run_end, lemma_run_end_from_inside, run_end, SelectionBoundary};
use crate::cursor::{CCursor, CCursorRange};

verus! {

/// Whether none of the characters of `chars` with index from `from` up to
/// `to` is a line feed or a carriage return.
pub open spec fn no_line_break_in(chars: Seq<char>, from: int, to: int) -> bool {
    forall|k: int|
        from <= k < to && 0 <= k < chars.len() ==> !SelectionBoundary::Line.spec_is_boundary_char(
            #[trigger] chars[k],
        )
}

/// Whether the selection `range` of `chars` holds no line break.
pub open spec fn holds_no_line_break(chars: Seq<char>, range: CCursorRange) -> bool {
    no_line_break_in(chars, range.low(), range.high())
}

/// A run reaches at least as far as its class does.
proof fn lemma_run_end_reaches(
    mode: SelectionBoundary,
    chars: Seq<char>,
    from: int,
    to: int,
    class: bool,
)
    requires
        0 <= from <= chars.len(),
        to <= chars.len(),
        forall|k: int|
            from <= k < to ==> mode.spec_is_boundary_char(#[trigger] chars[k]) == class,
    ensures
        run_end(mode, chars, from, class) >= to,
        run_end(mode, chars, from, class) >= from,
{
    lemma_run_end(mode, chars, from, class);
    if from < to {
        lemma_run_end_from_inside(mode, chars, from, to, class);
        lemma_run_end(mode, chars, to, class);
    }
}

/// A backward scan from `index`, two characters or more into the text,
/// passes the character in front of `index` and then the run that the
/// character in front of that one belongs to.
proof fn lemma_previous_boundary_is_run_start(
    mode: SelectionBoundary,
    chars: Seq<char>,
    index: int,
)
    requires
        2 <= index <= chars.len(),
    ensures
        ({
            let class = mode.spec_is_boundary_char(chars[index - 2]);
            let previous = mode.spec_previous_boundary(chars, index);
            &&& previous == chars.len() - run_end(
                mode,
                chars.reverse(),
                chars.len() - index + 2,
                class,
            )
            &&& 0 <= previous <= index - 2
            &&& forall|k: int|
                previous <= k <= index - 2 ==> mode.spec_is_boundary_char(#[trigger] chars[k])
                    == class
            &&& previous > 0 ==> mode.spec_is_boundary_char(chars[previous - 1]) != class
        }),
{
    let len = chars.len() as int;
    let back = chars.reverse();
    let class = mode.spec_is_boundary_char(chars[index - 2]);
    assert(back[len - index + 1] == chars[index - 2]);
    let end = run_end(mode, back, len - index + 2, class);
    lemma_run_end(mode, back, len - index + 2, class);
    let previous = len - end;
    assert forall|k: int| previous <= k <= index - 2 implies mode.spec_is_boundary_char(
        #[trigger] chars[k],
    ) == class by {
        assert(back[len - 1 - k] == chars[k]);
    }
    if previous > 0 {
        assert(back[end] == chars[previous - 1]);
    }
}

/// A backward scan at the granularity of lines goes back over every
/// stretch without a line break that ends two characters in front of it.
proof fn lemma_previous_line_boundary_reaches(chars: Seq<char>, index: int, from: int)
    requires
        2 <= index <= chars.len(),
        0 <= from <= index - 2,
        no_line_break_in(chars, from, index - 1),
    ensures
        SelectionBoundary::Line.spec_previous_boundary(chars, index) <= from,
{
    let line = SelectionBoundary::Line;
    let len = chars.len() as int;
    let back = chars.reverse();
    lemma_previous_boundary_is_run_start(line, chars, index);
    assert(!line.spec_is_boundary_char(chars[index - 2]));
    assert forall|k: int| len - index + 2 <= k < len - from implies line.spec_is_boundary_char(
        #[trigger] back[k],
    ) == false by {
        assert(back[k] == chars[len - 1 - k]);
    }
    lemma_run_end_reaches(line, back, len - index + 2, len - from, false);
}

/// A forward scan at the granularity of lines goes on over every stretch
/// without a line break that starts one character behind it.
proof fn lemma_next_line_boundary_reaches(chars: Seq<char>, start: int, to: int)
    requires
        0 <= start < chars.len(),
        to <= chars.len(),
        no_line_break_in(chars, start + 1, to),
    ensures
        SelectionBoundary::Line.spec_next_boundary(chars, start) >= to,
{
    let line = SelectionBoundary::Line;
    if start + 1 < chars.len() {
        if to >= start + 2 {
            assert(!line.spec_is_boundary_char(chars[start + 1]));
            lemma_run_end_reaches(line, chars, start + 2, to, false);
        } else {
            lemma_run_end(line, chars, start + 2, line.spec_is_boundary_char(chars[start + 1]));
        }
    }
}

/// The selection at the granularity of words, in front of a character
/// that is not a word character and behind one that is, reaches forward
/// at least to that word character.
proof fn lemma_word_behind_reaches_neighbour(chars: Seq<char>, index: int)
    requires
        2 <= index <= chars.len(),
    ensures
        ({
            let word = SelectionBoundary::Word;
            let min = word.spec_previous_boundary(chars, index);
            0 <= min <= index - 2 && index - 1 <= word.spec_next_boundary(chars, min)
                <= chars.len()
        }),
{
    let word = SelectionBoundary::Word;
    lemma_previous_boundary_is_run_start(word, chars, index);
    let min = word.spec_previous_boundary(chars, index);
    let class = word.spec_is_boundary_char(chars[min + 1]);
    lemma_run_end(word, chars, min + 2, class);
    if min + 1 <= index - 2 {
        lemma_run_end_reaches(word, chars, min + 2, index - 1, class);
    }
}

proof fn lemma_at_start(chars: Seq<char>, ccursor: CCursor)
    requires
        chars.len() <= usize::MAX,
        ccursor.index == 0 || ccursor.index > chars.len(),
        holds_no_line_break(chars, SelectionBoundary::Word.spec_select_bounded_at(chars, ccursor)),
    ensures
        SelectionBoundary::Line.spec_select_bounded_at(chars, ccursor).covers(
            SelectionBoundary::Word.spec_select_bounded_at(chars, ccursor),
        ),
{
    let word = SelectionBoundary::Word;
    let line = SelectionBoundary::Line;
    if ccursor.index == 0 && chars.len() > 0 {
        word.lemma_next_boundary_bounds(chars, 0);
        line.lemma_next_boundary_bounds(chars, 0);
        let word_max = word.spec_next_boundary(chars, 0);
        lemma_next_line_boundary_reaches(chars, 0, word_max);
    }
}

proof fn lemma_at_end(chars: Seq<char>, ccursor: CCursor)
    requires
        chars.len() <= usize::MAX,
        0 < ccursor.index == chars.len(),
        holds_no_line_break(chars, SelectionBoundary::Word.spec_select_bounded_at(chars, ccursor)),
    ensures
        SelectionBoundary::Line.spec_select_bounded_at(chars, ccursor).covers(
            SelectionBoundary::Word.spec_select_bounded_at(chars, ccursor),
        ),
{
    let word = SelectionBoundary::Word;
    let line = SelectionBoundary::Line;
    let len = chars.len() as int;
    word.lemma_previous_boundary_bounds(chars, len);
    line.lemma_previous_boundary_bounds(chars, len);
    if len >= 2 {
        lemma_previous_boundary_is_run_start(word, chars, len);
        let word_min = word.spec_previous_boundary(chars, len);
        lemma_previous_line_boundary_reaches(chars, len, word_min);
    }
}

proof fn lemma_in_front_of_word(chars: Seq<char>, ccursor: CCursor)
    requires
        chars.len() <= usize::MAX,
        0 < ccursor.index < chars.len(),
        SelectionBoundary::Word.spec_is_boundary_char(chars[ccursor.index - 1]),
        !SelectionBoundary::Word.spec_is_boundary_char(chars[ccursor.index as int]),
        holds_no_line_break(chars, SelectionBoundary::Word.spec_select_bounded_at(chars, ccursor)),
    ensures
        SelectionBoundary::Line.spec_select_bounded_at(chars, ccursor).covers(
            SelectionBoundary::Word.spec_select_bounded_at(chars, ccursor),
        ),
{
    let word = SelectionBoundary::Word;
    let line = SelectionBoundary::Line;
    let i = ccursor.index as int;
    word.lemma_next_boundary_bounds(chars, i);
    line.lemma_next_boundary_bounds(chars, i);
    let word_max = word.spec_next_boundary(chars, i);
    if line.spec_is_boundary_char(chars[i - 1]) {
        lemma_next_line_boundary_reaches(chars, i, word_max);
    } else {
        line.lemma_previous_boundary_bounds(chars, i + 1);
        lemma_previous_boundary_is_run_start(line, chars, i + 1);
        let line_min = line.spec_previous_boundary(chars, i + 1);
        line.lemma_next_boundary_bounds(chars, line_min);
        assert(no_line_break_in(chars, line_min + 1, word_max)) by {
            assert forall|k: int| line_min + 1 <= k < word_max && 0 <= k < chars.len() implies
                !line.spec_is_boundary_char(#[trigger] chars[k]) by {
                if k >= i {
                } else {
                    assert(line_min <= k <= i - 1);
                }
            }
        }
        lemma_next_line_boundary_reaches(chars, line_min, word_max);
    }
}

proof fn lemma_behind_word(chars: Seq<char>, ccursor: CCursor)
    requires
        chars.len() <= usize::MAX,
        0 < ccursor.index < chars.len(),
        !SelectionBoundary::Word.spec_is_boundary_char(chars[ccursor.index - 1]),
        SelectionBoundary::Word.spec_is_boundary_char(chars[ccursor.index as int]),
        holds_no_line_break(chars, SelectionBoundary::Word.spec_select_bounded_at(chars, ccursor)),
    ensures
        SelectionBoundary::Line.spec_select_bounded_at(chars, ccursor).covers(
            SelectionBoundary::Word.spec_select_bounded_at(chars, ccursor),
        ),
{
    let word = SelectionBoundary::Word;
    let line = SelectionBoundary::Line;
    let i = ccursor.index as int;
    word.lemma_previous_boundary_bounds(chars, i);
    let word_min = word.spec_previous_boundary(chars, i);
    word.lemma_next_boundary_bounds(chars, word_min);
    let word_max = word.spec_next_boundary(chars, word_min);
    assert(!line.spec_is_boundary_char(chars[i - 1]));
    if i >= 2 {
        lemma_word_behind_reaches_neighbour(chars, i);
    }
    assert(no_line_break_in(chars, word_min, i)) by {
        assert forall|k: int| word_min <= k < i && 0 <= k < chars.len() implies
            !line.spec_is_boundary_char(#[trigger] chars[k]) by {
            if k < i - 1 {
                assert(word_min <= k < word_max);
            }
        }
    }
    if line.spec_is_boundary_char(chars[i]) {
        assert(word_max <= i) by {
            if word_max > i {
                assert(word_min <= i < word_max);
                assert(!line.spec_is_boundary_char(chars[i]));
            }
        }
        line.lemma_previous_boundary_bounds(chars, i);
        let line_min = line.spec_previous_boundary(chars, i);
        line.lemma_next_boundary_bounds(chars, line_min);
        if i >= 2 {
            lemma_previous_line_boundary_reaches(chars, i, word_min);
            lemma_previous_boundary_is_run_start(line, chars, i);
            assert(no_line_break_in(chars, line_min + 1, i)) by {
                assert forall|k: int| line_min + 1 <= k < i && 0 <= k < chars.len() implies
                    !line.spec_is_boundary_char(#[trigger] chars[k]) by {
                    if k <= i - 2 {
                        assert(line_min <= k <= i - 2);
                    }
                }
            }
            lemma_next_line_boundary_reaches(chars, line_min, i);
        } else {
            lemma_next_line_boundary_reaches(chars, 0, word_max);
        }
    } else {
        line.lemma_previous_boundary_bounds(chars, i + 1);
        lemma_previous_boundary_is_run_start(line, chars, i + 1);
        let line_min = line.spec_previous_boundary(chars, i + 1);
        line.lemma_next_boundary_bounds(chars, line_min);
        if word_min <= i - 1 {
            lemma_previous_line_boundary_reaches(chars, i + 1, word_min);
        }
        assert(no_line_break_in(chars, line_min + 1, word_max)) by {
            assert forall|k: int| line_min + 1 <= k < word_max && 0 <= k < chars.len() implies
                !line.spec_is_boundary_char(#[trigger] chars[k]) by {
                if k >= word_min {
                } else {
                    assert(line_min <= k <= i - 1);
                }
            }
        }
        lemma_next_line_boundary_reaches(chars, line_min, word_max);
    }
}

proof fn lemma_between_separators(chars: Seq<char>, ccursor: CCursor)
    requires
        chars.len() <= usize::MAX,
        0 < ccursor.index < chars.len(),
        SelectionBoundary::Word.spec_is_boundary_char(chars[ccursor.index - 1]),
        SelectionBoundary::Word.spec_is_boundary_char(chars[ccursor.index as int]),
        holds_no_line_break(chars, SelectionBoundary::Word.spec_select_bounded_at(chars, ccursor)),
    ensures
        SelectionBoundary::Line.spec_select_bounded_at(chars, ccursor).covers(
            SelectionBoundary::Word.spec_select_bounded_at(chars, ccursor),
        ),
{
    let word = SelectionBoundary::Word;
    let line = SelectionBoundary::Line;
    let i = ccursor.index as int;
    word.lemma_previous_boundary_bounds(chars, i);
    word.lemma_next_boundary_bounds(chars, i);
    let word_min = word.spec_previous_boundary(chars, i);
    let word_max = word.spec_next_boundary(chars, i);
    assert(!line.spec_is_boundary_char(chars[i - 1])) by {
        assert(word_min <= i - 1 < word_max);
    }
    assert(!line.spec_is_boundary_char(chars[i])) by {
        assert(word_min <= i < word_max);
    }
    line.lemma_previous_boundary_bounds(chars, i + 1);
    lemma_previous_boundary_is_run_start(line, chars, i + 1);
    let line_min = line.spec_previous_boundary(chars, i + 1);
    line.lemma_next_boundary_bounds(chars, line_min);
    lemma_previous_line_boundary_reaches(chars, i + 1, word_min);
    assert(no_line_break_in(chars, line_min + 1, word_max)) by {
        assert forall|k: int| line_min + 1 <= k < word_max && 0 <= k < chars.len() implies
            !line.spec_is_boundary_char(#[trigger] chars[k]) by {
            if k >= word_min {
            } else {
                assert(line_min <= k <= i - 1);
            }
        }
    }
    lemma_next_line_boundary_reaches(chars, line_min, word_max);
}

proof fn lemma_inside_word(chars: Seq<char>, ccursor: CCursor)
    requires
        chars.len() <= usize::MAX,
        0 < ccursor.index < chars.len(),
        !SelectionBoundary::Word.spec_is_boundary_char(chars[ccursor.index - 1]),
        !SelectionBoundary::Word.spec_is_boundary_char(chars[ccursor.index as int]),
    ensures
        SelectionBoundary::Line.spec_select_bounded_at(chars, ccursor).covers(
            SelectionBoundary::Word.spec_select_bounded_at(chars, ccursor),
        ),
        holds_no_line_break(chars, SelectionBoundary::Word.spec_select_bounded_at(chars, ccursor)),
{
    let word = SelectionBoundary::Word;
    let line = SelectionBoundary::Line;
    let i = ccursor.index as int;
    lemma_previous_boundary_is_run_start(word, chars, i + 1);
    lemma_previous_boundary_is_run_start(line, chars, i + 1);
    let word_min = word.spec_previous_boundary(chars, i + 1);
    let line_min = line.spec_previous_boundary(chars, i + 1);
    word.lemma_next_boundary_bounds(chars, word_min);
    line.lemma_next_boundary_bounds(chars, line_min);
    let word_max = word.spec_next_boundary(chars, word_min);
    assert(!word.spec_is_boundary_char(chars[word_min + 1]));
    lemma_run_end(word, chars, word_min + 2, false);
    assert(no_line_break_in(chars, word_min, word_max)) by {
        assert forall|k: int| word_min <= k < word_max && 0 <= k < chars.len() implies
            !line.spec_is_boundary_char(#[trigger] chars[k]) by {
            if k >= word_min + 2 {
                assert(!word.spec_is_boundary_char(chars[k]));
            } else {
                assert(word_min <= k <= i - 1 || k == i);
                assert(!word.spec_is_boundary_char(chars[k]));
            }
        }
    }
    if word_min <= i - 1 {
        lemma_previous_line_boundary_reaches(chars, i + 1, word_min);
    }
    assert(no_line_break_in(chars, line_min + 1, word_max)) by {
        assert forall|k: int| line_min + 1 <= k < word_max && 0 <= k < chars.len() implies
            !line.spec_is_boundary_char(#[trigger] chars[k]) by {
            if k >= word_min {
            } else {
                assert(line_min <= k <= i - 1);
            }
        }
    }
    lemma_next_line_boundary_reaches(chars, line_min, word_max);
}

/// A word selection that holds no line break lies inside the line
/// selection at the same position.
pub proof fn word_selection_within_line_selection(chars: Seq<char>, ccursor: CCursor)
    requires
        chars.len() <= usize::MAX,
        holds_no_line_break(chars, SelectionBoundary::Word.spec_select_bounded_at(chars, ccursor)),
    ensures
        SelectionBoundary::Line.spec_select_bounded_at(chars, ccursor).covers(
            SelectionBoundary::Word.spec_select_bounded_at(chars, ccursor),
        ),
{
    let word = SelectionBoundary::Word;
    let i = ccursor.index as int;
    if i == 0 || i > chars.len() {
        lemma_at_start(chars, ccursor);
    } else if i == chars.len() {
        lemma_at_end(chars, ccursor);
    } else {
        let before = word.spec_is_boundary_char(chars[i - 1]);
        let after = word.spec_is_boundary_char(chars[i]);
        if !before && !after {
            lemma_inside_word(chars, ccursor);
        } else if !before {
            lemma_behind_word(chars, ccursor);
        } else if !after {
            lemma_in_front_of_word(chars, ccursor);
        } else {
            lemma_between_separators(chars, ccursor);
        }
    }
}

/// Inside a word, the word selected is a run of word characters: it
/// holds no line break, and so lies inside the line selected there.
pub proof fn word_selection_inside_a_word(chars: Seq<char>, ccursor: CCursor)
    requires
        chars.len() <= usize::MAX,
        0 < ccursor.index < chars.len(),
        !SelectionBoundary::Word.spec_is_boundary_char(chars[ccursor.index - 1]),
        !SelectionBoundary::Word.spec_is_boundary_char(chars[ccursor.index as int]),
    ensures
        holds_no_line_break(chars, SelectionBoundary::Word.spec_select_bounded_at(chars, ccursor)),
        SelectionBoundary::Line.spec_select_bounded_at(chars, ccursor).covers(
            SelectionBoundary::Word.spec_select_bounded_at(chars, ccursor),
        ),
{
    lemma_inside_word(chars, ccursor);
}

/// Between two characters that are no boundaries, the whole run of
/// such characters around the position is selected, and nothing more: a
/// double click inside a word selects the word, and one inside a line
/// the line.
pub proof fn inside_a_run_the_run_is_selected(
    mode: SelectionBoundary,
    chars: Seq<char>,
    ccursor: CCursor,
)
    requires
        chars.len() <= usize::MAX,
        0 < ccursor.index < chars.len(),
        !mode.spec_is_boundary_char(chars[ccursor.index - 1]),
        !mode.spec_is_boundary_char(chars[ccursor.index as int]),
    ensures
        ({
            let range = mode.spec_select_bounded_at(chars, ccursor);
            let min = range.secondary.index as int;
            let max = range.primary.index as int;
            &&& 0 <= min < ccursor.index < max <= chars.len()
            &&& forall|k: int| min <= k < max ==> !mode.spec_is_boundary_char(#[trigger] chars[k])
            &&& min > 0 ==> mode.spec_is_boundary_char(chars[min - 1])
            &&& max < chars.len() ==> mode.spec_is_boundary_char(chars[max])
        }),
{
    let i = ccursor.index as int;
    lemma_previous_boundary_is_run_start(mode, chars, i + 1);
    let min = mode.spec_previous_boundary(chars, i + 1);
    assert(!mode.spec_is_boundary_char(chars[min + 1]));
    lemma_run_end(mode, chars, min + 2, false);
    let max = run_end(mode, chars, min + 2, false);
    assert(mode.spec_next_boundary(chars, min) == max);
    lemma_run_end_reaches(mode, chars, min + 2, i + 1, false);
    assert forall|k: int| min <= k < max implies !mode.spec_is_boundary_char(
        #[trigger] chars[k],
    ) by {
        if k < min + 2 {
            assert(min <= k <= i - 1 || k == i);
        }
    }
}

} // verus!
