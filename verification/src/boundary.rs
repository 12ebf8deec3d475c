//! Word and line boundaries in a text, and the selection that a position
//! inside the text stands for at either granularity.

use vstd::prelude::*;

use crate::cursor::{CCursor, CCursorRange};
use crate::text::{chars_of, reversed};

verus! {

/// How much a click or a drag selects at once.
#[derive(Clone, Copy, Debug, PartialEq, Eq, Structural)]
pub enum SelectionBoundary {
    /// Single characters: no boundary search applies.
    Character,
    /// Runs of word characters, and the runs of everything else between them.
    Word,
    /// Runs of characters between line breaks.
    Line,
}

impl Default for SelectionBoundary {
    fn default() -> (b: SelectionBoundary)
        ensures
            b == SelectionBoundary::Character,
    {
        SelectionBoundary::Character
    }
}

/// An ASCII letter, an ASCII digit or the underscore.
pub open spec fn spec_is_word_char(c: char) -> bool {
    ||| 'a' <= c <= 'z'
    ||| 'A' <= c <= 'Z'
    ||| '0' <= c <= '9'
    ||| c == '_'
}

/// Whether `c` may stand inside a word.
pub fn is_word_char(c: char) -> (b: bool)
    ensures
        b == spec_is_word_char(c),
{
    ('a' <= c && c <= 'z') || ('A' <= c && c <= 'Z') || ('0' <= c && c <= '9') || c == '_'
}

/// The first index at or after `from` whose character is classified
/// otherwise than `class`, or the length of `chars` where there is none.
pub open spec fn run_end(
    mode: SelectionBoundary,
    chars: Seq<char>,
    from: int,
    class: bool,
) -> int
    decreases chars.len() - from,
{
    if 0 <= from < chars.len() && mode.spec_is_boundary_char(chars[from]) == class {
        run_end(mode, chars, from + 1, class)
    } else {
        from
    }
}

impl SelectionBoundary {
    /// Whether `c` separates the units of this granularity. `Character` has
    /// no units to separate and is classified nowhere.
    pub open spec fn spec_is_boundary_char(self, c: char) -> bool {
        match self {
            SelectionBoundary::Character => false,
            SelectionBoundary::Word => !spec_is_word_char(c),
            SelectionBoundary::Line => c == '\r' || c == '\n',
        }
    }

    /// Where a forward scan from `start` stops: one character is always
    /// passed; where a second follows, it is passed as well, together with
    /// every character after it that is classified as the second is. A
    /// `start` outside the text is handed back.
    pub open spec fn spec_next_boundary(self, chars: Seq<char>, start: int) -> int {
        if 0 <= start < chars.len() {
            if start + 1 < chars.len() {
                run_end(self, chars, start + 2, self.spec_is_boundary_char(chars[start + 1]))
            } else {
                start + 1
            }
        } else {
            start
        }
    }

    /// The mirror image of [`Self::spec_next_boundary`]: the same scan over
    /// the text read backwards, counted from its end.
    pub open spec fn spec_previous_boundary(self, chars: Seq<char>, index: int) -> int {
        chars.len() - self.spec_next_boundary(chars.reverse(), chars.len() - index)
    }

    /// The position [`Self::spec_next_boundary`] leads to, on the earlier row.
    pub open spec fn spec_next_bounded(self, chars: Seq<char>, ccursor: CCursor) -> CCursor {
        CCursor {
            index: self.spec_next_boundary(chars, ccursor.index as int) as usize,
            prefer_next_row: false,
        }
    }

    /// The position [`Self::spec_previous_boundary`] leads to, on the later row.
    pub open spec fn spec_previous_bounded(self, chars: Seq<char>, ccursor: CCursor) -> CCursor {
        CCursor {
            index: self.spec_previous_boundary(chars, ccursor.index as int) as usize,
            prefer_next_row: true,
        }
    }

    /// The selection that `ccursor` stands for.
    ///
    /// At the start of the text it reaches forward to the next boundary.
    /// Elsewhere the characters on both sides decide: between two
    /// characters that are no boundaries, and behind one that is none, the
    /// run that holds the left neighbour is selected; in front of one that
    /// is none, behind a boundary, the selection reaches forward from the
    /// cursor; between two boundaries it reaches both ways. At the end of
    /// the text it reaches backward, and past the end it is empty.
    pub open spec fn spec_select_bounded_at(
        self,
        chars: Seq<char>,
        ccursor: CCursor,
    ) -> CCursorRange {
        let i = ccursor.index as int;
        if i == 0 {
            CCursorRange { primary: self.spec_next_bounded(chars, ccursor), secondary: ccursor }
        } else if i > chars.len() {
            CCursorRange { primary: self.spec_next_bounded(chars, ccursor), secondary: ccursor }
        } else if i == chars.len() {
            CCursorRange { primary: ccursor, secondary: self.spec_previous_bounded(chars, ccursor) }
        } else {
            let before = self.spec_is_boundary_char(chars[i - 1]);
            let after = self.spec_is_boundary_char(chars[i]);
            if !before && !after {
                let min = self.spec_previous_bounded(
                    chars,
                    CCursor { index: (i + 1) as usize, prefer_next_row: ccursor.prefer_next_row },
                );
                CCursorRange { primary: self.spec_next_bounded(chars, min), secondary: min }
            } else if !before {
                let min = self.spec_previous_bounded(chars, ccursor);
                CCursorRange { primary: self.spec_next_bounded(chars, min), secondary: min }
            } else if !after {
                CCursorRange { primary: self.spec_next_bounded(chars, ccursor), secondary: ccursor }
            } else {
                CCursorRange {
                    primary: self.spec_next_bounded(chars, ccursor),
                    secondary: self.spec_previous_bounded(chars, ccursor),
                }
            }
        }
    }

    /// Whether `c` separates the units of this granularity.
    pub fn is_boundary_char(&self, c: char) -> (b: bool)
        requires
            *self != SelectionBoundary::Character,
        ensures
            b == self.spec_is_boundary_char(c),
    {
        match self {
            SelectionBoundary::Character => false,
            SelectionBoundary::Word => !is_word_char(c),
            SelectionBoundary::Line => c == '\r' || c == '\n',
        }
    }

    /// Scans `chars` forward from `index` to the next boundary.
    pub fn next_boundary_char_index(&self, chars: &[char], index: usize) -> (end: usize)
        requires
            *self != SelectionBoundary::Character,
        ensures
            end == self.spec_next_boundary(chars@, index as int),
            index <= end,
            index <= chars@.len() ==> end <= chars@.len(),
    {
        let len = chars.len();
        if index >= len {
            return index;
        }
        if index + 1 >= len {
            return index + 1;
        }
        let class = self.is_boundary_char(chars[index + 1]);
        let mut end: usize = index + 2;
        while end < len && self.is_boundary_char(chars[end]) == class
            invariant
                *self != SelectionBoundary::Character,
                len == chars@.len(),
                index + 2 <= end <= len,
                run_end(*self, chars@, index + 2, class) == run_end(
                    *self,
                    chars@,
                    end as int,
                    class,
                ),
            decreases len - end,
        {
            end += 1;
        }
        end
    }

    /// The position where a forward scan from `ccursor` stops.
    pub fn ccursor_next_bounded(&self, text: &str, ccursor: CCursor) -> (next: CCursor)
        requires
            *self != SelectionBoundary::Character,
        ensures
            next == self.spec_next_bounded(text@, ccursor),
            ccursor.index <= next.index,
            ccursor.index <= text@.len() ==> next.index <= text@.len(),
    {
        let chars = chars_of(text);
        CCursor {
            index: self.next_boundary_char_index(chars.as_slice(), ccursor.index),
            prefer_next_row: false,
        }
    }

    /// The position where a backward scan from `ccursor` stops.
    pub fn ccursor_previous_bounded(&self, text: &str, ccursor: CCursor) -> (previous: CCursor)
        requires
            *self != SelectionBoundary::Character,
        ensures
            previous == self.spec_previous_bounded(text@, ccursor),
            previous.index <= ccursor.index,
    {
        let chars = chars_of(text);
        let num_chars = chars.len();
        if ccursor.index > num_chars {
            return CCursor { index: ccursor.index, prefer_next_row: true };
        }
        let backwards = reversed(chars.as_slice());
        let passed = self.next_boundary_char_index(backwards.as_slice(), num_chars - ccursor.index);
        CCursor { index: num_chars - passed, prefer_next_row: true }
    }

    /// The selection that a click at `ccursor` stands for at this granularity.
    pub fn select_bounded_at(&self, text: &str, ccursor: CCursor) -> (range: CCursorRange)
        requires
            *self != SelectionBoundary::Character,
        ensures
            range == self.spec_select_bounded_at(text@, ccursor),
            ccursor.index <= text@.len() ==> range.secondary.index <= range.primary.index
                <= text@.len(),
    {
        let chars = chars_of(text);
        let num_chars = chars.len();
        let i = ccursor.index;
        proof {
            if ccursor.index <= text@.len() {
                self.lemma_selection_bounds(text@, ccursor);
            }
        }
        if i == 0 || i > num_chars {
            let max = self.ccursor_next_bounded(text, ccursor);
            CCursorRange::two(ccursor, max)
        } else if i == num_chars {
            let min = self.ccursor_previous_bounded(text, ccursor);
            CCursorRange::two(min, ccursor)
        } else {
            let before = self.is_boundary_char(chars[i - 1]);
            let after = self.is_boundary_char(chars[i]);
            if !before && !after {
                let right = CCursor { index: i + 1, prefer_next_row: ccursor.prefer_next_row };
                let min = self.ccursor_previous_bounded(text, right);
                let max = self.ccursor_next_bounded(text, min);
                CCursorRange::two(min, max)
            } else if !before {
                let min = self.ccursor_previous_bounded(text, ccursor);
                let max = self.ccursor_next_bounded(text, min);
                CCursorRange::two(min, max)
            } else if !after {
                let max = self.ccursor_next_bounded(text, ccursor);
                CCursorRange::two(ccursor, max)
            } else {
                let min = self.ccursor_previous_bounded(text, ccursor);
                let max = self.ccursor_next_bounded(text, ccursor);
                CCursorRange::two(min, max)
            }
        }
    }
}

/// A run ends at or behind the place where it was looked for, inside the
/// text; it holds only characters of its class, and ends in front of a
/// character of the other class or at the end of the text.
pub proof fn lemma_run_end(mode: SelectionBoundary, chars: Seq<char>, from: int, class: bool)
    requires
        0 <= from <= chars.len(),
    ensures
        from <= run_end(mode, chars, from, class) <= chars.len(),
        forall|k: int|
            from <= k < run_end(mode, chars, from, class) ==> mode.spec_is_boundary_char(
                #[trigger] chars[k],
            ) == class,
        run_end(mode, chars, from, class) < chars.len() ==> mode.spec_is_boundary_char(
            chars[run_end(mode, chars, from, class)],
        ) != class,
    decreases chars.len() - from,
{
    if from < chars.len() && mode.spec_is_boundary_char(chars[from]) == class {
        lemma_run_end(mode, chars, from + 1, class);
    }
}

/// A run that is entered later, past characters of its own class, ends
/// where it would have ended.
pub proof fn lemma_run_end_from_inside(
    mode: SelectionBoundary,
    chars: Seq<char>,
    from: int,
    inside: int,
    class: bool,
)
    requires
        0 <= from <= inside <= chars.len(),
        forall|k: int|
            from <= k < inside ==> mode.spec_is_boundary_char(#[trigger] chars[k]) == class,
    ensures
        run_end(mode, chars, from, class) == run_end(mode, chars, inside, class),
    decreases inside - from,
{
    if from < inside {
        lemma_run_end_from_inside(mode, chars, from + 1, inside, class);
    }
}

impl SelectionBoundary {
    /// A forward scan from inside the text moves ahead and stays inside.
    pub proof fn lemma_next_boundary_bounds(self, chars: Seq<char>, start: int)
        requires
            0 <= start <= chars.len(),
        ensures
            start <= self.spec_next_boundary(chars, start) <= chars.len(),
            start < chars.len() ==> start < self.spec_next_boundary(chars, start),
    {
        if start + 1 < chars.len() {
            lemma_run_end(self, chars, start + 2, self.spec_is_boundary_char(chars[start + 1]));
        }
    }

    /// A backward scan from inside the text moves back and stays inside.
    pub proof fn lemma_previous_boundary_bounds(self, chars: Seq<char>, index: int)
        requires
            0 <= index <= chars.len(),
        ensures
            0 <= self.spec_previous_boundary(chars, index) <= index,
            0 < index ==> self.spec_previous_boundary(chars, index) < index,
    {
        self.lemma_next_boundary_bounds(chars.reverse(), chars.len() - index);
    }

    /// The selection around a position in the text lies in the text, with
    /// its anchor in front of its moving end.
    pub proof fn lemma_selection_bounds(self, chars: Seq<char>, ccursor: CCursor)
        requires
            chars.len() <= usize::MAX,
            ccursor.index <= chars.len(),
        ensures
            ({
                let range = self.spec_select_bounded_at(chars, ccursor);
                range.secondary.index <= range.primary.index <= chars.len()
            }),
    {
        let i = ccursor.index as int;
        let len = chars.len() as int;
        self.lemma_next_boundary_bounds(chars, i);
        self.lemma_previous_boundary_bounds(chars, i);
        if 0 < i < len {
            self.lemma_previous_boundary_bounds(chars, i + 1);
            let in_run = self.spec_previous_boundary(chars, i + 1);
            self.lemma_next_boundary_bounds(chars, in_run);
            let behind = self.spec_previous_boundary(chars, i);
            self.lemma_next_boundary_bounds(chars, behind);
        }
    }
}

} // verus!
