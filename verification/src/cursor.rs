//! Positions in a laid-out text, and ranges between two of them.
//!
//! A position is kept in three forms at once: a flat character offset, a
//! row and column of the current wrapping, and a paragraph and offset that
//! survive a change of wrapping.

use vstd::prelude::*;

verus! {

/// A character offset into the whole text.
///
/// Where a soft wrap makes one offset stand both for the end of a row and
/// for the start of the next, `prefer_next_row` picks the latter.
#[derive(Clone, Copy, Debug, PartialEq, Eq, Structural)]
pub struct CCursor {
    pub index: usize,
    pub prefer_next_row: bool,
}

impl CCursor {
    /// The cursor at `index` that stays on the earlier row.
    pub open spec fn spec_new(index: usize) -> CCursor {
        CCursor { index, prefer_next_row: false }
    }

    /// The cursor at `index` that stays on the earlier row.
    #[verifier::when_used_as_spec(spec_new)]
    pub fn new(index: usize) -> (c: CCursor)
        ensures
            c == Self::spec_new(index),
    {
        CCursor { index, prefer_next_row: false }
    }
}

impl Default for CCursor {
    fn default() -> (c: CCursor)
        ensures
            c == (CCursor { index: 0, prefer_next_row: false }),
    {
        CCursor { index: 0, prefer_next_row: false }
    }
}

/// A row of the current wrapping and a column in it.
#[derive(Clone, Copy, Debug, PartialEq, Eq, Structural)]
pub struct RCursor {
    pub row: usize,
    pub column: usize,
}

impl Default for RCursor {
    fn default() -> (r: RCursor)
        ensures
            r == (RCursor { row: 0, column: 0 }),
    {
        RCursor { row: 0, column: 0 }
    }
}

/// A paragraph and a character offset in it.
///
/// Paragraphs end at line breaks of the text itself, so this form does not
/// change when the text is wrapped to another width.
#[derive(Clone, Copy, Debug, PartialEq, Eq, Structural)]
pub struct PCursor {
    pub paragraph: usize,
    pub offset: usize,
    pub prefer_next_row: bool,
}

impl Default for PCursor {
    fn default() -> (p: PCursor)
        ensures
            p == (PCursor { paragraph: 0, offset: 0, prefer_next_row: false }),
    {
        PCursor { paragraph: 0, offset: 0, prefer_next_row: false }
    }
}

/// One position, in all three forms.
#[derive(Clone, Copy, Debug, PartialEq, Eq, Structural)]
pub struct Cursor {
    pub ccursor: CCursor,
    pub rcursor: RCursor,
    pub pcursor: PCursor,
}

impl Default for Cursor {
    fn default() -> (c: Cursor)
        ensures
            c == Cursor::spec_start(),
    {
        Cursor {
            ccursor: CCursor { index: 0, prefer_next_row: false },
            rcursor: RCursor { row: 0, column: 0 },
            pcursor: PCursor { paragraph: 0, offset: 0, prefer_next_row: false },
        }
    }
}

impl Cursor {
    /// The position before the first character.
    pub open spec fn spec_start() -> Cursor {
        Cursor {
            ccursor: CCursor { index: 0, prefer_next_row: false },
            rcursor: RCursor { row: 0, column: 0 },
            pcursor: PCursor { paragraph: 0, offset: 0, prefer_next_row: false },
        }
    }
}

/// A selection given by character offsets: `primary` is the end that moves,
/// `secondary` the end that stays.
#[derive(Clone, Copy, Debug, PartialEq, Eq, Structural)]
pub struct CCursorRange {
    pub primary: CCursor,
    pub secondary: CCursor,
}

impl CCursorRange {
    /// The empty selection at `ccursor`.
    pub fn one(ccursor: CCursor) -> (r: CCursorRange)
        ensures
            r == (CCursorRange { primary: ccursor, secondary: ccursor }),
    {
        CCursorRange { primary: ccursor, secondary: ccursor }
    }

    /// The selection anchored at `min` whose moving end is `max`.
    pub fn two(min: CCursor, max: CCursor) -> (r: CCursorRange)
        ensures
            r == (CCursorRange { primary: max, secondary: min }),
    {
        CCursorRange { primary: max, secondary: min }
    }

    /// The smaller of the two offsets.
    pub open spec fn low(self) -> int {
        if self.primary.index <= self.secondary.index {
            self.primary.index as int
        } else {
            self.secondary.index as int
        }
    }

    /// The larger of the two offsets.
    pub open spec fn high(self) -> int {
        if self.primary.index <= self.secondary.index {
            self.secondary.index as int
        } else {
            self.primary.index as int
        }
    }

    /// Whether every offset of `other` lies between the ends of `self`.
    pub open spec fn covers(self, other: CCursorRange) -> bool {
        self.low() <= other.low() && other.high() <= self.high()
    }
}

/// A selection between two positions: `primary` is the end that moves,
/// `secondary` the end that stays.
#[derive(Clone, Copy, Debug, PartialEq, Eq, Structural)]
pub struct CursorRange {
    pub primary: Cursor,
    pub secondary: Cursor,
}

/// Of two positions the one with the smaller character offset, the first
/// where they agree.
pub open spec fn spec_earlier(a: Cursor, b: Cursor) -> Cursor {
    if b.ccursor.index < a.ccursor.index {
        b
    } else {
        a
    }
}

/// Of two positions the one with the larger character offset, the first
/// where they agree.
pub open spec fn spec_later(a: Cursor, b: Cursor) -> Cursor {
    if b.ccursor.index > a.ccursor.index {
        b
    } else {
        a
    }
}

fn earlier(a: Cursor, b: Cursor) -> (c: Cursor)
    ensures
        c == spec_earlier(a, b),
{
    if b.ccursor.index < a.ccursor.index {
        b
    } else {
        a
    }
}

fn later(a: Cursor, b: Cursor) -> (c: Cursor)
    ensures
        c == spec_later(a, b),
{
    if b.ccursor.index > a.ccursor.index {
        b
    } else {
        a
    }
}

impl CursorRange {
    /// The empty selection at `cursor`.
    pub fn one(cursor: Cursor) -> (r: CursorRange)
        ensures
            r == (CursorRange { primary: cursor, secondary: cursor }),
    {
        CursorRange { primary: cursor, secondary: cursor }
    }

    /// The selection anchored at `min` whose moving end is `max`.
    pub fn two(min: Cursor, max: Cursor) -> (r: CursorRange)
        ensures
            r == (CursorRange { primary: max, secondary: min }),
    {
        CursorRange { primary: max, secondary: min }
    }

    /// The same selection, by character offsets alone.
    pub open spec fn spec_as_ccursor_range(self) -> CCursorRange {
        CCursorRange { primary: self.primary.ccursor, secondary: self.secondary.ccursor }
    }

    /// The same selection, by character offsets alone.
    pub fn as_ccursor_range(&self) -> (r: CCursorRange)
        ensures
            r == self.spec_as_ccursor_range(),
    {
        CCursorRange { primary: self.primary.ccursor, secondary: self.secondary.ccursor }
    }

    /// The smallest selection that holds both `self` and `other`: anchored
    /// at the earliest of the four ends, moving end at the latest.
    pub open spec fn spec_extend(self, other: CursorRange) -> CursorRange {
        CursorRange {
            primary: spec_later(
                spec_later(self.primary, self.secondary),
                spec_later(other.primary, other.secondary),
            ),
            secondary: spec_earlier(
                spec_earlier(self.primary, self.secondary),
                spec_earlier(other.primary, other.secondary),
            ),
        }
    }

    /// The union of two selections.
    pub fn extend(&self, other: &CursorRange) -> (r: CursorRange)
        ensures
            r == self.spec_extend(*other),
    {
        let min = earlier(
            earlier(self.primary, self.secondary),
            earlier(other.primary, other.secondary),
        );
        let max = later(
            later(self.primary, self.secondary),
            later(other.primary, other.secondary),
        );
        CursorRange::two(min, max)
    }

    /// The union of two selections spans from the least to the greatest of
    /// their four character offsets, and each of its ends is one of the
    /// four ends it was made from.
    pub proof fn extend_spans_all_ends(self, other: CursorRange)
        ensures
            ({
                let r = self.spec_extend(other);
                let a = self.primary.ccursor.index;
                let b = self.secondary.ccursor.index;
                let c = other.primary.ccursor.index;
                let d = other.secondary.ccursor.index;
                &&& r.secondary.ccursor.index <= a
                &&& r.secondary.ccursor.index <= b
                &&& r.secondary.ccursor.index <= c
                &&& r.secondary.ccursor.index <= d
                &&& r.primary.ccursor.index >= a
                &&& r.primary.ccursor.index >= b
                &&& r.primary.ccursor.index >= c
                &&& r.primary.ccursor.index >= d
                &&& (r.secondary == self.primary || r.secondary == self.secondary
                    || r.secondary == other.primary || r.secondary == other.secondary)
                &&& (r.primary == self.primary || r.primary == self.secondary
                    || r.primary == other.primary || r.primary == other.secondary)
                &&& r.spec_as_ccursor_range().covers(self.spec_as_ccursor_range())
                &&& r.spec_as_ccursor_range().covers(other.spec_as_ccursor_range())
            }),
    {
    }
}

} // verus!
