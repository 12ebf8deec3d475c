//! A text that has been broken into rows, and the conversion of positions
//! between the three forms a cursor keeps.

use vstd::prelude::*;

use crate::cursor::{CCursor, Cursor, PCursor, RCursor};
use crate::galley_laws::{lemma_from_ccursor_offset, lemma_from_pcursor_offset, pcursor_offset};
use crate::text::chars_of;

verus! {

/// One row of a layout.
#[derive(Clone, Copy, Debug, PartialEq, Eq, Structural)]
pub struct Row {
    /// The characters on the row, the line break that ends it not counted.
    pub char_count: usize,
    /// Whether the row ends at a line break of the text, and not at a wrap.
    pub ends_with_newline: bool,
}

/// The characters that `row` takes from the text, its line break counted.
pub open spec fn row_len(row: Row) -> int {
    row.char_count + if row.ends_with_newline {
        1int
    } else {
        0int
    }
}

/// The character offset at which row `i` starts.
pub open spec fn chars_before(rows: Seq<Row>, i: int) -> int
    decreases i,
{
    if i <= 0 {
        0
    } else {
        chars_before(rows, i - 1) + row_len(rows[i - 1])
    }
}

/// The paragraph that row `i` belongs to.
pub open spec fn paragraph_at(rows: Seq<Row>, i: int) -> int
    decreases i,
{
    if i <= 0 {
        0
    } else {
        paragraph_at(rows, i - 1) + if rows[i - 1].ends_with_newline {
            1int
        } else {
            0int
        }
    }
}

/// The offset into its paragraph at which row `i` starts.
pub open spec fn offset_at(rows: Seq<Row>, i: int) -> int
    decreases i,
{
    if i <= 0 {
        0
    } else if rows[i - 1].ends_with_newline {
        0
    } else {
        offset_at(rows, i - 1) + rows[i - 1].char_count
    }
}

/// Whether `rows` breaks `text` into rows: together they take every
/// character once, no row holds a line feed but as its last character, and
/// the rows that say they end at a line break are those that do.
pub open spec fn rows_fit_text(text: Seq<char>, rows: Seq<Row>) -> bool {
    &&& chars_before(rows, rows.len() as int) == text.len()
    &&& forall|i: int, k: int|
        #![trigger rows[i], text[k]]
        0 <= i < rows.len() && chars_before(rows, i) <= k < chars_before(rows, i)
            + rows[i].char_count ==> text[k] != '\n'
    &&& forall|i: int|
        0 <= i < rows.len() && (#[trigger] rows[i]).ends_with_newline ==> text[chars_before(
            rows,
            i,
        ) + rows[i].char_count] == '\n'
}

/// Whether row `i` is where the character offset `c` is shown.
pub open spec fn row_takes_ccursor(rows: Seq<Row>, c: CCursor, i: int) -> bool {
    let start = chars_before(rows, i);
    &&& start <= c.index <= start + rows[i].char_count
    &&& !(c.prefer_next_row && !rows[i].ends_with_newline && c.index == start
        + rows[i].char_count)
}

/// The first row at or after `from` that takes `c`, or the number of rows.
pub open spec fn first_row_for_ccursor(rows: Seq<Row>, c: CCursor, from: int) -> int
    decreases rows.len() - from,
{
    if 0 <= from < rows.len() && !row_takes_ccursor(rows, c, from) {
        first_row_for_ccursor(rows, c, from + 1)
    } else {
        from
    }
}

/// Whether row `i` is where the paragraph position `p` is shown.
pub open spec fn row_takes_pcursor(rows: Seq<Row>, p: PCursor, i: int) -> bool {
    let start = offset_at(rows, i);
    &&& paragraph_at(rows, i) == p.paragraph
    &&& start <= p.offset
    &&& (p.offset <= start + rows[i].char_count || rows[i].ends_with_newline)
    &&& !(p.prefer_next_row && !rows[i].ends_with_newline && p.offset >= start
        + rows[i].char_count)
}

/// The first row at or after `from` that takes `p`, or the number of rows.
pub open spec fn first_row_for_pcursor(rows: Seq<Row>, p: PCursor, from: int) -> int
    decreases rows.len() - from,
{
    if 0 <= from < rows.len() && !row_takes_pcursor(rows, p, from) {
        first_row_for_pcursor(rows, p, from + 1)
    } else {
        from
    }
}

/// What a [`Galley`] holds: the text and the rows it was broken into.
pub struct GalleyView {
    pub text: Seq<char>,
    pub rows: Seq<Row>,
}

impl GalleyView {
    /// Whether the rows break the text as [`rows_fit_text`] asks, and the
    /// text is no longer than a machine can hold. Every galley that
    /// [`Galley::new`] hands out is so.
    pub open spec fn wf(self) -> bool {
        &&& rows_fit_text(self.text, self.rows)
        &&& self.text.len() <= usize::MAX
    }

    /// The row and column behind the last character.
    pub open spec fn end_rcursor(self) -> RCursor {
        if self.rows.len() == 0 {
            RCursor { row: 0, column: 0 }
        } else {
            RCursor {
                row: (self.rows.len() - 1) as usize,
                column: row_len(self.rows.last()) as usize,
            }
        }
    }

    /// The position behind the last character.
    pub open spec fn end(self) -> Cursor {
        if self.rows.len() == 0 {
            Cursor::spec_start()
        } else {
            let n = self.rows.len() as int;
            Cursor {
                ccursor: CCursor {
                    index: chars_before(self.rows, n) as usize,
                    prefer_next_row: true,
                },
                rcursor: self.end_rcursor(),
                pcursor: PCursor {
                    paragraph: paragraph_at(self.rows, n) as usize,
                    offset: offset_at(self.rows, n) as usize,
                    prefer_next_row: true,
                },
            }
        }
    }

    /// The position at the character offset `c`: on the first row that
    /// takes it, or at the end of the text where `c` lies behind it.
    pub open spec fn from_ccursor(self, c: CCursor) -> Cursor {
        let n = self.rows.len() as int;
        let i = first_row_for_ccursor(self.rows, c, 0);
        if i < n {
            let column = c.index - chars_before(self.rows, i);
            Cursor {
                ccursor: c,
                rcursor: RCursor { row: i as usize, column: column as usize },
                pcursor: PCursor {
                    paragraph: paragraph_at(self.rows, i) as usize,
                    offset: (offset_at(self.rows, i) + column) as usize,
                    prefer_next_row: c.prefer_next_row,
                },
            }
        } else {
            Cursor {
                ccursor: CCursor {
                    index: chars_before(self.rows, n) as usize,
                    prefer_next_row: c.prefer_next_row,
                },
                rcursor: self.end_rcursor(),
                pcursor: PCursor {
                    paragraph: paragraph_at(self.rows, n) as usize,
                    offset: offset_at(self.rows, n) as usize,
                    prefer_next_row: c.prefer_next_row,
                },
            }
        }
    }

    /// The position at the paragraph position `p`: on the first row that
    /// takes it, or at the end of the text where no row does. The
    /// paragraph position itself is kept as it was given.
    pub open spec fn from_pcursor(self, p: PCursor) -> Cursor {
        let n = self.rows.len() as int;
        let i = first_row_for_pcursor(self.rows, p, 0);
        if i < n {
            let column = p.offset - offset_at(self.rows, i);
            let shown = if column <= self.rows[i].char_count {
                column
            } else {
                self.rows[i].char_count as int
            };
            Cursor {
                ccursor: CCursor {
                    index: (chars_before(self.rows, i) + shown) as usize,
                    prefer_next_row: p.prefer_next_row,
                },
                rcursor: RCursor { row: i as usize, column: column as usize },
                pcursor: p,
            }
        } else {
            Cursor {
                ccursor: CCursor {
                    index: chars_before(self.rows, n) as usize,
                    prefer_next_row: p.prefer_next_row,
                },
                rcursor: self.end_rcursor(),
                pcursor: p,
            }
        }
    }
}

/// A text together with the rows that a layout has broken it into.
pub struct Galley {
    text: String,
    rows: Vec<Row>,
}

impl View for Galley {
    type V = GalleyView;

    closed spec fn view(&self) -> GalleyView {
        GalleyView { text: self.text@, rows: self.rows@ }
    }
}

/// Row starts grow with the row, and neither the paragraph nor the offset
/// into it runs ahead of the characters passed.
pub proof fn lemma_row_starts(rows: Seq<Row>, i: int, j: int)
    requires
        0 <= i <= j <= rows.len(),
    ensures
        0 <= chars_before(rows, i) <= chars_before(rows, j),
        0 <= offset_at(rows, i) <= chars_before(rows, i),
        0 <= paragraph_at(rows, i) <= chars_before(rows, i),
    decreases j,
{
    if i < j {
        lemma_row_starts(rows, i, j - 1);
    } else if i > 0 {
        lemma_row_starts(rows, i - 1, i - 1);
    }
}

impl Galley {
    #[verifier::type_invariant]
    spec fn fits(self) -> bool {
        self@.wf()
    }

    /// Takes `rows` as the layout of `text`, if they fit it.
    pub fn new(text: String, rows: Vec<Row>) -> (galley: Option<Galley>)
        ensures
            galley is Some <==> rows_fit_text(text@, rows@),
            galley is Some ==> galley->0@ == (GalleyView { text: text@, rows: rows@ }),
            galley is Some ==> galley->0@.wf(),
    {
        let chars = chars_of(text.as_str());
        let len = chars.len();
        let mut start: usize = 0;
        let mut i: usize = 0;
        while i < rows.len()
            invariant
                len == text@.len(),
                chars@ == text@,
                i <= rows@.len(),
                start == chars_before(rows@, i as int),
                start <= len,
                forall|r: int, k: int|
                    #![trigger rows@[r], text@[k]]
                    0 <= r < i && chars_before(rows@, r) <= k < chars_before(rows@, r)
                        + rows@[r].char_count ==> text@[k] != '\n',
                forall|r: int|
                    0 <= r < i && (#[trigger] rows@[r]).ends_with_newline ==> text@[chars_before(
                        rows@,
                        r,
                    ) + rows@[r].char_count] == '\n',
            decreases rows@.len() - i,
        {
            let row = rows[i];
            proof {
                lemma_row_starts(rows@, i as int + 1, rows@.len() as int);
            }
            if row.char_count > len - start {
                return None;
            }
            let mut k: usize = start;
            let stop: usize = start + row.char_count;
            while k < stop
                invariant
                    chars@ == text@,
                    start <= k <= stop <= len,
                    len == text@.len(),
                    i < rows@.len(),
                    row == rows@[i as int],
                    start == chars_before(rows@, i as int),
                    stop == start + row.char_count,
                    forall|m: int| start <= m < k ==> text@[m] != '\n',
                decreases stop - k,
            {
                if chars[k] == '\n' {
                    assert(rows@[i as int].char_count == row.char_count && text@[k as int] == '\n');
                    return None;
                }
                k += 1;
            }
            if row.ends_with_newline {
                if stop >= len || chars[stop] != '\n' {
                    proof {
                        assert(rows@[i as int].ends_with_newline);
                        if stop >= len {
                            assert(chars_before(rows@, i as int + 1) > text@.len());
                        }
                    }
                    return None;
                }
                start = stop + 1;
            } else {
                start = stop;
            }
            i += 1;
        }
        if start != len {
            return None;
        }
        Some(Galley { text, rows })
    }

    /// The text that was laid out.
    pub fn text(&self) -> (text: &str)
        ensures
            text@ == self@.text,
    {
        self.text.as_str()
    }

    /// The row and column behind the last character.
    pub fn end_rcursor(&self) -> (r: RCursor)
        ensures
            r == self@.end_rcursor(),
    {
        let n = self.rows.len();
        if n == 0 {
            RCursor { row: 0, column: 0 }
        } else {
            let last = self.rows[n - 1];
            proof {
                use_type_invariant(self);
                lemma_row_starts(self.rows@, n - 1, n as int);
            }
            RCursor {
                row: n - 1,
                column: if last.ends_with_newline {
                    last.char_count + 1
                } else {
                    last.char_count
                },
            }
        }
    }

    /// The position behind the last character.
    pub fn end(&self) -> (c: Cursor)
        ensures
            c == self@.end(),
            c.ccursor.index == self@.text.len(),
    {
        proof {
            use_type_invariant(self);
        }
        let n = self.rows.len();
        if n == 0 {
            return Cursor::default();
        }
        proof {
            use_type_invariant(self);
        }
        let mut index: usize = 0;
        let mut paragraph: usize = 0;
        let mut offset: usize = 0;
        let mut i: usize = 0;
        while i < n
            invariant
                n == self.rows@.len(),
                i <= n,
                chars_before(self.rows@, n as int) <= usize::MAX,
                index == chars_before(self.rows@, i as int),
                paragraph == paragraph_at(self.rows@, i as int),
                offset == offset_at(self.rows@, i as int),
            decreases n - i,
        {
            let row = self.rows[i];
            proof {
                lemma_row_starts(self.rows@, i as int + 1, n as int);
            }
            if row.ends_with_newline {
                index += row.char_count + 1;
                paragraph += 1;
                offset = 0;
            } else {
                index += row.char_count;
                offset += row.char_count;
            }
            i += 1;
        }
        Cursor {
            ccursor: CCursor { index, prefer_next_row: true },
            rcursor: self.end_rcursor(),
            pcursor: PCursor { paragraph, offset, prefer_next_row: true },
        }
    }

    /// The position at the character offset `ccursor`. An offset behind
    /// the text gives the end of the text.
    pub fn from_ccursor(&self, ccursor: CCursor) -> (c: Cursor)
        ensures
            c == self@.from_ccursor(ccursor),
            c.ccursor.prefer_next_row == ccursor.prefer_next_row,
            c.ccursor.index == if ccursor.index <= self@.text.len() {
                ccursor.index as int
            } else {
                self@.text.len() as int
            },
    {
        let n = self.rows.len();
        let prefer_next_row = ccursor.prefer_next_row;
        proof {
            use_type_invariant(self);
            lemma_from_ccursor_offset(self@, ccursor);
        }
        let mut index: usize = 0;
        let mut paragraph: usize = 0;
        let mut offset: usize = 0;
        let mut i: usize = 0;
        while i < n
            invariant
                n == self.rows@.len(),
                i <= n,
                prefer_next_row == ccursor.prefer_next_row,
                chars_before(self.rows@, n as int) <= usize::MAX,
                index == chars_before(self.rows@, i as int),
                paragraph == paragraph_at(self.rows@, i as int),
                offset == offset_at(self.rows@, i as int),
                first_row_for_ccursor(self.rows@, ccursor, 0) == first_row_for_ccursor(
                    self.rows@,
                    ccursor,
                    i as int,
                ),
                self@.from_ccursor(ccursor).ccursor.index == if ccursor.index
                    <= self@.text.len() {
                    ccursor.index as int
                } else {
                    self@.text.len() as int
                },
            decreases n - i,
        {
            let row = self.rows[i];
            proof {
                lemma_row_starts(self.rows@, i as int + 1, n as int);
                lemma_row_starts(self.rows@, i as int, n as int);
            }
            if index <= ccursor.index && ccursor.index - index <= row.char_count {
                let column = ccursor.index - index;
                let select_next_row_instead = prefer_next_row && !row.ends_with_newline && column
                    >= row.char_count;
                if !select_next_row_instead {
                    return Cursor {
                        ccursor,
                        rcursor: RCursor { row: i, column },
                        pcursor: PCursor { paragraph, offset: offset + column, prefer_next_row },
                    };
                }
            }
            if row.ends_with_newline {
                index += row.char_count + 1;
                paragraph += 1;
                offset = 0;
            } else {
                index += row.char_count;
                offset += row.char_count;
            }
            i += 1;
        }
        Cursor {
            ccursor: CCursor { index, prefer_next_row },
            rcursor: self.end_rcursor(),
            pcursor: PCursor { paragraph, offset, prefer_next_row },
        }
    }

    /// The position at the paragraph position `pcursor`, which the result
    /// keeps as it is. A paragraph that the text does not have gives the
    /// end of the text.
    pub fn from_pcursor(&self, pcursor: PCursor) -> (c: Cursor)
        ensures
            c == self@.from_pcursor(pcursor),
            c.pcursor == pcursor,
            c.ccursor.prefer_next_row == pcursor.prefer_next_row,
            c.ccursor.index == pcursor_offset(self@.text, pcursor),
    {
        let n = self.rows.len();
        let prefer_next_row = pcursor.prefer_next_row;
        proof {
            use_type_invariant(self);
            lemma_from_pcursor_offset(self@, pcursor);
        }
        let mut index: usize = 0;
        let mut paragraph: usize = 0;
        let mut offset: usize = 0;
        let mut i: usize = 0;
        while i < n
            invariant
                n == self.rows@.len(),
                i <= n,
                prefer_next_row == pcursor.prefer_next_row,
                chars_before(self.rows@, n as int) <= usize::MAX,
                index == chars_before(self.rows@, i as int),
                paragraph == paragraph_at(self.rows@, i as int),
                offset == offset_at(self.rows@, i as int),
                first_row_for_pcursor(self.rows@, pcursor, 0) == first_row_for_pcursor(
                    self.rows@,
                    pcursor,
                    i as int,
                ),
                self@.from_pcursor(pcursor).ccursor.index == pcursor_offset(self@.text, pcursor),
            decreases n - i,
        {
            let row = self.rows[i];
            proof {
                lemma_row_starts(self.rows@, i as int + 1, n as int);
                lemma_row_starts(self.rows@, i as int, n as int);
            }
            if paragraph == pcursor.paragraph && offset <= pcursor.offset && (pcursor.offset
                - offset <= row.char_count || row.ends_with_newline) {
                let column = pcursor.offset - offset;
                let select_next_row_instead = prefer_next_row && !row.ends_with_newline && column
                    >= row.char_count;
                if !select_next_row_instead {
                    let shown = if column <= row.char_count {
                        column
                    } else {
                        row.char_count
                    };
                    return Cursor {
                        ccursor: CCursor { index: index + shown, prefer_next_row },
                        rcursor: RCursor { row: i, column },
                        pcursor,
                    };
                }
            }
            if row.ends_with_newline {
                index += row.char_count + 1;
                paragraph += 1;
                offset = 0;
            } else {
                index += row.char_count;
                offset += row.char_count;
            }
            i += 1;
        }
        Cursor {
            ccursor: CCursor { index, prefer_next_row },
            rcursor: self.end_rcursor(),
            pcursor,
        }
    }
}

} // verus!
