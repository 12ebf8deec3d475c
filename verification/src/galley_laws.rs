//! What the positions in a layout have to do with the text alone.
//!
//! A layout may break a text into rows in many ways. The character offset
//! of a paragraph position, and the offset that a character offset is
//! shown at, go by the text and not by the rows.

use vstd::prelude::*;

use crate::cursor::{CCursor, PCursor};
use crate::galley::{
    chars_before, first_row_for_ccursor, first_row_for_pcursor, lemma_row_starts, offset_at,
    paragraph_at, row_takes_ccursor, row_takes_pcursor, rows_fit_text, GalleyView, Row,
};

verus! {

/// The first index at or behind `from` at which `text` has a line feed,
/// or the length of `text` where it has none there.
pub open spec fn line_end(text: Seq<char>, from: int) -> int
    decreases text.len() - from,
{
    if 0 <= from < text.len() && text[from] != '\n' {
        line_end(text, from + 1)
    } else {
        from
    }
}

/// The character offset of the position `offset` characters into the
/// paragraph that lies `paragraph` paragraphs behind the one that starts
/// at `from`. A position behind the end of its paragraph counts as that
/// end, and one in a paragraph that the text does not have as the end of
/// the text.
pub open spec fn offset_in_text(text: Seq<char>, paragraph: int, offset: int, from: int) -> int
    decreases paragraph,
{
    let end = line_end(text, from);
    if paragraph <= 0 {
        if offset <= end - from {
            from + offset
        } else {
            end
        }
    } else if end >= text.len() {
        text.len() as int
    } else {
        offset_in_text(text, paragraph - 1, offset, end + 1)
    }
}

/// The character offset of the paragraph position `p` in `text`.
pub open spec fn pcursor_offset(text: Seq<char>, p: PCursor) -> int {
    offset_in_text(text, p.paragraph as int, p.offset as int, 0)
}

/// Whether `text` has no line feed from `from` up to `to`.
pub open spec fn no_line_feed_in(text: Seq<char>, from: int, to: int) -> bool {
    forall|k: int| from <= k < to ==> #[trigger] text[k] != '\n'
}

proof fn lemma_line_end(text: Seq<char>, from: int, to: int)
    requires
        0 <= from <= to <= text.len(),
        no_line_feed_in(text, from, to),
    ensures
        line_end(text, from) == line_end(text, to),
        to <= line_end(text, to) <= text.len(),
        to < text.len() && text[to] == '\n' ==> line_end(text, to) == to,
        to == text.len() ==> line_end(text, to) == to,
    decreases text.len() - from,
{
    if from < to {
        assert(text[from] != '\n');
        lemma_line_end(text, from + 1, to);
    } else if to < text.len() && text[to] != '\n' {
        lemma_line_end(text, to + 1, to + 1);
    }
}

/// The character offset that the search for the row of `p` ends with,
/// where it starts at row `i`.
pub open spec fn pcursor_offset_from_row(rows: Seq<Row>, p: PCursor, i: int) -> int {
    let j = first_row_for_pcursor(rows, p, i);
    if j < rows.len() {
        let column = p.offset - offset_at(rows, j);
        chars_before(rows, j) + if column <= rows[j].char_count {
            column
        } else {
            rows[j].char_count as int
        }
    } else {
        chars_before(rows, rows.len() as int)
    }
}

proof fn lemma_pcursor_offset_from_row(text: Seq<char>, rows: Seq<Row>, p: PCursor, i: int)
    requires
        rows_fit_text(text, rows),
        0 <= i <= rows.len(),
        paragraph_at(rows, i) <= p.paragraph,
        paragraph_at(rows, i) == p.paragraph ==> offset_at(rows, i) <= p.offset,
        no_line_feed_in(text, chars_before(rows, i) - offset_at(rows, i), chars_before(rows, i)),
    ensures
        pcursor_offset_from_row(rows, p, i) == offset_in_text(
            text,
            p.paragraph - paragraph_at(rows, i),
            p.offset as int,
            chars_before(rows, i) - offset_at(rows, i),
        ),
    decreases rows.len() - i,
{
    let n = rows.len() as int;
    let start = chars_before(rows, i);
    let column = offset_at(rows, i);
    let line = start - column;
    lemma_row_starts(rows, i, n);
    if i == n {
        lemma_line_end(text, line, start);
    } else {
        let row = rows[i];
        let stop = start + row.char_count;
        lemma_row_starts(rows, i + 1, n);
        assert(no_line_feed_in(text, line, stop)) by {
            assert forall|k: int| line <= k < stop implies #[trigger] text[k] != '\n' by {
                if k >= start {
                    assert(rows[i] == row);
                }
            }
        }
        lemma_line_end(text, line, stop);
        if row.ends_with_newline {
            assert(text[stop] == '\n');
        }
        if row_takes_pcursor(rows, p, i) {
        } else {
            if row.ends_with_newline {
                assert(no_line_feed_in(text, stop + 1, stop + 1));
            }
            lemma_pcursor_offset_from_row(text, rows, p, i + 1);
        }
    }
}

/// The character offset of a paragraph position goes by the text alone.
pub proof fn lemma_from_pcursor_offset(galley: GalleyView, p: PCursor)
    requires
        galley.wf(),
    ensures
        galley.from_pcursor(p).ccursor.index == pcursor_offset(galley.text, p),
        galley.from_pcursor(p).ccursor.prefer_next_row == p.prefer_next_row,
        galley.from_pcursor(p).pcursor == p,
        pcursor_offset(galley.text, p) <= galley.text.len(),
{
    let n = galley.rows.len() as int;
    lemma_pcursor_offset_from_row(galley.text, galley.rows, p, 0);
    let j = first_row_for_pcursor(galley.rows, p, 0);
    lemma_first_row_for_pcursor(galley.rows, p, 0);
    lemma_row_starts(galley.rows, j, n);
    if j < n {
        lemma_row_starts(galley.rows, j + 1, n);
    }
}

proof fn lemma_first_row_for_pcursor(rows: Seq<Row>, p: PCursor, from: int)
    requires
        0 <= from <= rows.len(),
    ensures
        from <= first_row_for_pcursor(rows, p, from) <= rows.len(),
        first_row_for_pcursor(rows, p, from) < rows.len() ==> row_takes_pcursor(
            rows,
            p,
            first_row_for_pcursor(rows, p, from),
        ),
    decreases rows.len() - from,
{
    if from < rows.len() && !row_takes_pcursor(rows, p, from) {
        lemma_first_row_for_pcursor(rows, p, from + 1);
    }
}

proof fn lemma_first_row_for_ccursor(rows: Seq<Row>, c: CCursor, from: int)
    requires
        0 <= from <= rows.len(),
        chars_before(rows, from) <= c.index,
    ensures
        ({
            let j = first_row_for_ccursor(rows, c, from);
            &&& from <= j <= rows.len()
            &&& j < rows.len() ==> row_takes_ccursor(rows, c, j)
            &&& j == rows.len() ==> chars_before(rows, j) <= c.index
        }),
    decreases rows.len() - from,
{
    if from < rows.len() && !row_takes_ccursor(rows, c, from) {
        lemma_first_row_for_ccursor(rows, c, from + 1);
    }
}

/// A character offset is shown where it is: a position made from an
/// offset inside the text has that offset, and one made from an offset
/// behind the text has the length of the text.
pub proof fn lemma_from_ccursor_offset(galley: GalleyView, c: CCursor)
    requires
        galley.wf(),
    ensures
        galley.from_ccursor(c).ccursor.index == if c.index <= galley.text.len() {
            c.index as int
        } else {
            galley.text.len() as int
        },
        galley.from_ccursor(c).ccursor.prefer_next_row == c.prefer_next_row,
{
    lemma_first_row_for_ccursor(galley.rows, c, 0);
    let n = galley.rows.len() as int;
    let j = first_row_for_ccursor(galley.rows, c, 0);
    if j < n {
        lemma_row_starts(galley.rows, j + 1, n);
    }
}

/// Two layouts of one text show a paragraph position at the same
/// character offset, and keep the paragraph position as it is: breaking
/// the text into other rows can only change the row and the column.
pub proof fn rewrapping_keeps_offsets(a: GalleyView, b: GalleyView, p: PCursor)
    requires
        a.wf(),
        b.wf(),
        a.text == b.text,
    ensures
        a.from_pcursor(p).ccursor == b.from_pcursor(p).ccursor,
        a.from_pcursor(p).pcursor == b.from_pcursor(p).pcursor,
{
    lemma_from_pcursor_offset(a, p);
    lemma_from_pcursor_offset(b, p);
}

} // verus!
