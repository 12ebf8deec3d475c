//! Character-indexed views of byte-indexed text.

use vstd::prelude::*;
use vstd::string::StringSliceAdditionalSpecFns;
use vstd::utf8::{
    char_is_scalar, encode_scalar, encode_utf8, encode_utf8_decode_utf8, encode_utf8_first_scalar,
    encode_utf8_valid_utf8, is_char_boundary, pop_first_scalar,
};

use crate::cursor::CCursor;

verus! {

/// The characters of `text`, in order.
pub fn chars_of(text: &str) -> (chars: Vec<char>)
    ensures
        chars@ == text@,
{
    let mut chars: Vec<char> = Vec::new();
    for c in it: text.chars()
        invariant
            chars@ == it.seq().take(it.index()),
            it.seq() == text@,
    {
        chars.push(c);
    }
    chars
}

/// The items of `chars`, last to first.
pub fn reversed(chars: &[char]) -> (backwards: Vec<char>)
    ensures
        backwards@ == chars@.reverse(),
{
    let len = chars.len();
    let mut backwards: Vec<char> = Vec::new();
    let mut taken: usize = 0;
    while taken < len
        invariant
            len == chars@.len(),
            taken <= len,
            backwards@.len() == taken,
            forall|k: int| 0 <= k < taken ==> backwards@[k] == chars@[len - 1 - k],
        decreases len - taken,
    {
        backwards.push(chars[len - 1 - taken]);
        taken += 1;
    }
    assert(backwards@ =~= chars@.reverse());
    backwards
}

/// Where the line that holds the position `index` starts: behind the
/// nearest line feed in front of `index`, or at 0 where there is none. A
/// position behind the text counts as its end.
pub open spec fn spec_line_start(chars: Seq<char>, index: int) -> int
    decreases index,
{
    if index <= 0 {
        0
    } else if index > chars.len() {
        spec_line_start(chars, chars.len() as int)
    } else if chars[index - 1] == '\n' {
        index
    } else {
        spec_line_start(chars, index - 1)
    }
}

/// The start of the line that holds `current_index`, as a character offset.
pub fn find_line_start(text: &str, current_index: CCursor) -> (start: CCursor)
    ensures
        start == CCursor::spec_new(spec_line_start(text@, current_index.index as int) as usize),
        start.index <= current_index.index,
        start.index <= text@.len(),
        start.index == 0 || text@[start.index - 1] == '\n',
        forall|k: int|
            start.index <= k < current_index.index && k < text@.len() ==> text@[k] != '\n',
{
    let chars = chars_of(text);
    let from: usize = if current_index.index > chars.len() {
        chars.len()
    } else {
        current_index.index
    };
    let mut start: usize = from;
    while start > 0 && chars[start - 1] != '\n'
        invariant
            chars@ == text@,
            start <= from <= chars@.len(),
            spec_line_start(text@, from as int) == spec_line_start(text@, start as int),
            forall|k: int| start <= k < from ==> text@[k] != '\n',
        decreases start,
    {
        start -= 1;
    }
    CCursor::new(start)
}

/// The bytes that the UTF-8 encoding of `c` takes.
pub fn utf8_width(c: char) -> (width: usize)
    ensures
        width == encode_scalar(c as u32).len(),
        1 <= width <= 4,
{
    proof {
        char_is_scalar(c);
    }
    let v: u32 = c as u32;
    if v < 0x80 {
        1
    } else if v < 0x800 {
        2
    } else if v < 0x10000 {
        3
    } else {
        4
    }
}

/// Encoding a text piece by piece gives the pieces of its encoding.
pub proof fn lemma_encode_concat(a: Seq<char>, b: Seq<char>)
    ensures
        encode_utf8(a + b) == encode_utf8(a) + encode_utf8(b),
    decreases a.len(),
{
    if a.len() == 0 {
        assert(a + b =~= b);
        assert(encode_utf8(a) + encode_utf8(b) =~= encode_utf8(b));
    } else {
        lemma_encode_concat(a.drop_first(), b);
        assert((a + b).drop_first() =~= a.drop_first() + b);
        assert(encode_utf8(a + b) =~= encode_utf8(a) + encode_utf8(b));
    }
}

/// The byte offset at which the character with index `char_index` starts
/// in the UTF-8 encoding of `chars`; the length of the encoding where the
/// text has no such character.
pub open spec fn spec_byte_index(chars: Seq<char>, char_index: int) -> int {
    if char_index >= chars.len() {
        encode_utf8(chars).len() as int
    } else if char_index <= 0 {
        0
    } else {
        encode_utf8(chars.take(char_index)).len() as int
    }
}

/// Turns a character offset into `s` into a byte offset.
pub fn byte_index_from_char_index(s: &str, char_index: usize) -> (byte_index: usize)
    ensures
        byte_index == spec_byte_index(s@, char_index as int),
        byte_index <= s.spec_bytes().len(),
{
    let chars = chars_of(s);
    let bytes = s.as_bytes();
    let total: usize = bytes.len();
    let mut byte_index: usize = 0;
    let mut ci: usize = 0;
    assert(s@.take(0) =~= Seq::<char>::empty());
    while ci < chars.len() && ci < char_index
        invariant
            chars@ == s@,
            bytes@ == encode_utf8(s@),
            ci <= chars@.len(),
            ci <= char_index,
            byte_index == encode_utf8(s@.take(ci as int)).len(),
            total == bytes@.len(),
            byte_index <= total,
        decreases chars@.len() - ci,
    {
        proof {
            let head = s@.take(ci as int);
            let one = seq![s@[ci as int]];
            let rest = s@.skip(ci as int + 1);
            assert(s@.take(ci as int + 1) =~= head + one);
            assert(s@ =~= s@.take(ci as int + 1) + rest);
            lemma_encode_concat(head, one);
            lemma_encode_concat(s@.take(ci as int + 1), rest);
            assert(one.drop_first() =~= Seq::<char>::empty());
            let c = s@[ci as int];
            char_is_scalar(c);
            assert(encode_utf8(one) =~= encode_scalar(c as u32)) by {
                reveal_with_fuel(encode_utf8, 2);
            }
            assert(encode_utf8(s@.take(ci as int + 1)).len() == encode_utf8(head).len()
                + encode_scalar(c as u32).len());
            assert(encode_utf8(s@).len() == encode_utf8(s@.take(ci as int + 1)).len()
                + encode_utf8(rest).len());
            assert(chars@[ci as int] == c);
        }
        byte_index += utf8_width(chars[ci]);
        ci += 1;
    }
    assert(ci == chars@.len() ==> s@.take(ci as int) =~= s@);
    byte_index
}

/// The encoding of a text can be cut behind each of its characters.
pub proof fn lemma_boundary_after_prefix(a: Seq<char>, b: Seq<char>)
    ensures
        is_char_boundary(encode_utf8(a + b), encode_utf8(a).len() as int),
    decreases a.len(),
{
    let bytes = encode_utf8(a + b);
    encode_utf8_valid_utf8(a + b);
    if a.len() > 0 {
        let rest = a.drop_first();
        encode_utf8_first_scalar(a + b);
        lemma_encode_concat(a, b);
        lemma_boundary_after_prefix(rest, b);
        assert((a + b).drop_first() =~= rest + b);
        assert(pop_first_scalar(bytes) =~= encode_utf8(rest + b));
        assert(encode_utf8(a).len() == encode_scalar(a[0] as u32).len() + encode_utf8(rest).len());
    }
}

/// The characters of `s` from `char_range.start` up to `char_range.end`,
/// both counted in characters and cut off at the end of `s`.
pub fn slice_char_range(s: &str, char_range: std::ops::Range<usize>) -> (slice: &str)
    requires
        char_range.start <= char_range.end,
    ensures
        slice@ == spec_char_range(s@, char_range.start as int, char_range.end as int),
{
    let start_byte = byte_index_from_char_index(s, char_range.start);
    let end_byte = byte_index_from_char_index(s, char_range.end);
    let ghost len = s@.len() as int;
    let ghost from = if char_range.start > len { len } else { char_range.start as int };
    let ghost to = if char_range.end > len { len } else { char_range.end as int };
    let ghost head = s@.take(from);
    let ghost middle = s@.subrange(from, to);
    let ghost tail = s@.skip(to);
    proof {
        assert(s@.take(len) =~= s@);
        assert(s@.take(0) =~= Seq::<char>::empty());
        assert(s@.take(to) =~= head + middle);
        assert(s@ =~= s@.take(to) + tail);
        lemma_encode_concat(head, middle);
        lemma_encode_concat(s@.take(to), tail);
        lemma_boundary_after_prefix(s@.take(to), tail);
        lemma_boundary_after_prefix(head, middle);
        assert(start_byte == encode_utf8(head).len());
        assert(end_byte == encode_utf8(s@.take(to)).len());
    }
    let (front, _) = s.split_at(end_byte);
    proof {
        assert(front.spec_bytes() =~= encode_utf8(head + middle));
    }
    let (_, slice) = front.split_at(start_byte);
    proof {
        assert(slice.spec_bytes() =~= encode_utf8(middle));
        encode_utf8_decode_utf8(slice@);
        encode_utf8_decode_utf8(middle);
    }
    slice
}

/// The characters of `chars` with index from `start` up to `end`, as far
/// as `chars` has them.
pub open spec fn spec_char_range(chars: Seq<char>, start: int, end: int) -> Seq<char> {
    let from = if start > chars.len() {
        chars.len() as int
    } else {
        start
    };
    let to = if end > chars.len() {
        chars.len() as int
    } else {
        end
    };
    chars.subrange(from, to)
}

} // verus!
