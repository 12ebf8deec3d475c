//! A primary face and its fallbacks, looked up as one font.
//!
//! A character is shown by the first face that has a glyph for it, and by
//! a replacement glyph where no face has one. As with a single face, a
//! lookup that needs a glyph drawn says so, and is asked again once
//! [`Font::fulfil`] has been given the result.

use ahash::AHashMap;
use std::collections::BTreeSet;
use vstd::prelude::*;

use crate::cache::{set_cache_entries, set_cache_get, set_cache_insert, set_cache_new};
use crate::face::{
    fulfilled_request_is_found, BackendSays, FaceView, FontImpl, GlyphLookup, GlyphRequest,
};
use crate::glyph::{DrawnGlyph, GlyphInfo, Points, UvRect};

verus! {

/// The character whose glyph stands for every character that no face
/// shows: a white medium square.
pub const PRIMARY_REPLACEMENT_CHAR: char = '\u{25FB}';

/// The character that stands in where no face shows the square either.
pub const FALLBACK_REPLACEMENT_CHAR: char = '?';

/// The first of the printable ASCII characters, the space.
pub const FIRST_ASCII: u8 = 32;

/// The last of the printable ASCII characters, the tilde.
pub const LAST_ASCII: u8 = 126;

/// The degree sign.
pub const DEGREE_SIGN: char = '\u{b0}';

/// The bullet that is shown in place of each character of a password.
pub const PASSWORD_REPLACEMENT_CHAR: char = '\u{2022}';

/// A glyph that a face of a set needs drawn.
#[derive(Clone, Copy, Debug, PartialEq, Eq, Structural)]
pub struct PendingGlyph {
    /// The index of the face in the set.
    pub face: usize,
    /// What the face needs.
    pub request: GlyphRequest,
}

/// What a [`Font`] holds.
pub struct FontView {
    /// The faces, the primary one first.
    pub faces: Seq<FaceView>,
    /// The glyph shown for characters that no face shows, and the index
    /// of the face it comes from.
    pub replacement_glyph: (usize, GlyphInfo),
    pub pixels_per_point: Points,
    pub row_height: Points,
    /// For each character looked up so far, the face that shows it and
    /// its glyph.
    pub cache: Map<char, (usize, GlyphInfo)>,
    /// The code points of all characters that the faces list, once they
    /// have been gathered.
    pub characters: Option<Set<u32>>,
}

/// The views of `faces`, in order.
pub open spec fn face_views(faces: Seq<FontImpl>) -> Seq<FaceView> {
    faces.map_values(|face: FontImpl| face@)
}

/// How an attempt to make a set of `faces` ends.
pub enum NewFontView {
    /// The set stands.
    Ready(FontView),
    /// A face needs a glyph drawn first; the faces are handed back.
    Pending(Seq<FaceView>, PendingGlyph),
    /// No face shows either replacement character.
    NoReplacement,
}

impl FontView {
    /// The set of `faces` before any lookup, with the measures of its
    /// first face; without a face a point is a pixel and rows have no
    /// height.
    pub open spec fn start(faces: Seq<FaceView>) -> FontView {
        FontView {
            faces,
            replacement_glyph: (0usize, GlyphInfo::spec_default()),
            pixels_per_point: if faces.len() > 0 {
                faces[0].pixels_per_point
            } else {
                Points { bits: Points::ONE_BITS }
            },
            row_height: if faces.len() > 0 {
                faces[0].height_in_points
            } else {
                Points::spec_zero()
            },
            cache: Map::empty(),
            characters: None,
        }
    }

    /// The measures are those of the first face, and each face index that
    /// the set keeps names a face. There are no more faces than a machine
    /// can count.
    pub open spec fn wf(self) -> bool {
        &&& self.faces.len() <= usize::MAX
        &&& self.pixels_per_point == Self::start(self.faces).pixels_per_point
        &&& self.row_height == Self::start(self.faces).row_height
        &&& self.faces.len() > 0 ==> self.replacement_glyph.0 < self.faces.len()
        &&& self.faces.len() > 0 ==> forall|c: char| #[trigger]
            self.cache.contains_key(c) ==> self.cache[c].0 < self.faces.len()
    }

    /// Whether the two sets have as many faces, with backends at the same
    /// places.
    pub open spec fn same_backends(self, other: FontView) -> bool {
        &&& self.faces.len() == other.faces.len()
        &&& forall|i: int|
            0 <= i < self.faces.len() ==> (#[trigger] self.faces[i]).has_backend
                == other.faces[i].has_backend
    }

    /// Whether `says` can be what the backends of the faces said in a
    /// lookup of `c`, face by face.
    pub open spec fn hears(self, c: char, says: Seq<BackendSays>) -> bool {
        &&& says.len() == self.faces.len()
        &&& forall|i: int|
            0 <= i < self.faces.len() ==> (#[trigger] self.faces[i]).hears(c, says[i])
    }

    /// What the faces from index `from` on say of `c`, asked in order:
    /// the first that does not pass decides. Its glyph is kept for `c`
    /// together with its index.
    pub open spec fn search_from(self, c: char, says: Seq<BackendSays>, from: int) -> (
        Result<Option<(usize, GlyphInfo)>, PendingGlyph>,
        FontView,
    )
        decreases self.faces.len() - from,
    {
        if 0 <= from < self.faces.len() {
            let (lookup, face) = self.faces[from].lookup(c, says[from]);
            match lookup {
                GlyphLookup::Found(glyph) => (
                    Ok(Some((from as usize, glyph))),
                    FontView {
                        faces: self.faces.update(from, face),
                        cache: self.cache.insert(c, (from as usize, glyph)),
                        ..self
                    },
                ),
                GlyphLookup::Pending(request) => (
                    Err(PendingGlyph { face: from as usize, request }),
                    self,
                ),
                GlyphLookup::Unsupported => self.search_from(c, says, from + 1),
            }
        } else {
            (Ok(None), self)
        }
    }

    /// What the faces say of `c`, without regard to what the set has
    /// looked up before and without the replacement glyph.
    pub open spec fn search(self, c: char, says: Seq<BackendSays>) -> (
        Result<Option<(usize, GlyphInfo)>, PendingGlyph>,
        FontView,
    ) {
        self.search_from(c, says, 0)
    }

    /// The glyph for `c` and the face it comes from: what was looked up
    /// before, else what the faces say, else the replacement glyph. What
    /// is found is kept.
    pub open spec fn glyph_info(self, c: char, says: Seq<BackendSays>) -> (
        Result<(usize, GlyphInfo), PendingGlyph>,
        FontView,
    ) {
        if self.cache.contains_key(c) {
            (Ok(self.cache[c]), self)
        } else {
            let (found, after) = self.search(c, says);
            match found {
                Ok(Some(entry)) => (Ok(entry), after),
                Ok(None) => (
                    Ok(after.replacement_glyph),
                    FontView { cache: after.cache.insert(c, after.replacement_glyph), ..after },
                ),
                Err(pending) => (Err(pending), after),
            }
        }
    }

    /// The glyph for `c` and the index of its face; no face and the
    /// replacement glyph in a set without faces.
    pub open spec fn glyph_info_and_font_impl(self, c: char, says: Seq<BackendSays>) -> (
        Result<(Option<usize>, GlyphInfo), PendingGlyph>,
        FontView,
    ) {
        if self.faces.len() == 0 {
            (Ok((None, self.replacement_glyph.1)), self)
        } else {
            let (found, after) = self.glyph_info(c, says);
            match found {
                Ok(entry) => (Ok((Some(entry.0), entry.1)), after),
                Err(pending) => (Err(pending), after),
            }
        }
    }

    /// The set after `drawn` was handed in for `pending`: the face named
    /// takes the glyph. A face that the set does not have takes nothing.
    pub open spec fn fulfil(self, pending: PendingGlyph, drawn: DrawnGlyph) -> FontView {
        if pending.face < self.faces.len() {
            FontView {
                faces: self.faces.update(
                    pending.face as int,
                    self.faces[pending.face as int].fulfil(pending.request, drawn),
                ),
                ..self
            }
        } else {
            self
        }
    }

    /// How making a set of `faces` ends: the square is searched for, then
    /// the question mark, and the first found becomes the replacement.
    pub open spec fn new(
        faces: Seq<FaceView>,
        says_primary: Seq<BackendSays>,
        says_fallback: Seq<BackendSays>,
    ) -> NewFontView {
        let start = Self::start(faces);
        if faces.len() == 0 {
            NewFontView::Ready(start)
        } else {
            let (primary, after) = start.search(PRIMARY_REPLACEMENT_CHAR, says_primary);
            match primary {
                Ok(Some(entry)) => NewFontView::Ready(
                    FontView { replacement_glyph: entry, ..after },
                ),
                Err(pending) => NewFontView::Pending(after.faces, pending),
                Ok(None) => {
                    let (fallback, last) = after.search(FALLBACK_REPLACEMENT_CHAR, says_fallback);
                    match fallback {
                        Ok(Some(entry)) => NewFontView::Ready(
                            FontView { replacement_glyph: entry, ..last },
                        ),
                        Err(pending) => NewFontView::Pending(last.faces, pending),
                        Ok(None) => NewFontView::NoReplacement,
                    }
                },
            }
        }
    }

    /// The set after the first `count` of the common characters have been
    /// looked up in order, or as the first lookup that needs a glyph drawn
    /// has left it, and that lookup's request.
    pub open spec fn preload_upto(self, says: Seq<Seq<BackendSays>>, count: int) -> (
        Result<(), PendingGlyph>,
        FontView,
    )
        decreases count,
    {
        if count <= 0 {
            (Ok(()), self)
        } else {
            let (earlier, font) = self.preload_upto(says, count - 1);
            match earlier {
                Err(pending) => (Err(pending), font),
                Ok(_) => {
                    let (found, after) = font.glyph_info(
                        spec_common_characters()[count - 1],
                        says[count - 1],
                    );
                    match found {
                        Ok(_) => (Ok(()), after),
                        Err(pending) => (Err(pending), after),
                    }
                },
            }
        }
    }

    /// The code points of the characters that the faces show among those
    /// that their backends list, `listed[i]` being the list of face `i`.
    pub open spec fn gathered(self, listed: Seq<Seq<char>>) -> Set<u32> {
        Set::new(|v: u32| self.gathers(listed, self.faces.len() as int, v))
    }

    /// Whether one of the first `count` faces shows, among the characters
    /// listed for it, one with the code point `v`.
    pub open spec fn gathers(self, listed: Seq<Seq<char>>, count: int, v: u32) -> bool {
        exists|i: int, k: int|
            0 <= i < count && 0 <= k < self.faces[i].shown_among(listed[i]).len()
                && #[trigger] self.faces[i].shown_among(listed[i])[k] as u32 == v
    }

    /// The rectangle of the glyph kept for `c`, the empty one where none
    /// is kept.
    pub open spec fn uv_rect(self, c: char) -> UvRect {
        if self.cache.contains_key(c) {
            self.cache[c].1.uv_rect
        } else {
            UvRect::spec_default()
        }
    }
}

/// The characters that are worth drawing before they are needed: the
/// printable ASCII characters, the degree sign and the password bullet.
pub open spec fn spec_common_characters() -> Seq<char> {
    Seq::new((LAST_ASCII - FIRST_ASCII + 1) as nat, |k: int| (FIRST_ASCII + k) as u8 as char)
        + seq![DEGREE_SIGN, PASSWORD_REPLACEMENT_CHAR]
}

/// The number of common characters.
pub const COMMON_CHARACTERS: usize = 97;

/// The common character with the index `k`.
pub fn common_character(k: usize) -> (c: char)
    requires
        k < COMMON_CHARACTERS,
    ensures
        spec_common_characters().len() == COMMON_CHARACTERS,
        c == spec_common_characters()[k as int],
{
    if k < 95 {
        let code: u8 = FIRST_ASCII + k as u8;
        code as char
    } else if k == 95 {
        DEGREE_SIGN
    } else {
        PASSWORD_REPLACEMENT_CHAR
    }
}

/// What the backend of `face` is taken to have said where it was not asked.
pub open spec fn unasked(face: FaceView) -> BackendSays {
    BackendSays {
        glyph: if face.has_backend {
            Some(0u16)
        } else {
            None
        },
        space: if face.has_backend {
            Some(0u16)
        } else {
            None
        },
    }
}

/// The search passes over the faces that pass.
proof fn lemma_search_skips(
    font: FontView,
    c: char,
    says: Seq<BackendSays>,
    from: int,
    to: int,
)
    requires
        0 <= from <= to <= font.faces.len(),
        forall|k: int| from <= k < to ==> (#[trigger] font.faces[k]).passes(c, says[k]),
    ensures
        font.search_from(c, says, from) == font.search_from(c, says, to),
    decreases to - from,
{
    if from < to {
        assert(font.faces[from].lookup(c, says[from]).0 is Unsupported);
        lemma_search_skips(font, c, says, from + 1, to);
    }
}

/// A search keeps a sound set sound.
pub proof fn lemma_search_keeps_wf(font: FontView, c: char, says: Seq<BackendSays>, from: int)
    requires
        font.wf(),
        0 <= from,
    ensures
        ({
            let (found, after) = font.search_from(c, says, from);
            &&& after.wf()
            &&& after.faces.len() == font.faces.len()
            &&& after.replacement_glyph == font.replacement_glyph
            &&& after.characters == font.characters
            &&& after.pixels_per_point == font.pixels_per_point
            &&& after.row_height == font.row_height
            &&& after.same_backends(font)
            &&& match found {
                Ok(Some(entry)) => entry.0 < font.faces.len() && after.cache == font.cache.insert(
                    c,
                    entry,
                ),
                Ok(None) => after == font,
                Err(pending) => pending.face < font.faces.len() && after == font,
            }
        }),
    decreases font.faces.len() - from,
{
    if from < font.faces.len() {
        let (lookup, face) = font.faces[from].lookup(c, says[from]);
        match lookup {
            GlyphLookup::Found(glyph) => {
                let after = font.search_from(c, says, from).1;
                assert forall|d: char| #[trigger]
                    after.cache.contains_key(d) implies after.cache[d].0 < after.faces.len() by {
                    if d != c {
                        assert(font.cache.contains_key(d));
                    }
                }
            },
            GlyphLookup::Pending(_) => {},
            GlyphLookup::Unsupported => {
                lemma_search_keeps_wf(font, c, says, from + 1);
            },
        }
    }
}

/// A lookup keeps a sound set sound, forgets nothing that the set has
/// kept, and keeps what it finds.
pub proof fn lemma_glyph_info_keeps(font: FontView, c: char, says: Seq<BackendSays>)
    requires
        font.wf(),
    ensures
        ({
            let (found, after) = font.glyph_info(c, says);
            &&& after.wf()
            &&& after.same_backends(font)
            &&& after.replacement_glyph == font.replacement_glyph
            &&& after.characters == font.characters
            &&& after.pixels_per_point == font.pixels_per_point
            &&& after.row_height == font.row_height
            &&& forall|d: char| #[trigger]
                font.cache.contains_key(d) ==> after.cache.contains_key(d) && after.cache[d]
                    == font.cache[d]
            &&& match found {
                Ok(entry) => after.cache.contains_key(c) && after.cache[c] == entry,
                Err(pending) => pending.face < font.faces.len() && after == font,
            }
        }),
{
    if !font.cache.contains_key(c) {
        lemma_search_keeps_wf(font, c, says, 0);
        let (found, after) = font.search(c, says);
        if found == Ok::<Option<(usize, GlyphInfo)>, PendingGlyph>(None) {
            let last = font.glyph_info(c, says).1;
            assert forall|d: char| #[trigger]
                last.cache.contains_key(d) && last.faces.len() > 0 implies last.cache[d].0
                < last.faces.len() by {
                if d != c {
                    assert(font.cache.contains_key(d));
                }
            }
        }
    }
}

/// Whether what the backends can have said is the same for two sets with
/// backends at the same places.
proof fn lemma_hears_alike(a: FontView, b: FontView, c: char, says: Seq<BackendSays>)
    requires
        a.same_backends(b),
    ensures
        a.hears(c, says) == b.hears(c, says),
{
    if a.hears(c, says) {
        assert forall|i: int| 0 <= i < b.faces.len() implies (#[trigger] b.faces[i]).hears(
            c,
            says[i],
        ) by {
            assert(a.faces[i].hears(c, says[i]));
        }
    }
    if b.hears(c, says) {
        assert forall|i: int| 0 <= i < a.faces.len() implies (#[trigger] a.faces[i]).hears(
            c,
            says[i],
        ) by {
            assert(b.faces[i].hears(c, says[i]));
        }
    }
}

/// The first lookups of the common characters go by what was said in
/// them alone.
proof fn lemma_preload_prefix(
    font: FontView,
    a: Seq<Seq<BackendSays>>,
    b: Seq<Seq<BackendSays>>,
    count: int,
)
    requires
        forall|j: int| 0 <= j < count ==> a[j] == b[j],
    ensures
        font.preload_upto(a, count) == font.preload_upto(b, count),
    decreases count,
{
    if count > 0 {
        lemma_preload_prefix(font, a, b, count - 1);
    }
}

/// A search that ends with a request has it from the face it names.
proof fn lemma_pending_comes_from_its_face(
    font: FontView,
    c: char,
    says: Seq<BackendSays>,
    from: int,
)
    requires
        0 <= from,
        font.faces.len() <= usize::MAX,
        font.search_from(c, says, from).0 is Err,
    ensures
        ({
            let pending = font.search_from(c, says, from).0->Err_0;
            &&& from <= pending.face < font.faces.len()
            &&& font.faces[pending.face as int].lookup(c, says[pending.face as int]).0
                == GlyphLookup::Pending(pending.request)
        }),
    decreases font.faces.len() - from,
{
    if from < font.faces.len() {
        if font.faces[from].lookup(c, says[from]).0 is Unsupported {
            lemma_pending_comes_from_its_face(font, c, says, from + 1);
        }
    }
}

/// A lookup does not ask twice for the same thing: once what it asked
/// for has been handed in, it is answered, or asks for something else.
pub proof fn fulfilled_pending_is_not_asked_again(
    font: FontView,
    c: char,
    says: Seq<BackendSays>,
    drawn: DrawnGlyph,
    says_again: Seq<BackendSays>,
)
    requires
        font.wf(),
        font.glyph_info(c, says).0 is Err,
    ensures
        ({
            let pending = font.glyph_info(c, says).0->Err_0;
            let after = font.glyph_info(c, says).1.fulfil(pending, drawn);
            &&& pending.face < font.faces.len()
            &&& after.faces[pending.face as int].cache.contains_key(
                pending.request.spec_target(),
            )
            &&& after.glyph_info(c, says_again).0 != Err::<(usize, GlyphInfo), PendingGlyph>(
                pending,
            )
        }),
{
    lemma_pending_comes_from_its_face(font, c, says, 0);
    let pending = font.glyph_info(c, says).0->Err_0;
    let asked = font.glyph_info(c, says).1;
    assert(asked == font) by {
        lemma_search_unchanged_unless_found(font, c, says, 0);
    }
    let after = asked.fulfil(pending, drawn);
    let face = font.faces[pending.face as int];
    fulfilled_request_is_found(
        face,
        c,
        says[pending.face as int],
        drawn,
        says_again[pending.face as int],
    );
    if after.glyph_info(c, says_again).0 is Err {
        lemma_pending_comes_from_its_face(after, c, says_again, 0);
    }
}

/// A search that finds no glyph leaves the set as it is.
proof fn lemma_search_unchanged_unless_found(
    font: FontView,
    c: char,
    says: Seq<BackendSays>,
    from: int,
)
    requires
        0 <= from,
    ensures
        !(font.search_from(c, says, from).0 is Ok && font.search_from(c, says, from).0->Ok_0
            is Some) ==> font.search_from(c, says, from).1 == font,
    decreases font.faces.len() - from,
{
    if from < font.faces.len() {
        if font.faces[from].lookup(c, says[from]).0 is Unsupported {
            lemma_search_unchanged_unless_found(font, c, says, from + 1);
        }
    }
}

/// Looking a character up again finds what was found, and changes
/// nothing: a glyph is the same whether it was drawn for this lookup or
/// for an earlier one.
pub proof fn glyph_info_is_idempotent(
    font: FontView,
    c: char,
    says_first: Seq<BackendSays>,
    says_again: Seq<BackendSays>,
)
    requires
        font.wf(),
        font.glyph_info(c, says_first).0 is Ok,
    ensures
        font.glyph_info(c, says_first).1.glyph_info(c, says_again) == font.glyph_info(
            c,
            says_first,
        ),
{
    lemma_glyph_info_keeps(font, c, says_first);
}

/// A character that the set has not looked up, that the faces in front
/// of face `k` pass and that face `k` shows, comes from face `k`, with
/// the glyph that this face has for it.
pub proof fn first_face_that_shows_wins(
    font: FontView,
    c: char,
    says: Seq<BackendSays>,
    k: int,
)
    requires
        !font.cache.contains_key(c),
        0 <= k < font.faces.len(),
        forall|i: int| 0 <= i < k ==> (#[trigger] font.faces[i]).passes(c, says[i]),
        font.faces[k].lookup(c, says[k]).0 is Found,
    ensures
        font.glyph_info(c, says).0 == Ok::<(usize, GlyphInfo), PendingGlyph>(
            (k as usize, font.faces[k].lookup(c, says[k]).0->Found_0),
        ),
{
    lemma_search_skips(font, c, says, 0, k);
}

/// A character that the set has not looked up and that every face
/// passes is shown by the replacement glyph, which is kept for it.
pub proof fn unshown_character_gets_replacement(font: FontView, c: char, says: Seq<BackendSays>)
    requires
        !font.cache.contains_key(c),
        forall|i: int|
            0 <= i < font.faces.len() ==> (#[trigger] font.faces[i]).passes(c, says[i]),
    ensures
        font.glyph_info(c, says).0 == Ok::<(usize, GlyphInfo), PendingGlyph>(
            font.replacement_glyph,
        ),
        font.glyph_info(c, says).1.cache == font.cache.insert(c, font.replacement_glyph),
{
    lemma_search_skips(font, c, says, 0, font.faces.len() as int);
}

/// A set of faces that is looked up as one font.
pub struct Font {
    fonts: Vec<FontImpl>,
    characters: Option<BTreeSet<u32>>,
    replacement_glyph: (usize, GlyphInfo),
    pixels_per_point: Points,
    row_height: Points,
    glyph_info_cache: AHashMap<char, (usize, GlyphInfo)>,
}

impl View for Font {
    type V = FontView;

    closed spec fn view(&self) -> FontView {
        FontView {
            faces: face_views(self.fonts@),
            replacement_glyph: self.replacement_glyph,
            pixels_per_point: self.pixels_per_point,
            row_height: self.row_height,
            cache: set_cache_entries(self.glyph_info_cache),
            characters: match self.characters {
                Some(set) => Some(set@),
                None => None,
            },
        }
    }
}

/// Why [`Font::new`] has not made a set.
pub enum NewFontError {
    /// A face needs a glyph drawn before the replacement glyph is known.
    /// The faces are handed back: fulfil the request on the face named,
    /// and try again.
    Pending { fonts: Vec<FontImpl>, pending: PendingGlyph },
    /// No face shows either replacement character, so that the set could
    /// show nothing for a character it lacks.
    NoReplacement,
}

/// Whether making a set ended as `outcome` says.
pub open spec fn new_font_is(made: Result<Font, NewFontError>, outcome: NewFontView) -> bool {
    match made {
        Ok(font) => outcome == NewFontView::Ready(font@),
        Err(NewFontError::Pending { fonts, pending }) => outcome == NewFontView::Pending(
            face_views(fonts@),
            pending,
        ),
        Err(NewFontError::NoReplacement) => outcome is NoReplacement,
    }
}

impl Font {
    /// Asks the faces in order for `c`, and keeps what the first that
    /// shows it gives.
    fn glyph_info_no_cache_or_fallback(&mut self, c: char) -> (found: Result<
        Option<(usize, GlyphInfo)>,
        PendingGlyph,
    >)
        requires
            old(self)@.wf(),
        ensures
            final(self)@.wf(),
            exists|says: Seq<BackendSays>|
                old(self)@.hears(c, says) && (found, final(self)@) == old(self)@.search(c, says),
    {
        let n = self.fonts.len();
        let ghost before = self@;
        let ghost mut says: Seq<BackendSays> = Seq::new(
            n as nat,
            |k: int| unasked(before.faces[k]),
        );
        let mut i: usize = 0;
        while i < n
            invariant
                n == self.fonts@.len(),
                i <= n,
                self@ == before,
                before == old(self)@,
                before.wf(),
                before.hears(c, says),
                forall|k: int| 0 <= k < i ==> (#[trigger] before.faces[k]).passes(c, says[k]),
            decreases n - i,
        {
            let ghost face_before = self.fonts@[i as int]@;
            assert(face_before == before.faces[i as int]);
            let lookup = self.fonts[i].glyph_info(c);
            let ghost face_after = self.fonts@[i as int]@;
            proof {
                let heard = choose|heard: BackendSays|
                    face_before.hears(c, heard) && (lookup, face_after) == face_before.lookup(
                        c,
                        heard,
                    );
                says = says.update(i as int, heard);
                assert(before.hears(c, says)) by {
                    assert forall|k: int| 0 <= k < before.faces.len() implies (
                    #[trigger] before.faces[k]).hears(c, says[k]) by {}
                }
                assert(self@.faces =~= before.faces.update(i as int, face_after));
                lemma_search_skips(before, c, says, 0, i as int);
                lemma_search_keeps_wf(before, c, says, 0);
            }
            match lookup {
                GlyphLookup::Found(glyph) => {
                    set_cache_insert(&mut self.glyph_info_cache, c, (i, glyph));
                    let found = Ok(Some((i, glyph)));
                    proof {
                        assert(self@.faces =~= before.faces.update(i as int, face_after));
                        assert(self@ == before.search(c, says).1);
                        assert(before.hears(c, says) && (found, self@) == before.search(c, says));
                    }
                    return found;
                },
                GlyphLookup::Pending(request) => {
                    let found = Err(PendingGlyph { face: i, request });
                    proof {
                        assert(face_after == face_before);
                        assert(self@.faces =~= before.faces);
                        assert(before.hears(c, says) && (found, self@) == before.search(c, says));
                    }
                    return found;
                },
                GlyphLookup::Unsupported => {
                    proof {
                        assert(face_after == face_before);
                        assert(self@.faces =~= before.faces);
                    }
                },
            }
            i += 1;
        }
        proof {
            lemma_search_skips(before, c, says, 0, n as int);
            let found = Ok::<Option<(usize, GlyphInfo)>, PendingGlyph>(None);
            assert(before.hears(c, says) && (found, self@) == before.search(c, says));
        }
        Ok(None)
    }

    /// Makes a set of `fonts`, the primary face first. The glyph of the
    /// square, or else that of the question mark, becomes the
    /// replacement glyph; it is kept under its own character as well.
    pub fn new(fonts: Vec<FontImpl>) -> (made: Result<Font, NewFontError>)
        ensures
            exists|says_primary: Seq<BackendSays>, says_fallback: Seq<BackendSays>|
                {
                    let start = FontView::start(face_views(fonts@));
                    &&& start.hears(PRIMARY_REPLACEMENT_CHAR, says_primary)
                    &&& start.hears(FALLBACK_REPLACEMENT_CHAR, says_fallback)
                    &&& new_font_is(
                        made,
                        #[trigger] FontView::new(face_views(fonts@), says_primary, says_fallback),
                    )
                },
            fonts@.len() == 0 ==> made is Ok,
            made is Ok ==> made->Ok_0@.wf(),
    {
        let ghost faces = face_views(fonts@);
        let ghost start = FontView::start(faces);
        let ghost quiet = Seq::new(faces.len(), |k: int| unasked(faces[k]));
        assert(start.hears(PRIMARY_REPLACEMENT_CHAR, quiet));
        assert(start.hears(FALLBACK_REPLACEMENT_CHAR, quiet));
        if fonts.len() == 0 {
            let font = Font {
                fonts,
                characters: None,
                replacement_glyph: (0, GlyphInfo::default()),
                pixels_per_point: Points::one(),
                row_height: Points::zero(),
                glyph_info_cache: set_cache_new(),
            };
            assert(font@ == start);
            assert(new_font_is(Ok(font), FontView::new(faces, quiet, quiet)));
            return Ok(font);
        }
        let pixels_per_point = fonts[0].pixels_per_point();
        let row_height = fonts[0].row_height();
        let mut slf = Font {
            fonts,
            characters: None,
            replacement_glyph: (0, GlyphInfo::default()),
            pixels_per_point,
            row_height,
            glyph_info_cache: set_cache_new(),
        };
        assert(slf@ == start);
        let primary = slf.glyph_info_no_cache_or_fallback(PRIMARY_REPLACEMENT_CHAR);
        let ghost says_primary = choose|says: Seq<BackendSays>|
            start.hears(PRIMARY_REPLACEMENT_CHAR, says) && (primary, slf@) == start.search(
                PRIMARY_REPLACEMENT_CHAR,
                says,
            );
        let ghost after = slf@;
        proof {
            lemma_search_keeps_wf(start, PRIMARY_REPLACEMENT_CHAR, says_primary, 0);
        }
        match primary {
            Ok(Some(entry)) => {
                slf.replacement_glyph = entry;
                assert(new_font_is(Ok(slf), FontView::new(faces, says_primary, quiet)));
                Ok(slf)
            },
            Err(pending) => {
                let made = Err(NewFontError::Pending { fonts: slf.fonts, pending });
                assert(new_font_is(made, FontView::new(faces, says_primary, quiet)));
                made
            },
            Ok(None) => {
                let fallback = slf.glyph_info_no_cache_or_fallback(FALLBACK_REPLACEMENT_CHAR);
                let ghost says_fallback = choose|says: Seq<BackendSays>|
                    after.hears(FALLBACK_REPLACEMENT_CHAR, says) && (fallback, slf@)
                        == after.search(FALLBACK_REPLACEMENT_CHAR, says);
                proof {
                    lemma_search_keeps_wf(after, FALLBACK_REPLACEMENT_CHAR, says_fallback, 0);
                    assert(start.hears(FALLBACK_REPLACEMENT_CHAR, says_fallback));
                }
                match fallback {
                    Ok(Some(entry)) => {
                        slf.replacement_glyph = entry;
                        assert(new_font_is(
                            Ok(slf),
                            FontView::new(faces, says_primary, says_fallback),
                        ));
                        Ok(slf)
                    },
                    Err(pending) => {
                        let made = Err(NewFontError::Pending { fonts: slf.fonts, pending });
                        assert(new_font_is(
                            made,
                            FontView::new(faces, says_primary, says_fallback),
                        ));
                        made
                    },
                    Ok(None) => {
                        let made = Err(NewFontError::NoReplacement);
                        assert(new_font_is(
                            made,
                            FontView::new(faces, says_primary, says_fallback),
                        ));
                        made
                    },
                }
            },
        }
    }

    /// Takes the set apart. The faces keep the glyphs that were drawn for
    /// them, so that another set made of them need not have them drawn
    /// again.
    pub fn into_faces(self) -> (fonts: Vec<FontImpl>)
        ensures
            face_views(fonts@) == self@.faces,
    {
        self.fonts
    }

    /// The number of faces.
    pub fn num_faces(&self) -> (n: usize)
        ensures
            n == self@.faces.len(),
    {
        self.fonts.len()
    }

    /// The face with the index `index`.
    pub fn face(&self, index: usize) -> (face: Option<&FontImpl>)
        ensures
            face is Some <==> index < self@.faces.len(),
            face is Some ==> face->0@ == self@.faces[index as int],
    {
        if index < self.fonts.len() {
            Some(&self.fonts[index])
        } else {
            None
        }
    }

    /// The height of one row of text: that of the first face.
    pub fn row_height(&self) -> (height: Points)
        ensures
            height == self@.row_height,
    {
        self.row_height
    }

    /// The pixels that a point takes: as the first face has it.
    pub fn pixels_per_point(&self) -> (ratio: Points)
        ensures
            ratio == self@.pixels_per_point,
    {
        self.pixels_per_point
    }

    /// The glyph shown for characters that no face shows, and the index
    /// of its face.
    pub fn replacement_glyph(&self) -> (entry: (usize, GlyphInfo))
        ensures
            entry == self@.replacement_glyph,
    {
        self.replacement_glyph
    }

    /// The rectangle of the glyph that a lookup of `c` has found before;
    /// the empty rectangle for a character not looked up yet.
    pub fn uv_rect(&self, c: char) -> (rect: UvRect)
        ensures
            rect == self@.uv_rect(c),
    {
        match set_cache_get(&self.glyph_info_cache, c) {
            Some(entry) => entry.1.uv_rect,
            None => UvRect::default(),
        }
    }

    /// The glyph for `c` and the index of the face it comes from. A line
    /// feed is looked up like any character, and so ends up with the
    /// replacement glyph.
    pub fn glyph_info(&mut self, c: char) -> (found: Result<(usize, GlyphInfo), PendingGlyph>)
        requires
            old(self)@.wf(),
        ensures
            final(self)@.wf(),
            exists|says: Seq<BackendSays>|
                old(self)@.hears(c, says) && (found, final(self)@) == old(self)@.glyph_info(
                    c,
                    says,
                ),
            old(self)@.cache.contains_key(c) ==> found == Ok::<(usize, GlyphInfo), PendingGlyph>(
                old(self)@.cache[c],
            ) && final(self)@ == old(self)@,
            match found {
                Ok(entry) => final(self)@.cache.contains_key(c) && final(self)@.cache[c] == entry,
                Err(pending) => pending.face < old(self)@.faces.len()
                    && final(self)@ == old(self)@,
            },
    {
        let ghost before = self@;
        if let Some(entry) = set_cache_get(&self.glyph_info_cache, c) {
            proof {
                let quiet = Seq::new(before.faces.len(), |k: int| unasked(before.faces[k]));
                let found = Ok::<(usize, GlyphInfo), PendingGlyph>(entry);
                assert(before.hears(c, quiet) && (found, self@) == before.glyph_info(c, quiet));
            }
            return Ok(entry);
        }
        let searched = self.glyph_info_no_cache_or_fallback(c);
        let ghost says = choose|says: Seq<BackendSays>|
            before.hears(c, says) && (searched, self@) == before.search(c, says);
        proof {
            lemma_search_keeps_wf(before, c, says, 0);
        }
        match searched {
            Ok(Some(entry)) => {
                let found = Ok(entry);
                assert(before.hears(c, says) && (found, self@) == before.glyph_info(c, says));
                found
            },
            Ok(None) => {
                let entry = self.replacement_glyph;
                set_cache_insert(&mut self.glyph_info_cache, c, entry);
                proof {
                    let found = Ok::<(usize, GlyphInfo), PendingGlyph>(entry);
                    assert(before.hears(c, says) && (found, self@) == before.glyph_info(c, says));
                    assert forall|d: char| #[trigger]
                        self@.cache.contains_key(d) && self@.faces.len() > 0 implies (
                    self@.cache[d].0) < self@.faces.len() by {
                        if d != c {
                            assert(before.cache.contains_key(d));
                        }
                    }
                }
                Ok(entry)
            },
            Err(pending) => {
                let found = Err(pending);
                assert(before.hears(c, says) && (found, self@) == before.glyph_info(c, says));
                found
            },
        }
    }

    /// The glyph for `c` and the index of the face it comes from; no face
    /// and the replacement glyph where the set has no faces.
    pub fn glyph_info_and_font_impl(&mut self, c: char) -> (found: Result<
        (Option<usize>, GlyphInfo),
        PendingGlyph,
    >)
        requires
            old(self)@.wf(),
        ensures
            final(self)@.wf(),
            exists|says: Seq<BackendSays>|
                old(self)@.hears(c, says) && (found, final(self)@)
                    == old(self)@.glyph_info_and_font_impl(c, says),
            found is Ok && found->Ok_0.0 is Some ==> found->Ok_0.0->0 < final(self)@.faces.len(),
    {
        let ghost before = self@;
        if self.fonts.len() == 0 {
            let found = Ok((None, self.replacement_glyph.1));
            proof {
                let quiet = Seq::<BackendSays>::empty();
                assert(before.hears(c, quiet) && (found, self@) == before.glyph_info_and_font_impl(
                    c,
                    quiet,
                ));
            }
            return found;
        }
        let looked_up = self.glyph_info(c);
        let ghost says = choose|says: Seq<BackendSays>|
            before.hears(c, says) && (looked_up, self@) == before.glyph_info(c, says);
        proof {
            if before.cache.contains_key(c) {
            } else {
                lemma_search_keeps_wf(before, c, says, 0);
            }
        }
        match looked_up {
            Ok(entry) => {
                let found = Ok((Some(entry.0), entry.1));
                assert(before.hears(c, says) && (found, self@) == before.glyph_info_and_font_impl(
                    c,
                    says,
                ));
                found
            },
            Err(pending) => {
                let found = Err(pending);
                assert(before.hears(c, says) && (found, self@) == before.glyph_info_and_font_impl(
                    c,
                    says,
                ));
                found
            },
        }
    }

    /// How far `c` moves the pen, in points.
    pub fn glyph_width(&mut self, c: char) -> (width: Result<Points, PendingGlyph>)
        requires
            old(self)@.wf(),
        ensures
            final(self)@.wf(),
            exists|says: Seq<BackendSays>|
                old(self)@.hears(c, says) && final(self)@ == old(self)@.glyph_info(c, says).1
                    && width == match old(self)@.glyph_info(c, says).0 {
                    Ok(entry) => Ok::<Points, PendingGlyph>(entry.1.advance_width),
                    Err(pending) => Err::<Points, PendingGlyph>(pending),
                },
    {
        let ghost before = self@;
        let looked_up = self.glyph_info(c);
        let ghost says = choose|says: Seq<BackendSays>|
            before.hears(c, says) && (looked_up, self@) == before.glyph_info(c, says);
        let width = match looked_up {
            Ok(entry) => Ok(entry.1.advance_width),
            Err(pending) => Err(pending),
        };
        assert(before.hears(c, says) && self@ == before.glyph_info(c, says).1 && width
            == match before.glyph_info(c, says).0 {
            Ok(entry) => Ok::<Points, PendingGlyph>(entry.1.advance_width),
            Err(pending) => Err::<Points, PendingGlyph>(pending),
        });
        width
    }

    /// Takes what was drawn for `pending`, for the face that asked.
    pub fn fulfil(&mut self, pending: PendingGlyph, drawn: DrawnGlyph)
        requires
            old(self)@.wf(),
        ensures
            final(self)@.wf(),
            final(self)@ == old(self)@.fulfil(pending, drawn),
    {
        let ghost before = self@;
        if pending.face < self.fonts.len() {
            self.fonts[pending.face].fulfil(pending.request, drawn);
            proof {
                assert(self@.faces =~= before.faces.update(
                    pending.face as int,
                    before.faces[pending.face as int].fulfil(pending.request, drawn),
                ));
            }
        }
    }

    /// Looks up the common characters, so that their glyphs are drawn
    /// before a text needs them. The lookups stop at the first that
    /// needs a glyph drawn: fulfil its request and call again, until
    /// nothing is pending.
    pub fn preload_common_characters(&mut self) -> (done: Result<(), PendingGlyph>)
        requires
            old(self)@.wf(),
        ensures
            final(self)@.wf(),
            exists|says: Seq<Seq<BackendSays>>|
                {
                    &&& says.len() <= COMMON_CHARACTERS
                    &&& forall|j: int|
                        0 <= j < says.len() ==> old(self)@.hears(
                            spec_common_characters()[j],
                            #[trigger] says[j],
                        )
                    &&& (done, final(self)@) == old(self)@.preload_upto(says, says.len() as int)
                    &&& done is Ok ==> says.len() == COMMON_CHARACTERS
                },
            done is Ok ==> forall|j: int|
                0 <= j < COMMON_CHARACTERS ==> final(self)@.cache.contains_key(
                    #[trigger] spec_common_characters()[j],
                ),
    {
        let ghost before = self@;
        let ghost mut says: Seq<Seq<BackendSays>> = Seq::empty();
        let mut k: usize = 0;
        while k < COMMON_CHARACTERS
            invariant
                k <= COMMON_CHARACTERS,
                before == old(self)@,
                before.wf(),
                self@.wf(),
                self@.same_backends(before),
                says.len() == k,
                forall|j: int|
                    0 <= j < k ==> before.hears(spec_common_characters()[j], #[trigger] says[j]),
                (Ok::<(), PendingGlyph>(()), self@) == before.preload_upto(says, k as int),
                forall|j: int|
                    0 <= j < k ==> self@.cache.contains_key(#[trigger] spec_common_characters()[j]),
            decreases COMMON_CHARACTERS - k,
        {
            let c = common_character(k);
            let ghost font = self@;
            let looked_up = self.glyph_info(c);
            proof {
                let heard = choose|heard: Seq<BackendSays>|
                    font.hears(c, heard) && (looked_up, self@) == font.glyph_info(c, heard);
                let longer = says.push(heard);
                lemma_preload_prefix(before, says, longer, k as int);
                lemma_hears_alike(font, before, c, heard);
                lemma_glyph_info_keeps(font, c, heard);
                assert(longer[k as int] == heard);
                assert forall|j: int| 0 <= j < k + 1 implies before.hears(
                    spec_common_characters()[j],
                    #[trigger] longer[j],
                ) by {
                    if j < k {
                        assert(longer[j] == says[j]);
                    }
                }
                says = longer;
                assert(self@.same_backends(before)) by {
                    assert forall|i: int| 0 <= i < self@.faces.len() implies (
                    #[trigger] self@.faces[i]).has_backend == before.faces[i].has_backend by {
                        assert(font.faces[i].has_backend == before.faces[i].has_backend);
                    }
                }
            }
            match looked_up {
                Ok(_) => {
                    assert forall|j: int| 0 <= j < k + 1 implies self@.cache.contains_key(
                        #[trigger] spec_common_characters()[j],
                    ) by {
                        if j < k {
                            assert(font.cache.contains_key(spec_common_characters()[j]));
                        }
                    }
                },
                Err(pending) => {
                    proof {
                        assert((Err::<(), PendingGlyph>(pending), self@) == before.preload_upto(
                            says,
                            says.len() as int,
                        ));
                    }
                    return Err(pending);
                },
            }
            k += 1;
        }
        Ok(())
    }

    /// The code points of all characters that the faces list and show.
    /// They are gathered at the first call and kept.
    pub fn characters(&mut self) -> (set: &BTreeSet<u32>)
        requires
            old(self)@.wf(),
        ensures
            final(self)@ == (FontView { characters: Some(set@), ..old(self)@ }),
            old(self)@.characters is Some ==> set@ == old(self)@.characters->0,
            old(self)@.characters is None ==> exists|listed: Seq<Seq<char>>|
                listed.len() == old(self)@.faces.len() && set@ == old(self)@.gathered(listed),
    {
        let ghost before = self@;
        if self.characters.is_none() {
            let mut set: BTreeSet<u32> = BTreeSet::new();
            let ghost mut listed: Seq<Seq<char>> = Seq::empty();
            let n = self.fonts.len();
            let mut i: usize = 0;
            while i < n
                invariant
                    n == self.fonts@.len(),
                    i <= n,
                    self@ == before,
                    listed.len() == i,
                    forall|v: u32| set@.contains(v) <==> before.gathers(listed, i as int, v),
                decreases n - i,
            {
                let ghost earlier = listed;
                let shown = self.fonts[i].characters();
                let ghost face = before.faces[i as int];
                assert(face == self.fonts@[i as int]@);
                match shown {
                    Some(shown) => {
                        proof {
                            let of_face = choose|of_face: Seq<char>|
                                shown@ == face.shown_among(of_face);
                            listed = earlier.push(of_face);
                        }
                        let mut k: usize = 0;
                        while k < shown.len()
                            invariant
                                k <= shown@.len(),
                                i < n,
                                n == before.faces.len(),
                                face == before.faces[i as int],
                                listed.len() == i + 1,
                                listed.take(i as int) == earlier,
                                earlier.len() == i,
                                shown@ == face.shown_among(listed[i as int]),
                                forall|v: u32|
                                    set@.contains(v) <==> (before.gathers(earlier, i as int, v)
                                        || exists|j: int|
                                        0 <= j < k && #[trigger] shown@[j] as u32 == v),
                            decreases shown@.len() - k,
                        {
                            let v: u32 = shown[k] as u32;
                            insert_code_point(&mut set, v);
                            k += 1;
                        }
                    },
                    None => {
                        proof {
                            listed = earlier.push(Seq::empty());
                            assert(listed.take(i as int) == earlier);
                            assert(face.shown_among(Seq::empty()).len() == 0) by {
                                reveal(Seq::filter);
                            }
                        }
                    },
                }
                proof {
                    assert(listed.take(i as int) =~= earlier);
                    assert forall|v: u32| set@.contains(v) <==> before.gathers(
                        listed,
                        i as int + 1,
                        v,
                    ) by {
                        lemma_gathers_prefix(before, earlier, listed, i as int, v);
                        if before.gathers(listed, i as int + 1, v) {
                            let (f, j) = choose|f: int, j: int|
                                0 <= f < i + 1 && 0 <= j < before.faces[f].shown_among(
                                    listed[f],
                                ).len() && #[trigger] before.faces[f].shown_among(
                                    listed[f],
                                )[j] as u32 == v;
                            if f < i {
                                assert(before.gathers(listed, i as int, v));
                            }
                        }
                        if before.gathers(earlier, i as int, v) {
                            assert(before.gathers(listed, i as int, v));
                        }
                    }
                }
                i += 1;
            }
            proof {
                assert(set@ =~= before.gathered(listed));
            }
            self.characters = Some(set);
        }
        match &self.characters {
            Some(set) => set,
            None => vstd::pervasive::unreached(),
        }
    }
}

/// Puts `v` into `set`.
fn insert_code_point(set: &mut BTreeSet<u32>, v: u32)
    ensures
        final(set)@ == old(set)@.insert(v),
{
    broadcast use vstd::laws_cmp::group_laws_cmp;

    set.insert(v);
}

/// Whether a code point is gathered from the first faces goes by the
/// lists of those faces alone.
proof fn lemma_gathers_prefix(
    font: FontView,
    a: Seq<Seq<char>>,
    b: Seq<Seq<char>>,
    count: int,
    v: u32,
)
    requires
        forall|i: int| 0 <= i < count ==> a[i] == b[i],
    ensures
        font.gathers(a, count, v) == font.gathers(b, count, v),
{
    if font.gathers(a, count, v) {
        let (f, j) = choose|f: int, j: int|
            0 <= f < count && 0 <= j < font.faces[f].shown_among(a[f]).len()
                && #[trigger] font.faces[f].shown_among(a[f])[j] as u32 == v;
        assert(font.faces[f].shown_among(b[f])[j] as u32 == v);
    }
    if font.gathers(b, count, v) {
        let (f, j) = choose|f: int, j: int|
            0 <= f < count && 0 <= j < font.faces[f].shown_among(b[f]).len()
                && #[trigger] font.faces[f].shown_among(b[f])[j] as u32 == v;
        assert(font.faces[f].shown_among(a[f])[j] as u32 == v);
    }
}

} // verus!
