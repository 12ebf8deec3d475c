//! One font face at one size: which characters it shows, and the glyphs
//! it has drawn so far.
//!
//! A face draws nothing itself. Where a glyph has to be drawn before a
//! lookup can be answered, the lookup says what is to be drawn, and the
//! caller hands the result to [`FontImpl::fulfil`] and asks again.

use ab_glyph::FontArc;
use ahash::AHashMap;
use vstd::prelude::*;

use crate::cache::{face_cache_entries, face_cache_get, face_cache_insert, face_cache_new};
use crate::glyph::{DrawnGlyph, GlyphInfo, Points, UvRect};
use crate::shaping::{shaping_codepoints, shaping_glyph_id};
use crate::text::chars_of;

verus! {

/// The number of spaces that a tab is as wide as.
pub const TAB_SIZE: usize = 4;

/// Characters that no face shows, whatever its font holds for them: two
/// forms of a symbol that is not to be drawn, and four private code points
/// that one widespread font fills with its maker's logos.
pub const IGNORED_CHARACTERS: [char; 6] = [
    '\u{534d}',
    '\u{5350}',
    '\u{E0FF}',
    '\u{EFFD}',
    '\u{F0FF}',
    '\u{F200}',
];

/// The first of a run of full-width capital letters that the icon font
/// `emoji-icon-font` draws wrongly.
pub const FIRST_MISDRAWN_CAPITAL: char = '\u{FF33}';

/// The last of that run.
pub const LAST_MISDRAWN_CAPITAL: char = '\u{FF39}';

/// Whether `c` is a formatting character that takes no room: one of the
/// code points from U+200B to U+206F.
pub open spec fn spec_invisible_char(c: char) -> bool {
    '\u{200B}' <= c <= '\u{206F}'
}

/// Whether `c` is a formatting character that takes no room.
#[verifier::when_used_as_spec(spec_invisible_char)]
pub fn invisible_char(c: char) -> (invisible: bool)
    ensures
        invisible == spec_invisible_char(c),
{
    '\u{200B}' <= c && c <= '\u{206F}'
}

/// Whether the face called `name` leaves `c` to other faces: `c` is on
/// the list of ignored characters, or the face is the icon font and `c`
/// one of the capitals that it draws wrongly.
pub open spec fn spec_ignore_character(name: Seq<char>, c: char) -> bool {
    ||| name == "emoji-icon-font"@ && FIRST_MISDRAWN_CAPITAL <= c <= LAST_MISDRAWN_CAPITAL
    ||| exists|k: int| 0 <= k < IGNORED_CHARACTERS@.len() && IGNORED_CHARACTERS@[k] == c
}

/// What a face needs drawn before it can answer.
#[derive(Clone, Copy, Debug, PartialEq, Eq, Structural)]
pub enum GlyphRequest {
    /// The glyph `id` of the shaping backend, which is the one for `c`.
    Outline { c: char, id: u16 },
    /// The character `c`, by the platform's own text surface: the face
    /// has no shaping backend.
    Native { c: char },
    /// Nothing is to be drawn, but an advance to be worked out: that of a
    /// tab, `tab_size` times the advance `space_advance` of a space.
    TabAdvance { space_advance: Points, tab_size: usize },
}

/// What a face says of a character.
#[derive(Clone, Copy, Debug, PartialEq, Eq, Structural)]
pub enum GlyphLookup {
    /// The face shows the character with this glyph.
    Found(GlyphInfo),
    /// The face does not show the character: another face may.
    Unsupported,
    /// The face shows the character, once this has been done.
    Pending(GlyphRequest),
}

/// What the shaping backend of a face said in the course of one lookup:
/// the glyph number it has for the character asked for and, in the lookup
/// of a tab, the one it has for a space. A face without a backend hears
/// nothing.
#[derive(Clone, Copy, Debug, PartialEq, Eq, Structural)]
pub struct BackendSays {
    pub glyph: Option<u16>,
    pub space: Option<u16>,
}

/// What a [`FontImpl`] holds.
pub struct FaceView {
    pub name: Seq<char>,
    /// Whether the face has a shaping backend; the platform's own text
    /// surface draws for a face without one.
    pub has_backend: bool,
    /// The height of the tallest character, in pixels.
    pub scale_in_pixels: u32,
    /// The height of a row of text.
    pub height_in_points: Points,
    /// How far each glyph is moved down, to look centred.
    pub y_offset: Points,
    pub pixels_per_point: Points,
    /// The glyphs drawn so far.
    pub cache: Map<char, GlyphInfo>,
}

impl GlyphRequest {
    /// The character whose glyph the request leads to.
    pub open spec fn spec_target(self) -> char {
        match self {
            GlyphRequest::Outline { c, .. } => c,
            GlyphRequest::Native { c } => c,
            GlyphRequest::TabAdvance { .. } => '\t',
        }
    }

    /// The character whose glyph the request leads to.
    #[verifier::when_used_as_spec(spec_target)]
    pub fn target(self) -> (c: char)
        ensures
            c == self.spec_target(),
    {
        match self {
            GlyphRequest::Outline { c, .. } => c,
            GlyphRequest::Native { c } => c,
            GlyphRequest::TabAdvance { .. } => '\t',
        }
    }

    /// The glyph that the request leads to, given what was drawn for it:
    /// an outline keeps the number it was asked by, a glyph of the
    /// platform's surface has the number 0, and a tab is the empty glyph
    /// with the advance that was worked out.
    pub open spec fn spec_glyph(self, drawn: DrawnGlyph) -> GlyphInfo {
        match self {
            GlyphRequest::Outline { id, .. } => GlyphInfo {
                id,
                advance_width: drawn.advance_width,
                uv_rect: drawn.uv_rect,
            },
            GlyphRequest::Native { .. } => GlyphInfo {
                id: 0,
                advance_width: drawn.advance_width,
                uv_rect: drawn.uv_rect,
            },
            GlyphRequest::TabAdvance { .. } => GlyphInfo {
                id: 0,
                advance_width: drawn.advance_width,
                uv_rect: UvRect::spec_default(),
            },
        }
    }

    /// The glyph that the request leads to, given what was drawn for it.
    #[verifier::when_used_as_spec(spec_glyph)]
    pub fn glyph(self, drawn: DrawnGlyph) -> (glyph: GlyphInfo)
        ensures
            glyph == self.spec_glyph(drawn),
    {
        match self {
            GlyphRequest::Outline { id, .. } => GlyphInfo {
                id,
                advance_width: drawn.advance_width,
                uv_rect: drawn.uv_rect,
            },
            GlyphRequest::Native { .. } => GlyphInfo {
                id: 0,
                advance_width: drawn.advance_width,
                uv_rect: drawn.uv_rect,
            },
            GlyphRequest::TabAdvance { .. } => GlyphInfo {
                id: 0,
                advance_width: drawn.advance_width,
                uv_rect: UvRect::default(),
            },
        }
    }
}

impl FaceView {
    /// A face draws at some size, for a screen of some density.
    pub open spec fn wf(self) -> bool {
        self.scale_in_pixels > 0 && self.pixels_per_point.spec_is_positive()
    }

    /// Whether `says` can be what this face's backend said in a lookup of
    /// `c`: where there is a backend it has a glyph number for `c` and,
    /// if `c` is a tab, one for a space; where there is none, nothing says
    /// anything.
    pub open spec fn hears(self, c: char, says: BackendSays) -> bool {
        &&& says.glyph is Some <==> self.has_backend
        &&& says.space is Some ==> self.has_backend
        &&& c == '\t' && self.has_backend ==> says.space is Some
    }

    /// The face with `glyph` kept for `c`.
    pub open spec fn with_glyph(self, c: char, glyph: GlyphInfo) -> FaceView {
        FaceView { cache: self.cache.insert(c, glyph), ..self }
    }

    /// What the face says of a character `c` that it has not drawn and
    /// does not ignore, where its backend has the glyph number `id` for
    /// it, and the face as it is afterwards.
    ///
    /// A number other than 0 is that of an outline to draw. A formatting
    /// character that takes no room, for which there is no such number,
    /// is shown by the empty glyph, which the face keeps. Any other
    /// character is drawn by the platform where the face has no backend,
    /// and not shown where the backend says 0: that it lacks it.
    pub open spec fn fresh(self, c: char, id: Option<u16>) -> (GlyphLookup, FaceView) {
        if id is Some && id != Some(0u16) {
            (GlyphLookup::Pending(GlyphRequest::Outline { c, id: id->0 }), self)
        } else if spec_invisible_char(c) {
            (
                GlyphLookup::Found(GlyphInfo::spec_default()),
                self.with_glyph(c, GlyphInfo::spec_default()),
            )
        } else if id is None {
            (GlyphLookup::Pending(GlyphRequest::Native { c }), self)
        } else {
            (GlyphLookup::Unsupported, self)
        }
    }

    /// What the face says of a space, which no face ignores and which
    /// takes room.
    pub open spec fn space(self, id: Option<u16>) -> GlyphLookup {
        if self.cache.contains_key(' ') {
            GlyphLookup::Found(self.cache[' '])
        } else {
            self.fresh(' ', id).0
        }
    }

    /// What the face says of `c`, and the face as it is afterwards.
    ///
    /// A glyph that was drawn before is found again. An ignored character
    /// is not shown. A tab is as wide as [`TAB_SIZE`] spaces wherever the
    /// face shows a space: the space is drawn first, then the advance of
    /// the tab is worked out. Everything else, and a tab in a face
    /// without a space, goes by what the backend has for it.
    pub open spec fn lookup(self, c: char, says: BackendSays) -> (GlyphLookup, FaceView) {
        if self.cache.contains_key(c) {
            (GlyphLookup::Found(self.cache[c]), self)
        } else if spec_ignore_character(self.name, c) {
            (GlyphLookup::Unsupported, self)
        } else if c == '\t' {
            match self.space(says.space) {
                GlyphLookup::Found(space) => (
                    GlyphLookup::Pending(
                        GlyphRequest::TabAdvance {
                            space_advance: space.advance_width,
                            tab_size: TAB_SIZE,
                        },
                    ),
                    self,
                ),
                GlyphLookup::Pending(request) => (GlyphLookup::Pending(request), self),
                GlyphLookup::Unsupported => self.fresh(c, says.glyph),
            }
        } else {
            self.fresh(c, says.glyph)
        }
    }

    /// Whether the face leaves `c` to the faces behind it.
    pub open spec fn passes(self, c: char, says: BackendSays) -> bool {
        self.lookup(c, says).0 is Unsupported
    }

    /// The face after `drawn` was handed in for `request`: the glyph that
    /// the request leads to is kept for the character it leads to. A
    /// glyph that is kept is never exchanged for another, and none is
    /// kept for a character that the face ignores: for those the face
    /// stays as it is.
    pub open spec fn fulfil(self, request: GlyphRequest, drawn: DrawnGlyph) -> FaceView {
        let target = request.spec_target();
        if self.cache.contains_key(target) || spec_ignore_character(self.name, target) {
            self
        } else {
            self.with_glyph(target, request.spec_glyph(drawn))
        }
    }

    /// Whether the face keeps no glyph for a character that it ignores.
    pub open spec fn keeps_no_ignored(self) -> bool {
        forall|c: char| #[trigger]
            self.cache.contains_key(c) ==> !spec_ignore_character(self.name, c)
    }

    /// Of the characters that the backend lists, those that the face
    /// shows: all but the ignored ones, in the order of the list.
    pub open spec fn shown_among(self, listed: Seq<char>) -> Seq<char> {
        listed.filter(|c: char| !spec_ignore_character(self.name, c))
    }
}

/// A lookup is answered once what it asked for has been drawn: the glyph
/// that a request leads to is found under the character it leads to. The
/// lookup of a tab may ask twice: first for its space to be drawn, which
/// it then finds, then for the advance of the tab to be worked out.
pub proof fn fulfilled_request_is_found(
    face: FaceView,
    c: char,
    says: BackendSays,
    drawn: DrawnGlyph,
    says_again: BackendSays,
)
    requires
        face.lookup(c, says).0 is Pending,
    ensures
        ({
            let request = face.lookup(c, says).0->Pending_0;
            let after = face.lookup(c, says).1.fulfil(request, drawn);
            let glyph = request.spec_glyph(drawn);
            &&& after.cache == face.cache.insert(request.spec_target(), glyph)
            &&& after.lookup(request.spec_target(), says_again) == (
                GlyphLookup::Found(glyph),
                after,
            )
            &&& request.spec_target() != c ==> c == '\t' && request.spec_target() == ' '
                && after.lookup(c, says_again) == (
                GlyphLookup::Pending(
                    GlyphRequest::TabAdvance {
                        space_advance: drawn.advance_width,
                        tab_size: TAB_SIZE,
                    },
                ),
                after,
            )
        }),
{
}

/// The glyphs that a face keeps stay as they are: neither a lookup nor a
/// glyph handed in changes what is kept for a character.
pub proof fn kept_glyphs_stay(
    face: FaceView,
    c: char,
    says: BackendSays,
    request: GlyphRequest,
    drawn: DrawnGlyph,
    kept: char,
)
    requires
        face.cache.contains_key(kept),
    ensures
        face.lookup(c, says).1.cache.contains_key(kept),
        face.lookup(c, says).1.cache[kept] == face.cache[kept],
        face.fulfil(request, drawn).cache.contains_key(kept),
        face.fulfil(request, drawn).cache[kept] == face.cache[kept],
        face.lookup(kept, says) == (GlyphLookup::Found(face.cache[kept]), face),
{
}

/// A face never comes to keep a glyph for a character that it ignores,
/// so that it never shows one: neither a lookup nor a glyph handed in
/// makes it keep one.
pub proof fn ignored_characters_are_never_kept(
    face: FaceView,
    c: char,
    says: BackendSays,
    request: GlyphRequest,
    drawn: DrawnGlyph,
)
    requires
        face.keeps_no_ignored(),
    ensures
        face.lookup(c, says).1.keeps_no_ignored(),
        face.fulfil(request, drawn).keeps_no_ignored(),
        spec_ignore_character(face.name, c) ==> face.lookup(c, says) == (
            GlyphLookup::Unsupported,
            face,
        ),
{
    let looked = face.lookup(c, says).1;
    assert forall|d: char| #[trigger] looked.cache.contains_key(d) implies !spec_ignore_character(
        looked.name,
        d,
    ) by {
        if d != c {
            assert(face.cache.contains_key(d));
        }
    }
    let taken = face.fulfil(request, drawn);
    assert forall|d: char| #[trigger] taken.cache.contains_key(d) implies !spec_ignore_character(
        taken.name,
        d,
    ) by {
        if d != request.spec_target() {
            assert(face.cache.contains_key(d));
        }
    }
}

/// Whether two texts are the same.
fn same_text(a: &str, b: &str) -> (same: bool)
    ensures
        same == (a@ == b@),
{
    let a_chars = chars_of(a);
    let b_chars = chars_of(b);
    if a_chars.len() != b_chars.len() {
        return false;
    }
    let mut i: usize = 0;
    while i < a_chars.len()
        invariant
            a_chars@ == a@,
            b_chars@ == b@,
            a@.len() == b@.len(),
            i <= a@.len(),
            forall|k: int| 0 <= k < i ==> a@[k] == b@[k],
        decreases a@.len() - i,
    {
        if a_chars[i] != b_chars[i] {
            return false;
        }
        i += 1;
    }
    assert(a@ =~= b@);
    true
}

/// The measures of a face.
struct FaceMetrics {
    scale_in_pixels: u32,
    height_in_points: Points,
    y_offset: Points,
    pixels_per_point: Points,
}

impl FaceMetrics {
    #[verifier::type_invariant]
    spec fn sized(self) -> bool {
        self.scale_in_pixels > 0 && self.pixels_per_point.spec_is_positive()
    }
}

/// A font face at one size.
pub struct FontImpl {
    name: String,
    ab_glyph_font: Option<FontArc>,
    metrics: FaceMetrics,
    glyph_info_cache: AHashMap<char, GlyphInfo>,
}

impl View for FontImpl {
    type V = FaceView;

    closed spec fn view(&self) -> FaceView {
        FaceView {
            name: self.name@,
            has_backend: self.ab_glyph_font is Some,
            scale_in_pixels: self.metrics.scale_in_pixels,
            height_in_points: self.metrics.height_in_points,
            y_offset: self.metrics.y_offset,
            pixels_per_point: self.metrics.pixels_per_point,
            cache: face_cache_entries(self.glyph_info_cache),
        }
    }
}

impl FontImpl {
    /// A face called `name` that draws `scale_in_pixels` pixels high, with
    /// rows `height_in_points` high and every glyph moved down by
    /// `y_offset`. It has drawn nothing yet.
    pub fn new(
        pixels_per_point: Points,
        name: String,
        ab_glyph_font: Option<FontArc>,
        scale_in_pixels: u32,
        height_in_points: Points,
        y_offset: Points,
    ) -> (face: FontImpl)
        requires
            scale_in_pixels > 0,
            pixels_per_point.spec_is_positive(),
        ensures
            face@ == (FaceView {
                name: name@,
                has_backend: ab_glyph_font is Some,
                scale_in_pixels,
                height_in_points,
                y_offset,
                pixels_per_point,
                cache: Map::empty(),
            }),
            face@.wf(),
            face@.keeps_no_ignored(),
    {
        FontImpl {
            name,
            ab_glyph_font,
            metrics: FaceMetrics { scale_in_pixels, height_in_points, y_offset, pixels_per_point },
            glyph_info_cache: face_cache_new(),
        }
    }

    /// The face's name.
    pub fn name(&self) -> (name: &str)
        ensures
            name@ == self@.name,
    {
        self.name.as_str()
    }

    /// The shaping backend, if the face has one.
    pub fn backend(&self) -> (font: Option<&FontArc>)
        ensures
            font is Some <==> self@.has_backend,
    {
        self.ab_glyph_font.as_ref()
    }

    /// The height of the tallest character, in pixels.
    pub fn scale_in_pixels(&self) -> (scale: u32)
        ensures
            scale == self@.scale_in_pixels,
            scale > 0,
    {
        proof {
            use_type_invariant(&self.metrics);
        }
        self.metrics.scale_in_pixels
    }

    /// How far each glyph is moved down.
    pub fn y_offset(&self) -> (offset: Points)
        ensures
            offset == self@.y_offset,
    {
        self.metrics.y_offset
    }

    /// The height of one row of text.
    pub fn row_height(&self) -> (height: Points)
        ensures
            height == self@.height_in_points,
    {
        self.metrics.height_in_points
    }

    /// The pixels that a point takes on the screen drawn for.
    pub fn pixels_per_point(&self) -> (ratio: Points)
        ensures
            ratio == self@.pixels_per_point,
            ratio.spec_is_positive(),
    {
        proof {
            use_type_invariant(&self.metrics);
        }
        self.metrics.pixels_per_point
    }

    /// Whether the face leaves `c` to other faces.
    pub fn ignore_character(&self, c: char) -> (ignored: bool)
        ensures
            ignored == spec_ignore_character(self@.name, c),
    {
        if same_text(self.name.as_str(), "emoji-icon-font") {
            if FIRST_MISDRAWN_CAPITAL <= c && c <= LAST_MISDRAWN_CAPITAL {
                return true;
            }
        }
        let mut k: usize = 0;
        while k < IGNORED_CHARACTERS.len()
            invariant
                k <= IGNORED_CHARACTERS@.len(),
                forall|j: int| 0 <= j < k ==> IGNORED_CHARACTERS@[j] != c,
            decreases IGNORED_CHARACTERS@.len() - k,
        {
            if IGNORED_CHARACTERS[k] == c {
                return true;
            }
            k += 1;
        }
        false
    }

    /// Of the characters in `listed`, those that the face shows.
    pub fn shown_among(&self, listed: &Vec<char>) -> (shown: Vec<char>)
        ensures
            shown@ == self@.shown_among(listed@),
    {
        let mut shown: Vec<char> = Vec::new();
        let mut i: usize = 0;
        let ghost keep = |c: char| !spec_ignore_character(self@.name, c);
        assert(listed@.take(0) =~= Seq::<char>::empty());
        while i < listed.len()
            invariant
                i <= listed@.len(),
                keep == |c: char| !spec_ignore_character(self@.name, c),
                shown@ == listed@.take(i as int).filter(keep),
            decreases listed@.len() - i,
        {
            let c = listed[i];
            proof {
                let more = listed@.take(i as int + 1);
                reveal(Seq::filter);
                assert(more.drop_last() =~= listed@.take(i as int));
                assert(more.last() == c);
            }
            if !self.ignore_character(c) {
                shown.push(c);
            }
            i += 1;
        }
        assert(listed@.take(i as int) =~= listed@);
        shown
    }

    /// The characters that the face's backend lists and the face shows,
    /// in no particular order; nothing for a face without a backend,
    /// whose characters cannot be told in advance.
    pub fn characters(&self) -> (shown: Option<Vec<char>>)
        ensures
            shown is Some <==> self@.has_backend,
            shown is Some ==> exists|listed: Seq<char>| shown->0@ == self@.shown_among(listed),
    {
        match &self.ab_glyph_font {
            Some(font) => {
                let listed = shaping_codepoints(font);
                Some(self.shown_among(&listed))
            },
            None => None,
        }
    }

    /// What the backend has for `c`.
    fn backend_glyph_id(&self, c: char) -> (id: Option<u16>)
        ensures
            id is Some <==> self@.has_backend,
    {
        match &self.ab_glyph_font {
            Some(font) => Some(shaping_glyph_id(font, c)),
            None => None,
        }
    }

    /// Answers for a character `c` that the face has not drawn and does
    /// not ignore, given the glyph number `id` that the backend has for it.
    pub fn resolve_fresh(&mut self, c: char, id: Option<u16>) -> (lookup: GlyphLookup)
        ensures
            (lookup, final(self)@) == old(self)@.fresh(c, id),
    {
        match id {
            Some(id) if id != 0 => {
                return GlyphLookup::Pending(GlyphRequest::Outline { c, id });
            },
            _ => {},
        }
        if invisible_char(c) {
            let glyph = GlyphInfo::default();
            face_cache_insert(&mut self.glyph_info_cache, c, glyph);
            GlyphLookup::Found(glyph)
        } else if id.is_none() {
            GlyphLookup::Pending(GlyphRequest::Native { c })
        } else {
            GlyphLookup::Unsupported
        }
    }

    /// Answers for `c`, given what the backend says.
    pub fn resolve(&mut self, c: char, says: BackendSays) -> (lookup: GlyphLookup)
        ensures
            (lookup, final(self)@) == old(self)@.lookup(c, says),
    {
        if let Some(glyph) = face_cache_get(&self.glyph_info_cache, c) {
            return GlyphLookup::Found(glyph);
        }
        if self.ignore_character(c) {
            return GlyphLookup::Unsupported;
        }
        if c == '\t' {
            let space = match face_cache_get(&self.glyph_info_cache, ' ') {
                Some(glyph) => GlyphLookup::Found(glyph),
                None => {
                    let ghost before = self@;
                    let fresh = self.resolve_fresh(' ', says.space);
                    assert(self@ == before);
                    fresh
                },
            };
            match space {
                GlyphLookup::Found(space) => {
                    return GlyphLookup::Pending(
                        GlyphRequest::TabAdvance {
                            space_advance: space.advance_width,
                            tab_size: TAB_SIZE,
                        },
                    );
                },
                GlyphLookup::Pending(request) => {
                    return GlyphLookup::Pending(request);
                },
                GlyphLookup::Unsupported => {},
            }
        }
        self.resolve_fresh(c, says.glyph)
    }

    /// Looks `c` up: in the glyphs drawn so far, then in the backend.
    ///
    /// The answer is [`FaceView::lookup`] of what the backend said. The
    /// backend is asked only where the answer hangs on it: not for a
    /// glyph that was drawn before, nor for an ignored character, nor
    /// about a space that was drawn before.
    pub fn glyph_info(&mut self, c: char) -> (lookup: GlyphLookup)
        ensures
            exists|says: BackendSays|
                old(self)@.hears(c, says) && (lookup, final(self)@) == old(self)@.lookup(c, says),
            old(self)@.cache.contains_key(c) ==> lookup == GlyphLookup::Found(old(self)@.cache[c])
                && final(self)@ == old(self)@,
            match lookup {
                GlyphLookup::Found(glyph) => final(self)@.cache.contains_key(c)
                    && final(self)@.cache[c] == glyph,
                _ => final(self)@ == old(self)@,
            },
    {
        let ghost before = self@;
        let ghost quiet: Option<u16> = if before.has_backend {
            Some(0u16)
        } else {
            None
        };
        let ghost unasked = BackendSays { glyph: quiet, space: quiet };
        if let Some(glyph) = face_cache_get(&self.glyph_info_cache, c) {
            assert(before.hears(c, unasked) && (GlyphLookup::Found(glyph), self@) == before.lookup(
                c,
                unasked,
            ));
            return GlyphLookup::Found(glyph);
        }
        if self.ignore_character(c) {
            assert(before.hears(c, unasked) && (GlyphLookup::Unsupported, self@) == before.lookup(
                c,
                unasked,
            ));
            return GlyphLookup::Unsupported;
        }
        let ghost mut space_said = quiet;
        if c == '\t' {
            let space = match face_cache_get(&self.glyph_info_cache, ' ') {
                Some(glyph) => GlyphLookup::Found(glyph),
                None => {
                    let id = self.backend_glyph_id(' ');
                    proof {
                        space_said = id;
                    }
                    let fresh = self.resolve_fresh(' ', id);
                    assert(self@ == before);
                    fresh
                },
            };
            let ghost says = BackendSays { glyph: quiet, space: space_said };
            assert(space == before.space(space_said));
            match space {
                GlyphLookup::Found(space) => {
                    let lookup = GlyphLookup::Pending(
                        GlyphRequest::TabAdvance {
                            space_advance: space.advance_width,
                            tab_size: TAB_SIZE,
                        },
                    );
                    assert(before.hears(c, says) && (lookup, self@) == before.lookup(c, says));
                    return lookup;
                },
                GlyphLookup::Pending(request) => {
                    let lookup = GlyphLookup::Pending(request);
                    assert(before.hears(c, says) && (lookup, self@) == before.lookup(c, says));
                    return lookup;
                },
                GlyphLookup::Unsupported => {},
            }
        }
        let id = self.backend_glyph_id(c);
        let lookup = self.resolve_fresh(c, id);
        let ghost says = BackendSays { glyph: id, space: space_said };
        assert(before.hears(c, says) && (lookup, self@) == before.lookup(c, says));
        lookup
    }

    /// Takes what was drawn for `request` and keeps the glyph.
    pub fn fulfil(&mut self, request: GlyphRequest, drawn: DrawnGlyph)
        ensures
            final(self)@ == old(self)@.fulfil(request, drawn),
    {
        let target = request.target();
        if face_cache_get(&self.glyph_info_cache, target).is_none() && !self.ignore_character(
            target,
        ) {
            face_cache_insert(&mut self.glyph_info_cache, target, request.glyph(drawn));
        }
    }
}

} // verus!
