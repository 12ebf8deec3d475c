use ab_glyph::v2::GlyphImage;
use ab_glyph::{CodepointIdIter, FontArc, GlyphId, Outline};
use std::collections::BTreeSet;
use text_engine::face::{
    invisible_char, BackendSays, FontImpl, GlyphLookup, GlyphRequest, IGNORED_CHARACTERS, TAB_SIZE,
};
use text_engine::face_set::{
    common_character, Font, NewFontError, PendingGlyph, COMMON_CHARACTERS,
    FALLBACK_REPLACEMENT_CHAR, PRIMARY_REPLACEMENT_CHAR,
};
use text_engine::glyph::{DrawnGlyph, GlyphInfo, PointVec, Points, Texel, UvRect};

/// A font that knows the glyphs it is told, and draws none.
struct TableFont {
    glyphs: Vec<(char, u16)>,
}

impl ab_glyph::Font for TableFont {
    fn units_per_em(&self) -> Option<f32> {
        Some(1000.0)
    }

    fn ascent_unscaled(&self) -> f32 {
        800.0
    }

    fn descent_unscaled(&self) -> f32 {
        -200.0
    }

    fn line_gap_unscaled(&self) -> f32 {
        0.0
    }

    fn glyph_id(&self, c: char) -> GlyphId {
        for (known, id) in &self.glyphs {
            if *known == c {
                return GlyphId(*id);
            }
        }
        GlyphId(0)
    }

    fn h_advance_unscaled(&self, _id: GlyphId) -> f32 {
        500.0
    }

    fn h_side_bearing_unscaled(&self, _id: GlyphId) -> f32 {
        0.0
    }

    fn v_advance_unscaled(&self, _id: GlyphId) -> f32 {
        0.0
    }

    fn v_side_bearing_unscaled(&self, _id: GlyphId) -> f32 {
        0.0
    }

    fn kern_unscaled(&self, _first: GlyphId, _second: GlyphId) -> f32 {
        0.0
    }

    fn outline(&self, _id: GlyphId) -> Option<Outline> {
        None
    }

    fn glyph_count(&self) -> usize {
        self.glyphs.len() + 1
    }

    fn codepoint_ids(&self) -> CodepointIdIter<'_> {
        panic!("this font lists nothing")
    }

    fn glyph_raster_image2(&self, _id: GlyphId, _pixel_size: u16) -> Option<GlyphImage<'_>> {
        None
    }
}

fn points(value: f32) -> Points {
    Points { bits: value.to_bits() }
}

fn shaped(name: &str, glyphs: &[(char, u16)]) -> FontImpl {
    let font = FontArc::new(TableFont { glyphs: glyphs.to_vec() });
    FontImpl::new(points(2.0), name.to_string(), Some(font), 28, points(14.0), points(0.5))
}

fn native(name: &str) -> FontImpl {
    FontImpl::new(points(1.5), name.to_string(), None, 18, points(12.0), points(0.0))
}

/// What drawing gives in these tests: numbers made from the request.
fn drawn_for(request: &GlyphRequest) -> DrawnGlyph {
    match *request {
        GlyphRequest::Outline { id, .. } => DrawnGlyph {
            advance_width: points(f32::from(id) + 0.5),
            uv_rect: UvRect {
                offset: PointVec { x: points(1.0), y: points(2.0) },
                size: PointVec { x: points(3.0), y: points(4.0) },
                min: Texel { x: id, y: 2 * id },
                max: Texel { x: id + 6, y: 2 * id + 8 },
            },
        },
        GlyphRequest::Native { c } => DrawnGlyph {
            advance_width: points(7.0),
            uv_rect: UvRect {
                offset: PointVec { x: points(0.0), y: points(1.0) },
                size: PointVec { x: points(5.0), y: points(6.0) },
                min: Texel { x: c as u16, y: 1 },
                max: Texel { x: c as u16 + 10, y: 13 },
            },
        },
        GlyphRequest::TabAdvance { space_advance, tab_size } => DrawnGlyph {
            advance_width: points(tab_size as f32 * f32::from_bits(space_advance.bits)),
            uv_rect: UvRect {
                offset: PointVec { x: points(9.0), y: points(9.0) },
                size: PointVec { x: points(9.0), y: points(9.0) },
                min: Texel { x: 9, y: 9 },
                max: Texel { x: 99, y: 99 },
            },
        },
    }
}

fn build(mut faces: Vec<FontImpl>) -> Font {
    for _ in 0..16 {
        match Font::new(faces) {
            Ok(font) => return font,
            Err(NewFontError::Pending { fonts, pending }) => {
                faces = fonts;
                faces[pending.face].fulfil(pending.request, drawn_for(&pending.request));
            }
            Err(NewFontError::NoReplacement) => panic!("no replacement glyph"),
        }
    }
    panic!("the set asks for ever more glyphs")
}

fn lookup(font: &mut Font, c: char) -> (usize, GlyphInfo) {
    for _ in 0..16 {
        match font.glyph_info(c) {
            Ok(entry) => return entry,
            Err(pending) => font.fulfil(pending, drawn_for(&pending.request)),
        }
    }
    panic!("the set asks for ever more glyphs")
}

fn face_lookup(face: &mut FontImpl, c: char) -> Option<GlyphInfo> {
    for _ in 0..16 {
        match face.glyph_info(c) {
            GlyphLookup::Found(glyph) => return Some(glyph),
            GlyphLookup::Unsupported => return None,
            GlyphLookup::Pending(request) => face.fulfil(request, drawn_for(&request)),
        }
    }
    panic!("the face asks for ever more glyphs")
}

const STAR: char = '\u{2605}';

#[test]
fn a_face_keeps_what_it_was_made_with() {
    let face = shaped("serif", &[]);
    assert_eq!(face.name(), "serif");
    assert!(face.backend().is_some());
    assert_eq!(face.scale_in_pixels(), 28);
    assert_eq!(face.row_height(), points(14.0));
    assert_eq!(face.y_offset(), points(0.5));
    assert_eq!(face.pixels_per_point(), points(2.0));
    assert!(native("system").backend().is_none());
}

#[test]
fn every_face_ignores_the_listed_characters() {
    let face = native("system");
    for c in ['\u{534d}', '\u{5350}', '\u{E0FF}', '\u{EFFD}', '\u{F0FF}', '\u{F200}'] {
        assert!(face.ignore_character(c));
        assert!(IGNORED_CHARACTERS.contains(&c));
    }
    assert_eq!(IGNORED_CHARACTERS.len(), 6);
    for c in ['a', ' ', '\t', '\n', '\u{534e}', '\u{E0FE}', '\u{F201}', STAR] {
        assert!(!face.ignore_character(c));
    }
}

#[test]
fn the_icon_font_ignores_the_capitals_it_draws_wrongly() {
    let icons = native("emoji-icon-font");
    for c in '\u{FF33}'..='\u{FF39}' {
        assert!(icons.ignore_character(c));
    }
    assert!(!icons.ignore_character('\u{FF32}'));
    assert!(!icons.ignore_character('\u{FF3A}'));
    assert!(icons.ignore_character('\u{534d}'));
    let other = native("emoji-icon-fonts");
    assert!(!other.ignore_character('\u{FF33}'));
    assert!(!other.ignore_character('\u{FF39}'));
}

#[test]
fn invisible_characters_are_a_range_of_code_points() {
    assert!(invisible_char('\u{200B}'));
    assert!(invisible_char('\u{2028}'));
    assert!(invisible_char('\u{206F}'));
    assert!(!invisible_char('\u{200A}'));
    assert!(!invisible_char('\u{2070}'));
    assert!(!invisible_char(' '));
}

#[test]
fn an_ignored_character_is_not_shown() {
    let mut face = shaped("serif", &[('\u{534d}', 9)]);
    assert_eq!(face.glyph_info('\u{534d}'), GlyphLookup::Unsupported);
    assert_eq!(native("system").glyph_info('\u{F200}'), GlyphLookup::Unsupported);
}

#[test]
fn a_face_without_a_backend_has_everything_drawn_by_the_platform() {
    let mut face = native("system");
    let request = GlyphRequest::Native { c: 'a' };
    assert_eq!(face.glyph_info('a'), GlyphLookup::Pending(request));
    assert_eq!(face.glyph_info('a'), GlyphLookup::Pending(request));
    face.fulfil(request, drawn_for(&request));
    let drawn = drawn_for(&request);
    let glyph = GlyphInfo { id: 0, advance_width: drawn.advance_width, uv_rect: drawn.uv_rect };
    assert_eq!(face.glyph_info('a'), GlyphLookup::Found(glyph));
    assert_eq!(face.glyph_info('a'), GlyphLookup::Found(glyph));
    assert_eq!(face.glyph_info('b'), GlyphLookup::Pending(GlyphRequest::Native { c: 'b' }));
}

#[test]
fn a_backend_names_the_outline_to_draw() {
    let mut face = shaped("serif", &[('a', 5)]);
    let request = GlyphRequest::Outline { c: 'a', id: 5 };
    assert_eq!(face.glyph_info('a'), GlyphLookup::Pending(request));
    face.fulfil(request, drawn_for(&request));
    let drawn = drawn_for(&request);
    let glyph = GlyphInfo { id: 5, advance_width: drawn.advance_width, uv_rect: drawn.uv_rect };
    assert_eq!(face.glyph_info('a'), GlyphLookup::Found(glyph));
}

#[test]
fn a_character_that_the_backend_lacks_is_not_shown() {
    let mut face = shaped("serif", &[('a', 5)]);
    assert_eq!(face.glyph_info('b'), GlyphLookup::Unsupported);
    assert_eq!(face.glyph_info('\n'), GlyphLookup::Unsupported);
    assert_eq!(face.glyph_info('b'), GlyphLookup::Unsupported);
}

#[test]
fn an_invisible_character_that_the_backend_lacks_is_shown_by_nothing() {
    let mut face = shaped("serif", &[('a', 5)]);
    assert_eq!(face.glyph_info('\u{200B}'), GlyphLookup::Found(GlyphInfo::default()));
    assert_eq!(face.glyph_info('\u{200B}'), GlyphLookup::Found(GlyphInfo::default()));
}

#[test]
fn an_invisible_character_is_not_drawn_by_the_platform() {
    let mut face = native("system");
    assert_eq!(face.glyph_info('\u{200B}'), GlyphLookup::Found(GlyphInfo::default()));
    assert_eq!(face.glyph_info('\u{206F}'), GlyphLookup::Found(GlyphInfo::default()));
    assert_eq!(
        face.glyph_info('\u{2070}'),
        GlyphLookup::Pending(GlyphRequest::Native { c: '\u{2070}' })
    );
    let silent = BackendSays { glyph: None, space: None };
    assert_eq!(face.resolve('\u{2028}', silent), GlyphLookup::Found(GlyphInfo::default()));
}

#[test]
fn a_glyph_that_is_kept_is_not_exchanged() {
    let mut face = shaped("serif", &[('a', 5)]);
    let request = GlyphRequest::Outline { c: 'a', id: 5 };
    face.fulfil(request, drawn_for(&request));
    let kept = match face.glyph_info('a') {
        GlyphLookup::Found(glyph) => glyph,
        _ => panic!("the glyph was drawn"),
    };
    let other = GlyphRequest::Native { c: 'a' };
    face.fulfil(other, drawn_for(&other));
    assert_eq!(face.glyph_info('a'), GlyphLookup::Found(kept));
    assert_eq!(kept.id, 5);
}

#[test]
fn an_invisible_character_that_the_backend_has_is_drawn() {
    let mut face = shaped("serif", &[('\u{200B}', 8)]);
    assert_eq!(
        face.glyph_info('\u{200B}'),
        GlyphLookup::Pending(GlyphRequest::Outline { c: '\u{200B}', id: 8 })
    );
}

#[test]
fn a_tab_is_as_wide_as_four_spaces() {
    assert_eq!(TAB_SIZE, 4);
    let mut face = shaped("serif", &[(' ', 3)]);
    let space_request = GlyphRequest::Outline { c: ' ', id: 3 };
    assert_eq!(face.glyph_info('\t'), GlyphLookup::Pending(space_request));
    face.fulfil(space_request, drawn_for(&space_request));
    let space = match face.glyph_info(' ') {
        GlyphLookup::Found(space) => space,
        _ => panic!("the space was drawn"),
    };
    assert_eq!(space.advance_width, points(3.5));
    let tab_request = GlyphRequest::TabAdvance { space_advance: points(3.5), tab_size: 4 };
    assert_eq!(face.glyph_info('\t'), GlyphLookup::Pending(tab_request));
    face.fulfil(tab_request, drawn_for(&tab_request));
    let tab = GlyphInfo { id: 0, advance_width: points(14.0), uv_rect: UvRect::default() };
    assert_eq!(face.glyph_info('\t'), GlyphLookup::Found(tab));
}

#[test]
fn a_tab_in_a_face_without_a_space_goes_by_the_backend() {
    let mut face = shaped("serif", &[('a', 5)]);
    assert_eq!(face.glyph_info('\t'), GlyphLookup::Unsupported);
    let mut face = shaped("serif", &[('\t', 6)]);
    assert_eq!(
        face.glyph_info('\t'),
        GlyphLookup::Pending(GlyphRequest::Outline { c: '\t', id: 6 })
    );
}

#[test]
fn a_tab_of_the_platform_is_made_of_its_space() {
    let mut face = native("system");
    assert_eq!(face.glyph_info('\t'), GlyphLookup::Pending(GlyphRequest::Native { c: ' ' }));
    let tab = match face_lookup(&mut face, '\t') {
        Some(tab) => tab,
        None => panic!("the platform shows a tab"),
    };
    assert_eq!(tab, GlyphInfo { id: 0, advance_width: points(28.0), uv_rect: UvRect::default() });
}

#[test]
fn a_face_answers_by_what_its_backend_says() {
    let mut face = shaped("serif", &[]);
    let says = BackendSays { glyph: Some(12), space: None };
    assert_eq!(
        face.resolve('x', says),
        GlyphLookup::Pending(GlyphRequest::Outline { c: 'x', id: 12 })
    );
    let lacks = BackendSays { glyph: Some(0), space: Some(0) };
    assert_eq!(face.resolve('x', lacks), GlyphLookup::Unsupported);
    assert_eq!(face.resolve('\t', lacks), GlyphLookup::Unsupported);
    assert_eq!(face.resolve('\u{2060}', lacks), GlyphLookup::Found(GlyphInfo::default()));
    let with_space = BackendSays { glyph: Some(0), space: Some(2) };
    assert_eq!(
        face.resolve('\t', with_space),
        GlyphLookup::Pending(GlyphRequest::Outline { c: ' ', id: 2 })
    );
    let silent = BackendSays { glyph: None, space: None };
    assert_eq!(face.resolve('y', silent), GlyphLookup::Pending(GlyphRequest::Native { c: 'y' }));
    assert_eq!(
        face.resolve_fresh('z', Some(4)),
        GlyphLookup::Pending(GlyphRequest::Outline { c: 'z', id: 4 })
    );
}

#[test]
fn requests_lead_to_glyphs() {
    let drawn = DrawnGlyph { advance_width: points(2.0), uv_rect: drawn_for(&GlyphRequest::Native { c: 'q' }).uv_rect };
    let outline = GlyphRequest::Outline { c: 'a', id: 5 };
    assert_eq!(outline.target(), 'a');
    assert_eq!(outline.glyph(drawn).id, 5);
    assert_eq!(outline.glyph(drawn).uv_rect, drawn.uv_rect);
    let platform = GlyphRequest::Native { c: 'b' };
    assert_eq!(platform.target(), 'b');
    assert_eq!(platform.glyph(drawn).id, 0);
    assert_eq!(platform.glyph(drawn).advance_width, points(2.0));
    let tab = GlyphRequest::TabAdvance { space_advance: points(0.5), tab_size: 4 };
    assert_eq!(tab.target(), '\t');
    assert_eq!(tab.glyph(drawn), GlyphInfo { id: 0, advance_width: points(2.0), uv_rect: UvRect::default() });
}

#[test]
fn a_face_shows_what_is_listed_and_not_ignored() {
    let face = native("emoji-icon-font");
    let listed = vec!['a', '\u{534d}', 'b', '\u{FF35}', '\u{F200}', 'c'];
    assert_eq!(face.shown_among(&listed), vec!['a', 'b', 'c']);
    let plain = native("system");
    assert_eq!(plain.shown_among(&listed), vec!['a', 'b', '\u{FF35}', 'c']);
    assert_eq!(plain.shown_among(&Vec::new()), Vec::<char>::new());
}

#[test]
fn a_face_without_a_backend_lists_nothing() {
    assert!(native("system").characters().is_none());
}

#[test]
fn a_set_without_faces_shows_the_empty_glyph() {
    let mut font = build(Vec::new());
    assert_eq!(font.num_faces(), 0);
    assert_eq!(font.row_height(), points(0.0));
    assert_eq!(font.pixels_per_point(), points(1.0));
    assert_eq!(font.replacement_glyph(), (0, GlyphInfo::default()));
    assert_eq!(font.glyph_info_and_font_impl('a'), Ok((None, GlyphInfo::default())));
    assert_eq!(font.glyph_info('a'), Ok((0, GlyphInfo::default())));
    assert_eq!(font.glyph_width('a'), Ok(points(0.0)));
    assert!(font.face(0).is_none());
}

#[test]
fn a_set_has_the_measures_of_its_first_face() {
    let font = build(vec![shaped("serif", &[('?', 2)]), native("system")]);
    assert_eq!(font.num_faces(), 2);
    assert_eq!(font.row_height(), points(14.0));
    assert_eq!(font.pixels_per_point(), points(2.0));
    assert_eq!(font.face(1).map(|face| face.name().to_string()), Some("system".to_string()));
    assert!(font.face(2).is_none());
}

#[test]
fn the_square_is_the_replacement_where_a_face_shows_it() {
    let faces = vec![shaped("serif", &[('?', 2)]), shaped("symbols", &[(PRIMARY_REPLACEMENT_CHAR, 7)])];
    let font = build(faces);
    let (face, glyph) = font.replacement_glyph();
    assert_eq!(face, 1);
    assert_eq!(glyph.id, 7);
    assert_eq!(font.uv_rect(PRIMARY_REPLACEMENT_CHAR), glyph.uv_rect);
    assert_eq!(font.uv_rect(FALLBACK_REPLACEMENT_CHAR), UvRect::default());
}

#[test]
fn the_question_mark_is_the_replacement_where_no_face_shows_the_square() {
    let faces = vec![shaped("serif", &[('a', 5)]), shaped("sans", &[('?', 2)])];
    let font = build(faces);
    let (face, glyph) = font.replacement_glyph();
    assert_eq!(face, 1);
    assert_eq!(glyph.id, 2);
    assert_eq!(font.uv_rect(FALLBACK_REPLACEMENT_CHAR), glyph.uv_rect);
}

#[test]
fn making_a_set_asks_for_the_replacement_glyph_to_be_drawn() {
    let faces = vec![shaped("serif", &[('a', 5)]), shaped("sans", &[('?', 2)])];
    match Font::new(faces) {
        Err(NewFontError::Pending { fonts, pending }) => {
            assert_eq!(fonts.len(), 2);
            assert_eq!(
                pending,
                PendingGlyph { face: 1, request: GlyphRequest::Outline { c: '?', id: 2 } }
            );
        }
        _ => panic!("the question mark has to be drawn first"),
    }
    match Font::new(vec![native("system")]) {
        Err(NewFontError::Pending { pending, .. }) => {
            assert_eq!(
                pending,
                PendingGlyph { face: 0, request: GlyphRequest::Native { c: PRIMARY_REPLACEMENT_CHAR } }
            );
        }
        _ => panic!("the square has to be drawn first"),
    }
}

#[test]
fn a_set_that_can_show_no_replacement_is_not_made() {
    let faces = vec![shaped("serif", &[('a', 5)]), shaped("sans", &[('b', 2)])];
    assert!(matches!(Font::new(faces), Err(NewFontError::NoReplacement)));
}

#[test]
fn the_fallback_face_shows_what_the_primary_face_lacks() {
    let mut first = build(vec![shaped("serif", &[('?', 2), ('a', 5)]), shaped("symbols", &[(STAR, 40)])]);
    assert_eq!(
        first.glyph_info(STAR),
        Err(PendingGlyph { face: 1, request: GlyphRequest::Outline { c: STAR, id: 40 } })
    );
    let (face, glyph) = lookup(&mut first, STAR);
    assert_eq!(face, 1);
    assert_eq!(glyph.id, 40);
    assert!(glyph != GlyphInfo::default());
    assert_eq!(first.glyph_info_and_font_impl(STAR), Ok((Some(1), glyph)));

    let mut second = build(vec![shaped("serif", &[('?', 2), ('a', 5)])]);
    let (other_face, other_glyph) = lookup(&mut second, STAR);
    assert_eq!((other_face, other_glyph), second.replacement_glyph());
    assert_eq!(other_face, 0);
    assert_eq!(other_glyph.id, 2);

    assert_eq!(first.glyph_info(STAR), Ok((1, glyph)));
    assert_eq!(first.uv_rect(STAR), glyph.uv_rect);
}

#[test]
fn the_first_face_that_shows_a_character_wins() {
    let mut font = build(vec![
        shaped("serif", &[('?', 2)]),
        shaped("sans", &[('a', 5), ('b', 6)]),
        shaped("mono", &[('a', 9), ('c', 10)]),
    ]);
    assert_eq!(lookup(&mut font, 'a').0, 1);
    assert_eq!(lookup(&mut font, 'a').1.id, 5);
    assert_eq!(lookup(&mut font, 'c'), (2, GlyphRequest::Outline { c: 'c', id: 10 }.glyph(drawn_for(&GlyphRequest::Outline { c: 'c', id: 10 }))));
    assert_eq!(lookup(&mut font, '?').0, 0);
}

#[test]
fn a_character_that_no_face_shows_gets_the_replacement_glyph() {
    let mut font = build(vec![shaped("serif", &[('?', 2)]), shaped("sans", &[('a', 5)])]);
    let replacement = font.replacement_glyph();
    assert_eq!(font.uv_rect('z'), UvRect::default());
    assert_eq!(font.glyph_info('z'), Ok(replacement));
    assert_eq!(font.glyph_info('\n'), Ok(replacement));
    assert_eq!(font.uv_rect('z'), replacement.1.uv_rect);
    assert_eq!(font.glyph_info_and_font_impl('z'), Ok((Some(0), replacement.1)));
}

#[test]
fn looking_a_character_up_again_finds_the_same_glyph() {
    let mut font = build(vec![shaped("serif", &[('?', 2), ('a', 5)]), native("system")]);
    for c in ['a', 'b', '\t', ' ', STAR, '\u{200B}', '\u{534d}'] {
        let first = lookup(&mut font, c);
        assert_eq!(font.glyph_info(c), Ok(first));
        assert_eq!(lookup(&mut font, c), first);
        assert_eq!(first.1.advance_width.bits, lookup(&mut font, c).1.advance_width.bits);
    }
}

#[test]
fn the_width_of_a_character_is_its_advance() {
    let mut font = build(vec![shaped("serif", &[('?', 2), ('a', 5)])]);
    assert_eq!(
        font.glyph_width('a'),
        Err(PendingGlyph { face: 0, request: GlyphRequest::Outline { c: 'a', id: 5 } })
    );
    let (_, glyph) = lookup(&mut font, 'a');
    assert_eq!(font.glyph_width('a'), Ok(glyph.advance_width));
    assert_eq!(font.glyph_width('a'), Ok(points(5.5)));
}

#[test]
fn a_glyph_for_a_face_that_is_not_there_is_dropped() {
    let mut font = build(vec![shaped("serif", &[('?', 2), ('a', 5)])]);
    let request = GlyphRequest::Outline { c: 'a', id: 5 };
    font.fulfil(PendingGlyph { face: 3, request }, drawn_for(&request));
    assert_eq!(font.glyph_info('a'), Err(PendingGlyph { face: 0, request }));
}

#[test]
fn the_common_characters_are_ascii_and_two_more() {
    assert_eq!(COMMON_CHARACTERS, 97);
    assert_eq!(common_character(0), ' ');
    assert_eq!(common_character(1), '!');
    assert_eq!(common_character(33), 'A');
    assert_eq!(common_character(94), '~');
    assert_eq!(common_character(95), '\u{b0}');
    assert_eq!(common_character(96), '\u{2022}');
}

#[test]
fn preloading_draws_the_common_characters() {
    let mut font = build(vec![native("system")]);
    let mut asked = 0;
    loop {
        match font.preload_common_characters() {
            Ok(()) => break,
            Err(pending) => {
                asked += 1;
                assert!(asked <= 200);
                font.fulfil(pending, drawn_for(&pending.request));
            }
        }
    }
    assert_eq!(asked, 96);
    for k in 0..COMMON_CHARACTERS - 1 {
        let c = common_character(k);
        let request = GlyphRequest::Native { c };
        assert_eq!(font.glyph_info(c), Ok((0, request.glyph(drawn_for(&request)))));
        assert!(!font.uv_rect(c).is_nothing());
    }
    // The bullet lies in the range of the characters that take no room.
    assert!(invisible_char('\u{2022}'));
    assert_eq!(font.glyph_info('\u{2022}'), Ok((0, GlyphInfo::default())));
    assert_eq!(font.preload_common_characters(), Ok(()));
}

#[test]
fn preloading_a_shaped_face_draws_what_it_has() {
    let mut font = build(vec![shaped("serif", &[('?', 2), ('a', 5), (' ', 1)])]);
    let mut asked = Vec::new();
    loop {
        match font.preload_common_characters() {
            Ok(()) => break,
            Err(pending) => {
                assert!(asked.len() < 10);
                asked.push(pending.request.target());
                font.fulfil(pending, drawn_for(&pending.request));
            }
        }
    }
    assert_eq!(asked, vec![' ', 'a']);
    assert_eq!(font.glyph_info('b'), Ok(font.replacement_glyph()));
}

#[test]
fn faces_without_backends_list_no_characters() {
    let mut font = build(vec![native("system"), native("emoji-icon-font")]);
    assert_eq!(font.characters(), &BTreeSet::new());
    assert!(font.characters().is_empty());
}

#[test]
fn faces_taken_out_of_a_set_keep_their_glyphs() {
    let mut font = build(vec![shaped("serif", &[('?', 2), ('a', 5)])]);
    let (_, glyph) = lookup(&mut font, 'a');
    let mut faces = font.into_faces();
    assert_eq!(faces.len(), 1);
    assert_eq!(faces[0].glyph_info('a'), GlyphLookup::Found(glyph));
    let mut again = match Font::new(faces) {
        Ok(font) => font,
        Err(_) => panic!("the replacement glyph was drawn before"),
    };
    assert_eq!(again.glyph_info('a'), Ok((0, glyph)));
}

#[test]
fn a_glyph_for_an_ignored_character_is_not_kept() {
    let mut face = native("system");
    let request = GlyphRequest::Native { c: '\u{534d}' };
    face.fulfil(request, drawn_for(&request));
    assert_eq!(face.glyph_info('\u{534d}'), GlyphLookup::Unsupported);
    let mut icons = shaped("emoji-icon-font", &[('\u{FF33}', 4)]);
    let outline = GlyphRequest::Outline { c: '\u{FF33}', id: 4 };
    icons.fulfil(outline, drawn_for(&outline));
    assert_eq!(icons.glyph_info('\u{FF33}'), GlyphLookup::Unsupported);
}
