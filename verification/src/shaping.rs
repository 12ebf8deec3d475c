//! The shaping backend of a face: a font of the `ab_glyph` crate.
//!
//! Such a font may be any implementation of that crate's `Font` trait, so
//! nothing is claimed here of what it answers: the library states what
//! it does with every answer.

use ab_glyph::FontArc;
use vstd::prelude::*;

verus! {

/// `ab_glyph::FontArc`, carried as it is.
#[verifier::external_type_specification]
#[verifier::external_body]
pub struct ExFontArc(ab_glyph::FontArc);

/// `ab_glyph::Font::glyph_id`: the number of the glyph that the font has
/// for `c`. Nothing is claimed of the number. The library takes 0 to say
/// that the font lacks the character, which is what the fonts of that
/// crate answer then.
#[verifier::external_body]
pub(crate) fn shaping_glyph_id(font: &FontArc, c: char) -> (id: u16) {
    ab_glyph::Font::glyph_id(font, c).0
}

/// `ab_glyph::Font::codepoint_ids`: the characters that the font lists,
/// in the order in which it lists them. Nothing is claimed of the list.
#[verifier::external_body]
pub(crate) fn shaping_codepoints(font: &FontArc) -> (listed: Vec<char>) {
    ab_glyph::Font::codepoint_ids(font).map(|(_, chr)| chr).collect()
}

} // verus!
