//! Glyph lookup with fallback faces, and pointer-driven text selection.
//!
//! The first half of the library answers which glyph shows a character:
//! [`face`] holds one font face and the glyphs drawn for it, [`face_set`]
//! a primary face with its fallbacks and the replacement glyph, [`glyph`]
//! what is known of a glyph once it is drawn. Drawing itself is not done
//! here: a lookup that needs a glyph says what is to be drawn, and takes
//! the result. [`canvas`] reads the picture that a drawing surface
//! hands out as text. [`cache`], [`shaping`] and [`canvas`] state what is
//! taken on trust of the hash maps, fonts and decoders that are used.
//!
//! The second half turns clicks and drags into selections: [`boundary`]
//! finds the word or line around a position, [`selection`] keeps the
//! selection across frames, [`galley`] places positions in a text that
//! was broken into rows, and [`cursor`] and [`text`] hold the positions
//! and the conversions between character and byte offsets.
//! [`boundary_laws`] and [`galley_laws`] prove what holds of all texts
//! and layouts.

pub mod boundary;
pub mod boundary_laws;
pub mod cache;
pub mod canvas;
pub mod cursor;
pub mod face;
pub mod face_set;
pub mod galley;
pub mod galley_laws;
pub mod glyph;
pub mod selection;
pub mod shaping;
pub mod text;
