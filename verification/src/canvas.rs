//! The picture that a drawing surface hands out as text: a PNG, written
//! in base64 behind a fixed prefix.
//!
//! The two decoders are those of the `base64` and `image` crates. What
//! they make of their input is given a name each; the library states
//! what it does with either outcome.

use vstd::prelude::*;

use crate::text::{chars_of, slice_char_range};

verus! {

/// `base64::DecodeError`, carried as it is.
#[verifier::external_type_specification]
#[verifier::external_body]
pub struct ExDecodeError(base64::DecodeError);

/// `image::ImageError`, carried as it is.
#[verifier::external_type_specification]
#[verifier::external_body]
pub struct ExImageError(image::ImageError);

/// The bytes that the standard alphabet of base64, with padding, makes of
/// `input`; nothing where `input` is not written in it.
pub uninterp spec fn base64_decoded(input: Seq<char>) -> Option<Seq<u8>>;

/// The picture that `bytes` hold: its width, its height, and its pixels
/// row by row, four bytes each for red, green, blue and opacity. Nothing
/// where `bytes` are no picture that the decoder can read.
pub uninterp spec fn image_decoded(bytes: Seq<u8>) -> Option<(u32, u32, Seq<u8>)>;

/// `base64::Engine::decode` of the engine `STANDARD`: the bytes written
/// in `input`, or the place where `input` stopped being base64.
#[verifier::external_body]
pub(crate) fn decode_base64(input: &str) -> (decoded: Result<Vec<u8>, base64::DecodeError>)
    ensures
        decoded is Ok ==> base64_decoded(input@) == Some(decoded->Ok_0@),
        decoded is Err ==> base64_decoded(input@) is None,
{
    base64::Engine::decode(&base64::engine::general_purpose::STANDARD, input)
}

/// `image::load_from_memory`, and `DynamicImage::to_rgba8` of what it
/// gives: the picture in `bytes` with eight bits for each of red, green,
/// blue and opacity.
#[verifier::external_body]
pub(crate) fn decode_image(bytes: &[u8]) -> (decoded: Result<
    (u32, u32, Vec<u8>),
    image::ImageError,
>)
    ensures
        decoded is Ok ==> image_decoded(bytes@) == Some(
            (decoded->Ok_0.0, decoded->Ok_0.1, decoded->Ok_0.2@),
        ),
        decoded is Err ==> image_decoded(bytes@) is None,
{
    let rgba = image::load_from_memory(bytes)?.to_rgba8();
    Ok((rgba.width(), rgba.height(), rgba.into_raw()))
}

/// Why a text is not the picture of a canvas.
#[derive(Clone, Copy, Debug, PartialEq, Eq, Structural)]
pub enum CanvasError {
    /// The text does not start as the PNG of a canvas does.
    NotPngDataUrl,
    /// What follows the prefix is not base64.
    NotBase64,
    /// The bytes are no picture, or not as many as the picture has pixels.
    NotAnImage,
}

/// A picture: `rgba` holds the pixels row by row, four bytes each.
#[derive(Debug, PartialEq, Eq)]
pub struct CanvasImage {
    pub width: u32,
    pub height: u32,
    pub rgba: Vec<u8>,
}

/// What a [`CanvasImage`] holds.
pub struct CanvasImageView {
    pub width: u32,
    pub height: u32,
    pub rgba: Seq<u8>,
}

impl View for CanvasImage {
    type V = CanvasImageView;

    open spec fn view(&self) -> CanvasImageView {
        CanvasImageView { width: self.width, height: self.height, rgba: self.rgba@ }
    }
}

/// What stands in front of the base64 text in the PNG of a canvas.
pub open spec fn png_prefix() -> Seq<char> {
    "data:image/png;base64,"@
}

/// The picture that the decoder has read, if it has as many bytes as
/// its pixels take.
pub open spec fn spec_image_from_decoded(decoded: Option<(u32, u32, Seq<u8>)>) -> Result<
    CanvasImageView,
    CanvasError,
> {
    match decoded {
        Some((width, height, rgba)) => if rgba.len() == width * height * 4 {
            Ok(CanvasImageView { width, height, rgba })
        } else {
            Err(CanvasError::NotAnImage)
        },
        None => Err(CanvasError::NotAnImage),
    }
}

/// The picture that `data_url` holds: the text behind the prefix is read
/// as base64, and the bytes as a picture.
pub open spec fn spec_canvas_image(data_url: Seq<char>) -> Result<CanvasImageView, CanvasError> {
    if !png_prefix().is_prefix_of(data_url) {
        Err(CanvasError::NotPngDataUrl)
    } else {
        match base64_decoded(data_url.skip(png_prefix().len() as int)) {
            None => Err(CanvasError::NotBase64),
            Some(bytes) => spec_image_from_decoded(image_decoded(bytes)),
        }
    }
}

/// What follows the prefix in `data_url`, if it starts with the prefix.
pub fn strip_png_prefix(data_url: &str) -> (rest: Option<&str>)
    ensures
        rest is Some <==> png_prefix().is_prefix_of(data_url@),
        rest is Some ==> rest->0@ == data_url@.skip(png_prefix().len() as int),
{
    let prefix = chars_of("data:image/png;base64,");
    let chars = chars_of(data_url);
    if chars.len() < prefix.len() {
        return None;
    }
    let mut i: usize = 0;
    while i < prefix.len()
        invariant
            prefix@ == png_prefix(),
            chars@ == data_url@,
            i <= prefix@.len() <= chars@.len(),
            forall|k: int| 0 <= k < i ==> prefix@[k] == chars@[k],
        decreases prefix@.len() - i,
    {
        if prefix[i] != chars[i] {
            assert(!png_prefix().is_prefix_of(data_url@)) by {
                if png_prefix().is_prefix_of(data_url@) {
                    assert(data_url@.subrange(0, png_prefix().len() as int)[i as int]
                        == png_prefix()[i as int]);
                }
            }
            return None;
        }
        i += 1;
    }
    assert(png_prefix() =~= data_url@.subrange(0, png_prefix().len() as int));
    let rest = slice_char_range(data_url, prefix.len()..chars.len());
    assert(rest@ =~= data_url@.skip(png_prefix().len() as int));
    Some(rest)
}

/// Takes what the decoder has read as a picture, if it has as many bytes
/// as its pixels take.
pub fn image_from_decoded(decoded: Result<(u32, u32, Vec<u8>), image::ImageError>) -> (image:
    Result<CanvasImage, CanvasError>)
    ensures
        match decoded {
            Ok(read) => match image {
                Ok(image) => spec_image_from_decoded(Some((read.0, read.1, read.2@))) == Ok::<
                    CanvasImageView,
                    CanvasError,
                >(image@),
                Err(error) => spec_image_from_decoded(Some((read.0, read.1, read.2@))) == Err::<
                    CanvasImageView,
                    CanvasError,
                >(error),
            },
            Err(_) => image == Err::<CanvasImage, CanvasError>(CanvasError::NotAnImage),
        },
{
    match decoded {
        Ok((width, height, rgba)) => {
            assert(0 <= width * height <= 0xffff_ffff * 0xffff_ffff) by (nonlinear_arith)
                requires
                    0 <= width <= 0xffff_ffff,
                    0 <= height <= 0xffff_ffff,
            ;
            let pixels: u64 = (width as u64) * (height as u64);
            if pixels as u128 * 4 == rgba.len() as u128 {
                Ok(CanvasImage { width, height, rgba })
            } else {
                Err(CanvasError::NotAnImage)
            }
        },
        Err(_) => Err(CanvasError::NotAnImage),
    }
}

/// Reads the picture that a canvas has written as `data_url`.
pub fn canvas_image(data_url: &str) -> (image: Result<CanvasImage, CanvasError>)
    ensures
        match image {
            Ok(image) => spec_canvas_image(data_url@) == Ok::<CanvasImageView, CanvasError>(
                image@,
            ),
            Err(error) => spec_canvas_image(data_url@) == Err::<CanvasImageView, CanvasError>(
                error,
            ),
        },
{
    let base64 = match strip_png_prefix(data_url) {
        Some(rest) => rest,
        None => {
            return Err(CanvasError::NotPngDataUrl);
        },
    };
    let bytes = match decode_base64(base64) {
        Ok(bytes) => bytes,
        Err(_) => {
            return Err(CanvasError::NotBase64);
        },
    };
    image_from_decoded(decode_image(bytes.as_slice()))
}

} // verus!
