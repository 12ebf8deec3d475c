//! What is known of one glyph once it has been drawn: how far it moves the
//! pen, and where its bitmap lies in the atlas.

use vstd::prelude::*;

verus! {

/// A length in points, held as the 32 bits of the binary number that the
/// drawing code computed. The library never calculates with such a number:
/// it stores it, hands it on, and tells by the bits alone whether it is
/// zero or positive.
#[derive(Clone, Copy, Debug, PartialEq, Eq, Structural)]
pub struct Points {
    pub bits: u32,
}

impl Points {
    /// The bits of the number one.
    pub const ONE_BITS: u32 = 0x3f80_0000;

    /// The bits of positive infinity: the largest bits of a positive number.
    pub const POSITIVE_MAX_BITS: u32 = 0x7f80_0000;

    /// Whether the bits stand for a number above zero: the sign bit is
    /// clear, some other bit is set, and the bits are not those of a
    /// not-a-number.
    pub open spec fn spec_is_positive(self) -> bool {
        0 < self.bits <= Self::POSITIVE_MAX_BITS
    }

    /// Whether the number is above zero.
    #[verifier::when_used_as_spec(spec_is_positive)]
    pub fn is_positive(self) -> (positive: bool)
        ensures
            positive == self.spec_is_positive(),
    {
        0 < self.bits && self.bits <= Self::POSITIVE_MAX_BITS
    }

    /// The length zero.
    pub open spec fn spec_zero() -> Points {
        Points { bits: 0 }
    }

    /// The length zero.
    #[verifier::when_used_as_spec(spec_zero)]
    pub fn zero() -> (p: Points)
        ensures
            p == Self::spec_zero(),
    {
        Points { bits: 0 }
    }

    /// The length of one point.
    pub fn one() -> (p: Points)
        ensures
            p.bits == Self::ONE_BITS,
            p.spec_is_positive(),
    {
        Points { bits: Self::ONE_BITS }
    }
}

/// Two lengths in points: a size, or an offset.
#[derive(Clone, Copy, Debug, PartialEq, Eq, Structural)]
pub struct PointVec {
    pub x: Points,
    pub y: Points,
}

impl PointVec {
    /// Zero in both directions.
    pub open spec fn spec_zero() -> PointVec {
        PointVec { x: Points::spec_zero(), y: Points::spec_zero() }
    }
}

/// A place in the atlas, counted in texels from its top left corner.
#[derive(Clone, Copy, Debug, PartialEq, Eq, Structural)]
pub struct Texel {
    pub x: u16,
    pub y: u16,
}

/// Where a glyph's bitmap lies in the atlas, and how to put it on screen.
#[derive(Clone, Copy, Debug, PartialEq, Eq, Structural)]
pub struct UvRect {
    /// The offset at which the bitmap is to be painted, in points.
    pub offset: PointVec,
    /// The size of the bitmap on screen, in points.
    pub size: PointVec,
    /// The top left texel of the bitmap.
    pub min: Texel,
    /// The texel behind the bottom right one.
    pub max: Texel,
}

impl UvRect {
    /// The rectangle of a glyph without a bitmap.
    pub open spec fn spec_default() -> UvRect {
        UvRect {
            offset: PointVec::spec_zero(),
            size: PointVec::spec_zero(),
            min: Texel { x: 0, y: 0 },
            max: Texel { x: 0, y: 0 },
        }
    }

    /// Whether the rectangle holds no texel.
    pub open spec fn spec_is_nothing(&self) -> bool {
        self.min == self.max
    }

    /// Whether the rectangle holds no texel, as that of a space does.
    #[verifier::when_used_as_spec(spec_is_nothing)]
    pub fn is_nothing(&self) -> (nothing: bool)
        ensures
            nothing == self.spec_is_nothing(),
    {
        self.min.x == self.max.x && self.min.y == self.max.y
    }

    /// The rectangle of a bitmap of `extent` texels whose top left texel
    /// is `pos`. The atlas is addressed by 16 bits each way: of a larger
    /// coordinate the low 16 bits are kept.
    pub open spec fn spec_placed(
        offset: PointVec,
        size: PointVec,
        pos: (usize, usize),
        extent: (usize, usize),
    ) -> UvRect {
        UvRect {
            offset,
            size,
            min: Texel { x: (pos.0 % 0x1_0000) as u16, y: (pos.1 % 0x1_0000) as u16 },
            max: Texel {
                x: ((pos.0 + extent.0) % 0x1_0000) as u16,
                y: ((pos.1 + extent.1) % 0x1_0000) as u16,
            },
        }
    }

    /// The rectangle of a bitmap that the atlas has put at `pos`.
    pub fn placed(
        offset: PointVec,
        size: PointVec,
        pos: (usize, usize),
        extent: (usize, usize),
    ) -> (rect: UvRect)
        requires
            pos.0 + extent.0 <= usize::MAX,
            pos.1 + extent.1 <= usize::MAX,
        ensures
            rect == Self::spec_placed(offset, size, pos, extent),
    {
        UvRect {
            offset,
            size,
            min: Texel { x: low_16_bits(pos.0), y: low_16_bits(pos.1) },
            max: Texel { x: low_16_bits(pos.0 + extent.0), y: low_16_bits(pos.1 + extent.1) },
        }
    }
}

fn low_16_bits(v: usize) -> (low: u16)
    ensures
        low == v % 0x1_0000,
{
    (v % 0x1_0000) as u16
}

impl Default for UvRect {
    fn default() -> (rect: UvRect)
        ensures
            rect == UvRect::spec_default(),
            rect.spec_is_nothing(),
    {
        UvRect {
            offset: PointVec { x: Points::zero(), y: Points::zero() },
            size: PointVec { x: Points::zero(), y: Points::zero() },
            min: Texel { x: 0, y: 0 },
            max: Texel { x: 0, y: 0 },
        }
    }
}

/// One glyph of one face.
#[derive(Clone, Copy, Debug, PartialEq, Eq, Structural)]
pub struct GlyphInfo {
    /// The number by which the face's shaping backend knows the glyph; 0
    /// where it has none.
    pub id: u16,
    /// How far the glyph moves the pen, in points.
    pub advance_width: Points,
    /// Where the glyph's bitmap lies in the atlas.
    pub uv_rect: UvRect,
}

impl GlyphInfo {
    /// The glyph that shows nothing and moves the pen nowhere.
    pub open spec fn spec_default() -> GlyphInfo {
        GlyphInfo { id: 0, advance_width: Points::spec_zero(), uv_rect: UvRect::spec_default() }
    }
}

impl Default for GlyphInfo {
    fn default() -> (glyph: GlyphInfo)
        ensures
            glyph == GlyphInfo::spec_default(),
    {
        GlyphInfo { id: 0, advance_width: Points::zero(), uv_rect: UvRect::default() }
    }
}

/// What drawing a glyph has given: its advance and its place in the atlas.
#[derive(Clone, Copy, Debug, PartialEq, Eq, Structural)]
pub struct DrawnGlyph {
    pub advance_width: Points,
    pub uv_rect: UvRect,
}

/// What is to happen once a glyph's bounding box has been measured.
#[derive(Clone, Copy, Debug, PartialEq, Eq, Structural)]
pub enum RasterStep {
    /// The glyph has no pixels: nothing is allocated, and this is it.
    Done(DrawnGlyph),
    /// Room of this many pixels is to be had from the atlas, and the glyph
    /// drawn into it.
    Allocate { width: usize, height: usize },
}

/// Decides what follows the measuring of a glyph whose bounding box is
/// `width` by `height` pixels and whose advance is `advance_width`: a box
/// without pixels takes no room in the atlas and gets the empty rectangle,
/// with the advance as it was measured.
pub fn after_measuring(advance_width: Points, width: usize, height: usize) -> (step: RasterStep)
    ensures
        step == spec_after_measuring(advance_width, width, height),
        width == 0 || height == 0 ==> step is Done && step->Done_0.uv_rect.spec_is_nothing()
            && step->Done_0.advance_width == advance_width,
{
    if width == 0 || height == 0 {
        RasterStep::Done(DrawnGlyph { advance_width, uv_rect: UvRect::default() })
    } else {
        RasterStep::Allocate { width, height }
    }
}

/// What follows the measuring of a glyph.
pub open spec fn spec_after_measuring(
    advance_width: Points,
    width: usize,
    height: usize,
) -> RasterStep {
    if width == 0 || height == 0 {
        RasterStep::Done(DrawnGlyph { advance_width, uv_rect: UvRect::spec_default() })
    } else {
        RasterStep::Allocate { width, height }
    }
}

/// The glyph whose bitmap of `extent` pixels the atlas has put at `pos`.
pub fn after_allocating(
    advance_width: Points,
    offset: PointVec,
    size: PointVec,
    pos: (usize, usize),
    extent: (usize, usize),
) -> (drawn: DrawnGlyph)
    requires
        pos.0 + extent.0 <= usize::MAX,
        pos.1 + extent.1 <= usize::MAX,
    ensures
        drawn == (DrawnGlyph {
            advance_width,
            uv_rect: UvRect::spec_placed(offset, size, pos, extent),
        }),
{
    DrawnGlyph { advance_width, uv_rect: UvRect::placed(offset, size, pos, extent) }
}

} // verus!
