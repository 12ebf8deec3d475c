use text_engine::glyph::{
    after_allocating, after_measuring, DrawnGlyph, GlyphInfo, PointVec, Points, RasterStep, Texel,
    UvRect,
};

fn points(value: f32) -> Points {
    Points { bits: value.to_bits() }
}

#[test]
fn positive_lengths_are_told_by_their_bits() {
    let values = [
        0.0f32,
        -0.0,
        1.0,
        -1.0,
        0.25,
        f32::MIN_POSITIVE,
        f32::MIN_POSITIVE / 4.0,
        f32::MAX,
        f32::MIN,
        f32::INFINITY,
        f32::NEG_INFINITY,
        f32::NAN,
        -f32::NAN,
        f32::from_bits(0x7f80_0001),
        f32::from_bits(0x0000_0001),
    ];
    for value in values {
        assert_eq!(points(value).is_positive(), value > 0.0);
    }
}

#[test]
fn zero_and_one() {
    assert_eq!(Points::zero(), points(0.0));
    assert_eq!(Points::one(), points(1.0));
    assert_eq!(Points::ONE_BITS, 1.0f32.to_bits());
    assert_eq!(Points::POSITIVE_MAX_BITS, f32::INFINITY.to_bits());
    assert!(Points::one().is_positive());
    assert!(!Points::zero().is_positive());
}

#[test]
fn the_default_rectangle_is_nothing() {
    let rect = UvRect::default();
    assert!(rect.is_nothing());
    assert_eq!(rect.min, Texel { x: 0, y: 0 });
    assert_eq!(rect.max, Texel { x: 0, y: 0 });
    assert_eq!(rect.offset, PointVec { x: points(0.0), y: points(0.0) });
    assert_eq!(rect.size, PointVec { x: points(0.0), y: points(0.0) });
}

#[test]
fn a_rectangle_is_nothing_when_its_corners_meet() {
    let mut rect = UvRect::default();
    rect.min = Texel { x: 4, y: 9 };
    rect.max = Texel { x: 4, y: 9 };
    assert!(rect.is_nothing());
    rect.max = Texel { x: 5, y: 9 };
    assert!(!rect.is_nothing());
    rect.max = Texel { x: 4, y: 10 };
    assert!(!rect.is_nothing());
}

#[test]
fn a_placed_rectangle_spans_the_bitmap() {
    let offset = PointVec { x: points(0.5), y: points(11.0) };
    let size = PointVec { x: points(2.5), y: points(3.5) };
    let rect = UvRect::placed(offset, size, (10, 20), (5, 7));
    assert_eq!(rect.min, Texel { x: 10, y: 20 });
    assert_eq!(rect.max, Texel { x: 15, y: 27 });
    assert_eq!(rect.offset, offset);
    assert_eq!(rect.size, size);
    assert!(!rect.is_nothing());
}

#[test]
fn coordinates_keep_their_low_sixteen_bits() {
    let zero = PointVec { x: points(0.0), y: points(0.0) };
    let rect = UvRect::placed(zero, zero, (65530, 65536), (10, 3));
    assert_eq!(rect.min, Texel { x: 65530, y: 0 });
    assert_eq!(rect.max, Texel { x: 4, y: 3 });
}

#[test]
fn the_default_glyph_shows_nothing() {
    let glyph = GlyphInfo::default();
    assert_eq!(glyph.id, 0);
    assert_eq!(glyph.advance_width, points(0.0));
    assert!(glyph.uv_rect.is_nothing());
}

#[test]
fn a_box_without_pixels_takes_no_room() {
    let advance = points(4.25);
    for (width, height) in [(0usize, 0usize), (0, 9), (9, 0)] {
        match after_measuring(advance, width, height) {
            RasterStep::Done(drawn) => {
                assert!(drawn.uv_rect.is_nothing());
                assert_eq!(drawn.uv_rect.min, drawn.uv_rect.max);
                assert_eq!(drawn.uv_rect, UvRect::default());
                assert_eq!(drawn.advance_width, advance);
                assert!(f32::from_bits(drawn.advance_width.bits) != 0.0);
            }
            RasterStep::Allocate { .. } => panic!("nothing is to be allocated"),
        }
    }
}

#[test]
fn a_box_with_pixels_asks_for_room() {
    assert_eq!(
        after_measuring(points(4.25), 3, 4),
        RasterStep::Allocate { width: 3, height: 4 }
    );
    assert_eq!(
        after_measuring(points(0.0), 1, 1),
        RasterStep::Allocate { width: 1, height: 1 }
    );
}

#[test]
fn an_allocated_glyph_lies_where_the_atlas_put_it() {
    let offset = PointVec { x: points(1.0), y: points(9.0) };
    let size = PointVec { x: points(3.0), y: points(4.0) };
    let drawn = after_allocating(points(4.25), offset, size, (7, 30), (3, 4));
    assert_eq!(
        drawn,
        DrawnGlyph {
            advance_width: points(4.25),
            uv_rect: UvRect {
                offset,
                size,
                min: Texel { x: 7, y: 30 },
                max: Texel { x: 10, y: 34 },
            },
        }
    );
}
