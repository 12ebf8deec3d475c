use text_engine::canvas::{
    canvas_image, image_from_decoded, strip_png_prefix, CanvasError, CanvasImage,
};

/// A picture two pixels wide and one high: a red pixel and a blue one.
const TWO_PIXELS: &str = "data:image/png;base64,iVBORw0KGgoAAAANSUhEUgAAAAIAAAABCAYAAAD0In+KAAAADklEQVR4nGP4z8AAQv8BD/kD/YURmXYAAAAASUVORK5CYII=";

#[test]
fn the_prefix_is_stripped() {
    assert_eq!(strip_png_prefix("data:image/png;base64,QUJD"), Some("QUJD"));
    assert_eq!(strip_png_prefix("data:image/png;base64,"), Some(""));
    assert_eq!(strip_png_prefix("data:image/png;base64,\u{e9}t\u{e9}"), Some("\u{e9}t\u{e9}"));
}

#[test]
fn a_text_without_the_prefix_is_refused() {
    assert_eq!(strip_png_prefix("data:image/jpeg;base64,QUJD"), None);
    assert_eq!(strip_png_prefix("data:image/png;base64"), None);
    assert_eq!(strip_png_prefix(""), None);
    assert_eq!(strip_png_prefix(" data:image/png;base64,QUJD"), None);
    assert_eq!(canvas_image("QUJD"), Err(CanvasError::NotPngDataUrl));
}

#[test]
fn a_picture_is_read_from_its_data_url() {
    assert_eq!(
        canvas_image(TWO_PIXELS),
        Ok(CanvasImage { width: 2, height: 1, rgba: vec![255, 0, 0, 255, 0, 0, 255, 255] })
    );
}

#[test]
fn text_that_is_not_base64_is_refused() {
    assert_eq!(canvas_image("data:image/png;base64,###"), Err(CanvasError::NotBase64));
    assert_eq!(canvas_image("data:image/png;base64,QUJ"), Err(CanvasError::NotBase64));
}

#[test]
fn bytes_that_are_no_picture_are_refused() {
    assert_eq!(
        canvas_image("data:image/png;base64,bm90IGEgcGljdHVyZQ=="),
        Err(CanvasError::NotAnImage)
    );
    assert_eq!(canvas_image("data:image/png;base64,"), Err(CanvasError::NotAnImage));
}

#[test]
fn a_picture_has_four_bytes_for_each_pixel() {
    assert_eq!(
        image_from_decoded(Ok((1, 2, vec![1, 2, 3, 4, 5, 6, 7, 8]))),
        Ok(CanvasImage { width: 1, height: 2, rgba: vec![1, 2, 3, 4, 5, 6, 7, 8] })
    );
    assert_eq!(image_from_decoded(Ok((0, 7, Vec::new()))).map(|image| image.rgba.len()), Ok(0));
    assert_eq!(image_from_decoded(Ok((1, 2, vec![1, 2, 3, 4]))), Err(CanvasError::NotAnImage));
    assert_eq!(image_from_decoded(Ok((1, 1, vec![1, 2, 3, 4, 5]))), Err(CanvasError::NotAnImage));
    assert_eq!(
        image_from_decoded(Ok((u32::MAX, u32::MAX, vec![0; 4]))),
        Err(CanvasError::NotAnImage)
    );
}
