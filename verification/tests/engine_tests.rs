use gallery_core::engine::{process, DecodeError};

fn png_bytes(w: u32, h: u32) -> Vec<u8> {
    let img = image::RgbImage::from_pixel(w, h, image::Rgb([40, 90, 160]));
    let mut out = Vec::new();
    image::DynamicImage::ImageRgb8(img)
        .write_to(&mut std::io::Cursor::new(&mut out), image::ImageFormat::Png)
        .unwrap();
    out
}

fn decoded_dims(bytes: &[u8]) -> (u32, u32) {
    let img = image::load_from_memory(bytes).unwrap();
    (img.width(), img.height())
}

#[test]
fn small_image_keeps_its_dimensions() {
    let asset = process(&png_bytes(300, 200)).unwrap();
    assert_eq!(decoded_dims(&asset.main_bytes), (300, 200));
}

#[test]
fn oversized_image_is_capped_with_ratio_kept() {
    let asset = process(&png_bytes(2048, 1024)).unwrap();
    assert_eq!(decoded_dims(&asset.main_bytes), (1024, 512));
}

#[test]
fn thumbnail_is_square() {
    let wide = process(&png_bytes(300, 200)).unwrap();
    assert_eq!(decoded_dims(&wide.thumb_bytes), (128, 128));
    let tall = process(&png_bytes(200, 300)).unwrap();
    assert_eq!(decoded_dims(&tall.thumb_bytes), (128, 128));
}

#[test]
fn outputs_round_trip_through_the_codec() {
    let asset = process(&png_bytes(50, 40)).unwrap();
    assert_eq!(
        image::guess_format(&asset.main_bytes).unwrap(),
        image::ImageFormat::WebP
    );
    assert_eq!(
        image::guess_format(&asset.thumb_bytes).unwrap(),
        image::ImageFormat::WebP
    );
    let main = image::load_from_memory(&asset.main_bytes).unwrap();
    assert!(!main.to_rgb8().into_raw().is_empty());
    let thumb = image::load_from_memory(&asset.thumb_bytes).unwrap();
    assert!(!thumb.to_rgb8().into_raw().is_empty());
}

#[test]
fn processing_is_deterministic() {
    let input = png_bytes(321, 123);
    let a = process(&input).unwrap();
    let b = process(&input).unwrap();
    assert_eq!(a.main_bytes, b.main_bytes);
    assert_eq!(a.thumb_bytes, b.thumb_bytes);
}

#[test]
fn garbage_bytes_are_rejected() {
    let garbage: Vec<u8> = vec![0, 1, 2, 3, 254, 255, 7, 9];
    assert_eq!(process(&garbage).unwrap_err(), DecodeError);
}

#[test]
fn empty_input_is_rejected() {
    let empty: Vec<u8> = Vec::new();
    assert_eq!(process(&empty).unwrap_err(), DecodeError);
}

#[test]
fn truncated_image_is_rejected() {
    let mut bytes = png_bytes(100, 100);
    bytes.truncate(30);
    assert_eq!(process(&bytes).unwrap_err(), DecodeError);
}
