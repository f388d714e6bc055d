use gallery_core::batch::{
    build_upload_request, field_name, prepare, transfer_failure, UploadField,
};
use gallery_core::engine::DecodeError;

fn png_bytes(w: u32, h: u32) -> Vec<u8> {
    let img = image::RgbImage::from_pixel(w, h, image::Rgb([200, 60, 10]));
    let mut out = Vec::new();
    image::DynamicImage::ImageRgb8(img)
        .write_to(&mut std::io::Cursor::new(&mut out), image::ImageFormat::Png)
        .unwrap();
    out
}

#[test]
fn one_corrupt_file_abandons_the_whole_batch() {
    let files = vec![png_bytes(60, 40), vec![9u8, 9, 9, 9], png_bytes(40, 60)];
    // All-or-nothing: no transfer payload exists, so nothing can be sent.
    let outcome = build_upload_request(&files);
    assert!(matches!(outcome, Err(DecodeError)));
}

#[test]
fn a_clean_batch_keeps_selection_order() {
    let files = vec![png_bytes(60, 40), png_bytes(40, 60)];
    let req = build_upload_request(&files).unwrap();
    assert_eq!(req.parts.len(), 2);
    for part in &req.parts {
        let bytes = part.path.as_bytes();
        assert_eq!(bytes[3], b'/');
        assert_eq!(bytes[6], b'/');
        assert!(part.path.ends_with(".webp"));
    }
    let first = image::load_from_memory(&req.parts[0].asset.main_bytes).unwrap();
    assert_eq!((first.width(), first.height()), (60, 40));
    let second = image::load_from_memory(&req.parts[1].asset.main_bytes).unwrap();
    assert_eq!((second.width(), second.height()), (40, 60));
}

#[test]
fn an_empty_batch_builds_an_empty_request() {
    let files: Vec<Vec<u8>> = Vec::new();
    let req = build_upload_request(&files).unwrap();
    assert_eq!(req.parts.len(), 0);
}

#[test]
fn prepare_bundles_path_and_asset() {
    let p = prepare(&png_bytes(30, 30)).unwrap();
    assert!(p.path.ends_with(".webp"));
    let thumb = image::load_from_memory(&p.asset.thumb_bytes).unwrap();
    assert_eq!((thumb.width(), thumb.height()), (128, 128));
}

#[test]
fn prepare_propagates_decode_failure() {
    let garbage: Vec<u8> = vec![1, 2, 3];
    assert!(matches!(prepare(&garbage), Err(DecodeError)));
}

#[test]
fn field_roles_have_their_wire_names() {
    assert_eq!(field_name(&UploadField::Images), "images");
    assert_eq!(field_name(&UploadField::Thumbs), "thumbs");
}

#[test]
fn transfer_failure_carries_server_text() {
    let e = transfer_failure(Some(String::from("payload too large")));
    assert_eq!(e.text, "payload too large");
}

#[test]
fn transfer_failure_falls_back_to_generic_marker() {
    let e = transfer_failure(None);
    assert_eq!(e.text, "fetch error");
}
