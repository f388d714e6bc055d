use gallery_core::geometry::{center_crop, fit_within, IMAGE_SIZE, THUMB_SIZE};

#[test]
fn constants_are_the_documented_ones() {
    assert_eq!(IMAGE_SIZE, 1024);
    assert_eq!(THUMB_SIZE, 128);
}

#[test]
fn within_cap_is_unchanged() {
    assert_eq!(fit_within(800, 600, 1024), (800, 600));
    assert_eq!(fit_within(1024, 1024, 1024), (1024, 1024));
    assert_eq!(fit_within(1, 1, 1024), (1, 1));
}

#[test]
fn oversized_landscape_caps_width() {
    assert_eq!(fit_within(2048, 1024, 1024), (1024, 512));
    assert_eq!(fit_within(2000, 1000, 1024), (1024, 512));
}

#[test]
fn oversized_portrait_caps_height() {
    assert_eq!(fit_within(1000, 4000, 1024), (256, 1024));
}

#[test]
fn extreme_ratio_never_collapses_to_zero() {
    assert_eq!(fit_within(5000, 3, 1024), (1024, 1));
    assert_eq!(fit_within(3, 5000, 1024), (1, 1024));
}

#[test]
fn scaling_rounds_down() {
    // 333 * 512 / 1000 = 170.496, floored.
    assert_eq!(fit_within(1000, 333, 512), (512, 170));
}

#[test]
fn center_crop_keeps_the_middle_band() {
    assert_eq!(center_crop(4, 10), (0, 3, 4));
    assert_eq!(center_crop(10, 4), (3, 0, 4));
    assert_eq!(center_crop(5, 5), (0, 0, 5));
    assert_eq!(center_crop(1, 2), (0, 0, 1));
}
