//! The output raster and its textual form.

use raytracer::geometry::Color;
use raytracer::image::Image;
use raytracer::trig::{asin_milli, atan2_milli};

#[test]
fn new_image_is_black() {
    let img = Image::new(2, 3);
    for x in 0..2 {
        for y in 0..3 {
            assert_eq!(img.get(x, y), Color(0, 0, 0));
        }
    }
}

#[test]
fn set_writes_one_pixel() {
    let mut img = Image::new(2, 3);
    img.set(1, 2, Color(9, 8, 7));
    assert_eq!(img.get(1, 2), Color(9, 8, 7));
    assert_eq!(img.get(0, 0), Color(0, 0, 0));
    assert_eq!(img.get(1, 1), Color(0, 0, 0));
}

#[test]
fn ppm_text_of_a_tiny_image() {
    let mut img = Image::new(1, 2);
    img.set(0, 0, Color(255, 0, 10));
    img.set(0, 1, Color(1, 2, 3));
    let bytes = img.ppm_bytes();
    let text = String::from_utf8(bytes).expect("the pixmap text is ascii");
    assert_eq!(text, "P3\n2 1 255\n255 0 10\n1 2 3\n\n");
}

#[test]
fn rgb_buffer_interleaves_channels() {
    let mut img = Image::new(1, 2);
    img.set(0, 0, Color(255, 0, 10));
    img.set(0, 1, Color(1, 2, 3));
    assert_eq!(img.rgb_buffer(), vec![255, 0, 10, 1, 2, 3]);
}

#[test]
fn inverse_trigonometry_landmarks() {
    assert_eq!(atan2_milli(0, 1000), 0);
    assert_eq!(atan2_milli(1000, 0), 1571);
    assert_eq!(atan2_milli(-1000, 0), -1571);
    assert_eq!(asin_milli(1000), 1571);
    assert_eq!(asin_milli(0), 0);
    // atan(1) is an eighth of a turn; the approximation is within a
    // few thousandths of a radian.
    let a = atan2_milli(1000, 1000);
    assert!((a - 785).abs() <= 5, "atan was {}", a);
}
