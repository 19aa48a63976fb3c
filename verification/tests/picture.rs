use augustus::picture::{city_picture_from, decode_picture, fit_pixels, prepare_city_picture, PictureError};

fn png_of(width: u32, height: u32, pixels: Vec<u8>) -> Vec<u8> {
    let picture = image::RgbaImage::from_raw(width, height, pixels).expect("four bytes per pixel");
    let mut bytes = std::io::Cursor::new(Vec::new());
    picture.write_to(&mut bytes, image::ImageFormat::Png).expect("PNG encoding works in memory");
    bytes.into_inner()
}

#[test]
fn decoding_gives_dimensions_and_rgba_bytes() {
    let pixels = vec![255, 0, 0, 255, 0, 128, 255, 64];
    let png = png_of(2, 1, pixels.clone());
    assert_eq!(decode_picture(&png), Some((2, 1, pixels)));
}

#[test]
fn bytes_that_are_no_picture_do_not_decode() {
    assert_eq!(decode_picture(b"not a picture"), None);
    assert_eq!(prepare_city_picture(b"not a picture", 8), Err(PictureError::Undecodable));
}

#[test]
fn city_picture_is_scaled_to_the_requested_square() {
    let pixels = [200u8, 100, 50, 255].repeat(16);
    let png = png_of(4, 4, pixels);
    let scaled = prepare_city_picture(&png, 2).expect("a small opaque picture scales");
    assert_eq!(scaled.len(), 2 * 2 * 4);
    for pixel in scaled.chunks(4) {
        assert_eq!(pixel[3], 255);
        for (channel, expected) in pixel[..3].iter().zip([200u8, 100, 50]) {
            assert!(channel.abs_diff(expected) <= 1, "{channel} is far from {expected}");
        }
    }
}

#[test]
fn transparent_city_picture_keeps_no_colour() {
    let pixels = [90u8, 180, 30, 0].repeat(9);
    let png = png_of(3, 3, pixels);
    let scaled = prepare_city_picture(&png, 1).expect("a small picture scales");
    assert_eq!(scaled, vec![0, 0, 0, 0]);
}

#[test]
fn fitting_keeps_four_bytes_per_pixel() {
    assert_eq!(fit_pixels(1, 2, vec![1, 2, 3, 4, 5, 6, 7, 8, 9, 10]), vec![1, 2, 3, 4, 5, 6, 7, 8]);
    assert_eq!(fit_pixels(0, 5, vec![1, 2, 3]), Vec::<u8>::new());
}

#[test]
fn undecoded_or_oversized_pictures_are_refused() {
    assert_eq!(city_picture_from(None, 4), Err(PictureError::Undecodable));
    assert_eq!(
        city_picture_from(Some((u32::MAX, 0, Vec::new())), u32::MAX),
        Err(PictureError::TooLarge { width: u32::MAX, height: 0 })
    );
}

#[test]
fn empty_picture_scales_to_a_transparent_square() {
    assert_eq!(city_picture_from(Some((0, 0, Vec::new())), 2), Ok(vec![0; 16]));
}
