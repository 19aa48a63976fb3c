use augustus::pixels::{premultiply_alpha, unpremultiply_alpha};

#[test]
fn premultiplying_scales_colour_by_opacity() {
    let mut pixels = vec![200, 100, 0, 128, 9, 9, 9, 0, 255, 255, 255, 255];
    premultiply_alpha(&mut pixels);
    assert_eq!(pixels, vec![100, 50, 0, 128, 0, 0, 0, 0, 255, 255, 255, 255]);
}

#[test]
fn unpremultiplying_restores_colour_and_caps_it() {
    let mut pixels = vec![100, 50, 0, 128, 7, 8, 9, 0, 255, 2, 0, 3];
    unpremultiply_alpha(&mut pixels);
    assert_eq!(pixels, vec![199, 100, 0, 128, 7, 8, 9, 0, 255, 170, 0, 3]);
}
