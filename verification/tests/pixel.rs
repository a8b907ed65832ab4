use nameful_api::pixel::Pixel;

#[test]
fn opaque_source_replaces_destination() {
    let src = Pixel::new(10, 20, 30, 255);
    let dst = Pixel::new(200, 100, 50, 77);
    assert_eq!(src.blend_over(dst), src);
}

#[test]
fn transparent_source_keeps_destination() {
    let src = Pixel::new(10, 20, 30, 0);
    let dst = Pixel::new(200, 100, 50, 77);
    assert_eq!(src.blend_over(dst), dst);
}

#[test]
fn half_covering_source_mixes_channels() {
    // (100 * 128 + 200 * 127 + 127) / 255 = 38327 / 255 = 150
    // (0 * 128 + 255 * 127 + 127) / 255 = 32512 / 255 = 127
    // alpha: 128 + (255 * 127 + 127) / 255 = 128 + 127 = 255
    let src = Pixel::new(100, 0, 255, 128);
    let dst = Pixel::new(200, 255, 255, 255);
    assert_eq!(src.blend_over(dst), Pixel::new(150, 127, 255, 255));
}

#[test]
fn blending_over_transparency_keeps_alpha_and_weights_colour() {
    // (200 * 64 + 127) / 255 = 12927 / 255 = 50
    let src = Pixel::new(200, 0, 255, 64);
    let out = src.blend_over(Pixel::transparent());
    assert_eq!(out, Pixel::new(50, 0, 64, 64));
}

#[test]
fn alpha_accumulates() {
    // 100 + (100 * 155 + 127) / 255 = 100 + 15627 / 255 = 100 + 61
    let src = Pixel::new(0, 0, 0, 100);
    let dst = Pixel::new(0, 0, 0, 100);
    assert_eq!(src.blend_over(dst).a, 161);
}

#[test]
fn transparent_pixel_is_all_zero() {
    assert_eq!(Pixel::transparent(), Pixel::new(0, 0, 0, 0));
}

#[test]
fn blending_never_leaves_the_byte_range_at_the_extremes() {
    for a in [0u8, 1, 127, 128, 254, 255] {
        for s in [0u8, 255] {
            for d in [0u8, 255] {
                let out = Pixel::new(s, s, s, a).blend_over(Pixel::new(d, d, d, 255));
                let expected = ((s as u32 * a as u32 + d as u32 * (255 - a as u32) + 127) / 255) as u8;
                assert_eq!(out.r, expected);
                assert_eq!(out.a, 255);
            }
        }
    }
}
