use nameful_api::buffer::RasterBuffer;
use nameful_api::codec::{read_png, write_png};
use nameful_api::error::RenderError;
use nameful_api::pixel::Pixel;
use nameful_api::render::Render;

fn opaque_pixel(x: usize, y: usize) -> Pixel {
    Pixel::new((x * 4) as u8, (y * 4) as u8, ((x * 7 + y * 13) % 256) as u8, 255)
}

fn skin_of(width: usize, height: usize, f: fn(usize, usize) -> Pixel) -> RasterBuffer {
    let mut bytes = Vec::new();
    for y in 0..height {
        for x in 0..width {
            let p = f(x, y);
            bytes.push(p.r);
            bytes.push(p.g);
            bytes.push(p.b);
            bytes.push(p.a);
        }
    }
    RasterBuffer::from_rgba(width, height, &bytes).unwrap()
}

#[test]
fn legacy_body_at_scale_six_is_96_by_192() {
    let skin = skin_of(64, 32, opaque_pixel);
    let out = Render::from_skin(skin.clone(), 6).unwrap().render_body("body", false).unwrap();
    let image = out.image();
    assert_eq!(image.width(), 96);
    assert_eq!(image.height(), 192);
    for y in 0..48 {
        for x in 0..48 {
            let expected = skin.get(8 + x / 6, 8 + y / 6).unwrap();
            assert_eq!(image.get(24 + x, y), Some(expected));
        }
    }
}

#[test]
fn modern_armored_head_at_scale_one_blends_overlay_over_base() {
    fn mixed(x: usize, y: usize) -> Pixel {
        if x >= 40 && x < 48 && y >= 8 && y < 16 {
            Pixel::new(200, 100, 50, ((x + y) * 5 % 256) as u8)
        } else {
            Pixel::new((x * 3) as u8, (y * 3) as u8, 77, 255)
        }
    }
    let skin = skin_of(64, 64, mixed);
    let out = Render::from_skin(skin.clone(), 1).unwrap().render_body("head", true).unwrap();
    let image = out.image();
    assert_eq!((image.width(), image.height()), (8, 8));
    for y in 0..8 {
        for x in 0..8 {
            let base = skin.get(8 + x, 8 + y).unwrap();
            let over = skin.get(40 + x, 8 + y).unwrap();
            let expected = over.blend_over(base.blend_over(Pixel::transparent()));
            assert_eq!(image.get(x, y), Some(expected));
        }
    }
}

#[test]
fn skin_of_height_48_is_unsupported() {
    for size in [0usize, 1, 6, 36] {
        let skin = skin_of(64, 48, opaque_pixel);
        let err = Render::from_skin(skin, size).unwrap_err();
        assert_eq!(err, RenderError::UnsupportedFormat);
    }
}

#[test]
fn png_round_trip_keeps_pixels() {
    let skin = skin_of(64, 32, opaque_pixel);
    let file = write_png(&skin).unwrap();
    let back = read_png(&file).unwrap();
    assert_eq!(back.width(), 64);
    assert_eq!(back.height(), 32);
    assert_eq!(back.to_rgba(), skin.to_rgba());
}

fn translucent_pixel(x: usize, y: usize) -> Pixel {
    Pixel::new((x * 3) as u8, (y * 2) as u8, ((x * y) % 256) as u8, ((x * 11 + y * 17) % 256) as u8)
}

fn overlay_opaque_at_even(x: usize, y: usize) -> Pixel {
    // the lower half of a modern skin and the right half of its upper part hold overlay art
    let alpha = if (x + y) % 2 == 0 { 255 } else { 0 };
    if y >= 32 || x >= 32 {
        Pixel::new(250, (x * 2) as u8, (y * 2) as u8, alpha)
    } else {
        opaque_pixel(x, y)
    }
}

#[test]
fn armor_has_no_effect_on_a_legacy_skin() {
    for name in ["head", "bust", "body"] {
        for size in [1usize, 2, 5] {
            let skin = skin_of(64, 32, translucent_pixel);
            let plain = Render::from_skin(skin.clone(), size).unwrap().render_body(name, false).unwrap();
            let armored = Render::from_skin(skin, size).unwrap().render_body(name, true).unwrap();
            assert_eq!(plain.image().width(), armored.image().width());
            assert_eq!(plain.image().height(), armored.image().height());
            assert_eq!(plain.image().to_rgba(), armored.image().to_rgba());
        }
    }
}

#[test]
fn legacy_right_limbs_are_mirrored_left_limbs() {
    let size = 3usize;
    let skin = skin_of(64, 32, opaque_pixel);
    let out = Render::from_skin(skin.clone(), size).unwrap().render_body("body", false).unwrap();
    let image = out.image();
    for r in 0..12 * size {
        for c in 0..4 * size {
            let mirrored = 4 * size - 1 - c;
            // limb pair A: right at unit (12, 8), left at unit (0, 8), art at (44, 20)
            let right = image.get(12 * size + c, 8 * size + r).unwrap();
            assert_eq!(right, skin.get(44 + mirrored / size, 20 + r / size).unwrap());
            assert_eq!(right, image.get(mirrored, 8 * size + r).unwrap());
            // limb pair B: right at unit (8, 20), left at unit (4, 20), art at (4, 20)
            let right = image.get(8 * size + c, 20 * size + r).unwrap();
            assert_eq!(right, skin.get(4 + mirrored / size, 20 + r / size).unwrap());
            assert_eq!(right, image.get(4 * size + mirrored, 20 * size + r).unwrap());
        }
    }
}

#[test]
fn modern_right_limbs_have_their_own_art() {
    let size = 2usize;
    let skin = skin_of(64, 64, opaque_pixel);
    let out = Render::from_skin(skin.clone(), size).unwrap().render_body("body", false).unwrap();
    let image = out.image();
    for r in 0..12 * size {
        for c in 0..4 * size {
            assert_eq!(image.get(12 * size + c, 8 * size + r), skin.get(36 + c / size, 52 + r / size));
            assert_eq!(image.get(8 * size + c, 20 * size + r), skin.get(20 + c / size, 52 + r / size));
        }
    }
}

#[test]
fn opaque_overlay_hides_the_base_layer() {
    let size = 2usize;
    let skin = skin_of(64, 64, overlay_opaque_at_even);
    let out = Render::from_skin(skin.clone(), size).unwrap().render_body("body", true).unwrap();
    let bare = Render::from_skin(skin.clone(), size).unwrap().render_body("body", false).unwrap();
    let image = out.image();
    // destination unit, size and overlay art of each part
    let parts = [
        ((4usize, 0usize), (8usize, 8usize), (40usize, 8usize)),
        ((4, 8), (8, 12), (20, 36)),
        ((0, 8), (4, 12), (44, 36)),
        ((12, 8), (4, 12), (52, 52)),
        ((4, 20), (4, 12), (4, 36)),
        ((8, 20), (4, 12), (4, 52)),
    ];
    for ((dx, dy), (w, h), (sx, sy)) in parts {
        for py in 0..h * size {
            for px in 0..w * size {
                let over = skin.get(sx + px / size, sy + py / size).unwrap();
                let shown = image.get(dx * size + px, dy * size + py).unwrap();
                let beneath = bare.image().get(dx * size + px, dy * size + py).unwrap();
                if over.a == 255 {
                    assert_eq!(shown, over);
                } else {
                    assert_eq!(shown, beneath);
                }
            }
        }
    }
}

#[test]
fn head_is_eight_units_square() {
    for (height, armored) in [(32usize, false), (32, true), (64, false), (64, true)] {
        for size in [1usize, 2, 6, 36] {
            let skin = skin_of(64, height, opaque_pixel);
            let out = Render::from_skin(skin, size).unwrap().render_body("head", armored).unwrap();
            assert_eq!((out.image().width(), out.image().height()), (8 * size, 8 * size));
        }
    }
}

#[test]
fn bust_is_sixteen_units_square() {
    for (height, armored) in [(32usize, false), (32, true), (64, false), (64, true)] {
        for size in [1usize, 3, 36] {
            let skin = skin_of(64, height, opaque_pixel);
            let out = Render::from_skin(skin, size).unwrap().render_body("bust", armored).unwrap();
            assert_eq!((out.image().width(), out.image().height()), (16 * size, 16 * size));
        }
    }
}

#[test]
fn bust_keeps_the_top_of_the_body() {
    let size = 2usize;
    let skin = skin_of(64, 64, opaque_pixel);
    let bust = Render::from_skin(skin.clone(), size).unwrap().render_body("bust", true).unwrap();
    let body = Render::from_skin(skin, size).unwrap().render_body("body", true).unwrap();
    for y in 0..16 * size {
        for x in 0..16 * size {
            assert_eq!(bust.image().get(x, y), body.image().get(x, y));
        }
    }
}

#[test]
fn unknown_render_type_is_a_body() {
    let skin = skin_of(64, 64, opaque_pixel);
    let odd = Render::from_skin(skin.clone(), 2).unwrap().render_body("statue", true).unwrap();
    let body = Render::from_skin(skin, 2).unwrap().render_body("body", true).unwrap();
    assert_eq!((odd.image().width(), odd.image().height()), (32, 64));
    assert_eq!(odd.image().to_rgba(), body.image().to_rgba());
}

#[test]
fn body_leaves_the_corners_transparent() {
    let size = 2usize;
    let skin = skin_of(64, 32, opaque_pixel);
    let out = Render::from_skin(skin, size).unwrap().render_body("body", false).unwrap();
    let image = out.image();
    // beside the head and beside the lower limbs nothing is drawn
    for (x, y) in [(0usize, 0usize), (3 * size, 7 * size), (12 * size, 0), (0, 20 * size), (15 * size, 31 * size)] {
        assert_eq!(image.get(x, y), Some(Pixel::transparent()));
    }
}

#[test]
fn fresh_session_has_a_transparent_canvas() {
    let skin = skin_of(64, 64, opaque_pixel);
    let session = Render::from_skin(skin.clone(), 3).unwrap();
    assert_eq!(session.size(), 3);
    assert_eq!(session.format(), nameful_api::atlas::SkinFormat::Modern);
    assert_eq!((session.image().width(), session.image().height()), (48, 96));
    assert!(session.image().to_rgba().iter().all(|b| *b == 0));
    assert_eq!(session.skin().to_rgba(), skin.to_rgba());
}

#[test]
fn scale_zero_is_invalid() {
    for height in [32usize, 64] {
        let skin = skin_of(64, height, opaque_pixel);
        assert_eq!(Render::from_skin(skin, 0).unwrap_err(), RenderError::InvalidScale);
    }
}

#[test]
fn format_is_checked_before_scale() {
    let skin = skin_of(64, 48, opaque_pixel);
    assert_eq!(Render::from_skin(skin, 0).unwrap_err(), RenderError::UnsupportedFormat);
}

#[test]
fn bytes_that_are_no_image_are_a_decode_error() {
    assert_eq!(Render::new(b"not a png", 2).unwrap_err(), RenderError::DecodeError);
    assert_eq!(Render::new(&[], 2).unwrap_err(), RenderError::DecodeError);
}

#[test]
fn narrow_skin_is_out_of_bounds() {
    let skin = skin_of(40, 32, opaque_pixel);
    let session = Render::from_skin(skin.clone(), 1).unwrap();
    assert_eq!(session.render_body("body", false).unwrap_err(), RenderError::RegionOutOfBounds);
    // the head alone lies within the first 16 columns
    let head = Render::from_skin(skin, 1).unwrap().render_body("head", false).unwrap();
    assert_eq!((head.image().width(), head.image().height()), (8, 8));
}

#[test]
fn rendering_a_finished_head_again_is_out_of_bounds() {
    let skin = skin_of(64, 64, opaque_pixel);
    let done = Render::from_skin(skin, 1).unwrap().render_body("head", false).unwrap();
    assert_eq!(done.render_body("head", false).unwrap_err(), RenderError::RegionOutOfBounds);
}

#[test]
fn session_opens_on_a_png_file() {
    let skin = skin_of(64, 64, opaque_pixel);
    let file = write_png(&skin).unwrap();
    let from_file = Render::new(&file, 2).unwrap().render_body("body", true).unwrap();
    let from_grid = Render::from_skin(skin, 2).unwrap().render_body("body", true).unwrap();
    assert_eq!(from_file.image().to_rgba(), from_grid.image().to_rgba());
    let out = from_file.write_image().unwrap();
    let back = read_png(&out).unwrap();
    assert_eq!((back.width(), back.height()), (32, 64));
    assert_eq!(back.to_rgba(), from_grid.image().to_rgba());
}

#[test]
fn png_of_height_48_is_unsupported() {
    let file = write_png(&skin_of(64, 48, opaque_pixel)).unwrap();
    for size in [0usize, 1, 7] {
        assert_eq!(Render::new(&file, size).unwrap_err(), RenderError::UnsupportedFormat);
    }
}

#[test]
fn finished_image_can_be_taken_out() {
    let skin = skin_of(64, 64, opaque_pixel);
    let done = Render::from_skin(skin, 2).unwrap().render_body("head", false).unwrap();
    let bytes = done.image().to_rgba();
    let image = done.into_image();
    assert_eq!((image.width(), image.height()), (16, 16));
    assert_eq!(image.to_rgba(), bytes);
}
