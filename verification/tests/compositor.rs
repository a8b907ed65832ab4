use nameful_api::atlas::{BodyPart, Formats, Layer, RegionSpec, SkinFormat};
use nameful_api::buffer::RasterBuffer;
use nameful_api::compositor::{apply_plan, apply_region};
use nameful_api::error::RenderError;
use nameful_api::pixel::Pixel;
use nameful_api::render::detect_format;

fn grid(width: usize, height: usize, alpha: u8) -> RasterBuffer {
    let mut bytes = Vec::new();
    for y in 0..height {
        for x in 0..width {
            bytes.extend_from_slice(&[(x * 9) as u8, (y * 9) as u8, (x + y) as u8, alpha]);
        }
    }
    RasterBuffer::from_rgba(width, height, &bytes).unwrap()
}

fn region(src: (usize, usize, usize, usize), dest: (usize, usize), mirror: bool) -> RegionSpec {
    RegionSpec::new(BodyPart::Torso, src, dest, mirror, Layer::Base, Formats::Both)
}

#[test]
fn format_of_a_skin() {
    assert_eq!(detect_format(&grid(64, 32, 255)), Ok(SkinFormat::Legacy));
    assert_eq!(detect_format(&grid(64, 64, 255)), Ok(SkinFormat::Modern));
    assert_eq!(detect_format(&grid(64, 48, 255)), Err(RenderError::UnsupportedFormat));
    assert_eq!(detect_format(&grid(32, 64, 255)), Ok(SkinFormat::Modern));
    assert_eq!(detect_format(&grid(0, 0, 255)), Err(RenderError::UnsupportedFormat));
}

#[test]
fn region_is_cut_scaled_and_placed() {
    let skin = grid(10, 8, 255);
    let mut canvas = RasterBuffer::new(12, 12);
    assert_eq!(apply_region(&mut canvas, &skin, &region((2, 3, 3, 2), (1, 2), false), 2), Ok(()));
    for y in 0..12 {
        for x in 0..12 {
            let expected = if x >= 2 && x < 8 && y >= 4 && y < 8 {
                skin.get(2 + (x - 2) / 2, 3 + (y - 4) / 2).unwrap()
            } else {
                Pixel::transparent()
            };
            assert_eq!(canvas.get(x, y), Some(expected));
        }
    }
}

#[test]
fn mirrored_region_is_flipped_after_scaling() {
    let skin = grid(10, 8, 255);
    let mut canvas = RasterBuffer::new(12, 12);
    assert_eq!(apply_region(&mut canvas, &skin, &region((2, 3, 3, 2), (0, 0), true), 3), Ok(()));
    for y in 0..6 {
        for x in 0..9 {
            let expected = skin.get(2 + (8 - x) / 3, 3 + y / 3).unwrap();
            assert_eq!(canvas.get(x, y), Some(expected));
        }
    }
}

#[test]
fn region_beyond_the_skin_is_refused_and_draws_nothing() {
    let skin = grid(10, 8, 255);
    let mut canvas = RasterBuffer::new(4, 4);
    for bad in [(8usize, 0usize, 3usize, 1usize), (0, 7, 1, 2), (11, 0, 0, 0), (0, 0, 11, 1)] {
        assert_eq!(
            apply_region(&mut canvas, &skin, &region(bad, (0, 0), false), 1),
            Err(RenderError::RegionOutOfBounds)
        );
    }
    assert_eq!(canvas.to_rgba(), vec![0u8; 64]);
}

#[test]
fn later_regions_cover_earlier_ones() {
    let skin = grid(10, 8, 255);
    let plan = vec![region((0, 0, 2, 2), (0, 0), false), region((4, 4, 2, 2), (1, 1), false)];
    let mut canvas = RasterBuffer::new(4, 4);
    assert_eq!(apply_plan(&mut canvas, &skin, &plan, 1), Ok(()));
    assert_eq!(canvas.get(0, 0), skin.get(0, 0));
    assert_eq!(canvas.get(1, 0), skin.get(1, 0));
    assert_eq!(canvas.get(1, 1), skin.get(4, 4));
    assert_eq!(canvas.get(2, 2), skin.get(5, 5));
    assert_eq!(canvas.get(3, 3), Some(Pixel::transparent()));
}

#[test]
fn translucent_regions_blend_in_drawing_order() {
    let skin = grid(10, 8, 100);
    let plan = vec![region((1, 1, 1, 1), (0, 0), false), region((6, 5, 1, 1), (0, 0), false)];
    let mut canvas = RasterBuffer::new(1, 1);
    assert_eq!(apply_plan(&mut canvas, &skin, &plan, 1), Ok(()));
    let first = skin.get(1, 1).unwrap().blend_over(Pixel::transparent());
    let second = skin.get(6, 5).unwrap().blend_over(first);
    assert_eq!(canvas.get(0, 0), Some(second));
}

#[test]
fn plan_with_one_bad_region_draws_nothing() {
    let skin = grid(10, 8, 255);
    let plan = vec![region((0, 0, 2, 2), (0, 0), false), region((9, 0, 2, 2), (1, 1), false)];
    let mut canvas = RasterBuffer::new(4, 4);
    assert_eq!(apply_plan(&mut canvas, &skin, &plan, 1), Err(RenderError::RegionOutOfBounds));
    assert_eq!(canvas.to_rgba(), vec![0u8; 64]);
}

#[test]
fn empty_plan_changes_nothing() {
    let skin = grid(10, 8, 255);
    let mut canvas = grid(3, 3, 9);
    let before = canvas.to_rgba();
    assert_eq!(apply_plan(&mut canvas, &skin, &Vec::new(), 5), Ok(()));
    assert_eq!(canvas.to_rgba(), before);
}
