use nameful_api::atlas::RenderType;
use nameful_api::buffer::RasterBuffer;
use nameful_api::codec::{read_png, write_png};
use nameful_api::error::RenderError;
use nameful_api::render::Render;
use nameful_api::request::{parse_armor, parse_render_type, scale_for_width, RenderRequest, ServeError};

fn plain_skin(height: usize) -> RasterBuffer {
    let mut bytes = Vec::new();
    for y in 0..height {
        for x in 0..64usize {
            bytes.extend_from_slice(&[(x * 4) as u8, (y * 3) as u8, 90, 255]);
        }
    }
    RasterBuffer::from_rgba(64, height, &bytes).unwrap()
}

#[test]
fn armor_words() {
    assert_eq!(parse_armor("armored"), Some(true));
    assert_eq!(parse_armor("armorless"), Some(false));
    assert_eq!(parse_armor("armour"), None);
    assert_eq!(parse_armor(""), None);
    assert_eq!(parse_armor("Armored"), None);
}

#[test]
fn render_type_words() {
    assert_eq!(parse_render_type("head"), Some(RenderType::Head));
    assert_eq!(parse_render_type("bust"), Some(RenderType::Bust));
    assert_eq!(parse_render_type("body"), Some(RenderType::Body));
    assert_eq!(parse_render_type("legs"), None);
    assert_eq!(parse_render_type(""), None);
}

#[test]
fn width_gives_scale() {
    assert_eq!(scale_for_width(isize::MIN), None);
    assert_eq!(scale_for_width(-1), None);
    assert_eq!(scale_for_width(0), None);
    assert_eq!(scale_for_width(1), Some(1));
    assert_eq!(scale_for_width(15), Some(1));
    assert_eq!(scale_for_width(16), Some(1));
    assert_eq!(scale_for_width(31), Some(1));
    assert_eq!(scale_for_width(32), Some(2));
    assert_eq!(scale_for_width(100), Some(6));
    assert_eq!(scale_for_width(575), Some(35));
    assert_eq!(scale_for_width(576), Some(36));
    assert_eq!(scale_for_width(577), Some(36));
    assert_eq!(scale_for_width(isize::MAX), Some(36));
}

#[test]
fn request_needs_three_good_parts() {
    let r = RenderRequest::parse("armored", "bust", 64).unwrap();
    assert!(r.armored());
    assert_eq!(r.render_type(), RenderType::Bust);
    assert_eq!(r.size(), 4);
    let r = RenderRequest::parse("armorless", "head", 5).unwrap();
    assert!(!r.armored());
    assert_eq!(r.render_type(), RenderType::Head);
    assert_eq!(r.size(), 1);
    assert!(RenderRequest::parse("plated", "bust", 64).is_none());
    assert!(RenderRequest::parse("armored", "statue", 64).is_none());
    assert!(RenderRequest::parse("armored", "bust", 0).is_none());
}

#[test]
fn serving_renders_and_encodes() {
    let skin = plain_skin(64);
    let file = write_png(&skin).unwrap();
    let request = RenderRequest::parse("armored", "head", 48).unwrap();
    let served = request.serve(&file).unwrap();
    let image = read_png(&served).unwrap();
    assert_eq!((image.width(), image.height()), (24, 24));
    let direct = Render::from_skin(skin, 3).unwrap().render_body("head", true).unwrap();
    assert_eq!(image.to_rgba(), direct.image().to_rgba());
}

#[test]
fn serving_reports_why_it_failed() {
    let request = RenderRequest::parse("armorless", "body", 160).unwrap();
    assert_eq!(request.serve(b"junk").unwrap_err(), ServeError::Render(RenderError::DecodeError));
    let odd = write_png(&plain_skin(48)).unwrap();
    assert_eq!(request.serve(&odd).unwrap_err(), ServeError::Render(RenderError::UnsupportedFormat));
}
