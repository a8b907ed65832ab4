use nameful_api::atlas::{atlas, plan, BodyPart, Formats, Layer, RegionSpec, RenderType, SkinFormat};

fn row(
    part: BodyPart,
    src: (usize, usize, usize, usize),
    dest: (usize, usize),
    mirror: bool,
    layer: Layer,
    formats: Formats,
) -> RegionSpec {
    RegionSpec::new(part, src, dest, mirror, layer, formats)
}

fn sources(rows: &[RegionSpec]) -> Vec<(usize, usize, usize, usize, usize, usize, bool)> {
    rows.iter().map(|r| (r.src_x, r.src_y, r.width, r.height, r.dest_x, r.dest_y, r.mirror)).collect()
}

#[test]
fn format_follows_height() {
    assert_eq!(SkinFormat::detect(32), Some(SkinFormat::Legacy));
    assert_eq!(SkinFormat::detect(64), Some(SkinFormat::Modern));
    for h in [0usize, 1, 31, 33, 48, 63, 65, 128] {
        assert_eq!(SkinFormat::detect(h), None);
    }
}

#[test]
fn render_type_names() {
    assert_eq!(RenderType::from_name("head"), RenderType::Head);
    assert_eq!(RenderType::from_name("bust"), RenderType::Bust);
    assert_eq!(RenderType::from_name("body"), RenderType::Body);
    assert_eq!(RenderType::from_name(""), RenderType::Body);
    assert_eq!(RenderType::from_name("Head"), RenderType::Body);
    assert_eq!(RenderType::from_name("heads"), RenderType::Body);
    assert_eq!(RenderType::from_name("anything"), RenderType::Body);
}

#[test]
fn atlas_has_fourteen_rows_in_order() {
    let rows = atlas();
    assert_eq!(rows.len(), 14);
    assert_eq!(rows[0], row(BodyPart::Head, (8, 8, 8, 8), (4, 0), false, Layer::Base, Formats::Both));
    assert_eq!(rows[1], row(BodyPart::Torso, (20, 20, 8, 12), (4, 8), false, Layer::Base, Formats::Both));
    assert_eq!(rows[2], row(BodyPart::LimbALeft, (44, 20, 4, 12), (0, 8), false, Layer::Base, Formats::Both));
    assert_eq!(rows[3], row(BodyPart::LimbARight, (44, 20, 4, 12), (12, 8), true, Layer::Base, Formats::LegacyOnly));
    assert_eq!(rows[4], row(BodyPart::LimbARight, (36, 52, 4, 12), (12, 8), false, Layer::Base, Formats::ModernOnly));
    assert_eq!(rows[5], row(BodyPart::LimbBLeft, (4, 20, 4, 12), (4, 20), false, Layer::Base, Formats::Both));
    assert_eq!(rows[6], row(BodyPart::LimbBRight, (4, 20, 4, 12), (8, 20), true, Layer::Base, Formats::LegacyOnly));
    assert_eq!(rows[7], row(BodyPart::LimbBRight, (20, 52, 4, 12), (8, 20), false, Layer::Base, Formats::ModernOnly));
    assert_eq!(rows[8], row(BodyPart::Head, (40, 8, 8, 8), (4, 0), false, Layer::Overlay, Formats::ModernOnly));
    assert_eq!(rows[9], row(BodyPart::Torso, (20, 36, 8, 12), (4, 8), false, Layer::Overlay, Formats::ModernOnly));
    assert_eq!(rows[10], row(BodyPart::LimbALeft, (44, 36, 4, 12), (0, 8), false, Layer::Overlay, Formats::ModernOnly));
    assert_eq!(rows[11], row(BodyPart::LimbARight, (52, 52, 4, 12), (12, 8), false, Layer::Overlay, Formats::ModernOnly));
    assert_eq!(rows[12], row(BodyPart::LimbBLeft, (4, 36, 4, 12), (4, 20), false, Layer::Overlay, Formats::ModernOnly));
    assert_eq!(rows[13], row(BodyPart::LimbBRight, (4, 52, 4, 12), (8, 20), false, Layer::Overlay, Formats::ModernOnly));
}

#[test]
fn head_plan_is_the_head_alone() {
    for format in [SkinFormat::Legacy, SkinFormat::Modern] {
        let rows = plan(format, RenderType::Head, false);
        assert_eq!(sources(&rows), vec![(8, 8, 8, 8, 4, 0, false)]);
    }
    let rows = plan(SkinFormat::Modern, RenderType::Head, true);
    assert_eq!(sources(&rows), vec![(8, 8, 8, 8, 4, 0, false), (40, 8, 8, 8, 4, 0, false)]);
}

#[test]
fn bust_plan_has_torso_and_upper_limbs() {
    let rows = plan(SkinFormat::Legacy, RenderType::Bust, false);
    assert_eq!(
        sources(&rows),
        vec![
            (8, 8, 8, 8, 4, 0, false),
            (20, 20, 8, 12, 4, 8, false),
            (44, 20, 4, 12, 0, 8, false),
            (44, 20, 4, 12, 12, 8, true),
        ]
    );
    let rows = plan(SkinFormat::Modern, RenderType::Bust, true);
    assert_eq!(
        sources(&rows),
        vec![
            (8, 8, 8, 8, 4, 0, false),
            (20, 20, 8, 12, 4, 8, false),
            (44, 20, 4, 12, 0, 8, false),
            (36, 52, 4, 12, 12, 8, false),
            (40, 8, 8, 8, 4, 0, false),
            (20, 36, 8, 12, 4, 8, false),
            (44, 36, 4, 12, 0, 8, false),
            (52, 52, 4, 12, 12, 8, false),
        ]
    );
}

#[test]
fn armored_modern_body_plan_draws_overlays_last() {
    let rows = plan(SkinFormat::Modern, RenderType::Body, true);
    assert_eq!(
        sources(&rows),
        vec![
            (8, 8, 8, 8, 4, 0, false),
            (20, 20, 8, 12, 4, 8, false),
            (44, 20, 4, 12, 0, 8, false),
            (36, 52, 4, 12, 12, 8, false),
            (4, 20, 4, 12, 4, 20, false),
            (20, 52, 4, 12, 8, 20, false),
            (40, 8, 8, 8, 4, 0, false),
            (20, 36, 8, 12, 4, 8, false),
            (44, 36, 4, 12, 0, 8, false),
            (52, 52, 4, 12, 12, 8, false),
            (4, 36, 4, 12, 4, 20, false),
            (4, 52, 4, 12, 8, 20, false),
        ]
    );
    let first_overlay = rows.iter().position(|r| r.layer == Layer::Overlay).unwrap();
    assert!(rows[first_overlay..].iter().all(|r| r.layer == Layer::Overlay));
}

#[test]
fn legacy_body_plan_mirrors_right_limbs() {
    let rows = plan(SkinFormat::Legacy, RenderType::Body, false);
    assert_eq!(
        sources(&rows),
        vec![
            (8, 8, 8, 8, 4, 0, false),
            (20, 20, 8, 12, 4, 8, false),
            (44, 20, 4, 12, 0, 8, false),
            (44, 20, 4, 12, 12, 8, true),
            (4, 20, 4, 12, 4, 20, false),
            (4, 20, 4, 12, 8, 20, true),
        ]
    );
}

#[test]
fn legacy_plan_ignores_armor() {
    for t in [RenderType::Head, RenderType::Bust, RenderType::Body] {
        assert_eq!(plan(SkinFormat::Legacy, t, true), plan(SkinFormat::Legacy, t, false));
    }
}

#[test]
fn exactly_one_row_draws_each_right_limb() {
    for format in [SkinFormat::Legacy, SkinFormat::Modern] {
        for t in [RenderType::Head, RenderType::Bust, RenderType::Body] {
            for armored in [false, true] {
                let rows = plan(format, t, armored);
                let count = |part: BodyPart| rows.iter().filter(|r| r.layer == Layer::Base && r.part == part).count();
                assert_eq!(count(BodyPart::LimbARight), if t == RenderType::Head { 0 } else { 1 });
                assert_eq!(count(BodyPart::LimbBRight), if t == RenderType::Body { 1 } else { 0 });
                for r in rows.iter().filter(|r| r.layer == Layer::Base) {
                    assert_eq!(r.mirror, format == SkinFormat::Legacy && (r.part == BodyPart::LimbARight || r.part == BodyPart::LimbBRight));
                }
            }
        }
    }
}

#[test]
fn selection_follows_format_part_and_layer() {
    let legacy_row = row(BodyPart::LimbARight, (44, 20, 4, 12), (12, 8), true, Layer::Base, Formats::LegacyOnly);
    assert!(legacy_row.is_selected(SkinFormat::Legacy, RenderType::Bust, false));
    assert!(!legacy_row.is_selected(SkinFormat::Modern, RenderType::Bust, false));
    assert!(!legacy_row.is_selected(SkinFormat::Legacy, RenderType::Head, false));
    let overlay_row = row(BodyPart::Head, (40, 8, 8, 8), (4, 0), false, Layer::Overlay, Formats::ModernOnly);
    assert!(overlay_row.is_selected(SkinFormat::Modern, RenderType::Head, true));
    assert!(!overlay_row.is_selected(SkinFormat::Modern, RenderType::Head, false));
    assert!(!overlay_row.is_selected(SkinFormat::Legacy, RenderType::Head, true));
    assert!(RenderType::Body.includes(BodyPart::LimbBLeft));
    assert!(!RenderType::Bust.includes(BodyPart::LimbBLeft));
    assert!(RenderType::Bust.includes(BodyPart::LimbALeft));
    assert!(RenderType::Head.includes(BodyPart::Head));
    assert!(!RenderType::Head.includes(BodyPart::Torso));
}
