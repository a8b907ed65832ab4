//! The layout of a skin atlas: which rectangle of the bitmap holds which body
//! part, and where on the canvas that part is drawn.

use crate::text::same_text;
use vstd::prelude::*;

verus! {

/// The two historical skin layouts, told apart by the height of the bitmap.
#[derive(Clone, Copy, Debug, PartialEq, Eq, Structural)]
pub enum SkinFormat {
    /// 64 by 32: no overlay layer and no art of its own for the right limbs,
    /// which are drawn as mirror images of the left ones.
    Legacy,
    /// 64 by 64: art for every limb and a second layer drawn over the first.
    Modern,
}

/// The layer a region belongs to.
#[derive(Clone, Copy, Debug, PartialEq, Eq, Structural)]
pub enum Layer {
    /// The skin itself.
    Base,
    /// Armor or clothing, drawn over the base layer.
    Overlay,
}

/// How much of the figure a render shows.
#[derive(Clone, Copy, Debug, PartialEq, Eq, Structural)]
pub enum RenderType {
    Head,
    Bust,
    Body,
}

/// The body parts that the atlas holds art for. Limb pair A flanks the torso;
/// limb pair B stands below it.
#[derive(Clone, Copy, Debug, PartialEq, Eq, Structural)]
pub enum BodyPart {
    Head,
    Torso,
    LimbALeft,
    LimbARight,
    LimbBLeft,
    LimbBRight,
}

/// The skin formats that a row of the atlas is used for.
#[derive(Clone, Copy, Debug, PartialEq, Eq, Structural)]
pub enum Formats {
    Both,
    LegacyOnly,
    ModernOnly,
}

/// One row of the atlas. All coordinates are in unscaled units: pixels of the
/// skin for the source rectangle, cells of the 16 by 32 canvas for the
/// destination.
#[derive(Clone, Copy, Debug, PartialEq, Eq, Structural)]
pub struct RegionSpec {
    pub part: BodyPart,
    pub src_x: usize,
    pub src_y: usize,
    pub width: usize,
    pub height: usize,
    pub dest_x: usize,
    pub dest_y: usize,
    pub mirror: bool,
    pub layer: Layer,
    pub formats: Formats,
}

/// The width of the canvas in unscaled units.
pub const CANVAS_WIDTH: usize = 16;

/// The height of the canvas in unscaled units.
pub const CANVAS_HEIGHT: usize = 32;

impl SkinFormat {
    /// The format of a skin that is `height` rows high, if there is one.
    pub open spec fn of_height(height: nat) -> Option<SkinFormat> {
        if height == 32 {
            Some(SkinFormat::Legacy)
        } else if height == 64 {
            Some(SkinFormat::Modern)
        } else {
            None
        }
    }

    /// Classifies a skin by its height: 32 rows are the legacy layout, 64
    /// rows the modern one, and no other height is a skin.
    pub fn detect(height: usize) -> (format: Option<SkinFormat>)
        ensures
            format == SkinFormat::of_height(height as nat),
    {
        if height == 32 {
            Some(SkinFormat::Legacy)
        } else if height == 64 {
            Some(SkinFormat::Modern)
        } else {
            None
        }
    }
}

impl RenderType {
    /// The render type that a name asks for: `head`, `bust`, and the whole
    /// body for every other name.
    pub open spec fn named(name: Seq<char>) -> RenderType {
        if name == "head"@ {
            RenderType::Head
        } else if name == "bust"@ {
            RenderType::Bust
        } else {
            RenderType::Body
        }
    }

    /// Reads a render type from its name. A name that is neither `head` nor
    /// `bust` asks for the whole body.
    pub fn from_name(name: &str) -> (t: RenderType)
        ensures
            t == RenderType::named(name@),
    {
        if same_text(name, "head") {
            RenderType::Head
        } else if same_text(name, "bust") {
            RenderType::Bust
        } else {
            RenderType::Body
        }
    }

    /// Whether a render of this type shows `part`. The head is always shown,
    /// the torso and limb pair A in a bust and a body, limb pair B only in a
    /// body.
    pub open spec fn shows(self, part: BodyPart) -> bool {
        match part {
            BodyPart::Head => true,
            BodyPart::Torso | BodyPart::LimbALeft | BodyPart::LimbARight => self
                != RenderType::Head,
            BodyPart::LimbBLeft | BodyPart::LimbBRight => self == RenderType::Body,
        }
    }

    /// Whether a render of this type shows `part`.
    pub fn includes(self, part: BodyPart) -> (shown: bool)
        ensures
            shown == self.shows(part),
    {
        match part {
            BodyPart::Head => true,
            BodyPart::Torso | BodyPart::LimbALeft | BodyPart::LimbARight => self
                != RenderType::Head,
            BodyPart::LimbBLeft | BodyPart::LimbBRight => self == RenderType::Body,
        }
    }
}

impl Formats {
    /// Whether a row with these formats is used for `format`.
    pub open spec fn has(self, format: SkinFormat) -> bool {
        match self {
            Formats::Both => true,
            Formats::LegacyOnly => format == SkinFormat::Legacy,
            Formats::ModernOnly => format == SkinFormat::Modern,
        }
    }
}

/// A row of the atlas from its columns: the part, the source rectangle
/// (x, y, width, height), the destination offset (x, y), the mirror flag, the
/// layer and the formats.
pub open spec fn row(
    part: BodyPart,
    src: (usize, usize, usize, usize),
    dest: (usize, usize),
    mirror: bool,
    layer: Layer,
    formats: Formats,
) -> RegionSpec {
    RegionSpec {
        part,
        src_x: src.0,
        src_y: src.1,
        width: src.2,
        height: src.3,
        dest_x: dest.0,
        dest_y: dest.1,
        mirror,
        layer,
        formats,
    }
}

/// The head.
pub open spec fn head_base() -> RegionSpec {
    row(BodyPart::Head, (8, 8, 8, 8), (4, 0), false, Layer::Base, Formats::Both)
}

/// The torso.
pub open spec fn torso_base() -> RegionSpec {
    row(BodyPart::Torso, (20, 20, 8, 12), (4, 8), false, Layer::Base, Formats::Both)
}

/// The left limb of pair A.
pub open spec fn limb_a_left_base() -> RegionSpec {
    row(BodyPart::LimbALeft, (44, 20, 4, 12), (0, 8), false, Layer::Base, Formats::Both)
}

/// The right limb of pair A in a legacy skin: the left limb, mirrored.
pub open spec fn limb_a_right_legacy() -> RegionSpec {
    row(BodyPart::LimbARight, (44, 20, 4, 12), (12, 8), true, Layer::Base, Formats::LegacyOnly)
}

/// The right limb of pair A in a modern skin.
pub open spec fn limb_a_right_modern() -> RegionSpec {
    row(BodyPart::LimbARight, (36, 52, 4, 12), (12, 8), false, Layer::Base, Formats::ModernOnly)
}

/// The left limb of pair B.
pub open spec fn limb_b_left_base() -> RegionSpec {
    row(BodyPart::LimbBLeft, (4, 20, 4, 12), (4, 20), false, Layer::Base, Formats::Both)
}

/// The right limb of pair B in a legacy skin: the left limb, mirrored.
pub open spec fn limb_b_right_legacy() -> RegionSpec {
    row(BodyPart::LimbBRight, (4, 20, 4, 12), (8, 20), true, Layer::Base, Formats::LegacyOnly)
}

/// The right limb of pair B in a modern skin.
pub open spec fn limb_b_right_modern() -> RegionSpec {
    row(BodyPart::LimbBRight, (20, 52, 4, 12), (8, 20), false, Layer::Base, Formats::ModernOnly)
}

/// What covers the head.
pub open spec fn head_overlay() -> RegionSpec {
    row(BodyPart::Head, (40, 8, 8, 8), (4, 0), false, Layer::Overlay, Formats::ModernOnly)
}

/// What covers the torso.
pub open spec fn torso_overlay() -> RegionSpec {
    row(BodyPart::Torso, (20, 36, 8, 12), (4, 8), false, Layer::Overlay, Formats::ModernOnly)
}

/// What covers the left limb of pair A.
pub open spec fn limb_a_left_overlay() -> RegionSpec {
    row(BodyPart::LimbALeft, (44, 36, 4, 12), (0, 8), false, Layer::Overlay, Formats::ModernOnly)
}

/// What covers the right limb of pair A.
pub open spec fn limb_a_right_overlay() -> RegionSpec {
    row(BodyPart::LimbARight, (52, 52, 4, 12), (12, 8), false, Layer::Overlay, Formats::ModernOnly)
}

/// What covers the left limb of pair B.
pub open spec fn limb_b_left_overlay() -> RegionSpec {
    row(BodyPart::LimbBLeft, (4, 36, 4, 12), (4, 20), false, Layer::Overlay, Formats::ModernOnly)
}

/// What covers the right limb of pair B.
pub open spec fn limb_b_right_overlay() -> RegionSpec {
    row(BodyPart::LimbBRight, (4, 52, 4, 12), (8, 20), false, Layer::Overlay, Formats::ModernOnly)
}

/// The rows of the base layer, in the order in which they are drawn.
pub open spec fn base_rows() -> Seq<RegionSpec> {
    seq![
        head_base(),
        torso_base(),
        limb_a_left_base(),
        limb_a_right_legacy(),
        limb_a_right_modern(),
        limb_b_left_base(),
        limb_b_right_legacy(),
        limb_b_right_modern(),
    ]
}

/// The rows of the overlay layer, in the order in which they are drawn.
pub open spec fn overlay_rows() -> Seq<RegionSpec> {
    seq![
        head_overlay(),
        torso_overlay(),
        limb_a_left_overlay(),
        limb_a_right_overlay(),
        limb_b_left_overlay(),
        limb_b_right_overlay(),
    ]
}

/// The whole atlas: the base layer, then the overlay layer. Later rows are
/// drawn over earlier ones.
pub open spec fn atlas_rows() -> Seq<RegionSpec> {
    base_rows() + overlay_rows()
}

impl RegionSpec {
    /// Builds a row of the atlas from its columns.
    pub fn new(
        part: BodyPart,
        src: (usize, usize, usize, usize),
        dest: (usize, usize),
        mirror: bool,
        layer: Layer,
        formats: Formats,
    ) -> (r: RegionSpec)
        ensures
            r == row(part, src, dest, mirror, layer, formats),
    {
        RegionSpec {
            part,
            src_x: src.0,
            src_y: src.1,
            width: src.2,
            height: src.3,
            dest_x: dest.0,
            dest_y: dest.1,
            mirror,
            layer,
            formats,
        }
    }

    /// Whether this row is drawn in a render of `render_type` from a skin of
    /// `format`: the row is used for the format, the render type shows the
    /// part, and an overlay row is asked for by `armored`.
    pub open spec fn selected(self, format: SkinFormat, render_type: RenderType, armored: bool) -> bool {
        &&& self.formats.has(format)
        &&& render_type.shows(self.part)
        &&& self.layer == Layer::Overlay ==> armored
    }

    /// Whether this row is drawn in a render of `render_type` from a skin of
    /// `format`.
    pub fn is_selected(&self, format: SkinFormat, render_type: RenderType, armored: bool) -> (yes:
        bool)
        ensures
            yes == self.selected(format, render_type, armored),
    {
        let used = match self.formats {
            Formats::Both => true,
            Formats::LegacyOnly => format == SkinFormat::Legacy,
            Formats::ModernOnly => format == SkinFormat::Modern,
        };
        used && render_type.includes(self.part) && (self.layer == Layer::Base || armored)
    }
}

/// The rows that a render draws, in drawing order: the rows of the atlas that
/// are selected for it.
pub open spec fn region_plan(format: SkinFormat, render_type: RenderType, armored: bool) -> Seq<
    RegionSpec,
> {
    atlas_rows().filter(|r: RegionSpec| r.selected(format, render_type, armored))
}

/// The rows of the atlas in drawing order.
pub fn atlas() -> (rows: Vec<RegionSpec>)
    ensures
        rows@ == atlas_rows(),
{
    let rows = vec![
        RegionSpec::new(BodyPart::Head, (8, 8, 8, 8), (4, 0), false, Layer::Base, Formats::Both),
        RegionSpec::new(BodyPart::Torso, (20, 20, 8, 12), (4, 8), false, Layer::Base, Formats::Both),
        RegionSpec::new(BodyPart::LimbALeft, (44, 20, 4, 12), (0, 8), false, Layer::Base, Formats::Both),
        RegionSpec::new(BodyPart::LimbARight, (44, 20, 4, 12), (12, 8), true, Layer::Base, Formats::LegacyOnly),
        RegionSpec::new(BodyPart::LimbARight, (36, 52, 4, 12), (12, 8), false, Layer::Base, Formats::ModernOnly),
        RegionSpec::new(BodyPart::LimbBLeft, (4, 20, 4, 12), (4, 20), false, Layer::Base, Formats::Both),
        RegionSpec::new(BodyPart::LimbBRight, (4, 20, 4, 12), (8, 20), true, Layer::Base, Formats::LegacyOnly),
        RegionSpec::new(BodyPart::LimbBRight, (20, 52, 4, 12), (8, 20), false, Layer::Base, Formats::ModernOnly),
        RegionSpec::new(BodyPart::Head, (40, 8, 8, 8), (4, 0), false, Layer::Overlay, Formats::ModernOnly),
        RegionSpec::new(BodyPart::Torso, (20, 36, 8, 12), (4, 8), false, Layer::Overlay, Formats::ModernOnly),
        RegionSpec::new(BodyPart::LimbALeft, (44, 36, 4, 12), (0, 8), false, Layer::Overlay, Formats::ModernOnly),
        RegionSpec::new(BodyPart::LimbARight, (52, 52, 4, 12), (12, 8), false, Layer::Overlay, Formats::ModernOnly),
        RegionSpec::new(BodyPart::LimbBLeft, (4, 36, 4, 12), (4, 20), false, Layer::Overlay, Formats::ModernOnly),
        RegionSpec::new(BodyPart::LimbBRight, (4, 52, 4, 12), (8, 20), false, Layer::Overlay, Formats::ModernOnly),
    ];
    assert(rows@ =~= atlas_rows());
    rows
}

/// The rows that a render draws, in drawing order.
pub fn plan(format: SkinFormat, render_type: RenderType, armored: bool) -> (rows: Vec<RegionSpec>)
    ensures
        rows@ == region_plan(format, render_type, armored),
{
    let all = atlas();
    let ghost chosen = |r: RegionSpec| r.selected(format, render_type, armored);
    let mut rows: Vec<RegionSpec> = Vec::new();
    let mut i: usize = 0;
    assert(all@.take(0) =~= Seq::empty());
    proof {
        reveal(Seq::filter);
    }
    while i < all.len()
        invariant
            i <= all.len(),
            all@ == atlas_rows(),
            chosen == |r: RegionSpec| r.selected(format, render_type, armored),
            rows@ == all@.take(i as int).filter(chosen),
        decreases all.len() - i,
    {
        let r = all[i];
        proof {
            assert(all@.take(i + 1) =~= all@.take(i as int).push(r));
            all@.take(i as int).lemma_filter_push(r, chosen);
        }
        if r.is_selected(format, render_type, armored) {
            rows.push(r);
        }
        i += 1;
    }
    assert(all@.take(i as int) =~= all@);
    rows
}

} // verus!
