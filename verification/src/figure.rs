//! What a finished render shows.

use crate::atlas::{region_plan, Layer, RenderType, SkinFormat};
use crate::compositor::{fits, plan_fits};
use crate::painting::{
    covers, lemma_apart, lemma_draw_plan_pixel, lemma_single_cover, lemma_top_opaque,
    regions_apart, source_pixel,
};
use crate::pixel::Pixel;
use crate::raster::{lemma_blank, lemma_crop, Raster};
use crate::render::{crop_rect, RenderState};
use crate::selection::{draws_overlay, lemma_legacy_plan_ignores_armor, lemma_plan_listed};
use vstd::prelude::*;

verus! {

/// A skin that a session can be opened on and rendered from: a whole grid
/// of a known format that is wide enough for every row of the atlas.
pub open spec fn usable_skin(skin: Raster) -> bool {
    &&& skin.wf()
    &&& skin.width >= 56
    &&& SkinFormat::of_height(skin.height) is Some
}

/// The session that is opened on a usable skin at a positive scale.
pub open spec fn fresh(skin: Raster, size: nat) -> RenderState {
    RenderState {
        scale: size,
        format: SkinFormat::of_height(skin.height).unwrap(),
        skin,
        canvas: Raster::blank(16 * size, 32 * size),
    }
}

/// Opening a usable skin at a positive scale succeeds.
pub proof fn lemma_opened(skin: Raster, size: nat)
    requires
        usable_skin(skin),
        size > 0,
    ensures
        RenderState::opened(skin, size) == Ok::<RenderState, crate::error::RenderError>(
            fresh(skin, size),
        ),
{
}

/// Every row planned for a skin lies on the skin if the skin is usable.
pub proof fn lemma_plan_fits(skin: Raster, render_type: RenderType, armored: bool)
    requires
        usable_skin(skin),
    ensures
        plan_fits(
            skin,
            region_plan(SkinFormat::of_height(skin.height).unwrap(), render_type, armored),
        ),
{
    let format = SkinFormat::of_height(skin.height).unwrap();
    lemma_plan_listed(format, render_type, armored);
    let plan = region_plan(format, render_type, armored);
    assert forall|i: int| 0 <= i < plan.len() implies fits(skin, #[trigger] plan[i]) by {}
}

/// Armor on a legacy skin changes nothing: the render with armor is the
/// render without it, pixel for pixel.
pub proof fn lemma_legacy_ignores_armor(state: RenderState, render_type: RenderType)
    requires
        state.format == SkinFormat::Legacy,
    ensures
        state.rendered(render_type, true) == state.rendered(render_type, false),
{
    lemma_legacy_plan_ignores_armor(render_type);
}

/// A render from a fresh session succeeds, whatever the render type and the
/// armor flag, and its image has the size of its render type: 8 by 8 units
/// for a head, 16 by 16 for a bust, 16 by 32 for a body.
pub proof fn lemma_render_size(skin: Raster, size: nat, render_type: RenderType, armored: bool)
    requires
        usable_skin(skin),
        size > 0,
    ensures
        fresh(skin, size).rendered(render_type, armored) is Ok,
        ({
            let image = fresh(skin, size).rendered(render_type, armored).unwrap().canvas;
            &&& image.wf()
            &&& render_type == RenderType::Head ==> image.width == 8 * size && image.height == 8
                * size
            &&& render_type == RenderType::Bust ==> image.width == 16 * size && image.height == 16
                * size
            &&& render_type == RenderType::Body ==> image.width == 16 * size && image.height == 32
                * size
        }),
{
    let state = fresh(skin, size);
    lemma_blank(16 * size, 32 * size);
    lemma_plan_fits(skin, render_type, armored);
    let (x, y, w, h) = crop_rect(render_type, state.canvas, size);
    lemma_crop(state.painted(render_type, armored), x, y, w, h);
}

/// In a plan, two rows of the same layer are drawn apart from each other.
pub proof fn lemma_rows_apart(
    format: SkinFormat,
    render_type: RenderType,
    armored: bool,
    i: int,
    j: int,
)
    requires
        0 <= i < j < region_plan(format, render_type, armored).len(),
        region_plan(format, render_type, armored)[i].layer == region_plan(
            format,
            render_type,
            armored,
        )[j].layer,
    ensures
        regions_apart(
            region_plan(format, render_type, armored)[i],
            region_plan(format, render_type, armored)[j],
        ),
{
    lemma_plan_listed(format, render_type, armored);
}

/// In a plan, every overlay row comes after every base row.
pub proof fn lemma_overlay_rows_last(
    format: SkinFormat,
    render_type: RenderType,
    armored: bool,
    i: int,
    j: int,
)
    requires
        0 <= i < j < region_plan(format, render_type, armored).len(),
        region_plan(format, render_type, armored)[i].layer == Layer::Overlay,
    ensures
        region_plan(format, render_type, armored)[j].layer == Layer::Overlay,
{
    lemma_plan_listed(format, render_type, armored);
}

/// Every row of a plan is drawn within the canvas.
pub proof fn lemma_rows_on_canvas(
    format: SkinFormat,
    render_type: RenderType,
    armored: bool,
    size: nat,
    k: int,
    x: int,
    y: int,
)
    requires
        0 <= k < region_plan(format, render_type, armored).len(),
        covers(region_plan(format, render_type, armored)[k], size, x, y),
    ensures
        0 <= x < 16 * size,
        0 <= y < 32 * size,
{
    lemma_plan_listed(format, render_type, armored);
    let r = region_plan(format, render_type, armored)[k];
    assert(r.dest_x + r.width <= 16 && r.dest_y + r.height <= 32);
    assert((r.dest_x + r.width) * size <= 16 * size && (r.dest_y + r.height) * size <= 32 * size
        && 0 <= r.dest_x * size && 0 <= r.dest_y * size) by (nonlinear_arith)
        requires
            r.dest_x + r.width <= 16,
            r.dest_y + r.height <= 32,
    ;
}

/// Without an overlay layer, each position under a row of the plan shows
/// that row's skin pixel over the transparent canvas, and nothing else. An
/// opaque skin pixel is shown as it is.
pub proof fn lemma_base_pixel(
    skin: Raster,
    size: nat,
    render_type: RenderType,
    armored: bool,
    k: int,
    x: int,
    y: int,
)
    requires
        usable_skin(skin),
        size > 0,
        !draws_overlay(SkinFormat::of_height(skin.height).unwrap(), armored),
        0 <= k < region_plan(
            SkinFormat::of_height(skin.height).unwrap(),
            render_type,
            armored,
        ).len(),
        covers(
            region_plan(SkinFormat::of_height(skin.height).unwrap(), render_type, armored)[k],
            size,
            x,
            y,
        ),
    ensures
        fresh(skin, size).painted(render_type, armored).at(x, y) == source_pixel(
            skin,
            region_plan(SkinFormat::of_height(skin.height).unwrap(), render_type, armored)[k],
            size,
            x,
            y,
        ).over(Pixel::clear()),
        source_pixel(
            skin,
            region_plan(SkinFormat::of_height(skin.height).unwrap(), render_type, armored)[k],
            size,
            x,
            y,
        ).a == 255 ==> fresh(skin, size).painted(render_type, armored).at(x, y) == source_pixel(
            skin,
            region_plan(SkinFormat::of_height(skin.height).unwrap(), render_type, armored)[k],
            size,
            x,
            y,
        ),
{
    let format = SkinFormat::of_height(skin.height).unwrap();
    let plan = region_plan(format, render_type, armored);
    let state = fresh(skin, size);
    lemma_blank(16 * size, 32 * size);
    lemma_plan_fits(skin, render_type, armored);
    lemma_rows_on_canvas(format, render_type, armored, size, k, x, y);
    lemma_draw_plan_pixel(state.canvas, skin, plan, size, x, y);
    assert forall|j: int| 0 <= j < plan.len() && j != k implies !covers(
        #[trigger] plan[j],
        size,
        x,
        y,
    ) by {
        lemma_plan_listed(format, render_type, armored);
        if j < k {
            lemma_rows_apart(format, render_type, armored, j, k);
            lemma_apart(plan[j], plan[k], size, x, y);
        } else {
            lemma_rows_apart(format, render_type, armored, k, j);
            lemma_apart(plan[k], plan[j], size, x, y);
        }
    }
    lemma_single_cover(Pixel::clear(), skin, plan, size, x, y, k);
}

/// Where an overlay row shows an opaque pixel, the canvas holds that pixel:
/// the overlay hides the base layer beneath it.
pub proof fn lemma_opaque_overlay_hides_base(
    skin: Raster,
    size: nat,
    render_type: RenderType,
    armored: bool,
    k: int,
    x: int,
    y: int,
)
    requires
        usable_skin(skin),
        size > 0,
        0 <= k < region_plan(
            SkinFormat::of_height(skin.height).unwrap(),
            render_type,
            armored,
        ).len(),
        region_plan(SkinFormat::of_height(skin.height).unwrap(), render_type, armored)[k].layer
            == Layer::Overlay,
        covers(
            region_plan(SkinFormat::of_height(skin.height).unwrap(), render_type, armored)[k],
            size,
            x,
            y,
        ),
        source_pixel(
            skin,
            region_plan(SkinFormat::of_height(skin.height).unwrap(), render_type, armored)[k],
            size,
            x,
            y,
        ).a == 255,
    ensures
        fresh(skin, size).painted(render_type, armored).at(x, y) == source_pixel(
            skin,
            region_plan(SkinFormat::of_height(skin.height).unwrap(), render_type, armored)[k],
            size,
            x,
            y,
        ),
{
    let format = SkinFormat::of_height(skin.height).unwrap();
    let plan = region_plan(format, render_type, armored);
    let state = fresh(skin, size);
    lemma_blank(16 * size, 32 * size);
    lemma_plan_fits(skin, render_type, armored);
    lemma_rows_on_canvas(format, render_type, armored, size, k, x, y);
    lemma_draw_plan_pixel(state.canvas, skin, plan, size, x, y);
    assert forall|j: int| k < j < plan.len() implies !covers(#[trigger] plan[j], size, x, y) by {
        lemma_overlay_rows_last(format, render_type, armored, k, j);
        lemma_rows_apart(format, render_type, armored, k, j);
        lemma_apart(plan[k], plan[j], size, x, y);
    }
    lemma_top_opaque(Pixel::clear(), skin, plan, size, x, y, k);
}

/// In a render from a legacy skin each right limb is the mirror image of the
/// left limb of its pair: the pixel in column `c` of the right limb is the
/// skin pixel that the left limb shows in column `4 * size - 1 - c`, blended
/// over the transparent canvas (which leaves an opaque pixel as it is), and
/// so the two limbs show the same pixel in mirrored columns.
pub proof fn lemma_legacy_right_limbs_mirror_left(
    skin: Raster,
    size: nat,
    render_type: RenderType,
    armored: bool,
    c: int,
    r: int,
)
    requires
        usable_skin(skin),
        skin.height == 32,
        size > 0,
        0 <= c < 4 * size,
        0 <= r < 12 * size,
    ensures
        ({
            let canvas = fresh(skin, size).painted(render_type, armored);
            let mirrored = 4 * size - 1 - c;
            let art_a = skin.at(44 + mirrored / (size as int), 20 + r / (size as int));
            let art_b = skin.at(4 + mirrored / (size as int), 20 + r / (size as int));
            &&& render_type != RenderType::Head ==> {
                &&& canvas.at(12 * size + c, 8 * size + r) == art_a.over(Pixel::clear())
                &&& art_a.a == 255 ==> canvas.at(12 * size + c, 8 * size + r) == art_a
                &&& canvas.at(12 * size + c, 8 * size + r) == canvas.at(mirrored, 8 * size + r)
            }
            &&& render_type == RenderType::Body ==> {
                &&& canvas.at(8 * size + c, 20 * size + r) == art_b.over(Pixel::clear())
                &&& art_b.a == 255 ==> canvas.at(8 * size + c, 20 * size + r) == art_b
                &&& canvas.at(8 * size + c, 20 * size + r) == canvas.at(
                    4 * size + mirrored,
                    20 * size + r,
                )
            }
        }),
{
    let plan = region_plan(SkinFormat::Legacy, render_type, armored);
    lemma_plan_listed(SkinFormat::Legacy, render_type, armored);
    if render_type != RenderType::Head {
        assert(plan[2] == crate::atlas::limb_a_left_base());
        assert(plan[3] == crate::atlas::limb_a_right_legacy());
        lemma_base_pixel(skin, size, render_type, armored, 3, 12 * size + c, 8 * size + r);
        lemma_base_pixel(skin, size, render_type, armored, 2, 4 * size - 1 - c, 8 * size + r);
    }
    if render_type == RenderType::Body {
        assert(plan[4] == crate::atlas::limb_b_left_base());
        assert(plan[5] == crate::atlas::limb_b_right_legacy());
        lemma_base_pixel(skin, size, render_type, armored, 5, 8 * size + c, 20 * size + r);
        lemma_base_pixel(skin, size, render_type, armored, 4, 8 * size - 1 - c, 20 * size + r);
    }
}

/// The armored head of a modern skin: each pixel of the image is the
/// overlay's head pixel blended over the base head pixel, which itself lies
/// over the transparent canvas.
pub proof fn lemma_armored_head(skin: Raster, size: nat, c: int, r: int)
    requires
        usable_skin(skin),
        skin.height == 64,
        size > 0,
        0 <= c < 8 * size,
        0 <= r < 8 * size,
    ensures
        fresh(skin, size).rendered(RenderType::Head, true) is Ok,
        fresh(skin, size).rendered(RenderType::Head, true).unwrap().canvas.at(c, r) == skin.at(
            40 + c / (size as int),
            8 + r / (size as int),
        ).over(skin.at(8 + c / (size as int), 8 + r / (size as int)).over(Pixel::clear())),
{
    let state = fresh(skin, size);
    let plan = region_plan(SkinFormat::Modern, RenderType::Head, true);
    let x = 4 * size + c;
    lemma_render_size(skin, size, RenderType::Head, true);
    lemma_plan_listed(SkinFormat::Modern, RenderType::Head, true);
    lemma_plan_fits(skin, RenderType::Head, true);
    lemma_blank(16 * size, 32 * size);
    lemma_crop(state.painted(RenderType::Head, true), 4 * size, 0, 8 * size, 8 * size);
    lemma_draw_plan_pixel(state.canvas, skin, plan, size, x, r);
    let base = plan.drop_last();
    assert(base.drop_last() =~= Seq::empty());
    reveal_with_fuel(crate::painting::pixel_after, 3);
    assert(plan[0] == crate::atlas::head_base());
    assert(plan[1] == crate::atlas::head_overlay());
    assert(base[0] == plan[0]);
    assert(covers(plan[0], size, x, r));
    assert(covers(plan[1], size, x, r));
}

} // verus!
