//! What drawing does to a single position of the canvas.
//!
//! Drawing a plan is the painter's algorithm: at each position, the regions
//! that cover it are blended over what was there, in drawing order.

use crate::atlas::RegionSpec;
use crate::compositor::{draw_plan, draw_region, fits, patch_of, plan_fits};
use crate::pixel::Pixel;
use crate::raster::{
    lemma_block, lemma_crop, lemma_mirror, lemma_overlay, lemma_raster_ext, lemma_scale_up, Raster,
};
use vstd::prelude::*;

verus! {

/// The canvas position `(x, y)` lies under `region` drawn at `scale`.
pub open spec fn covers(region: RegionSpec, scale: nat, x: int, y: int) -> bool {
    &&& region.dest_x * scale <= x < (region.dest_x + region.width) * scale
    &&& region.dest_y * scale <= y < (region.dest_y + region.height) * scale
}

/// The skin pixel that `region`, drawn at `scale`, shows at the canvas
/// position `(x, y)`: the position is taken relative to the destination of
/// the region, counted from the right edge if the region is mirrored, and
/// divided by the scale to find the source pixel whose block it falls in.
pub open spec fn source_pixel(skin: Raster, region: RegionSpec, scale: nat, x: int, y: int) -> Pixel {
    let px = x - region.dest_x * scale;
    let py = y - region.dest_y * scale;
    let column = if region.mirror {
        region.width * scale - 1 - px
    } else {
        px
    };
    skin.at(region.src_x + column / (scale as int), region.src_y + py / (scale as int))
}

/// The pixel at `(x, y)` after the regions of `plan` have been drawn over
/// `start`, first to last.
pub open spec fn pixel_after(
    start: Pixel,
    skin: Raster,
    plan: Seq<RegionSpec>,
    scale: nat,
    x: int,
    y: int,
) -> Pixel
    decreases plan.len(),
{
    if plan.len() == 0 {
        start
    } else {
        let below = pixel_after(start, skin, plan.drop_last(), scale, x, y);
        if covers(plan.last(), scale, x, y) {
            source_pixel(skin, plan.last(), scale, x, y).over(below)
        } else {
            below
        }
    }
}

/// Covering a position is lying under the patch at its destination.
pub proof fn lemma_covers(region: RegionSpec, scale: nat, x: int, y: int)
    ensures
        covers(region, scale, x, y) == Raster::under_patch(
            x,
            y,
            (region.dest_x * scale) as nat,
            (region.dest_y * scale) as nat,
            (region.width * scale) as nat,
            (region.height * scale) as nat,
        ),
{
    assert((region.dest_x + region.width) * scale == region.dest_x * scale + region.width * scale)
        by (nonlinear_arith);
    assert((region.dest_y + region.height) * scale == region.dest_y * scale + region.height
        * scale) by (nonlinear_arith);
    assert(region.dest_x * scale >= 0 && region.dest_y * scale >= 0 && region.width * scale >= 0
        && region.height * scale >= 0) by (nonlinear_arith);
}

/// The patch of a region holds, at each of its positions, the skin pixel of
/// the block that the position falls in.
pub proof fn lemma_patch(skin: Raster, region: RegionSpec, scale: nat)
    requires
        fits(skin, region),
        scale > 0,
    ensures
        patch_of(skin, region, scale).wf(),
        patch_of(skin, region, scale).width == region.width * scale,
        patch_of(skin, region, scale).height == region.height * scale,
        forall|x: int, y: int| #[trigger]
            covers(region, scale, x, y) ==> patch_of(skin, region, scale).at(
                x - region.dest_x * scale,
                y - region.dest_y * scale,
            ) == source_pixel(skin, region, scale, x, y),
{
    let cut = skin.crop(
        region.src_x as nat,
        region.src_y as nat,
        region.width as nat,
        region.height as nat,
    );
    let scaled = cut.scale_up(scale);
    lemma_crop(
        skin,
        region.src_x as nat,
        region.src_y as nat,
        region.width as nat,
        region.height as nat,
    );
    lemma_scale_up(cut, scale);
    lemma_mirror(scaled);
    let patch = patch_of(skin, region, scale);
    assert forall|x: int, y: int| #[trigger] covers(region, scale, x, y) implies patch.at(
        x - region.dest_x * scale,
        y - region.dest_y * scale,
    ) == source_pixel(skin, region, scale, x, y) by {
        lemma_covers(region, scale, x, y);
        let px = x - region.dest_x * scale;
        let py = y - region.dest_y * scale;
        let column = if region.mirror {
            region.width * scale - 1 - px
        } else {
            px
        };
        lemma_block(region.width as int, scale as int, column);
        lemma_block(region.height as int, scale as int, py);
        assert(scaled.at(column, py) == cut.at(column / (scale as int), py / (scale as int)));
    }
}

/// Drawing a region blends its pixels over the positions it covers and
/// leaves every other position alone.
pub proof fn lemma_draw_region_pixel(
    canvas: Raster,
    skin: Raster,
    region: RegionSpec,
    scale: nat,
    x: int,
    y: int,
)
    requires
        canvas.contains(x, y),
        fits(skin, region),
        scale > 0,
    ensures
        draw_region(canvas, skin, region, scale).at(x, y) == if covers(region, scale, x, y) {
            source_pixel(skin, region, scale, x, y).over(canvas.at(x, y))
        } else {
            canvas.at(x, y)
        },
{
    lemma_patch(skin, region, scale);
    lemma_covers(region, scale, x, y);
    lemma_overlay(
        canvas,
        patch_of(skin, region, scale),
        (region.dest_x * scale) as nat,
        (region.dest_y * scale) as nat,
    );
}

/// Drawing a plan is the painter's algorithm at every position.
pub proof fn lemma_draw_plan_pixel(
    canvas: Raster,
    skin: Raster,
    plan: Seq<RegionSpec>,
    scale: nat,
    x: int,
    y: int,
)
    requires
        canvas.wf(),
        canvas.contains(x, y),
        plan_fits(skin, plan),
        scale > 0,
    ensures
        draw_plan(canvas, skin, plan, scale).at(x, y) == pixel_after(
            canvas.at(x, y),
            skin,
            plan,
            scale,
            x,
            y,
        ),
    decreases plan.len(),
{
    if plan.len() > 0 {
        let rest = plan.drop_last();
        assert forall|i: int| 0 <= i < rest.len() implies fits(skin, #[trigger] rest[i]) by {
            assert(rest[i] == plan[i]);
        }
        lemma_draw_plan_pixel(canvas, skin, rest, scale, x, y);
        crate::compositor::lemma_draw_plan_size(canvas, skin, rest, scale);
        assert(fits(skin, plan[plan.len() - 1]));
        lemma_draw_region_pixel(draw_plan(canvas, skin, rest, scale), skin, plan.last(), scale, x, y);
    }
}

/// A position that no region of the plan covers keeps its pixel.
pub proof fn lemma_uncovered(
    start: Pixel,
    skin: Raster,
    plan: Seq<RegionSpec>,
    scale: nat,
    x: int,
    y: int,
)
    requires
        forall|i: int| 0 <= i < plan.len() ==> !covers(#[trigger] plan[i], scale, x, y),
    ensures
        pixel_after(start, skin, plan, scale, x, y) == start,
    decreases plan.len(),
{
    if plan.len() > 0 {
        let rest = plan.drop_last();
        assert forall|i: int| 0 <= i < rest.len() implies !covers(#[trigger] rest[i], scale, x, y) by {
            assert(rest[i] == plan[i]);
        }
        lemma_uncovered(start, skin, rest, scale, x, y);
        assert(!covers(plan[plan.len() - 1], scale, x, y));
    }
}

/// Where the last region to cover a position shows an opaque pixel, that
/// pixel is what the canvas holds: it hides everything drawn before it.
pub proof fn lemma_top_opaque(
    start: Pixel,
    skin: Raster,
    plan: Seq<RegionSpec>,
    scale: nat,
    x: int,
    y: int,
    k: int,
)
    requires
        0 <= k < plan.len(),
        covers(plan[k], scale, x, y),
        source_pixel(skin, plan[k], scale, x, y).a == 255,
        forall|j: int| k < j < plan.len() ==> !covers(#[trigger] plan[j], scale, x, y),
    ensures
        pixel_after(start, skin, plan, scale, x, y) == source_pixel(skin, plan[k], scale, x, y),
    decreases plan.len(),
{
    let rest = plan.drop_last();
    if k == plan.len() - 1 {
        crate::pixel::lemma_opaque_over(
            source_pixel(skin, plan[k], scale, x, y),
            pixel_after(start, skin, rest, scale, x, y),
        );
    } else {
        assert(rest[k] == plan[k]);
        assert forall|j: int| k < j < rest.len() implies !covers(#[trigger] rest[j], scale, x, y) by {
            assert(rest[j] == plan[j]);
        }
        lemma_top_opaque(start, skin, rest, scale, x, y, k);
        assert(!covers(plan[plan.len() - 1], scale, x, y));
    }
}

/// Where exactly one region of the plan covers a position, the canvas holds
/// that region's pixel blended over what was there before.
pub proof fn lemma_single_cover(
    start: Pixel,
    skin: Raster,
    plan: Seq<RegionSpec>,
    scale: nat,
    x: int,
    y: int,
    k: int,
)
    requires
        0 <= k < plan.len(),
        covers(plan[k], scale, x, y),
        forall|j: int| 0 <= j < plan.len() && j != k ==> !covers(#[trigger] plan[j], scale, x, y),
    ensures
        pixel_after(start, skin, plan, scale, x, y) == source_pixel(skin, plan[k], scale, x, y).over(
            start,
        ),
    decreases plan.len(),
{
    let rest = plan.drop_last();
    if k == plan.len() - 1 {
        assert forall|j: int| 0 <= j < rest.len() implies !covers(#[trigger] rest[j], scale, x, y) by {
            assert(rest[j] == plan[j]);
        }
        lemma_uncovered(start, skin, rest, scale, x, y);
    } else {
        assert(rest[k] == plan[k]);
        assert forall|j: int| 0 <= j < rest.len() && j != k implies !covers(
            #[trigger] rest[j],
            scale,
            x,
            y,
        ) by {
            assert(rest[j] == plan[j]);
        }
        lemma_single_cover(start, skin, rest, scale, x, y, k);
        assert(!covers(plan[plan.len() - 1], scale, x, y));
    }
}

/// Two rectangles `(x, y, width, height)` lie apart: one ends before the
/// other begins, across or down.
pub open spec fn rects_apart(a: (nat, nat, nat, nat), b: (nat, nat, nat, nat)) -> bool {
    ||| a.0 + a.2 <= b.0
    ||| b.0 + b.2 <= a.0
    ||| a.1 + a.3 <= b.1
    ||| b.1 + b.3 <= a.1
}

/// The destinations of two regions lie apart.
pub open spec fn regions_apart(first: RegionSpec, second: RegionSpec) -> bool {
    rects_apart(
        (first.dest_x as nat, first.dest_y as nat, first.width as nat, first.height as nat),
        (second.dest_x as nat, second.dest_y as nat, second.width as nat, second.height as nat),
    )
}

/// Regions whose destinations lie apart cover no position in common,
/// whatever the scale.
pub proof fn lemma_apart(first: RegionSpec, second: RegionSpec, scale: nat, x: int, y: int)
    requires
        regions_apart(first, second),
    ensures
        !(covers(first, scale, x, y) && covers(second, scale, x, y)),
{
    let s = scale as int;
    assert(forall|a: int, b: int| a <= b ==> #[trigger] (a * s) <= #[trigger] (b * s))
        by (nonlinear_arith)
        requires
            s >= 0,
    ;
    if first.dest_x + first.width <= second.dest_x {
        assert((first.dest_x + first.width) * s <= second.dest_x * s);
    }
    if second.dest_x + second.width <= first.dest_x {
        assert((second.dest_x + second.width) * s <= first.dest_x * s);
    }
    if first.dest_y + first.height <= second.dest_y {
        assert((first.dest_y + first.height) * s <= second.dest_y * s);
    }
    if second.dest_y + second.height <= first.dest_y {
        assert((second.dest_y + second.height) * s <= first.dest_y * s);
    }
}

/// Two patches that lie apart can be drawn in either order.
pub proof fn lemma_overlay_commutes(
    canvas: Raster,
    first: Raster,
    first_at: (nat, nat),
    second: Raster,
    second_at: (nat, nat),
)
    requires
        canvas.wf(),
        rects_apart(
            (first_at.0, first_at.1, first.width, first.height),
            (second_at.0, second_at.1, second.width, second.height),
        ),
    ensures
        canvas.overlay(first, first_at.0, first_at.1).overlay(second, second_at.0, second_at.1)
            == canvas.overlay(second, second_at.0, second_at.1).overlay(
            first,
            first_at.0,
            first_at.1,
        ),
{
    let one = canvas.overlay(first, first_at.0, first_at.1);
    let other = canvas.overlay(second, second_at.0, second_at.1);
    lemma_overlay(canvas, first, first_at.0, first_at.1);
    lemma_overlay(canvas, second, second_at.0, second_at.1);
    lemma_overlay(one, second, second_at.0, second_at.1);
    lemma_overlay(other, first, first_at.0, first_at.1);
    lemma_raster_ext(
        one.overlay(second, second_at.0, second_at.1),
        other.overlay(first, first_at.0, first_at.1),
    );
}

/// Two regions whose destinations lie apart can be drawn in either order.
pub proof fn lemma_draw_commutes(
    canvas: Raster,
    skin: Raster,
    first: RegionSpec,
    second: RegionSpec,
    scale: nat,
)
    requires
        canvas.wf(),
        regions_apart(first, second),
    ensures
        draw_region(draw_region(canvas, skin, first, scale), skin, second, scale) == draw_region(
            draw_region(canvas, skin, second, scale),
            skin,
            first,
            scale,
        ),
{
    let s = scale as int;
    let a = patch_of(skin, first, scale);
    let b = patch_of(skin, second, scale);
    lemma_patch_size(skin, first, scale);
    lemma_patch_size(skin, second, scale);
    assert(forall|a: int, b: int| a <= b ==> #[trigger] (a * s) <= #[trigger] (b * s))
        by (nonlinear_arith)
        requires
            s >= 0,
    ;
    assert(forall|a: int, b: int| #[trigger] ((a + b) * s) == a * s + b * s) by (nonlinear_arith);
    assert((first.dest_x + first.width) * s == first.dest_x * s + first.width * s);
    assert((first.dest_y + first.height) * s == first.dest_y * s + first.height * s);
    assert((second.dest_x + second.width) * s == second.dest_x * s + second.width * s);
    assert((second.dest_y + second.height) * s == second.dest_y * s + second.height * s);
    if first.dest_x + first.width <= second.dest_x {
        assert((first.dest_x + first.width) * s <= second.dest_x * s);
    }
    if second.dest_x + second.width <= first.dest_x {
        assert((second.dest_x + second.width) * s <= first.dest_x * s);
    }
    if first.dest_y + first.height <= second.dest_y {
        assert((first.dest_y + first.height) * s <= second.dest_y * s);
    }
    if second.dest_y + second.height <= first.dest_y {
        assert((second.dest_y + second.height) * s <= first.dest_y * s);
    }
    assert(0 * s <= first.dest_x * s && 0 * s <= first.dest_y * s && 0 * s <= second.dest_x * s
        && 0 * s <= second.dest_y * s);
    lemma_overlay_commutes(
        canvas,
        a,
        ((first.dest_x * scale) as nat, (first.dest_y * scale) as nat),
        b,
        ((second.dest_x * scale) as nat, (second.dest_y * scale) as nat),
    );
}

/// The patch of a region is the region's size times the scale.
pub proof fn lemma_patch_size(skin: Raster, region: RegionSpec, scale: nat)
    ensures
        patch_of(skin, region, scale).wf(),
        patch_of(skin, region, scale).width == region.width * scale,
        patch_of(skin, region, scale).height == region.height * scale,
{
    let cut = skin.crop(
        region.src_x as nat,
        region.src_y as nat,
        region.width as nat,
        region.height as nat,
    );
    lemma_crop(
        skin,
        region.src_x as nat,
        region.src_y as nat,
        region.width as nat,
        region.height as nat,
    );
    lemma_scale_up(cut, scale);
    lemma_mirror(cut.scale_up(scale));
}

} // verus!
