//! Drawing regions of a skin onto a canvas.
//!
//! Each region is cut from the untouched skin, enlarged, mirrored if its row
//! says so, and blended over the canvas at its destination. Regions are drawn
//! in the order given, so a later region covers an earlier one.

use crate::atlas::RegionSpec;
use crate::buffer::RasterBuffer;
use crate::error::RenderError;
use crate::raster::Raster;
use vstd::prelude::*;

verus! {

/// The source rectangle of `region` lies on `skin`.
pub open spec fn fits(skin: Raster, region: RegionSpec) -> bool {
    skin.contains_rect(
        region.src_x as nat,
        region.src_y as nat,
        region.width as nat,
        region.height as nat,
    )
}

/// The source rectangle of every region of `plan` lies on `skin`.
pub open spec fn plan_fits(skin: Raster, plan: Seq<RegionSpec>) -> bool {
    forall|i: int| 0 <= i < plan.len() ==> fits(skin, #[trigger] plan[i])
}

/// The sizes and offsets of `region`, enlarged by `scale`, are machine
/// integers.
pub open spec fn scalable(region: RegionSpec, scale: nat) -> bool {
    &&& region.width * scale <= usize::MAX
    &&& region.height * scale <= usize::MAX
    &&& (region.width * scale) * (region.height * scale) <= usize::MAX
    &&& region.dest_x * scale <= usize::MAX
    &&& region.dest_y * scale <= usize::MAX
}

/// Every region of `plan` is scalable by `scale`.
pub open spec fn plan_scalable(plan: Seq<RegionSpec>, scale: nat) -> bool {
    forall|i: int| 0 <= i < plan.len() ==> scalable(#[trigger] plan[i], scale)
}

/// The patch that `region` contributes: its source rectangle cut from `skin`,
/// enlarged by `scale`, and mirrored if the region says so.
pub open spec fn patch_of(skin: Raster, region: RegionSpec, scale: nat) -> Raster {
    let cut = skin.crop(
        region.src_x as nat,
        region.src_y as nat,
        region.width as nat,
        region.height as nat,
    ).scale_up(scale);
    if region.mirror {
        cut.mirror()
    } else {
        cut
    }
}

/// `canvas` after `region` has been drawn on it.
pub open spec fn draw_region(canvas: Raster, skin: Raster, region: RegionSpec, scale: nat) -> Raster {
    canvas.overlay(
        patch_of(skin, region, scale),
        (region.dest_x * scale) as nat,
        (region.dest_y * scale) as nat,
    )
}

/// `canvas` after the regions of `plan` have been drawn on it, first to last.
pub open spec fn draw_plan(canvas: Raster, skin: Raster, plan: Seq<RegionSpec>, scale: nat) -> Raster
    decreases plan.len(),
{
    if plan.len() == 0 {
        canvas
    } else {
        draw_region(draw_plan(canvas, skin, plan.drop_last(), scale), skin, plan.last(), scale)
    }
}

/// Drawing changes neither the size of a canvas nor its wholeness.
pub proof fn lemma_draw_plan_size(canvas: Raster, skin: Raster, plan: Seq<RegionSpec>, scale: nat)
    requires
        canvas.wf(),
    ensures
        draw_plan(canvas, skin, plan, scale).wf(),
        draw_plan(canvas, skin, plan, scale).width == canvas.width,
        draw_plan(canvas, skin, plan, scale).height == canvas.height,
    decreases plan.len(),
{
    if plan.len() > 0 {
        lemma_draw_plan_size(canvas, skin, plan.drop_last(), scale);
        crate::raster::lemma_overlay(
            draw_plan(canvas, skin, plan.drop_last(), scale),
            patch_of(skin, plan.last(), scale),
            (plan.last().dest_x * scale) as nat,
            (plan.last().dest_y * scale) as nat,
        );
    }
}

fn region_fits(skin: &RasterBuffer, region: &RegionSpec) -> (yes: bool)
    ensures
        yes == fits(skin@, *region),
{
    let w: usize = skin.width();
    let h: usize = skin.height();
    region.src_x <= w && region.width <= w - region.src_x && region.src_y <= h && region.height
        <= h - region.src_y
}

fn draw(canvas: &mut RasterBuffer, skin: &RasterBuffer, region: &RegionSpec, scale: usize)
    requires
        fits(skin@, *region),
        scalable(*region, scale as nat),
    ensures
        final(canvas)@ == draw_region(old(canvas)@, skin@, *region, scale as nat),
        final(canvas)@.wf(),
{
    let cut = skin.crop(region.src_x, region.src_y, region.width, region.height).unwrap();
    proof {
        crate::raster::lemma_crop(
            skin@,
            region.src_x as nat,
            region.src_y as nat,
            region.width as nat,
            region.height as nat,
        );
    }
    let scaled = cut.scale_up(scale);
    let patch = if region.mirror {
        scaled.mirror()
    } else {
        scaled
    };
    canvas.composite_over(&patch, region.dest_x * scale, region.dest_y * scale);
}

/// Draws one region of `skin` onto `canvas`. A region whose source rectangle
/// reaches beyond the skin is refused and leaves the canvas as it was.
pub fn apply_region(
    canvas: &mut RasterBuffer,
    skin: &RasterBuffer,
    region: &RegionSpec,
    scale: usize,
) -> (res: Result<(), RenderError>)
    requires
        scalable(*region, scale as nat),
    ensures
        res is Ok <==> fits(skin@, *region),
        res is Ok ==> final(canvas)@ == draw_region(old(canvas)@, skin@, *region, scale as nat),
        res is Err ==> res == Err::<(), RenderError>(RenderError::RegionOutOfBounds),
        res is Err ==> final(canvas)@ == old(canvas)@,
{
    if !region_fits(skin, region) {
        return Err(RenderError::RegionOutOfBounds);
    }
    draw(canvas, skin, region, scale);
    Ok(())
}

/// Draws the regions of `plan` onto `canvas`, first to last. If the source
/// rectangle of any of them reaches beyond the skin, nothing is drawn.
pub fn apply_plan(
    canvas: &mut RasterBuffer,
    skin: &RasterBuffer,
    plan: &Vec<RegionSpec>,
    scale: usize,
) -> (res: Result<(), RenderError>)
    requires
        plan_scalable(plan@, scale as nat),
    ensures
        res is Ok <==> plan_fits(skin@, plan@),
        res is Ok ==> final(canvas)@ == draw_plan(old(canvas)@, skin@, plan@, scale as nat),
        res is Err ==> res == Err::<(), RenderError>(RenderError::RegionOutOfBounds),
        res is Err ==> final(canvas)@ == old(canvas)@,
{
    let mut i: usize = 0;
    while i < plan.len()
        invariant
            i <= plan.len(),
            forall|j: int| 0 <= j < i ==> fits(skin@, #[trigger] plan@[j]),
        decreases plan.len() - i,
    {
        if !region_fits(skin, &plan[i]) {
            return Err(RenderError::RegionOutOfBounds);
        }
        i += 1;
    }
    let ghost before = canvas@;
    let mut k: usize = 0;
    assert(plan@.take(0) =~= Seq::empty());
    while k < plan.len()
        invariant
            k <= plan.len(),
            plan_fits(skin@, plan@),
            plan_scalable(plan@, scale as nat),
            canvas@ == draw_plan(before, skin@, plan@.take(k as int), scale as nat),
        decreases plan.len() - k,
    {
        proof {
            let next = plan@.take(k + 1);
            assert(next.drop_last() =~= plan@.take(k as int));
            assert(next.last() == plan@[k as int]);
        }
        draw(canvas, skin, &plan[k], scale);
        k += 1;
    }
    assert(plan@.take(k as int) =~= plan@);
    Ok(())
}

} // verus!
