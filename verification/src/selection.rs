//! What the selection of atlas rows amounts to for each kind of render.

use crate::atlas::{
    atlas_rows, base_rows, head_base, head_overlay, limb_a_left_base, limb_a_left_overlay,
    limb_a_right_legacy, limb_a_right_modern, limb_a_right_overlay, limb_b_left_base,
    limb_b_left_overlay, limb_b_right_legacy, limb_b_right_modern, limb_b_right_overlay,
    overlay_rows, region_plan, torso_base, torso_overlay, BodyPart, Layer, RegionSpec, RenderType,
    SkinFormat,
};
use vstd::prelude::*;

verus! {

/// The base row that draws the right limb of pair A for `format`.
pub open spec fn right_limb_a(format: SkinFormat) -> RegionSpec {
    match format {
        SkinFormat::Legacy => limb_a_right_legacy(),
        SkinFormat::Modern => limb_a_right_modern(),
    }
}

/// The base row that draws the right limb of pair B for `format`.
pub open spec fn right_limb_b(format: SkinFormat) -> RegionSpec {
    match format {
        SkinFormat::Legacy => limb_b_right_legacy(),
        SkinFormat::Modern => limb_b_right_modern(),
    }
}

/// The base rows of a render, listed.
pub open spec fn base_plan(format: SkinFormat, render_type: RenderType) -> Seq<RegionSpec> {
    match render_type {
        RenderType::Head => seq![head_base()],
        RenderType::Bust => seq![
            head_base(),
            torso_base(),
            limb_a_left_base(),
            right_limb_a(format),
        ],
        RenderType::Body => seq![
            head_base(),
            torso_base(),
            limb_a_left_base(),
            right_limb_a(format),
            limb_b_left_base(),
            right_limb_b(format),
        ],
    }
}

/// The overlay rows of an armored render from a modern skin, listed.
pub open spec fn overlay_plan(render_type: RenderType) -> Seq<RegionSpec> {
    match render_type {
        RenderType::Head => seq![head_overlay()],
        RenderType::Bust => seq![
            head_overlay(),
            torso_overlay(),
            limb_a_left_overlay(),
            limb_a_right_overlay(),
        ],
        RenderType::Body => seq![
            head_overlay(),
            torso_overlay(),
            limb_a_left_overlay(),
            limb_a_right_overlay(),
            limb_b_left_overlay(),
            limb_b_right_overlay(),
        ],
    }
}

/// Whether a render draws the overlay layer: it has to be asked for, and the
/// skin has to have one.
pub open spec fn draws_overlay(format: SkinFormat, armored: bool) -> bool {
    armored && format == SkinFormat::Modern
}

/// The rows of a render, listed: the base rows, then the overlay rows if the
/// overlay layer is drawn.
pub open spec fn listed_plan(format: SkinFormat, render_type: RenderType, armored: bool) -> Seq<
    RegionSpec,
> {
    if draws_overlay(format, armored) {
        base_plan(format, render_type) + overlay_plan(render_type)
    } else {
        base_plan(format, render_type)
    }
}

proof fn lemma_base_selection(format: SkinFormat, render_type: RenderType, armored: bool)
    ensures
        base_rows().filter(|r: RegionSpec| r.selected(format, render_type, armored)) == base_plan(
            format,
            render_type,
        ),
{
    let chosen = |r: RegionSpec| r.selected(format, render_type, armored);
    let r0 = Seq::<RegionSpec>::empty();
    let r1 = r0.push(head_base());
    let r2 = r1.push(torso_base());
    let r3 = r2.push(limb_a_left_base());
    let r4 = r3.push(limb_a_right_legacy());
    let r5 = r4.push(limb_a_right_modern());
    let r6 = r5.push(limb_b_left_base());
    let r7 = r6.push(limb_b_right_legacy());
    let r8 = r7.push(limb_b_right_modern());
    assert(r0.filter(chosen) =~= r0) by {
        reveal(Seq::filter);
    }
    r0.lemma_filter_push(head_base(), chosen);
    r1.lemma_filter_push(torso_base(), chosen);
    r2.lemma_filter_push(limb_a_left_base(), chosen);
    r3.lemma_filter_push(limb_a_right_legacy(), chosen);
    r4.lemma_filter_push(limb_a_right_modern(), chosen);
    r5.lemma_filter_push(limb_b_left_base(), chosen);
    r6.lemma_filter_push(limb_b_right_legacy(), chosen);
    r7.lemma_filter_push(limb_b_right_modern(), chosen);
    assert(base_rows() =~= r8);
    assert(r8.filter(chosen) =~= base_plan(format, render_type));
}

proof fn lemma_overlay_selection(format: SkinFormat, render_type: RenderType, armored: bool)
    ensures
        overlay_rows().filter(|r: RegionSpec| r.selected(format, render_type, armored))
            == if draws_overlay(format, armored) {
            overlay_plan(render_type)
        } else {
            Seq::empty()
        },
{
    let chosen = |r: RegionSpec| r.selected(format, render_type, armored);
    let r0 = Seq::<RegionSpec>::empty();
    let r1 = r0.push(head_overlay());
    let r2 = r1.push(torso_overlay());
    let r3 = r2.push(limb_a_left_overlay());
    let r4 = r3.push(limb_a_right_overlay());
    let r5 = r4.push(limb_b_left_overlay());
    let r6 = r5.push(limb_b_right_overlay());
    assert(r0.filter(chosen) =~= r0) by {
        reveal(Seq::filter);
    }
    r0.lemma_filter_push(head_overlay(), chosen);
    r1.lemma_filter_push(torso_overlay(), chosen);
    r2.lemma_filter_push(limb_a_left_overlay(), chosen);
    r3.lemma_filter_push(limb_a_right_overlay(), chosen);
    r4.lemma_filter_push(limb_b_left_overlay(), chosen);
    r5.lemma_filter_push(limb_b_right_overlay(), chosen);
    assert(overlay_rows() =~= r6);
    if draws_overlay(format, armored) {
        assert(r6.filter(chosen) =~= overlay_plan(render_type));
    } else {
        assert(r6.filter(chosen) =~= Seq::<RegionSpec>::empty());
    }
}

/// Selecting from the atlas gives the listed rows in the listed order.
pub proof fn lemma_plan_listed(format: SkinFormat, render_type: RenderType, armored: bool)
    ensures
        region_plan(format, render_type, armored) == listed_plan(format, render_type, armored),
{
    let chosen = |r: RegionSpec| r.selected(format, render_type, armored);
    lemma_base_selection(format, render_type, armored);
    lemma_overlay_selection(format, render_type, armored);
    Seq::filter_distributes_over_add(base_rows(), overlay_rows(), chosen);
    assert(atlas_rows().filter(chosen) =~= listed_plan(format, render_type, armored));
}

/// A legacy skin has no overlay layer: asking for armor selects the same
/// rows as not asking for it.
pub proof fn lemma_legacy_plan_ignores_armor(render_type: RenderType)
    ensures
        region_plan(SkinFormat::Legacy, render_type, true) == region_plan(
            SkinFormat::Legacy,
            render_type,
            false,
        ),
{
    lemma_plan_listed(SkinFormat::Legacy, render_type, true);
    lemma_plan_listed(SkinFormat::Legacy, render_type, false);
}

/// The number of base rows in `plan` that draw `part`.
pub open spec fn base_rows_for(plan: Seq<RegionSpec>, part: BodyPart) -> nat {
    plan.filter(|r: RegionSpec| r.layer == Layer::Base && r.part == part).len()
}

/// The two rows that compete for a right limb exclude each other: of the
/// mirrored legacy row and the modern row, a render draws the one of its
/// format exactly once and the other never, or neither if it does not show
/// the limb.
pub proof fn lemma_right_limb_rows_exclusive(
    format: SkinFormat,
    render_type: RenderType,
    armored: bool,
)
    ensures
        ({
            let plan = region_plan(format, render_type, armored);
            &&& base_rows_for(plan, BodyPart::LimbARight) == if render_type.shows(
                BodyPart::LimbARight,
            ) {
                1nat
            } else {
                0nat
            }
            &&& base_rows_for(plan, BodyPart::LimbBRight) == if render_type.shows(
                BodyPart::LimbBRight,
            ) {
                1nat
            } else {
                0nat
            }
            &&& plan.contains(limb_a_right_legacy()) <==> format == SkinFormat::Legacy
                && render_type.shows(BodyPart::LimbARight)
            &&& plan.contains(limb_a_right_modern()) <==> format == SkinFormat::Modern
                && render_type.shows(BodyPart::LimbARight)
            &&& plan.contains(limb_b_right_legacy()) <==> format == SkinFormat::Legacy
                && render_type.shows(BodyPart::LimbBRight)
            &&& plan.contains(limb_b_right_modern()) <==> format == SkinFormat::Modern
                && render_type.shows(BodyPart::LimbBRight)
        }),
{
    lemma_count_base_rows(format, render_type, armored, BodyPart::LimbARight);
    lemma_count_base_rows(format, render_type, armored, BodyPart::LimbBRight);
    lemma_member(format, render_type, armored, limb_a_right_legacy(), 3);
    lemma_member(format, render_type, armored, limb_a_right_modern(), 4);
    lemma_member(format, render_type, armored, limb_b_right_legacy(), 6);
    lemma_member(format, render_type, armored, limb_b_right_modern(), 7);
}

/// A row of the atlas is in the plan exactly if it is selected.
proof fn lemma_member(
    format: SkinFormat,
    render_type: RenderType,
    armored: bool,
    r: RegionSpec,
    i: int,
)
    requires
        0 <= i < atlas_rows().len(),
        atlas_rows()[i] == r,
    ensures
        region_plan(format, render_type, armored).contains(r) <==> r.selected(
            format,
            render_type,
            armored,
        ),
{
    let chosen = |r: RegionSpec| r.selected(format, render_type, armored);
    let plan = atlas_rows().filter(chosen);
    if plan.contains(r) {
        let j = choose|j: int| 0 <= j < plan.len() && plan[j] == r;
        atlas_rows().lemma_filter_pred(chosen, j);
    }
    if r.selected(format, render_type, armored) {
        atlas_rows().lemma_filter_contains(chosen, i);
    }
}

proof fn lemma_count_base_rows(
    format: SkinFormat,
    render_type: RenderType,
    armored: bool,
    part: BodyPart,
)
    requires
        part == BodyPart::LimbARight || part == BodyPart::LimbBRight,
    ensures
        base_rows_for(region_plan(format, render_type, armored), part) == if render_type.shows(
            part,
        ) {
            1nat
        } else {
            0nat
        },
{
    let of_part = |r: RegionSpec| r.layer == Layer::Base && r.part == part;
    lemma_plan_listed(format, render_type, armored);
    let base = base_plan(format, render_type);
    let over = overlay_plan(render_type);
    let none = Seq::<RegionSpec>::empty();
    assert(none.filter(of_part) =~= none) by {
        reveal(Seq::filter);
    }
    // the base rows
    let b1 = none.push(head_base());
    let b2 = b1.push(torso_base());
    let b3 = b2.push(limb_a_left_base());
    let b4 = b3.push(right_limb_a(format));
    let b5 = b4.push(limb_b_left_base());
    let b6 = b5.push(right_limb_b(format));
    none.lemma_filter_push(head_base(), of_part);
    b1.lemma_filter_push(torso_base(), of_part);
    b2.lemma_filter_push(limb_a_left_base(), of_part);
    b3.lemma_filter_push(right_limb_a(format), of_part);
    b4.lemma_filter_push(limb_b_left_base(), of_part);
    b5.lemma_filter_push(right_limb_b(format), of_part);
    assert(base =~= match render_type {
        RenderType::Head => b1,
        RenderType::Bust => b4,
        RenderType::Body => b6,
    });
    // the overlay rows
    let o1 = none.push(head_overlay());
    let o2 = o1.push(torso_overlay());
    let o3 = o2.push(limb_a_left_overlay());
    let o4 = o3.push(limb_a_right_overlay());
    let o5 = o4.push(limb_b_left_overlay());
    let o6 = o5.push(limb_b_right_overlay());
    none.lemma_filter_push(head_overlay(), of_part);
    o1.lemma_filter_push(torso_overlay(), of_part);
    o2.lemma_filter_push(limb_a_left_overlay(), of_part);
    o3.lemma_filter_push(limb_a_right_overlay(), of_part);
    o4.lemma_filter_push(limb_b_left_overlay(), of_part);
    o5.lemma_filter_push(limb_b_right_overlay(), of_part);
    assert(over =~= match render_type {
        RenderType::Head => o1,
        RenderType::Bust => o4,
        RenderType::Body => o6,
    });
    assert(over.filter(of_part).len() == 0);
    Seq::filter_distributes_over_add(base, over, of_part);
}

} // verus!
