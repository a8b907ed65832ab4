//! A render session: one skin, one canvas, one scale factor.

use crate::atlas::{
    atlas_rows, plan, region_plan, RegionSpec, RenderType, SkinFormat, CANVAS_HEIGHT, CANVAS_WIDTH,
};
use crate::buffer::RasterBuffer;
use crate::codec::{decoded_raster, encoded_raster, png_decoding, read_png, write_png};
use crate::compositor::{apply_plan, draw_plan, plan_fits, plan_scalable, scalable};
use crate::error::RenderError;
use crate::raster::Raster;
use vstd::prelude::*;

verus! {

/// What a render session holds.
pub struct RenderState {
    /// The factor by which every unscaled unit is enlarged.
    pub scale: nat,
    /// The layout of the skin.
    pub format: SkinFormat,
    /// The skin, which a render only reads.
    pub skin: Raster,
    /// The canvas: transparent at first, the finished image after a render.
    pub canvas: Raster,
}

/// A render session. It owns its skin and its canvas and shares neither.
#[derive(Debug)]
pub struct Render {
    size: usize,
    format: SkinFormat,
    skin: RasterBuffer,
    render: RasterBuffer,
}

impl View for Render {
    type V = RenderState;

    closed spec fn view(&self) -> RenderState {
        RenderState {
            scale: self.size as nat,
            format: self.format,
            skin: self.skin@,
            canvas: self.render@,
        }
    }
}

/// The scale factor is small enough for the pixel count of its canvas of 16
/// by 32 units to be a machine integer.
pub open spec fn scale_fits(size: nat) -> bool {
    512 * size * size <= usize::MAX
}

/// The rectangle `(x, y, width, height)` that a render of `render_type` keeps
/// of its canvas: the square of 8 units around the head, the square as wide
/// as the canvas at its top, or the whole canvas.
pub open spec fn crop_rect(render_type: RenderType, canvas: Raster, scale: nat) -> (
    nat,
    nat,
    nat,
    nat,
) {
    match render_type {
        RenderType::Head => (4 * scale, 0, 8 * scale, 8 * scale),
        RenderType::Bust => (0, 0, canvas.width, canvas.width),
        RenderType::Body => (0, 0, canvas.width, canvas.height),
    }
}

impl RenderState {
    /// The session is consistent: the scale is positive and small enough for
    /// the machine, the format is that of the skin, and both grids are whole.
    pub open spec fn wf(self) -> bool {
        &&& self.scale > 0
        &&& scale_fits(self.scale)
        &&& SkinFormat::of_height(self.skin.height) == Some(self.format)
        &&& self.skin.wf()
        &&& self.canvas.wf()
    }

    /// The session that opening `skin` at scale `size` gives: the format is
    /// read from the height of the skin, and the canvas is transparent and
    /// 16 by 32 units large. A skin of another height is rejected whatever the
    /// scale is; after that, so is a scale of zero.
    pub open spec fn opened(skin: Raster, size: nat) -> Result<RenderState, RenderError> {
        match SkinFormat::of_height(skin.height) {
            None => Err(RenderError::UnsupportedFormat),
            Some(format) => if size == 0 {
                Err(RenderError::InvalidScale)
            } else {
                Ok(
                    RenderState {
                        scale: size,
                        format,
                        skin,
                        canvas: Raster::blank(CANVAS_WIDTH as nat * size, CANVAS_HEIGHT as nat * size),
                    },
                )
            },
        }
    }

    /// The session that opening a decoded image at scale `size` gives. What
    /// the decoder did not turn into a grid is a decode error.
    pub open spec fn opened_decoded(decoded: Option<(nat, nat, Seq<u8>)>, size: nat) -> Result<
        RenderState,
        RenderError,
    > {
        match decoded_raster(decoded) {
            None => Err(RenderError::DecodeError),
            Some(skin) => RenderState::opened(skin, size),
        }
    }

    /// The canvas before cropping: the regions planned for the render, drawn
    /// in order on the canvas of the session.
    pub open spec fn painted(self, render_type: RenderType, armored: bool) -> Raster {
        draw_plan(
            self.canvas,
            self.skin,
            region_plan(self.format, render_type, armored),
            self.scale,
        )
    }

    /// The render can be carried out: every planned region lies on the skin,
    /// and the rectangle to keep lies on the canvas.
    pub open spec fn renderable(self, render_type: RenderType, armored: bool) -> bool {
        let (x, y, w, h) = crop_rect(render_type, self.canvas, self.scale);
        &&& plan_fits(self.skin, region_plan(self.format, render_type, armored))
        &&& self.canvas.contains_rect(x, y, w, h)
    }

    /// The session after a render: the canvas is painted and then cropped to
    /// the rectangle that the render type keeps.
    pub open spec fn rendered(self, render_type: RenderType, armored: bool) -> Result<
        RenderState,
        RenderError,
    > {
        let (x, y, w, h) = crop_rect(render_type, self.canvas, self.scale);
        if self.renderable(render_type, armored) {
            Ok(
                RenderState {
                    canvas: self.painted(render_type, armored).crop(x, y, w, h),
                    ..self
                },
            )
        } else {
            Err(RenderError::RegionOutOfBounds)
        }
    }
}

/// No row of the atlas is larger than 8 by 12 units or placed beyond column
/// 12 or row 20, so a scale that fits the canvas fits every planned region.
pub proof fn lemma_plan_scalable(
    format: SkinFormat,
    render_type: RenderType,
    armored: bool,
    scale: nat,
)
    requires
        scale_fits(scale),
    ensures
        plan_scalable(region_plan(format, render_type, armored), scale),
{
    let chosen = |r: RegionSpec| r.selected(format, render_type, armored);
    let rows = region_plan(format, render_type, armored);
    assert forall|i: int| 0 <= i < rows.len() implies scalable(#[trigger] rows[i], scale) by {
        let r = rows[i];
        assert(rows.contains(r));
        atlas_rows().lemma_filter_contains_rev(chosen, r);
        let j = choose|j: int| 0 <= j < atlas_rows().len() && atlas_rows()[j] == r;
        assert(atlas_rows()[j] == r);
        assert(r.width <= 8 && r.height <= 12 && r.dest_x <= 12 && r.dest_y <= 20);
        assert(scalable(r, scale)) by (nonlinear_arith)
            requires
                r.width <= 8,
                r.height <= 12,
                r.dest_x <= 12,
                r.dest_y <= 20,
                512 * scale * scale <= usize::MAX,
        ;
    }
}

/// Classifies a skin by its height. A skin that is neither 32 nor 64 rows
/// high has no format.
pub fn detect_format(skin: &RasterBuffer) -> (res: Result<SkinFormat, RenderError>)
    ensures
        res == match SkinFormat::of_height(skin@.height) {
            Some(format) => Ok::<SkinFormat, RenderError>(format),
            None => Err(RenderError::UnsupportedFormat),
        },
        skin@.wf(),
{
    match SkinFormat::detect(skin.height()) {
        Some(format) => Ok(format),
        None => Err(RenderError::UnsupportedFormat),
    }
}

impl Render {
    #[verifier::type_invariant]
    spec fn sound(&self) -> bool {
        &&& self.size > 0
        &&& scale_fits(self.size as nat)
        &&& SkinFormat::of_height(self.skin@.height) == Some(self.format)
        &&& self.skin@.wf()
        &&& self.render@.wf()
    }

    /// Opens a session on a skin given as a PNG file.
    pub fn new(skin_png: &[u8], size: usize) -> (res: Result<Render, RenderError>)
        requires
            scale_fits(size as nat),
        ensures
            match RenderState::opened_decoded(png_decoding(skin_png@), size as nat) {
                Ok(state) => res is Ok && res.unwrap()@ == state && state.wf(),
                Err(e) => res is Err && res->Err_0 == e,
            },
    {
        match read_png(skin_png) {
            Some(skin) => Render::from_skin(skin, size),
            None => Err(RenderError::DecodeError),
        }
    }

    /// Opens a session on a decoded skin.
    pub fn from_skin(skin: RasterBuffer, size: usize) -> (res: Result<Render, RenderError>)
        requires
            scale_fits(size as nat),
        ensures
            match RenderState::opened(skin@, size as nat) {
                Ok(state) => res is Ok && res.unwrap()@ == state && state.wf(),
                Err(e) => res is Err && res->Err_0 == e,
            },
    {
        let format = match detect_format(&skin) {
            Ok(format) => format,
            Err(e) => {
                return Err(e);
            },
        };
        if size == 0 {
            return Err(RenderError::InvalidScale);
        }
        assert(16 * size <= usize::MAX && 32 * size <= usize::MAX && (16 * size) * (32 * size)
            <= usize::MAX) by (nonlinear_arith)
            requires
                size > 0,
                512 * size * size <= usize::MAX,
        ;
        let render = RasterBuffer::new(CANVAS_WIDTH * size, CANVAS_HEIGHT * size);
        Ok(Render { size, format, skin, render })
    }

    /// The scale factor.
    pub fn size(&self) -> (size: usize)
        ensures
            size == self@.scale,
            self@.wf(),
    {
        proof {
            use_type_invariant(self);
        }
        self.size
    }

    /// The layout of the skin.
    pub fn format(&self) -> (format: SkinFormat)
        ensures
            format == self@.format,
            self@.wf(),
    {
        proof {
            use_type_invariant(self);
        }
        self.format
    }

    /// The skin.
    pub fn skin(&self) -> (skin: &RasterBuffer)
        ensures
            skin@ == self@.skin,
            skin@.wf(),
    {
        proof {
            use_type_invariant(self);
        }
        &self.skin
    }

    /// The canvas: the finished image once a render has succeeded.
    pub fn image(&self) -> (image: &RasterBuffer)
        ensures
            image@ == self@.canvas,
            image@.wf(),
    {
        proof {
            use_type_invariant(self);
        }
        &self.render
    }

    /// Hands the canvas over and ends the session.
    pub fn into_image(self) -> (image: RasterBuffer)
        ensures
            image@ == self@.canvas,
            image@.wf(),
    {
        proof {
            use_type_invariant(&self);
        }
        self.render
    }

    /// Renders the figure: draws the regions planned for `render_type` and
    /// `armored` on the canvas and crops the canvas to what the render type
    /// keeps. The session is used up; a render that succeeds hands it back
    /// with the finished image as its canvas.
    pub fn render(self, render_type: RenderType, armored: bool) -> (res: Result<
        Render,
        RenderError,
    >)
        ensures
            match self@.rendered(render_type, armored) {
                Ok(state) => res is Ok && res.unwrap()@ == state && state.wf(),
                Err(e) => res is Err && res->Err_0 == e,
            },
            res is Ok && render_type == RenderType::Head ==> res.unwrap()@.canvas.width == 8
                * self@.scale && res.unwrap()@.canvas.height == 8 * self@.scale,
            res is Ok && render_type == RenderType::Bust ==> res.unwrap()@.canvas.width
                == self@.canvas.width && res.unwrap()@.canvas.height == self@.canvas.width,
            res is Ok && render_type == RenderType::Body ==> res.unwrap()@.canvas.width
                == self@.canvas.width && res.unwrap()@.canvas.height == self@.canvas.height,
    {
        proof {
            use_type_invariant(&self);
            lemma_plan_scalable(self.format, render_type, armored, self.size as nat);
        }
        let Render { size, format, skin, render: mut canvas } = self;
        assert(8 * size <= usize::MAX) by (nonlinear_arith)
            requires
                size > 0,
                512 * size * size <= usize::MAX,
        ;
        let width: usize = canvas.width();
        let height: usize = canvas.height();
        let (x, y, w, h): (usize, usize, usize, usize) = match render_type {
            RenderType::Head => (4 * size, 0, 8 * size, 8 * size),
            RenderType::Bust => (0, 0, width, width),
            RenderType::Body => (0, 0, width, height),
        };
        if x > width || w > width - x || y > height || h > height - y {
            return Err(RenderError::RegionOutOfBounds);
        }
        let rows = plan(format, render_type, armored);
        let ghost start = canvas@;
        match apply_plan(&mut canvas, &skin, &rows, size) {
            Ok(()) => {},
            Err(e) => {
                return Err(e);
            },
        }
        proof {
            crate::compositor::lemma_draw_plan_size(start, skin@, rows@, size as nat);
        }
        let cropped = canvas.crop(x, y, w, h).unwrap();
        proof {
            crate::raster::lemma_crop(canvas@, x as nat, y as nat, w as nat, h as nat);
        }
        Ok(Render { size, format, skin, render: cropped })
    }

    /// Renders the figure for a render type given by name: `head`, `bust`,
    /// and the whole body for any other name.
    pub fn render_body(self, render_type: &str, armored: bool) -> (res: Result<
        Render,
        RenderError,
    >)
        ensures
            match self@.rendered(RenderType::named(render_type@), armored) {
                Ok(state) => res is Ok && res.unwrap()@ == state && state.wf(),
                Err(e) => res is Err && res->Err_0 == e,
            },
            res is Ok && render_type@ == "head"@ ==> res.unwrap()@.canvas.width == 8 * self@.scale
                && res.unwrap()@.canvas.height == 8 * self@.scale,
            res is Ok && render_type@ == "bust"@ ==> res.unwrap()@.canvas.width
                == self@.canvas.width && res.unwrap()@.canvas.height == self@.canvas.width,
    {
        proof {
            reveal_strlit("head");
            reveal_strlit("bust");
            assert("head"@[0] != "bust"@[0]);
        }
        self.render(RenderType::from_name(render_type), armored)
    }

    /// The canvas as a PNG file, if the encoder accepts it.
    pub fn write_image(&self) -> (file: Option<Vec<u8>>)
        ensures
            match file {
                Some(bytes) => encoded_raster(self@.canvas) == Some(bytes@),
                None => encoded_raster(self@.canvas) is None,
            },
    {
        write_png(&self.render)
    }
}

} // verus!
