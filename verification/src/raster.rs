//! Rectangular grids of pixels: the mathematical model and the owned buffer.

use crate::pixel::Pixel;
use vstd::arithmetic::div_mod::lemma_fundamental_div_mod_converse;
use vstd::prelude::*;

verus! {

/// A grid of `width` by `height` pixels, stored row by row from the top.
pub struct Raster {
    pub width: nat,
    pub height: nat,
    pub pixels: Seq<Pixel>,
}

impl Raster {
    /// There is exactly one stored pixel for each position of the grid.
    pub open spec fn wf(self) -> bool {
        self.pixels.len() == self.width * self.height
    }

    /// Column `x` of row `y` lies on the grid.
    pub open spec fn contains(self, x: int, y: int) -> bool {
        0 <= x < self.width && 0 <= y < self.height
    }

    /// The rectangle of `w` by `h` pixels whose top left corner is `(x, y)`
    /// lies on the grid.
    pub open spec fn contains_rect(self, x: nat, y: nat, w: nat, h: nat) -> bool {
        x + w <= self.width && y + h <= self.height
    }

    /// The pixel in column `x` of row `y`.
    pub open spec fn at(self, x: int, y: int) -> Pixel {
        self.pixels[y * self.width + x]
    }

    /// The grid with the pixel at `(x, y)` replaced by `p`.
    pub open spec fn with_pixel(self, x: int, y: int, p: Pixel) -> Raster {
        Raster { pixels: self.pixels.update(y * self.width + x, p), ..self }
    }

    /// The grid whose pixel at `(x, y)` is `f(x, y)`.
    pub open spec fn from_fn(width: nat, height: nat, f: spec_fn(int, int) -> Pixel) -> Raster {
        Raster {
            width,
            height,
            pixels: Seq::new(width * height, |i: int| f(i % width as int, i / width as int)),
        }
    }

    /// The grid stored in `bytes` as four bytes per pixel (red, green, blue,
    /// alpha), row by row from the top.
    pub open spec fn from_rgba(width: nat, height: nat, bytes: Seq<u8>) -> Raster {
        Raster {
            width,
            height,
            pixels: Seq::new(
                width * height,
                |i: int|
                    Pixel {
                        r: bytes[4 * i],
                        g: bytes[4 * i + 1],
                        b: bytes[4 * i + 2],
                        a: bytes[4 * i + 3],
                    },
            ),
        }
    }

    /// The pixels as four bytes each (red, green, blue, alpha), row by row
    /// from the top.
    pub open spec fn rgba(self) -> Seq<u8> {
        Seq::new(4 * self.pixels.len(), |i: int| self.pixels[i / 4].channel(i % 4))
    }

    /// A fully transparent grid.
    pub open spec fn blank(width: nat, height: nat) -> Raster {
        Raster::from_fn(width, height, |x: int, y: int| Pixel::clear())
    }

    /// The `w` by `h` pixels of `self` whose top left corner is `(x, y)`.
    pub open spec fn crop(self, x: nat, y: nat, w: nat, h: nat) -> Raster {
        Raster::from_fn(w, h, |cx: int, cy: int| self.at(x + cx, y + cy))
    }

    /// `self` enlarged by `factor`: each pixel becomes a square block of
    /// `factor` by `factor` copies of itself.
    pub open spec fn scale_up(self, factor: nat) -> Raster {
        Raster::from_fn(
            self.width * factor,
            self.height * factor,
            |x: int, y: int| self.at(x / factor as int, y / factor as int),
        )
    }

    /// `self` flipped left to right.
    pub open spec fn mirror(self) -> Raster {
        Raster::from_fn(self.width, self.height, |x: int, y: int| self.at(self.width - 1 - x, y))
    }

    /// The position `(x, y)` of a canvas lies under a `w` by `h` patch placed
    /// with its top left corner at `(dx, dy)`.
    pub open spec fn under_patch(x: int, y: int, dx: nat, dy: nat, w: nat, h: nat) -> bool {
        dx <= x < dx + w && dy <= y < dy + h
    }

    /// `patch` drawn over `self` with its top left corner at `(dx, dy)`.
    /// Each canvas pixel under the patch becomes the patch pixel blended over
    /// it; the rest of the canvas stays as it is, and whatever part of the
    /// patch juts out over the edge of the canvas is dropped.
    pub open spec fn overlay(self, patch: Raster, dx: nat, dy: nat) -> Raster {
        Raster::from_fn(
            self.width,
            self.height,
            |x: int, y: int|
                if Raster::under_patch(x, y, dx, dy, patch.width, patch.height) {
                    patch.at(x - dx, y - dy).over(self.at(x, y))
                } else {
                    self.at(x, y)
                },
        )
    }
}

/// Row-major indexing: a position on the grid has an index within the
/// storage, and the index determines the position.
pub proof fn lemma_index(width: nat, height: nat, x: int, y: int)
    requires
        0 <= x < width,
        0 <= y < height,
    ensures
        0 <= y * width + x < width * height,
        (y * width + x) % (width as int) == x,
        (y * width + x) / (width as int) == y,
{
    let w = width as int;
    assert(y * w + w <= height * w) by (nonlinear_arith)
        requires
            0 <= y < height,
            0 < w,
    ;
    assert(0 <= y * w) by (nonlinear_arith)
        requires
            0 <= y,
            0 < w,
    ;
    assert(height * w == w * height) by (nonlinear_arith);
    lemma_fundamental_div_mod_converse(y * w + x, w, y, x);
}

/// An index within the storage belongs to a position on the grid.
pub proof fn lemma_position(width: nat, height: nat, i: int)
    requires
        0 <= i < width * height,
    ensures
        0 <= i % (width as int) < width,
        0 <= i / (width as int) < height,
        (i / (width as int)) * width + i % (width as int) == i,
{
    let w = width as int;
    assert(w > 0) by (nonlinear_arith)
        requires
            0 <= i < w * height,
            0 <= w,
    ;
    vstd::arithmetic::div_mod::lemma_fundamental_div_mod(i, w);
    assert(0 <= i / w < height) by (nonlinear_arith)
        requires
            0 <= i < w * height,
            0 < w,
            i == w * (i / w) + i % w,
            0 <= i % w < w,
    ;
    assert((i / w) * w == w * (i / w)) by (nonlinear_arith);
}

/// A position on an enlarged side falls in the block of one source position.
pub proof fn lemma_block(side: int, factor: int, x: int)
    requires
        0 < factor,
        0 <= x < side * factor,
    ensures
        0 <= x / factor < side,
{
    vstd::arithmetic::div_mod::lemma_fundamental_div_mod(x, factor);
    assert(0 <= x / factor < side) by (nonlinear_arith)
        requires
            0 < factor,
            0 <= x < side * factor,
            x == factor * (x / factor) + x % factor,
            0 <= x % factor < factor,
    ;
}

/// A grid built from a function holds the function's value at each position.
pub proof fn lemma_from_fn(width: nat, height: nat, f: spec_fn(int, int) -> Pixel)
    ensures
        Raster::from_fn(width, height, f).wf(),
        Raster::from_fn(width, height, f).width == width,
        Raster::from_fn(width, height, f).height == height,
        forall|x: int, y: int|
            0 <= x < width && 0 <= y < height ==> #[trigger] Raster::from_fn(width, height, f).at(
                x,
                y,
            ) == f(x, y),
{
    let r = Raster::from_fn(width, height, f);
    assert forall|x: int, y: int| 0 <= x < width && 0 <= y < height implies #[trigger] r.at(x, y)
        == f(x, y) by {
        lemma_index(width, height, x, y);
    }
}

/// Two grids of the same size that agree at every position are the same grid.
pub proof fn lemma_raster_ext(a: Raster, b: Raster)
    requires
        a.wf(),
        b.wf(),
        a.width == b.width,
        a.height == b.height,
        forall|x: int, y: int| a.contains(x, y) ==> #[trigger] a.at(x, y) == b.at(x, y),
    ensures
        a == b,
{
    assert forall|i: int| 0 <= i < a.pixels.len() implies a.pixels[i] == b.pixels[i] by {
        lemma_position(a.width, a.height, i);
        let x = i % (a.width as int);
        let y = i / (a.width as int);
        assert(a.contains(x, y));
        assert(a.at(x, y) == b.at(x, y));
    }
    assert(a.pixels =~= b.pixels);
}

/// Reading back the bytes of a grid gives the grid.
pub proof fn lemma_rgba_round_trip(r: Raster)
    requires
        r.wf(),
    ensures
        r.rgba().len() == 4 * r.width * r.height,
        Raster::from_rgba(r.width, r.height, r.rgba()) == r,
{
    assert(4 * (r.width * r.height) == 4 * r.width * r.height) by (nonlinear_arith);
    assert(Raster::from_rgba(r.width, r.height, r.rgba()).pixels =~= r.pixels);
}

/// Replacing a pixel changes that position and no other.
pub proof fn lemma_with_pixel(r: Raster, x: int, y: int, p: Pixel)
    requires
        r.wf(),
        r.contains(x, y),
    ensures
        r.with_pixel(x, y, p).wf(),
        r.with_pixel(x, y, p).width == r.width,
        r.with_pixel(x, y, p).height == r.height,
        forall|x2: int, y2: int|
            r.contains(x2, y2) ==> #[trigger] r.with_pixel(x, y, p).at(x2, y2) == if x2 == x && y2
                == y {
                p
            } else {
                r.at(x2, y2)
            },
{
    lemma_index(r.width, r.height, x, y);
    assert forall|x2: int, y2: int| r.contains(x2, y2) implies #[trigger] r.with_pixel(x, y, p).at(
        x2,
        y2,
    ) == if x2 == x && y2 == y {
        p
    } else {
        r.at(x2, y2)
    } by {
        lemma_index(r.width, r.height, x2, y2);
    }
}

/// A blank grid is transparent everywhere.
pub proof fn lemma_blank(width: nat, height: nat)
    ensures
        Raster::blank(width, height).wf(),
        Raster::blank(width, height).width == width,
        Raster::blank(width, height).height == height,
        forall|x: int, y: int|
            0 <= x < width && 0 <= y < height ==> #[trigger] Raster::blank(width, height).at(x, y)
                == Pixel::clear(),
{
    lemma_from_fn(width, height, |x: int, y: int| Pixel::clear());
}

/// A crop holds the pixels of the rectangle it was cut from.
pub proof fn lemma_crop(src: Raster, x: nat, y: nat, w: nat, h: nat)
    ensures
        src.crop(x, y, w, h).wf(),
        src.crop(x, y, w, h).width == w,
        src.crop(x, y, w, h).height == h,
        forall|cx: int, cy: int|
            0 <= cx < w && 0 <= cy < h ==> #[trigger] src.crop(x, y, w, h).at(cx, cy) == src.at(
                x + cx,
                y + cy,
            ),
{
    lemma_from_fn(w, h, |cx: int, cy: int| src.at(x + cx, y + cy));
}

/// An enlarged grid holds, at each position, the source pixel of the block
/// that the position falls in.
pub proof fn lemma_scale_up(src: Raster, factor: nat)
    ensures
        src.scale_up(factor).wf(),
        src.scale_up(factor).width == src.width * factor,
        src.scale_up(factor).height == src.height * factor,
        forall|x: int, y: int|
            0 <= x < src.width * factor && 0 <= y < src.height * factor ==> #[trigger] src.scale_up(
                factor,
            ).at(x, y) == src.at(x / factor as int, y / factor as int),
{
    lemma_from_fn(
        src.width * factor,
        src.height * factor,
        |x: int, y: int| src.at(x / factor as int, y / factor as int),
    );
}

/// Enlarging replicates without blending: every block of `factor` by
/// `factor` positions holds copies of the one source pixel it stands for.
pub proof fn lemma_scale_blocks(src: Raster, factor: nat, bx: int, by: int, i: int, j: int)
    requires
        src.contains(bx, by),
        0 <= i < factor,
        0 <= j < factor,
    ensures
        0 <= bx * factor + i < src.width * factor,
        0 <= by * factor + j < src.height * factor,
        src.scale_up(factor).at(bx * factor + i, by * factor + j) == src.at(bx, by),
{
    let f = factor as int;
    lemma_scale_up(src, factor);
    assert(0 <= bx * f && bx * f + f <= src.width * f) by (nonlinear_arith)
        requires
            0 <= bx < src.width,
            0 < f,
    ;
    assert(0 <= by * f && by * f + f <= src.height * f) by (nonlinear_arith)
        requires
            0 <= by < src.height,
            0 < f,
    ;
    lemma_fundamental_div_mod_converse(bx * f + i, f, bx, i);
    lemma_fundamental_div_mod_converse(by * f + j, f, by, j);
}

/// A mirrored grid holds, in each column, the pixels of the opposite column.
pub proof fn lemma_mirror(src: Raster)
    ensures
        src.mirror().wf(),
        src.mirror().width == src.width,
        src.mirror().height == src.height,
        forall|x: int, y: int|
            0 <= x < src.width && 0 <= y < src.height ==> #[trigger] src.mirror().at(x, y)
                == src.at(src.width - 1 - x, y),
{
    lemma_from_fn(src.width, src.height, |x: int, y: int| src.at(src.width - 1 - x, y));
}

/// Drawing a patch changes the canvas under the patch and nowhere else.
pub proof fn lemma_overlay(canvas: Raster, patch: Raster, dx: nat, dy: nat)
    ensures
        canvas.overlay(patch, dx, dy).wf(),
        canvas.overlay(patch, dx, dy).width == canvas.width,
        canvas.overlay(patch, dx, dy).height == canvas.height,
        forall|x: int, y: int|
            0 <= x < canvas.width && 0 <= y < canvas.height ==> #[trigger] canvas.overlay(
                patch,
                dx,
                dy,
            ).at(x, y) == if Raster::under_patch(x, y, dx, dy, patch.width, patch.height) {
                patch.at(x - dx, y - dy).over(canvas.at(x, y))
            } else {
                canvas.at(x, y)
            },
{
    lemma_from_fn(
        canvas.width,
        canvas.height,
        |x: int, y: int|
            if Raster::under_patch(x, y, dx, dy, patch.width, patch.height) {
                patch.at(x - dx, y - dy).over(canvas.at(x, y))
            } else {
                canvas.at(x, y)
            },
    );
}

} // verus!
