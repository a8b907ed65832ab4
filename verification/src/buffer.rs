//! The owned pixel buffer that the compositor reads from and draws on.

use crate::pixel::Pixel;
use crate::raster::{lemma_block, lemma_index, lemma_overlay, lemma_raster_ext, Raster};
use vstd::prelude::*;

verus! {

/// An owned grid of pixels. Its storage always holds exactly one pixel for
/// each position, so every position on the grid can be read and written.
#[derive(Debug)]
pub struct RasterBuffer {
    width: usize,
    height: usize,
    pixels: Vec<Pixel>,
}

impl View for RasterBuffer {
    type V = Raster;

    closed spec fn view(&self) -> Raster {
        Raster { width: self.width as nat, height: self.height as nat, pixels: self.pixels@ }
    }
}

impl Clone for RasterBuffer {
    fn clone(&self) -> (out: RasterBuffer)
        ensures
            out@ == self@,
    {
        let count: usize = self.count();
        let mut pixels: Vec<Pixel> = Vec::with_capacity(count);
        let mut i: usize = 0;
        while i < count
            invariant
                i <= count,
                count == self.pixels@.len(),
                pixels@ == self.pixels@.take(i as int),
            decreases count - i,
        {
            pixels.push(self.pixels[i]);
            assert(self.pixels@.take(i + 1) =~= self.pixels@.take(i as int).push(
                self.pixels@[i as int],
            ));
            i += 1;
        }
        assert(self.pixels@.take(count as int) =~= self.pixels@);
        RasterBuffer { width: self.width, height: self.height, pixels }
    }
}

impl RasterBuffer {
    #[verifier::type_invariant]
    spec fn stored(&self) -> bool {
        self.pixels@.len() == self.width * self.height
    }

    fn count(&self) -> (n: usize)
        ensures
            n == self.width * self.height,
            n == self.pixels@.len(),
    {
        proof {
            use_type_invariant(self);
        }
        self.pixels.len()
    }

    /// A fully transparent buffer of `width` by `height` pixels.
    pub fn new(width: usize, height: usize) -> (out: RasterBuffer)
        requires
            width * height <= usize::MAX,
        ensures
            out@ == Raster::blank(width as nat, height as nat),
            out@.wf(),
    {
        let count: usize = width * height;
        let mut pixels: Vec<Pixel> = Vec::with_capacity(count);
        let mut i: usize = 0;
        while i < count
            invariant
                i <= count,
                pixels@.len() == i,
                forall|j: int| 0 <= j < i ==> pixels@[j] == Pixel::clear(),
            decreases count - i,
        {
            pixels.push(Pixel::transparent());
            i += 1;
        }
        assert(pixels@ =~= Raster::blank(width as nat, height as nat).pixels);
        RasterBuffer { width, height, pixels }
    }

    /// The number of columns.
    pub fn width(&self) -> (w: usize)
        ensures
            w == self@.width,
            self@.wf(),
    {
        proof {
            use_type_invariant(self);
        }
        self.width
    }

    /// The number of rows.
    pub fn height(&self) -> (h: usize)
        ensures
            h == self@.height,
            self@.wf(),
    {
        proof {
            use_type_invariant(self);
        }
        self.height
    }

    fn pixel_at(&self, x: usize, y: usize) -> (p: Pixel)
        requires
            self@.contains(x as int, y as int),
        ensures
            p == self@.at(x as int, y as int),
    {
        proof {
            use_type_invariant(self);
            assert(self.pixels.len() == self.pixels@.len());
            lemma_index(self.width as nat, self.height as nat, x as int, y as int);
        }
        self.pixels[y * self.width + x]
    }

    /// The pixel in column `x` of row `y`, if the position is on the grid.
    pub fn get(&self, x: usize, y: usize) -> (p: Option<Pixel>)
        ensures
            self@.wf(),
            p == if self@.contains(x as int, y as int) {
                Some(self@.at(x as int, y as int))
            } else {
                None
            },
    {
        proof {
            use_type_invariant(self);
        }
        if x < self.width && y < self.height {
            Some(self.pixel_at(x, y))
        } else {
            None
        }
    }

    /// Writes `p` to column `x` of row `y` and says whether the position is
    /// on the grid; a write off the grid changes nothing.
    pub fn set(&mut self, x: usize, y: usize, p: Pixel) -> (written: bool)
        ensures
            written == old(self)@.contains(x as int, y as int),
            final(self)@ == if written {
                old(self)@.with_pixel(x as int, y as int, p)
            } else {
                old(self)@
            },
            final(self)@.wf(),
    {
        proof {
            use_type_invariant(&*self);
            assert(self.pixels.len() == self.pixels@.len());
        }
        if x < self.width && y < self.height {
            proof {
                lemma_index(self.width as nat, self.height as nat, x as int, y as int);
            }
            let i: usize = y * self.width + x;
            self.pixels[i] = p;
            true
        } else {
            false
        }
    }

    /// The `w` by `h` pixels whose top left corner is `(x, y)`, if that
    /// rectangle lies on the grid.
    pub fn crop(&self, x: usize, y: usize, w: usize, h: usize) -> (out: Option<RasterBuffer>)
        ensures
            self@.wf(),
            out is Some <==> self@.contains_rect(x as nat, y as nat, w as nat, h as nat),
            out is Some ==> out.unwrap()@ == self@.crop(x as nat, y as nat, w as nat, h as nat)
                && out.unwrap()@.wf(),
    {
        proof {
            use_type_invariant(self);
            assert(self.pixels.len() == self.pixels@.len());
        }
        if x > self.width || w > self.width - x || y > self.height || h > self.height - y {
            return None;
        }
        assert(w * h <= self.width * self.height) by (nonlinear_arith)
            requires
                w <= self.width,
                h <= self.height,
        ;
        let mut pixels: Vec<Pixel> = Vec::with_capacity(w * h);
        let mut cy: usize = 0;
        while cy < h
            invariant
                cy <= h,
                x + w <= self.width,
                y + h <= self.height,
                pixels@.len() == cy * w,
                forall|j: int|
                    0 <= j < pixels@.len() ==> pixels@[j] == self@.at(
                        x + j % (w as int),
                        y + j / (w as int),
                    ),
            decreases h - cy,
        {
            let mut cx: usize = 0;
            while cx < w
                invariant
                    cx <= w,
                    cy < h,
                    x + w <= self.width,
                    y + h <= self.height,
                    pixels@.len() == cy * w + cx,
                    forall|j: int|
                        0 <= j < pixels@.len() ==> pixels@[j] == self@.at(
                            x + j % (w as int),
                            y + j / (w as int),
                        ),
                decreases w - cx,
            {
                let p = self.pixel_at(x + cx, y + cy);
                proof {
                    lemma_index(w as nat, h as nat, cx as int, cy as int);
                }
                pixels.push(p);
                cx += 1;
            }
            assert((cy + 1) * w == cy * w + w) by (nonlinear_arith);
            cy += 1;
        }
        proof {
            assert(h * w == w * h) by (nonlinear_arith);
            assert(pixels@ =~= self@.crop(x as nat, y as nat, w as nat, h as nat).pixels);
        }
        Some(RasterBuffer { width: w, height: h, pixels })
    }

    /// The grid enlarged by `factor`, each pixel replicated into a block of
    /// `factor` by `factor` pixels without any blending between neighbours.
    pub fn scale_up(&self, factor: usize) -> (out: RasterBuffer)
        requires
            self@.width * factor <= usize::MAX,
            self@.height * factor <= usize::MAX,
            (self@.width * factor) * (self@.height * factor) <= usize::MAX,
        ensures
            out@ == self@.scale_up(factor as nat),
            out@.wf(),
    {
        proof {
            use_type_invariant(self);
            assert(self.pixels.len() == self.pixels@.len());
        }
        if factor == 0 {
            assert(self.width * 0 == 0 && self.height * 0 == 0) by (nonlinear_arith);
            let empty = RasterBuffer { width: 0, height: 0, pixels: Vec::new() };
            assert(empty@.pixels =~= self@.scale_up(0).pixels);
            return empty;
        }
        let w: usize = self.width * factor;
        let h: usize = self.height * factor;
        let mut pixels: Vec<Pixel> = Vec::with_capacity(w * h);
        let mut y: usize = 0;
        while y < h
            invariant
                y <= h,
                factor > 0,
                w == self.width * factor,
                h == self.height * factor,
                pixels@.len() == y * w,
                forall|j: int|
                    0 <= j < pixels@.len() ==> pixels@[j] == self@.at(
                        (j % (w as int)) / (factor as int),
                        (j / (w as int)) / (factor as int),
                    ),
            decreases h - y,
        {
            let sy: usize = y / factor;
            let mut x: usize = 0;
            while x < w
                invariant
                    x <= w,
                    y < h,
                    factor > 0,
                    sy == y / factor,
                    w == self.width * factor,
                    h == self.height * factor,
                    pixels@.len() == y * w + x,
                    forall|j: int|
                        0 <= j < pixels@.len() ==> pixels@[j] == self@.at(
                            (j % (w as int)) / (factor as int),
                            (j / (w as int)) / (factor as int),
                        ),
                decreases w - x,
            {
                proof {
                    lemma_block(self.width as int, factor as int, x as int);
                    lemma_block(self.height as int, factor as int, y as int);
                    lemma_index(w as nat, h as nat, x as int, y as int);
                }
                let p = self.pixel_at(x / factor, sy);
                pixels.push(p);
                x += 1;
            }
            assert((y + 1) * w == y * w + w) by (nonlinear_arith);
            y += 1;
        }
        proof {
            assert(h * w == w * h) by (nonlinear_arith);
            assert(pixels@ =~= self@.scale_up(factor as nat).pixels);
        }
        RasterBuffer { width: w, height: h, pixels }
    }

    /// The grid flipped left to right.
    pub fn mirror(&self) -> (out: RasterBuffer)
        ensures
            out@ == self@.mirror(),
            out@.wf(),
    {
        let count: usize = self.count();
        let w: usize = self.width;
        let h: usize = self.height;
        let mut pixels: Vec<Pixel> = Vec::with_capacity(count);
        let mut y: usize = 0;
        while y < h
            invariant
                y <= h,
                w == self.width,
                h == self.height,
                pixels@.len() == y * w,
                forall|j: int|
                    0 <= j < pixels@.len() ==> pixels@[j] == self@.at(
                        w - 1 - j % (w as int),
                        j / (w as int),
                    ),
            decreases h - y,
        {
            let mut x: usize = 0;
            while x < w
                invariant
                    x <= w,
                    y < h,
                    w == self.width,
                    h == self.height,
                    pixels@.len() == y * w + x,
                    forall|j: int|
                        0 <= j < pixels@.len() ==> pixels@[j] == self@.at(
                            w - 1 - j % (w as int),
                            j / (w as int),
                        ),
                decreases w - x,
            {
                proof {
                    lemma_index(w as nat, h as nat, x as int, y as int);
                }
                let p = self.pixel_at(w - 1 - x, y);
                pixels.push(p);
                x += 1;
            }
            assert((y + 1) * w == y * w + w) by (nonlinear_arith);
            y += 1;
        }
        proof {
            assert(h * w == w * h) by (nonlinear_arith);
            assert(pixels@ =~= self@.mirror().pixels);
        }
        RasterBuffer { width: w, height: h, pixels }
    }

    /// Draws `patch` over this buffer with its top left corner at
    /// `(dx, dy)`, blending pixel by pixel. Only the pixels under the patch
    /// change; what juts out over the edge is dropped.
    pub fn composite_over(&mut self, patch: &RasterBuffer, dx: usize, dy: usize)
        ensures
            final(self)@ == old(self)@.overlay(patch@, dx as nat, dy as nat),
            final(self)@.wf(),
    {
        proof {
            use_type_invariant(&*self);
            use_type_invariant(patch);
            assert(self.pixels.len() == self.pixels@.len());
            assert(patch.pixels.len() == patch.pixels@.len());
        }
        let ghost before = self@;
        proof {
            lemma_overlay(before, patch@, dx as nat, dy as nat);
        }
        if dx >= self.width || dy >= self.height {
            proof {
                lemma_raster_ext(self@, before.overlay(patch@, dx as nat, dy as nat));
            }
            return ;
        }
        let w: usize = self.width;
        let h: usize = self.height;
        let pw: usize = if patch.width < w - dx {
            patch.width
        } else {
            w - dx
        };
        let ph: usize = if patch.height < h - dy {
            patch.height
        } else {
            h - dy
        };
        let mut py: usize = 0;
        while py < ph
            invariant
                py <= ph,
                w * h <= usize::MAX,
                before.wf(),
                before.width == w,
                before.height == h,
                self.width == w,
                self.height == h,
                self.pixels@.len() == w * h,
                dx + pw <= w,
                dy + ph <= h,
                pw <= patch.width,
                ph <= patch.height,
                forall|x: int, y: int|
                    before.contains(x, y) ==> #[trigger] self@.at(x, y) == if Raster::under_patch(
                        x,
                        y,
                        dx as nat,
                        dy as nat,
                        pw as nat,
                        py as nat,
                    ) {
                        patch@.at(x - dx, y - dy).over(before.at(x, y))
                    } else {
                        before.at(x, y)
                    },
            decreases ph - py,
        {
            let y: usize = dy + py;
            let mut px: usize = 0;
            while px < pw
                invariant
                    px <= pw,
                    py < ph,
                    y == dy + py,
                    w * h <= usize::MAX,
                    before.wf(),
                    before.width == w,
                    before.height == h,
                    self.width == w,
                    self.height == h,
                    self.pixels@.len() == w * h,
                    dx + pw <= w,
                    dy + ph <= h,
                    pw <= patch.width,
                    ph <= patch.height,
                    forall|x2: int, y2: int|
                        before.contains(x2, y2) ==> #[trigger] self@.at(x2, y2)
                            == if Raster::under_patch(
                            x2,
                            y2,
                            dx as nat,
                            dy as nat,
                            pw as nat,
                            py as nat,
                        ) || (y2 == y && dx <= x2 < dx + px) {
                            patch@.at(x2 - dx, y2 - dy).over(before.at(x2, y2))
                        } else {
                            before.at(x2, y2)
                        },
                decreases pw - px,
            {
                let x: usize = dx + px;
                let src = patch.pixel_at(px, py);
                let dst = self.pixel_at(x, y);
                let ghost prev = self@;
                proof {
                    lemma_index(w as nat, h as nat, x as int, y as int);
                }
                let i: usize = y * w + x;
                self.pixels[i] = src.blend_over(dst);
                proof {
                    assert forall|x2: int, y2: int| before.contains(x2, y2) implies #[trigger] self@.at(
                        x2,
                        y2,
                    ) == if Raster::under_patch(x2, y2, dx as nat, dy as nat, pw as nat, py as nat)
                        || (y2 == y && dx <= x2 < dx + px + 1) {
                        patch@.at(x2 - dx, y2 - dy).over(before.at(x2, y2))
                    } else {
                        before.at(x2, y2)
                    } by {
                        lemma_index(w as nat, h as nat, x2, y2);
                        assert(prev.at(x2, y2) == prev.pixels[y2 * w + x2]);
                        if x2 == x && y2 == y {
                            assert(self@.at(x2, y2) == src.over(dst));
                        } else {
                            assert(y2 * w + x2 != i);
                            assert(self@.at(x2, y2) == prev.at(x2, y2));
                        }
                    }
                }
                px += 1;
            }
            py += 1;
        }
        proof {
            lemma_raster_ext(self@, before.overlay(patch@, dx as nat, dy as nat));
        }
    }

    /// Builds a buffer from four bytes per pixel (red, green, blue, alpha),
    /// row by row from the top. The byte count has to match the size.
    pub fn from_rgba(width: usize, height: usize, bytes: &[u8]) -> (out: Option<RasterBuffer>)
        ensures
            out is Some <==> bytes@.len() == 4 * width * height,
            out is Some ==> out.unwrap()@ == Raster::from_rgba(
                width as nat,
                height as nat,
                bytes@,
            ) && out.unwrap()@.wf(),
    {
        assert(4 * (width * height) == 4 * width * height) by (nonlinear_arith);
        let len: usize = bytes.len();
        let count: usize = match width.checked_mul(height) {
            Some(n) => n,
            None => {
                return None;
            },
        };
        if len / 4 != count || len % 4 != 0 {
            return None;
        }
        let mut pixels: Vec<Pixel> = Vec::with_capacity(count);
        let mut i: usize = 0;
        while i < count
            invariant
                i <= count,
                bytes@.len() == 4 * count,
                4 * count <= usize::MAX,
                pixels@.len() == i,
                forall|j: int|
                    0 <= j < i ==> pixels@[j] == (Pixel {
                        r: bytes@[4 * j],
                        g: bytes@[4 * j + 1],
                        b: bytes@[4 * j + 2],
                        a: bytes@[4 * j + 3],
                    }),
            decreases count - i,
        {
            let at: usize = 4 * i;
            pixels.push(Pixel::new(bytes[at], bytes[at + 1], bytes[at + 2], bytes[at + 3]));
            i += 1;
        }
        assert(pixels@ =~= Raster::from_rgba(width as nat, height as nat, bytes@).pixels);
        Some(RasterBuffer { width, height, pixels })
    }

    /// The pixels as four bytes each (red, green, blue, alpha), row by row
    /// from the top.
    pub fn to_rgba(&self) -> (bytes: Vec<u8>)
        ensures
            bytes@ == self@.rgba(),
            bytes@.len() == 4 * self@.width * self@.height,
            self@.wf(),
    {
        let count: usize = self.count();
        assert(4 * (self.width * self.height) == 4 * self.width * self.height)
            by (nonlinear_arith);
        let mut bytes: Vec<u8> = Vec::new();
        let mut i: usize = 0;
        while i < count
            invariant
                i <= count,
                count == self.pixels@.len(),
                bytes@.len() == 4 * i,
                forall|j: int|
                    0 <= j < bytes@.len() ==> bytes@[j] == self.pixels@[j / 4].channel(j % 4),
            decreases count - i,
        {
            let p = self.pixels[i];
            bytes.push(p.r);
            bytes.push(p.g);
            bytes.push(p.b);
            bytes.push(p.a);
            i += 1;
        }
        assert(bytes@ =~= self@.rgba());
        bytes
    }
}

} // verus!
