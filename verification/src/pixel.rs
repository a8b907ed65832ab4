//! RGBA pixels with eight bits per channel and source-over blending.

use vstd::prelude::*;

verus! {

/// One pixel: straight (not premultiplied) colour and an alpha of 0 to 255.
#[derive(Clone, Copy, Debug, PartialEq, Eq, Structural)]
pub struct Pixel {
    pub r: u8,
    pub g: u8,
    pub b: u8,
    pub a: u8,
}

/// One colour channel of `src` drawn over `dst` with coverage `alpha / 255`:
/// `src * alpha + dst * (1 - alpha)`, rounded to the nearest integer.
pub open spec fn mix_channel(src: int, dst: int, alpha: int) -> int {
    (src * alpha + dst * (255 - alpha) + 127) / 255
}

/// The alpha that results from drawing alpha `src` over alpha `dst`:
/// `src + dst * (1 - src)`, the product rounded to the nearest integer.
pub open spec fn mix_alpha(src: int, dst: int) -> int {
    src + (dst * (255 - src) + 127) / 255
}

/// Blended channels stay within a byte.
pub proof fn lemma_mix_channel_bounds(src: int, dst: int, alpha: int)
    requires
        0 <= src <= 255,
        0 <= dst <= 255,
        0 <= alpha <= 255,
    ensures
        0 <= src * alpha + dst * (255 - alpha) <= 255 * 255,
        0 <= mix_channel(src, dst, alpha) <= 255,
{
    assert(0 <= src * alpha <= 255 * alpha) by (nonlinear_arith)
        requires
            0 <= src <= 255,
            0 <= alpha,
    ;
    assert(0 <= dst * (255 - alpha) <= 255 * (255 - alpha)) by (nonlinear_arith)
        requires
            0 <= dst <= 255,
            0 <= 255 - alpha,
    ;
}

/// Blended alpha stays within a byte.
pub proof fn lemma_mix_alpha_bounds(src: int, dst: int)
    requires
        0 <= src <= 255,
        0 <= dst <= 255,
    ensures
        0 <= dst * (255 - src) <= 255 * (255 - src),
        0 <= mix_alpha(src, dst) <= 255,
{
    assert(0 <= dst * (255 - src) <= 255 * (255 - src)) by (nonlinear_arith)
        requires
            0 <= dst <= 255,
            0 <= 255 - src,
    ;
}

impl Pixel {
    /// The fully transparent pixel that a fresh canvas is filled with.
    pub open spec fn clear() -> Pixel {
        Pixel { r: 0, g: 0, b: 0, a: 0 }
    }

    /// The channel with number `k`: red, green, blue and alpha are 0 to 3.
    pub open spec fn channel(self, k: int) -> u8 {
        if k == 0 {
            self.r
        } else if k == 1 {
            self.g
        } else if k == 2 {
            self.b
        } else {
            self.a
        }
    }

    /// `self` drawn over `dst` by source-over blending.
    pub open spec fn over(self, dst: Pixel) -> Pixel {
        Pixel {
            r: mix_channel(self.r as int, dst.r as int, self.a as int) as u8,
            g: mix_channel(self.g as int, dst.g as int, self.a as int) as u8,
            b: mix_channel(self.b as int, dst.b as int, self.a as int) as u8,
            a: mix_alpha(self.a as int, dst.a as int) as u8,
        }
    }

    /// Builds a pixel from its four channels.
    pub fn new(r: u8, g: u8, b: u8, a: u8) -> (p: Pixel)
        ensures
            p == (Pixel { r, g, b, a }),
    {
        Pixel { r, g, b, a }
    }

    /// The fully transparent pixel.
    pub fn transparent() -> (p: Pixel)
        ensures
            p == Pixel::clear(),
    {
        Pixel { r: 0, g: 0, b: 0, a: 0 }
    }

    /// Draws `self` over `dst`.
    pub fn blend_over(self, dst: Pixel) -> (out: Pixel)
        ensures
            out == self.over(dst),
            out.r as int == mix_channel(self.r as int, dst.r as int, self.a as int),
            out.g as int == mix_channel(self.g as int, dst.g as int, self.a as int),
            out.b as int == mix_channel(self.b as int, dst.b as int, self.a as int),
            out.a as int == mix_alpha(self.a as int, dst.a as int),
    {
        Pixel {
            r: blend_channel(self.r, dst.r, self.a),
            g: blend_channel(self.g, dst.g, self.a),
            b: blend_channel(self.b, dst.b, self.a),
            a: blend_alpha(self.a, dst.a),
        }
    }
}

fn blend_channel(src: u8, dst: u8, alpha: u8) -> (out: u8)
    ensures
        out as int == mix_channel(src as int, dst as int, alpha as int),
{
    proof {
        lemma_mix_channel_bounds(src as int, dst as int, alpha as int);
    }
    let weighted: u32 = src as u32 * alpha as u32 + dst as u32 * (255 - alpha as u32);
    ((weighted + 127) / 255) as u8
}

fn blend_alpha(src: u8, dst: u8) -> (out: u8)
    ensures
        out as int == mix_alpha(src as int, dst as int),
{
    proof {
        lemma_mix_alpha_bounds(src as int, dst as int);
    }
    let rest: u32 = (dst as u32 * (255 - src as u32) + 127) / 255;
    (src as u32 + rest) as u8
}

/// An opaque source hides what lies beneath it.
pub proof fn lemma_opaque_over(src: Pixel, dst: Pixel)
    requires
        src.a == 255,
    ensures
        src.over(dst) == src,
{
}

/// A fully transparent source leaves what lies beneath it unchanged.
pub proof fn lemma_clear_over(src: Pixel, dst: Pixel)
    requires
        src.a == 0,
    ensures
        src.over(dst) == dst,
{
}

/// Over a transparent backdrop an opaque pixel keeps its colour, and every
/// pixel keeps its alpha.
pub proof fn lemma_over_clear(src: Pixel)
    ensures
        src.over(Pixel::clear()).a == src.a,
        src.a == 255 ==> src.over(Pixel::clear()) == src,
{
}

} // verus!
