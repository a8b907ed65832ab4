//! The ways in which a render can fail.

use vstd::prelude::*;

verus! {

/// Why a render produced no image. Every failure ends the render: nothing is
/// retried, and no partial or substitute image is handed back.
#[derive(Clone, Copy, Debug, PartialEq, Eq, Structural)]
pub enum RenderError {
    /// The skin is neither 32 nor 64 rows high.
    UnsupportedFormat,
    /// The input bytes are not a valid image.
    DecodeError,
    /// A rectangle reaches beyond the bitmap it is cut from.
    RegionOutOfBounds,
    /// The scale factor is zero.
    InvalidScale,
}

} // verus!
