//! Choosing the splash line to show.
//!
//! One of the stored lines is drawn at random, or, with the same chance as
//! any one of them, the address of the visitor is shown in their place.

use vstd::prelude::*;

verus! {

/// What to show as the splash line.
#[derive(Clone, Copy, Debug, PartialEq, Eq, Structural)]
pub enum Splash {
    /// The stored line with this index.
    Line(usize),
    /// The address of the visitor.
    Address,
}

/// The splash for a draw among `count` stored lines: the draw that is one
/// past the last line stands for the address.
pub open spec fn splash_for(count: nat, draw: nat) -> Splash {
    if draw == count {
        Splash::Address
    } else {
        Splash::Line(draw as usize)
    }
}

/// Calls `rand::random_range` on the range from zero up to and excluding
/// `bound`. The generator panics on an empty range, which the precondition
/// rules out. The number depends on chance; all that is claimed of it is
/// that it lies in the range.
#[verifier::external_body]
fn random_below(bound: usize) -> (draw: usize)
    requires
        bound > 0,
    ensures
        draw < bound,
{
    rand::random_range(0..bound)
}

/// The splash that a draw stands for.
pub fn splash_of_draw(count: usize, draw: usize) -> (splash: Splash)
    requires
        draw <= count,
    ensures
        splash == splash_for(count as nat, draw as nat),
        splash matches Splash::Line(i) ==> i < count,
{
    if draw == count {
        Splash::Address
    } else {
        Splash::Line(draw)
    }
}

/// Draws a splash among `count` stored lines. Whatever the draw is, a line
/// that is chosen exists.
pub fn draw_splash(count: usize) -> (splash: Splash)
    requires
        count < usize::MAX,
    ensures
        splash matches Splash::Line(i) ==> i < count,
        exists|draw: nat| draw <= count && splash == splash_for(count as nat, draw),
{
    let draw = random_below(count + 1);
    splash_of_draw(count, draw)
}

} // verus!
