//! The remote-control commands.

use vstd::prelude::*;

verus! {

/// The pattern an `Animate` command selects.
#[derive(Clone, Copy, Debug, PartialEq, Eq, Structural)]
pub enum Animation {
    /// No pattern: the grid is left to explicit pixel writes.
    Off,
    Snow,
    Sparkle,
    Rainbow,
}

/// One unit of remote-control input. Every field is an unsigned byte.
#[derive(Clone, Copy, Debug, PartialEq, Eq, Structural)]
pub enum Command {
    /// Fill the whole grid with the colour `(r, g, b)`.
    Clear(u8, u8, u8),
    /// Hand the grid to the LED hardware.
    Flush,
    /// Switch to a pattern.
    Animate(Animation),
    /// Set the pixel `(x, y)` to the colour `(r, g, b)`.
    SetPixel(u8, u8, u8, u8, u8),
}

} // verus!
