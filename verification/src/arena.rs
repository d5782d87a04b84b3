//! The static playing field: its dimensions and the thickness of the border
//! that the snake is kept inside.

use vstd::prelude::*;

verus! {

/// The arena the snake lives in, in fixed-point units (see `geom::UNIT`).
/// Immutable after construction.
#[derive(Clone, Copy, PartialEq, Eq, Structural, Debug)]
pub struct Arena {
    pub width: i64,
    pub height: i64,
    pub border_width: i64,
}

impl Arena {
    pub fn new(width: i64, height: i64, border_width: i64) -> (r: Arena)
        ensures
            r.width == width,
            r.height == height,
            r.border_width == border_width,
    {
        Arena { width, height, border_width }
    }
}

} // verus!

