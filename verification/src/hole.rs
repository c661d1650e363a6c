//! Holes in the garden, by logical position; the origin is the top left.

use vstd::prelude::*;

verus! {

/// A hole on the game board and whether a mole sits in it.
#[derive(Debug)]
pub struct Hole {
    pub pos_x: i64,
    pub pos_y: i64,
    pub occupied: bool,
}

impl Hole {
    /// A free hole at logical position `(x, y)`.
    pub fn new(x: i64, y: i64) -> (hole: Self)
        ensures
            hole.pos_x == x,
            hole.pos_y == y,
            !hole.occupied,
    {
        Self { pos_x: x, pos_y: y, occupied: false }
    }
}

} // verus!
