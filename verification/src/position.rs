//! Logical coordinates inside a text buffer.

use vstd::prelude::*;

verus! {

/// The direction in which a search walks through the buffer.
#[derive(Clone, Copy, PartialEq, Eq, Structural, Debug)]
pub enum SearchDirection {
    Forward,
    Backward,
}

/// A place in the buffer: `x` is the column, counted in characters, and `y`
/// is the row, both starting at zero.
#[derive(Clone, Copy, PartialEq, Eq, Structural, Debug)]
pub struct Position {
    pub x: usize,
    pub y: usize,
}

impl Default for Position {
    fn default() -> (origin: Self)
        ensures
            origin == (Position { x: 0, y: 0 }),
    {
        Position { x: 0, y: 0 }
    }
}

} // verus!
