use vstd::prelude::*;

verus! {

/// A cell of the board, given by zero-based row and column.
#[derive(Clone, Copy, PartialEq, Eq, Debug, Structural)]
pub struct Move {
    pub x: usize,
    pub y: usize,
}

impl Move {
    pub fn new(x: usize, y: usize) -> (r: Move)
        ensures
            r == (Move { x, y }),
    {
        Move { x, y }
    }
}

} // verus!
