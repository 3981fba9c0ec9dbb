use vstd::prelude::*;

verus! {

/// One cell of the grid. A position is valid for a board when both
/// coordinates lie below the board's size.
#[derive(Debug, PartialEq, Eq, Structural, Clone, Copy, Hash)]
pub struct Position {
    pub x: u8,
    pub y: u8,
}

/// Immutable grid geometry: an N-by-N board, fixed at game start.
/// Physical/display scale is the renderer's business and not held here.
#[derive(Debug, PartialEq, Eq, Structural, Clone, Copy)]
pub struct Board {
    pub size: u8,
}

impl Board {
    /// Whether `p` lies on this board.
    pub open spec fn spec_in_bounds(self, p: Position) -> bool {
        p.x < self.size && p.y < self.size
    }

    /// The number of cells of the board.
    pub open spec fn spec_cell_count(self) -> int {
        self.size * self.size
    }

    pub fn new(size: u8) -> (b: Board)
        ensures
            b.size == size,
    {
        Board { size }
    }

    pub fn in_bounds(&self, p: Position) -> (r: bool)
        ensures
            r == self.spec_in_bounds(p),
    {
        p.x < self.size && p.y < self.size
    }
}

} // verus!
