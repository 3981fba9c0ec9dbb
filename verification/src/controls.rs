use vstd::prelude::*;

verus! {

/// The last pressed direction, as the input source reports it: a single
/// current value, overwritten on every key press (last-value-wins, no queue).
#[derive(Debug, PartialEq, Eq, Structural, Clone, Copy)]
pub enum Direction {
    Up,
    Down,
    Left,
    Right,
}

impl Default for Direction {
    /// The direction a fresh game starts with.
    fn default() -> (d: Direction)
        ensures
            d == Direction::Right,
    {
        Direction::Right
    }
}

} // verus!
