use vstd::prelude::*;
use std::collections::VecDeque;

use crate::board::Position;

verus! {

/// The two-segment layout every new game starts from: the head one cell
/// right of the tail, both on row four.
pub open spec fn default_snake_layout() -> Seq<Position> {
    seq![Position { x: 4, y: 4 }, Position { x: 3, y: 4 }]
}

/// The snake's body: the occupied cells in order, head first, tail last.
///
/// This component is a pure sequence; all game-rule checks (collision,
/// growth) live in the tick engine.
#[derive(Debug)]
pub struct Snake {
    pub segments: VecDeque<Position>,
}

impl Snake {
    /// The cell the head occupies.
    pub fn head(&self) -> (p: Position)
        requires
            self.segments@.len() > 0,
        ensures
            p == self.segments@[0],
    {
        self.segments[0]
    }

    /// Membership test over the whole body, the tail included.
    pub fn occupies(&self, p: Position) -> (r: bool)
        ensures
            r == self.segments@.contains(p),
    {
        let n = self.segments.len();
        for i in 0..n
            invariant
                n == self.segments@.len(),
                forall|j: int| 0 <= j < i ==> self.segments@[j] != p,
        {
            if self.segments[i] == p {
                return true;
            }
        }
        false
    }

    /// Prepend a new head. The caller must already have checked that the
    /// cell is not occupied; head-move validity is the tick engine's job.
    pub fn push_front(&mut self, p: Position)
        ensures
            final(self).segments@ == seq![p] + old(self).segments@,
    {
        self.segments.push_front(p);
    }

    /// Remove and return the tail. The engine never calls this on a body
    /// shorter than two segments.
    pub fn pop_back(&mut self) -> (p: Position)
        requires
            old(self).segments@.len() >= 2,
        ensures
            p == old(self).segments@.last(),
            final(self).segments@ == old(self).segments@.drop_last(),
    {
        let popped = self.segments.pop_back();
        match popped {
            Some(p) => p,
            None => unreached(),
        }
    }
}

impl Default for Snake {
    /// A fresh snake in the fixed starting layout.
    fn default() -> (s: Snake)
        ensures
            s.segments@ == default_snake_layout(),
    {
        let mut segments: VecDeque<Position> = VecDeque::new();
        segments.push_back(Position { x: 4, y: 4 });
        segments.push_back(Position { x: 3, y: 4 });
        proof {
            assert(segments@ =~= default_snake_layout());
        }
        Snake { segments }
    }
}

} // verus!
