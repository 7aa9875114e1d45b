//! The sides of a screen, and what sits against them.

use vstd::prelude::*;

verus! {

/// A side of the screen: which edge something sits against.
#[derive(Clone, Copy, Debug, PartialEq, Eq, Structural)]
pub enum Side {
    Left,
    Right,
}

impl Side {
    /// The other side.
    pub open spec fn other(self) -> Side {
        match self {
            Side::Left => Side::Right,
            Side::Right => Side::Left,
        }
    }

    /// The other side.
    pub fn opposite(self) -> (r: Side)
        ensures
            r == self.other(),
            r != self,
    {
        match self {
            Side::Left => Side::Right,
            Side::Right => Side::Left,
        }
    }
}

/// The opposite of the opposite side is the side itself.
pub proof fn lemma_opposite_twice(side: Side)
    ensures
        side.other().other() == side,
        side.other() != side,
{
}

} // verus!
