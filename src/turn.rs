use vstd::prelude::*;

verus! {

/// The two players; Black moves first.
#[derive(PartialEq, Eq, Structural, Clone, Copy, Debug)]
pub enum Turn {
    Black,
    White,
}

impl Turn {
    /// The other player.
    pub open spec fn opposite_spec(self) -> Turn {
        match self {
            Turn::Black => Turn::White,
            Turn::White => Turn::Black,
        }
    }

    pub fn opposite(&self) -> (r: Turn)
        ensures
            r == self.opposite_spec(),
            r != *self,
    {
        match self {
            Turn::Black => Turn::White,
            Turn::White => Turn::Black,
        }
    }
}

} // verus!
