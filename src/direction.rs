use vstd::prelude::*;

verus! {

/// Squares off the top and bottom rows: a vertical ray may only pass through these.
pub const VERTICAL: u64 = 0x00ff_ffff_ffff_ff00;

/// Squares off the left and right files: a horizontal ray may only pass through these.
pub const HORIZONTAL: u64 = 0x7e7e_7e7e_7e7e_7e7e;

/// Squares off every edge: a diagonal ray may only pass through these.
pub const DIAGONAL: u64 = 0x007e_7e7e_7e7e_7e00;

/// The eight compass directions a line of discs can run in.
#[derive(PartialEq, Eq, Structural, Clone, Copy, Debug)]
pub enum Direction {
    Up,
    Down,
    Left,
    Right,
    UpLeft,
    UpRight,
    DownLeft,
    DownRight,
}

impl Direction {
    /// The squares a ray in this direction may pass through without wrapping
    /// around an edge of the board.
    pub open spec fn mask_spec(self) -> u64 {
        match self {
            Direction::Up | Direction::Down => VERTICAL,
            Direction::Left | Direction::Right => HORIZONTAL,
            _ => DIAGONAL,
        }
    }

    /// Every square of `bits` moved one step in this direction; squares that
    /// leave the 64-bit word are dropped. Square 0 sits on bit 63, so a step up
    /// (index - 8) is a shift left by 8 and a step left (index - 1) a shift left by 1.
    pub open spec fn shift_spec(self, bits: u64) -> u64 {
        match self {
            Direction::Up => bits << 8u64,
            Direction::Down => bits >> 8u64,
            Direction::Left => bits << 1u64,
            Direction::Right => bits >> 1u64,
            Direction::UpLeft => bits << 9u64,
            Direction::UpRight => bits << 7u64,
            Direction::DownLeft => bits >> 7u64,
            Direction::DownRight => bits >> 9u64,
        }
    }

    /// The edge mask of this direction.
    pub fn to_mask(&self) -> (r: u64)
        ensures
            r == self.mask_spec(),
    {
        match self {
            Direction::Up => VERTICAL,
            Direction::Down => VERTICAL,
            Direction::Left => HORIZONTAL,
            Direction::Right => HORIZONTAL,
            Direction::UpLeft => DIAGONAL,
            Direction::UpRight => DIAGONAL,
            Direction::DownLeft => DIAGONAL,
            Direction::DownRight => DIAGONAL,
        }
    }

    /// Moves every square of `bits` one step in this direction.
    pub fn to_shift(&self, bits: u64) -> (r: u64)
        ensures
            r == self.shift_spec(bits),
    {
        match self {
            Direction::Up => bits << 8u64,
            Direction::Down => bits >> 8u64,
            Direction::Left => bits << 1u64,
            Direction::Right => bits >> 1u64,
            Direction::UpLeft => bits << 9u64,
            Direction::UpRight => bits << 7u64,
            Direction::DownLeft => bits >> 7u64,
            Direction::DownRight => bits >> 9u64,
        }
    }
}

} // verus!
