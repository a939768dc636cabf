use vstd::prelude::*;
use vstd::std_specs::bits::u64_leading_zeros;

verus! {

/// Number of squares on the board.
pub const SQUARES: u8 = 64;

/// The single-bit mask of square `index`: square 0 (top-left) is bit 63,
/// square 63 (bottom-right) is bit 0.
pub open spec fn square_mask(index: int) -> u64 {
    1u64 << ((63 - index) as u64)
}

/// Whether square `index` is set in `bits`.
pub open spec fn has_square(bits: u64, index: int) -> bool {
    bits & square_mask(index) != 0
}

/// A square of the board, numbered 0 to 63 in row-major order from the top-left.
#[derive(PartialEq, Eq, Structural, Clone, Copy, Debug)]
pub struct Coordinate {
    position: u8,
}

impl Coordinate {
    #[verifier::type_invariant]
    spec fn inv(self) -> bool {
        self.position < 64
    }

    /// The square's index.
    pub closed spec fn index(self) -> int {
        self.position as int
    }

    /// The square with the given index, which must be on the board.
    pub(crate) fn new(position: u8) -> (r: Coordinate)
        requires
            position < 64,
        ensures
            r.index() == position,
    {
        Coordinate { position }
    }

    /// The square with the given index, or `InvalidCoordinate` if it is off the board.
    pub fn from(position: u8) -> (r: Result<Coordinate, crate::GameError>)
        ensures
            position < 64 ==> (r matches Ok(c) && c.index() == position),
            position >= 64 ==> r == Err::<Coordinate, crate::GameError>(crate::GameError::InvalidCoordinate),
    {
        if position < SQUARES {
            Ok(Coordinate { position })
        } else {
            Err(crate::GameError::InvalidCoordinate)
        }
    }

    /// The square with the given index, or `InvalidCoordinate` if it is off the
    /// board; the same as `from`.
    pub fn from_position(position: u8) -> (r: Result<Coordinate, crate::GameError>)
        ensures
            position < 64 ==> (r matches Ok(c) && c.index() == position),
            position >= 64 ==> r == Err::<Coordinate, crate::GameError>(crate::GameError::InvalidCoordinate),
    {
        Coordinate::from(position)
    }

    /// The square's index.
    pub fn to_int(&self) -> (r: u8)
        ensures
            r == self.index(),
            0 <= self.index() < 64,
    {
        proof {
            use_type_invariant(self);
        }
        self.position
    }

    /// The square's single-bit mask.
    pub fn to_mask(&self) -> (r: u64)
        ensures
            r == square_mask(self.index()),
            0 <= self.index() < 64,
    {
        proof {
            use_type_invariant(self);
        }
        1u64 << (63 - self.position)
    }

    /// The square whose mask is the highest set bit of `bit`; for a single-bit
    /// mask this is the inverse of `to_mask`.
    pub fn from_bit(bit: u64) -> (r: Coordinate)
        requires
            bit != 0,
        ensures
            r.index() == u64_leading_zeros(bit),
            forall|i: int| 0 <= i < 64 && bit == square_mask(i) ==> r.index() == i,
    {
        let zeros = bit.leading_zeros();
        proof {
            lemma_leading_zeros_bound(bit);
        }
        let position = zeros as u8;
        let r = Coordinate { position };
        proof {
            assert forall|i: int| 0 <= i < 64 && bit == square_mask(i) implies r.index() == i by {
                lemma_leading_zeros_of_mask(i);
            }
        }
        r
    }

    /// The following square, wrapping from the last square back to the first.
    pub fn next(&self) -> (r: Coordinate)
        ensures
            r.index() == (self.index() + 1) % 64,
    {
        proof {
            use_type_invariant(self);
        }
        if self.position + 1 >= SQUARES {
            Coordinate { position: 0 }
        } else {
            Coordinate { position: self.position + 1 }
        }
    }
}

proof fn lemma_leading_zeros_bound(bit: u64)
    requires
        bit != 0,
    ensures
        0 <= u64_leading_zeros(bit) < 64,
{
    vstd::std_specs::bits::axiom_u64_leading_zeros(bit);
}

proof fn lemma_leading_zeros_of_mask(i: int)
    requires
        0 <= i < 64,
    ensures
        u64_leading_zeros(square_mask(i)) == i,
{
    lemma_leading_zeros_of_power((63 - i) as u64);
}

proof fn lemma_leading_zeros_of_power(k: u64)
    requires
        k < 64,
    ensures
        u64_leading_zeros(1u64 << k) == 63 - k,
    decreases k,
{
    let x = 1u64 << k;
    let j = if k > 0 { (k - 1) as u64 } else { 0 };
    assert(x != 0 && (k > 0 ==> x / 2 == 1u64 << j) && (k == 0 ==> x / 2 == 0)) by (bit_vector)
        requires
            x == 1u64 << k,
            k < 64,
            k > 0 ==> j + 1 == k,
    ;
    reveal(u64_leading_zeros);
    if k > 0 {
        lemma_leading_zeros_of_power(j);
    }
    assert(u64_leading_zeros(0) == 64);
}

} // verus!
