use vstd::prelude::*;
use crate::bits::bit;

verus! {

/// The positional weights, indexed by bit: corners are worth most, the squares
/// next to a corner least.
pub open spec fn weights() -> Seq<int> {
    seq![
        100int, -40, 20, 5, 5, 20, -40, 100,
        -40, -80, -1, -1, -1, -1, -80, -40,
        20, -1, 5, 1, 1, 5, -1, -20,
        5, -1, 1, 0, 0, 1, -1, 5,
        5, -1, 1, 0, 0, 1, -1, 5,
        20, -1, 5, 1, 1, 5, -1, -20,
        -40, -80, -1, -1, -1, -1, -80, -40,
        100, -40, 20, 5, 5, 20, -40, 100,
    ]
}

/// The weight of bit `b`.
pub open spec fn weight(b: int) -> int {
    weights()[b]
}

/// The summed weight of the set bits among the lowest `n` bits of `x`.
pub open spec fn score_below(x: u64, n: int) -> int
    decreases n,
{
    if n <= 0 {
        0
    } else {
        score_below(x, n - 1) + if bit(x, n - 1) == 1 { weight(n - 1) } else { 0 }
    }
}

/// The positional score of the discs `x`: the summed weight of its set bits.
pub open spec fn score(x: u64) -> int {
    score_below(x, 64)
}

/// The summed weight of the set bits among the lowest `n` bits of `byte`,
/// taken as row `row` of the board (bits `8 * row` to `8 * row + 7`).
pub open spec fn row_score_below(row: int, byte: u64, n: int) -> int
    decreases n,
{
    if n <= 0 {
        0
    } else {
        row_score_below(row, byte, n - 1) + if bit(byte, n - 1) == 1 {
            weight(8 * row + n - 1)
        } else {
            0
        }
    }
}

/// The summed weight of `byte` as row `row`.
pub open spec fn row_score(row: int, byte: u64) -> int {
    row_score_below(row, byte, 8)
}

/// The row scores of every row and every byte, computed once and then looked up.
pub struct WeightTable {
    memo: Vec<i16>,
}

impl WeightTable {
    #[verifier::type_invariant]
    spec fn inv(self) -> bool {
        &&& self.memo@.len() == 2048
        &&& forall|row: int, byte: u64|
            0 <= row < 8 && byte < 256 ==> self.memo@[256 * row + byte] == #[trigger] row_score(
                row,
                byte,
            )
    }

    /// The stored score of `byte` as row `row`.
    pub closed spec fn entry(self, row: int, byte: u64) -> int {
        self.memo@[256 * row + byte] as int
    }

    /// The score of `byte` as row `row`.
    pub fn lookup(&self, row: usize, byte: u64) -> (r: i16)
        requires
            row < 8,
            byte < 256,
        ensures
            r == row_score(row as int, byte),
    {
        proof {
            use_type_invariant(self);
            assert(self.memo@[256 * row + byte] == row_score(row as int, byte));
        }
        self.memo[row * 256 + byte as usize]
    }
}

/// Builds the table of row scores.
pub fn pre_compute_weight() -> (r: WeightTable)
    ensures
        forall|row: int, byte: u64|
            0 <= row < 8 && byte < 256 ==> #[trigger] r.entry(row, byte) == row_score(row, byte),
{
    let w: [i16; 64] = [
        100, -40, 20, 5, 5, 20, -40, 100,
        -40, -80, -1, -1, -1, -1, -80, -40,
        20, -1, 5, 1, 1, 5, -1, -20,
        5, -1, 1, 0, 0, 1, -1, 5,
        5, -1, 1, 0, 0, 1, -1, 5,
        20, -1, 5, 1, 1, 5, -1, -20,
        -40, -80, -1, -1, -1, -1, -80, -40,
        100, -40, 20, 5, 5, 20, -40, 100,
    ];
    assert(forall|k: int| 0 <= k < 64 ==> w@[k] as int == weight(k));
    proof {
        lemma_weight_bounds();
    }
    let mut memo: Vec<i16> = Vec::new();
    let mut row: usize = 0;
    while row < 8
        invariant
            row <= 8,
            memo@.len() == 256 * row,
            forall|k: int| 0 <= k < 64 ==> w@[k] as int == weight(k),
            forall|r: int, byte: u64|
                0 <= r < row && byte < 256 ==> memo@[256 * r + byte] == #[trigger] row_score(r, byte),
        decreases 8 - row,
    {
        let mut byte: u64 = 0;
        while byte < 256
            invariant
                row < 8,
                byte <= 256,
                memo@.len() == 256 * row + byte,
                forall|k: int| 0 <= k < 64 ==> w@[k] as int == weight(k),
                forall|r: int, b: u64|
                    0 <= r < row && b < 256 ==> memo@[256 * r + b] == #[trigger] row_score(r, b),
                forall|b: u64| b < byte ==> memo@[256 * row + b] == #[trigger] row_score(row as int, b),
            decreases 256 - byte,
        {
            let mut sum: i16 = 0;
            let mut i: usize = 0;
            while i < 8
                invariant
                    row < 8,
                    i <= 8,
                    forall|k: int| 0 <= k < 64 ==> w@[k] as int == weight(k),
                    sum == row_score_below(row as int, byte, i as int),
                    -80 * i <= sum <= 100 * i,
                decreases 8 - i,
            {
                proof {
                    lemma_weight_bounds();
                    let k = (row * 8 + i) as int;
                    assert(w@[k] as int == weight(k));
                    assert(-80 <= weight(k) <= 100);
                }
                if (byte >> i as u64) & 1u64 == 1u64 {
                    sum = sum + w[row * 8 + i];
                }
                i = i + 1;
            }
            let ghost before = memo@;
            memo.push(sum);
            proof {
                assert forall|r: int, b: u64|
                    0 <= r < row && b < 256 implies memo@[256 * r + b] == #[trigger] row_score(r, b) by {
                    assert(memo@[256 * r + b] == before[256 * r + b]);
                }
                assert forall|b: u64| b < byte + 1 implies memo@[256 * row + b] == #[trigger] row_score(
                    row as int,
                    b,
                ) by {
                    if b < byte {
                        assert(memo@[256 * row + b] == before[256 * row + b]);
                    }
                }
            }
            byte = byte + 1;
        }
        row = row + 1;
    }
    let r = WeightTable { memo };
    assert forall|row: int, byte: u64| 0 <= row < 8 && byte < 256 implies #[trigger] r.entry(
        row,
        byte,
    ) == row_score(row, byte) by {
        assert(r.memo@[256 * row + byte] == row_score(row, byte));
    }
    r
}

proof fn lemma_weight_bounds()
    ensures
        weights().len() == 64,
        forall|b: int| 0 <= b < 64 ==> -80 <= #[trigger] weight(b) <= 100,
{
}

/// The score of `n` bits lies within `n` times the least and the greatest weight.
pub proof fn lemma_score_below_bounds(x: u64, n: int)
    requires
        0 <= n <= 64,
    ensures
        -80 * n <= score_below(x, n) <= 100 * n,
    decreases n,
{
    lemma_weight_bounds();
    if n > 0 {
        lemma_score_below_bounds(x, n - 1);
    }
}

proof fn lemma_byte_bit(x: u64, s: u64, j: u64)
    by (bit_vector)
    requires
        j < 8,
        s <= 56,
    ensures
        (((x >> s) & 0xffu64) >> j) & 1u64 == (x >> (s + j)) & 1u64,
{
}

proof fn lemma_row_split_below(x: u64, row: int, n: int)
    requires
        0 <= row < 8,
        0 <= n <= 8,
    ensures
        score_below(x, 8 * row + n) == score_below(x, 8 * row) + row_score_below(
            row,
            (x >> ((8 * row) as u64)) & 0xffu64,
            n,
        ),
    decreases n,
{
    if n > 0 {
        lemma_row_split_below(x, row, n - 1);
        lemma_byte_bit(x, (8 * row) as u64, (n - 1) as u64);
    }
}

/// The score of the lowest `8 * (row + 1)` bits adds row `row`'s score to that
/// of the rows below it.
pub proof fn lemma_row_split(x: u64, row: int)
    requires
        0 <= row < 8,
    ensures
        score_below(x, 8 * row + 8) == score_below(x, 8 * row) + row_score(
            row,
            (x >> ((8 * row) as u64)) & 0xffu64,
        ),
{
    lemma_row_split_below(x, row, 8);
}

} // verus!
