use vstd::prelude::*;
use crate::coordinate::{has_square, square_mask};

verus! {

/// Bit `b` of `x`, as 0 or 1.
pub open spec fn bit(x: u64, b: int) -> int {
    ((x >> (b as u64)) & 1u64) as int
}

/// The number of set bits of `x` among its lowest `n` bits.
pub open spec fn count_below(x: u64, n: int) -> int
    decreases n,
{
    if n <= 0 {
        0
    } else {
        count_below(x, n - 1) + bit(x, n - 1)
    }
}

/// The number of set bits of `x`.
pub open spec fn popcount(x: u64) -> int {
    count_below(x, 64)
}

/// Counts the set bits of `x`.
pub fn count_bits(x: u64) -> (r: u32)
    ensures
        r == popcount(x),
        r <= 64,
{
    let mut count: u32 = 0;
    let mut b: u64 = 0;
    while b < 64
        invariant
            b <= 64,
            count == count_below(x, b as int),
            count <= b,
        decreases 64 - b,
    {
        let one = (x >> b) & 1u64;
        assert(one <= 1) by (bit_vector)
            requires
                one == (x >> b) & 1u64,
        ;
        count = count + one as u32;
        b = b + 1;
    }
    count
}

/// `&` is commutative.
pub proof fn lemma_and_commutes(a: u64, c: u64)
    by (bit_vector)
    ensures
        a & c == c & a,
{
}

proof fn lemma_bit_of_disjoint_union(a: u64, c: u64, k: u64)
    by (bit_vector)
    requires
        a & c == 0,
    ensures
        ((a | c) >> k) & 1u64 == ((a >> k) & 1u64) + ((c >> k) & 1u64),
{
}

proof fn lemma_count_below_union(a: u64, c: u64, n: int)
    requires
        a & c == 0,
        0 <= n <= 64,
    ensures
        count_below(a | c, n) == count_below(a, n) + count_below(c, n),
    decreases n,
{
    if n > 0 {
        lemma_count_below_union(a, c, n - 1);
        lemma_bit_of_disjoint_union(a, c, (n - 1) as u64);
    }
}

/// The count of a union of disjoint sets is the sum of their counts.
pub proof fn lemma_popcount_union(a: u64, c: u64)
    requires
        a & c == 0,
    ensures
        popcount(a | c) == popcount(a) + popcount(c),
{
    lemma_count_below_union(a, c, 64);
}

/// Removing a subset `f` of `a` lowers the count by the count of `f`.
pub proof fn lemma_popcount_remove(a: u64, f: u64)
    requires
        f & !a == 0,
    ensures
        popcount(a ^ f) == popcount(a) - popcount(f),
{
    assert((a ^ f) & f == 0 && (a ^ f) | f == a) by (bit_vector)
        requires
            f & !a == 0,
    ;
    lemma_popcount_union(a ^ f, f);
}

proof fn lemma_count_below_single(k: u64, n: int)
    requires
        k < 64,
        0 <= n <= 64,
    ensures
        count_below(1u64 << k, n) == if n > k { 1int } else { 0int },
    decreases n,
{
    if n > 0 {
        lemma_count_below_single(k, n - 1);
        let b = (n - 1) as u64;
        assert(((1u64 << k) >> b) & 1u64 == if b == k { 1u64 } else { 0u64 }) by (bit_vector)
            requires
                k < 64,
                b < 64,
        ;
    }
}

/// A square's mask has exactly one set bit.
pub proof fn lemma_popcount_square(i: int)
    requires
        0 <= i < 64,
    ensures
        popcount(square_mask(i)) == 1,
{
    lemma_count_below_single((63 - i) as u64, 64);
}

proof fn lemma_shifted_bits(x: u64, k: u64)
    by (bit_vector)
    requires
        k < 64,
    ensures
        (x >> k) & 1u64 == 1u64 ==> x & (1u64 << k) != 0,
        k == 63 && x >> k != 0 ==> (x >> k) & 1u64 == 1u64,
        k < 63 && x >> k != 0 && (x >> k) & 1u64 != 1u64 ==> x >> ((k + 1) as u64) != 0,
        x >> 0u64 == x,
        0u64 & (1u64 << k) == 0,
{
}

proof fn lemma_nonzero_has_square(x: u64, k: u64)
    requires
        k < 64,
        x >> k != 0,
    ensures
        exists|i: int| 0 <= i < 64 && #[trigger] has_square(x, i),
    decreases 63 - k,
{
    lemma_shifted_bits(x, k);
    if (x >> k) & 1u64 == 1u64 {
        assert(has_square(x, 63 - k));
    } else {
        lemma_nonzero_has_square(x, (k + 1) as u64);
    }
}

/// A set of squares is empty exactly when none of the 64 squares is in it.
pub proof fn lemma_zero_iff_no_square(x: u64)
    ensures
        x == 0 <==> forall|i: int| 0 <= i < 64 ==> !#[trigger] has_square(x, i),
{
    if x == 0 {
        assert forall|i: int| 0 <= i < 64 implies !#[trigger] has_square(x, i) by {
            lemma_shifted_bits(x, (63 - i) as u64);
        }
    } else {
        lemma_shifted_bits(x, 0);
        lemma_nonzero_has_square(x, 0);
    }
}

proof fn lemma_count_below_at_least(x: u64, n: int, b: int)
    requires
        0 <= b < n <= 64,
    ensures
        count_below(x, n) >= bit(x, b),
        count_below(x, n) >= 0,
    decreases n,
{
    if n - 1 > b {
        lemma_count_below_at_least(x, n - 1, b);
    } else {
        lemma_count_below_nonnegative(x, n - 1);
    }
}

proof fn lemma_count_below_nonnegative(x: u64, n: int)
    ensures
        count_below(x, n) >= 0,
    decreases n,
{
    if n > 0 {
        lemma_count_below_nonnegative(x, n - 1);
    }
}

proof fn lemma_square_bit(x: u64, k: u64)
    by (bit_vector)
    requires
        k < 64,
        x & (1u64 << k) != 0,
    ensures
        (x >> k) & 1u64 == 1u64,
{
}

/// A non-empty set has at least one member.
pub proof fn lemma_popcount_positive(x: u64)
    requires
        x != 0,
    ensures
        popcount(x) >= 1,
{
    lemma_zero_iff_no_square(x);
    let i = choose|i: int| 0 <= i < 64 && #[trigger] has_square(x, i);
    let k = (63 - i) as u64;
    lemma_square_bit(x, k);
    lemma_count_below_at_least(x, 64, k as int);
}

} // verus!
