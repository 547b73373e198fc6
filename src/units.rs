use vstd::prelude::*;

verus! {

/// Prices, sizes, margins, fee rates and indicator readings are fixed-point
/// integers: one unit is `SCALE` steps (six decimal places).
pub const SCALE: i64 = 1_000_000;

/// A product of two bounded non-negative numbers stays within the product of the bounds.
pub proof fn lemma_product_within(a: int, amax: int, b: int, bmax: int)
    requires
        0 <= a <= amax,
        0 <= b <= bmax,
    ensures
        0 <= a * b <= amax * bmax,
{
    vstd::arithmetic::mul::lemma_mul_upper_bound(a, amax, b, bmax);
    vstd::arithmetic::mul::lemma_mul_nonnegative(a, b);
}

} // verus!
