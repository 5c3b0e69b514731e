//! Mixed-radix arithmetic shared by the flat buffer layouts.
use vstd::prelude::*;

verus! {

/// A mixed-radix digit pair `hi * base + lo` with `lo < base` determines
/// both digits.
pub proof fn lemma_radix_digits_unique(hi1: int, lo1: int, hi2: int, lo2: int, base: int)
    requires
        0 <= lo1 < base,
        0 <= lo2 < base,
        hi1 * base + lo1 == hi2 * base + lo2,
    ensures
        hi1 == hi2,
        lo1 == lo2,
{
    if hi1 < hi2 {
        assert(hi1 * base + lo1 < hi2 * base + lo2) by (nonlinear_arith)
            requires hi1 < hi2, 0 <= lo1 < base, 0 <= lo2;
    } else if hi2 < hi1 {
        assert(hi2 * base + lo2 < hi1 * base + lo1) by (nonlinear_arith)
            requires hi2 < hi1, 0 <= lo2 < base, 0 <= lo1;
    }
}

/// A digit pair with `hi < top` and `lo < base` stays below `top * base`.
pub proof fn lemma_radix_bound(hi: int, lo: int, top: int, base: int)
    requires
        0 <= hi < top,
        0 <= lo < base,
    ensures
        0 <= hi * base + lo < top * base,
{
    assert(0 <= hi * base + lo < top * base) by (nonlinear_arith)
        requires 0 <= hi < top, 0 <= lo < base;
}

} // verus!
