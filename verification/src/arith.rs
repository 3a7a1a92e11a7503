//! Integer arithmetic that the fixed-point vector operations rest on:
//! truncating and ceiling quotients and integer square roots.

use vstd::prelude::*;

verus! {

/// Quotient of `a` by a positive `b`, rounded toward zero.
pub open spec fn div_trunc(a: int, b: int) -> int
    recommends
        b > 0,
{
    if a >= 0 {
        a / b
    } else {
        -((-a) / b)
    }
}

/// Quotient of a non-negative `a` by a positive `b`, rounded up.
pub open spec fn div_ceil(a: int, b: int) -> int
    recommends
        a >= 0,
        b > 0,
{
    (a + b - 1) / b
}

/// A quotient rounded toward zero is no larger in magnitude than `limit`
/// where the dividend is no larger than `limit * b`.
pub proof fn lemma_div_trunc_bound(a: int, b: int, limit: int)
    by (nonlinear_arith)
    requires
        b > 0,
        limit >= 0,
        -(limit * b) <= a <= limit * b,
    ensures
        -limit <= div_trunc(a, b) <= limit,
        a == 0 ==> div_trunc(a, b) == 0,
{
}

/// A product is no larger in magnitude than the product of the bounds of
/// its factors.
pub proof fn lemma_product_bound(a: int, b: int, la: int, lb: int)
    by (nonlinear_arith)
    requires
        -la <= a <= la,
        -lb <= b <= lb,
    ensures
        -(la * lb) <= a * b <= la * lb,
        a == 0 ==> a * b == 0,
{
}

/// `r` is the integer square root of `n`, rounded down.
pub open spec fn is_sqrt_floor(n: int, r: int) -> bool {
    0 <= r && r * r <= n < (r + 1) * (r + 1)
}

/// The largest integer whose square does not exceed `n`.
pub open spec fn sqrt_floor(n: int) -> int
    recommends
        n >= 0,
{
    choose|r: int| is_sqrt_floor(n, r)
}

/// The smallest non-negative integer whose square is at least `n`.
pub open spec fn sqrt_ceil(n: int) -> int
    recommends
        n >= 0,
{
    let r = sqrt_floor(n);
    if r * r == n {
        r
    } else {
        r + 1
    }
}

/// Squaring is monotone on the non-negative integers.
pub proof fn lemma_square_le(a: int, b: int)
    by (nonlinear_arith)
    requires
        0 <= a <= b,
    ensures
        a * a <= b * b,
{
}

/// A square below another square has the smaller root.
pub proof fn lemma_square_lt_root(a: int, b: int)
    by (nonlinear_arith)
    requires
        0 <= a,
        0 <= b,
        a * a < b * b,
    ensures
        a < b,
{
}

/// At most one integer is the rounded-down square root of `n`.
pub proof fn lemma_sqrt_floor_unique(n: int, r1: int, r2: int)
    requires
        is_sqrt_floor(n, r1),
        is_sqrt_floor(n, r2),
    ensures
        r1 == r2,
{
    if r1 < r2 {
        lemma_square_le(r1 + 1, r2);
    } else if r2 < r1 {
        lemma_square_le(r2 + 1, r1);
    }
}

/// Every non-negative integer has a rounded-down square root.
pub proof fn lemma_sqrt_floor_exists(n: int)
    requires
        n >= 0,
    ensures
        is_sqrt_floor(n, sqrt_floor(n)),
    decreases n,
{
    if n == 0 {
        assert(is_sqrt_floor(0, 0));
    } else {
        lemma_sqrt_floor_exists(n - 1);
        let r = sqrt_floor(n - 1);
        if (r + 1) * (r + 1) <= n {
            assert((r + 2) * (r + 2) > n) by (nonlinear_arith)
                requires
                    0 <= r,
                    r * r <= n - 1,
                    n - 1 < (r + 1) * (r + 1),
            ;
            assert(is_sqrt_floor(n, r + 1));
        } else {
            assert(is_sqrt_floor(n, r));
        }
    }
}

/// Whatever passes the test of `is_sqrt_floor` is the rounded-down root.
pub proof fn lemma_sqrt_floor_is(n: int, r: int)
    requires
        is_sqrt_floor(n, r),
    ensures
        sqrt_floor(n) == r,
{
    lemma_sqrt_floor_exists(n);
    lemma_sqrt_floor_unique(n, r, sqrt_floor(n));
}

/// The rounded-up root: non-negative, its square reaches `n`, and the square
/// of its predecessor does not.
pub proof fn lemma_sqrt_ceil_bounds(n: int)
    requires
        n >= 0,
    ensures
        0 <= sqrt_ceil(n),
        n <= sqrt_ceil(n) * sqrt_ceil(n),
        sqrt_ceil(n) > 0 ==> (sqrt_ceil(n) - 1) * (sqrt_ceil(n) - 1) < n,
        n > 0 ==> sqrt_ceil(n) > 0,
{
    lemma_sqrt_floor_exists(n);
    let r = sqrt_floor(n);
    assert(r == 0 ==> r * r == 0);
    if r * r != n {
        assert(n <= (r + 1) * (r + 1));
    } else if r > 0 {
        assert((r - 1) * (r - 1) < r * r) by (nonlinear_arith)
            requires
                r > 0,
        ;
    }
}

/// The integer square root of `n`, rounded down.
pub fn isqrt(n: u128) -> (r: u64)
    ensures
        r == sqrt_floor(n as int),
        is_sqrt_floor(n as int, r as int),
{
    let mut lo: u128 = 0;
    let mut hi: u128 = 0x1_0000_0000_0000_0000;
    assert(0x1_0000_0000_0000_0000int * 0x1_0000_0000_0000_0000int > u128::MAX)
        by (nonlinear_arith);
    while hi - lo > 1
        invariant
            lo < hi <= 0x1_0000_0000_0000_0000,
            lo * lo <= n < hi * hi,
        decreases hi - lo,
    {
        let mid: u128 = lo + (hi - lo) / 2;
        assert(mid * mid <= u128::MAX) by (nonlinear_arith)
            requires
                0 <= mid <= 0xffff_ffff_ffff_ffff,
        ;
        if mid * mid <= n {
            lo = mid;
        } else {
            hi = mid;
        }
    }
    proof {
        lemma_sqrt_floor_is(n as int, lo as int);
    }
    lo as u64
}

/// The integer square root of `n`, rounded up.
pub fn isqrt_ceil(n: u128) -> (r: u128)
    ensures
        r == sqrt_ceil(n as int),
        r <= 0x1_0000_0000_0000_0000,
{
    let floor: u64 = isqrt(n);
    let r: u128 = floor as u128;
    assert(r * r <= u128::MAX) by (nonlinear_arith)
        requires
            0 <= r <= 0xffff_ffff_ffff_ffff,
    ;
    if r * r == n {
        r
    } else {
        r + 1
    }
}

} // verus!
