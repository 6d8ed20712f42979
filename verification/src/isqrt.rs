//! Integer square roots, rounded up.

use vstd::prelude::*;

verus! {

/// Whether `r` is the least natural number whose square is at least `n`.
pub open spec fn is_ceil_sqrt(n: int, r: int) -> bool {
    &&& r >= 0
    &&& r * r >= n
    &&& (r == 0 || (r - 1) * (r - 1) < n)
}

/// No two numbers are both the rounded-up square root of `n`.
pub proof fn lemma_ceil_sqrt_unique(n: int, r1: int, r2: int)
    requires
        is_ceil_sqrt(n, r1),
        is_ceil_sqrt(n, r2),
    ensures
        r1 == r2,
{
    if r1 < r2 {
        assert(r1 * r1 <= (r2 - 1) * (r2 - 1)) by (nonlinear_arith)
            requires
                0 <= r1 <= r2 - 1,
        ;
    } else if r2 < r1 {
        assert(r2 * r2 <= (r1 - 1) * (r1 - 1)) by (nonlinear_arith)
            requires
                0 <= r2 <= r1 - 1,
        ;
    }
}

/// The square root of `n`, rounded up to the next integer.
pub open spec fn ceil_sqrt_of(n: int) -> int {
    choose|r: int| is_ceil_sqrt(n, r)
}

/// Every natural number has a rounded-up square root, and `ceil_sqrt_of` names it.
pub proof fn lemma_ceil_sqrt_exists(n: int)
    requires
        n >= 0,
    ensures
        is_ceil_sqrt(n, ceil_sqrt_of(n)),
    decreases n,
{
    if n == 0 {
        assert(is_ceil_sqrt(0, 0));
    } else {
        lemma_ceil_sqrt_exists(n - 1);
        let r = ceil_sqrt_of(n - 1);
        if r * r >= n {
            assert(is_ceil_sqrt(n, r));
        } else {
            assert((r + 1) * (r + 1) == r * r + 2 * r + 1) by (nonlinear_arith);
            assert(is_ceil_sqrt(n, r + 1));
        }
    }
}

/// A number that is the rounded-up square root of `n` is what
/// `ceil_sqrt_of` names.
pub proof fn lemma_ceil_sqrt_is(n: int, r: int)
    requires
        is_ceil_sqrt(n, r),
    ensures
        ceil_sqrt_of(n) == r,
{
    lemma_ceil_sqrt_unique(n, r, ceil_sqrt_of(n));
}

/// The rounded-up square root is at least as long as any number whose
/// square is at most `n`.
pub(crate) proof fn lemma_ceil_sqrt_dominates(n: int, a: int)
    requires
        n >= 0,
        a * a <= n,
    ensures
        a <= ceil_sqrt_of(n),
        -a <= ceil_sqrt_of(n),
{
    lemma_ceil_sqrt_exists(n);
    let r = ceil_sqrt_of(n);
    if a > r {
        assert(false) by (nonlinear_arith)
            requires
                a >= r + 1,
                r >= 0,
                a * a <= n,
                r * r >= n,
        ;
    }
    if -a > r {
        assert(false) by (nonlinear_arith)
            requires
                -a >= r + 1,
                r >= 0,
                a * a <= n,
                r * r >= n,
        ;
    }
}

/// The square root of `n`, rounded up to the next integer.
pub fn ceil_sqrt(n: u128) -> (r: u128)
    ensures
        r == ceil_sqrt_of(n as int),
        is_ceil_sqrt(n as int, r as int),
        r <= 0x1_0000_0000_0000_0000,
{
    if n == 0 {
        proof {
            lemma_ceil_sqrt_is(0, 0);
        }
        return 0;
    }
    let mut lo: u128 = 0;
    let mut hi: u128 = 0x1_0000_0000_0000_0000;
    assert(hi * hi > n) by (nonlinear_arith)
        requires
            hi == 0x1_0000_0000_0000_0000,
            n <= 0xffff_ffff_ffff_ffff_ffff_ffff_ffff_ffff,
    ;
    assert(lo * lo < n) by (nonlinear_arith)
        requires
            lo == 0,
            n > 0,
    ;
    while hi - lo > 1
        invariant
            lo < hi <= 0x1_0000_0000_0000_0000,
            lo * lo < n,
            hi * hi >= n,
        decreases hi - lo,
    {
        let mid: u128 = lo + (hi - lo) / 2;
        assert(mid * mid <= 0xffff_ffff_ffff_ffff * 0xffff_ffff_ffff_ffff) by (nonlinear_arith)
            requires
                0 <= mid <= 0xffff_ffff_ffff_ffff,
        ;
        let square: u128 = mid * mid;
        if square >= n {
            hi = mid;
        } else {
            lo = mid;
        }
    }
    proof {
        lemma_ceil_sqrt_is(n as int, hi as int);
    }
    hi
}

} // verus!
