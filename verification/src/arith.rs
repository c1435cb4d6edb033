//! Integer arithmetic that the geometry rests on: division that rounds toward
//! zero, and square roots.
use vstd::prelude::*;

verus! {

/// The quotient of `a` by a positive `b`, rounded toward zero.
pub open spec fn div_toward_zero(a: int, b: int) -> int
    recommends
        b > 0,
{
    if a >= 0 {
        a / b
    } else {
        -((-a) / b)
    }
}

/// `r` is the square root of `n`, rounded down.
pub open spec fn is_floor_sqrt(n: int, r: int) -> bool {
    0 <= r && r * r <= n && n < (r + 1) * (r + 1)
}

/// The square root of `n`, rounded down.
pub open spec fn floor_sqrt(n: int) -> int {
    choose|r: int| is_floor_sqrt(n, r)
}

/// A number has at most one rounded-down square root.
pub proof fn lemma_floor_sqrt_unique(n: int, r1: int, r2: int)
    requires
        is_floor_sqrt(n, r1),
        is_floor_sqrt(n, r2),
    ensures
        r1 == r2,
{
    if r1 < r2 {
        assert((r1 + 1) * (r1 + 1) <= r2 * r2) by (nonlinear_arith)
            requires
                0 <= r1 + 1 <= r2,
        ;
    } else if r2 < r1 {
        assert((r2 + 1) * (r2 + 1) <= r1 * r1) by (nonlinear_arith)
            requires
                0 <= r2 + 1 <= r1,
        ;
    }
}

/// Every number that is not negative has a rounded-down square root.
pub proof fn lemma_floor_sqrt_exists(n: int)
    requires
        0 <= n,
    ensures
        is_floor_sqrt(n, floor_sqrt(n)),
    decreases n,
{
    if n == 0 {
        assert(is_floor_sqrt(0, 0));
    } else {
        lemma_floor_sqrt_exists(n - 1);
        let r = floor_sqrt(n - 1);
        if n < (r + 1) * (r + 1) {
            assert(is_floor_sqrt(n, r));
        } else {
            assert((r + 1) * (r + 1) < (r + 2) * (r + 2)) by (nonlinear_arith)
                requires
                    0 <= r,
            ;
            assert(is_floor_sqrt(n, r + 1));
        }
    }
}

/// The rounded-down square root does not fall as the number grows.
pub proof fn lemma_floor_sqrt_monotone(a: int, b: int)
    requires
        0 <= a <= b,
    ensures
        floor_sqrt(a) <= floor_sqrt(b),
{
    lemma_floor_sqrt_exists(a);
    lemma_floor_sqrt_exists(b);
    let ra = floor_sqrt(a);
    let rb = floor_sqrt(b);
    if ra > rb {
        assert((rb + 1) * (rb + 1) <= ra * ra) by (nonlinear_arith)
            requires
                0 <= rb + 1 <= ra,
        ;
    }
}

/// Scaling by `k` out of `n` equal steps never overshoots: `k` steps of the
/// rounded quotient stay between zero and `d`.
pub proof fn lemma_steps_within(d: int, n: int, k: int)
    requires
        n > 0,
        0 <= k <= n,
    ensures
        d >= 0 ==> 0 <= k * div_toward_zero(d, n) <= d,
        d <= 0 ==> d <= k * div_toward_zero(d, n) <= 0,
{
    let q = div_toward_zero(d, n);
    if d >= 0 {
        assert(0 <= q && n * q <= d) by (nonlinear_arith)
            requires
                q == d / n,
                d >= 0,
                n > 0,
        ;
        assert(0 <= k * q <= n * q) by (nonlinear_arith)
            requires
                0 <= k <= n,
                0 <= q,
        ;
    } else {
        let p = (-d) / n;
        assert(0 <= p && n * p <= -d) by (nonlinear_arith)
            requires
                p == (-d) / n,
                -d >= 0,
                n > 0,
        ;
        assert(0 <= k * p <= n * p) by (nonlinear_arith)
            requires
                0 <= k <= n,
                0 <= p,
        ;
        assert(k * q == -(k * p)) by (nonlinear_arith)
            requires
                q == -p,
        ;
    }
}

/// A quotient rounded toward zero, multiplied back, misses the dividend by
/// less than the divisor.
pub proof fn lemma_quotient_error(d: int, n: int)
    requires
        n > 0,
    ensures
        -n < d - n * div_toward_zero(d, n) < n,
{
    let q = div_toward_zero(d, n);
    if d >= 0 {
        assert(0 <= d - n * q < n) by (nonlinear_arith)
            requires
                q == d / n,
                n > 0,
        ;
    } else {
        let p = (-d) / n;
        assert(0 <= -d - n * p < n) by (nonlinear_arith)
            requires
                p == (-d) / n,
                n > 0,
        ;
        assert(n * q == -(n * p)) by (nonlinear_arith)
            requires
                q == -p,
        ;
    }
}

/// The square root of `n`, rounded down.
pub fn isqrt(n: u128) -> (r: u64)
    ensures
        is_floor_sqrt(n as int, r as int),
        r == floor_sqrt(n as int),
{
    let mut lo: u128 = 0;
    let mut hi: u128 = 0x1_0000_0000_0000_0000;
    assert(n < hi * hi) by (nonlinear_arith)
        requires
            hi == 0x1_0000_0000_0000_0000,
            n <= u128::MAX,
    ;
    while hi - lo > 1
        invariant
            lo < hi <= 0x1_0000_0000_0000_0000,
            lo * lo <= n,
            n < hi * hi,
        decreases hi - lo,
    {
        let mid: u128 = lo + (hi - lo) / 2;
        assert(mid * mid <= u128::MAX) by (nonlinear_arith)
            requires
                0 <= mid <= 0xffff_ffff_ffff_ffff,
        ;
        if mid * mid <= n {
            lo = mid;
        } else {
            hi = mid;
        }
    }
    proof {
        assert(hi == lo + 1);
        assert(is_floor_sqrt(n as int, lo as int));
        lemma_floor_sqrt_unique(n as int, lo as int, floor_sqrt(n as int));
    }
    lo as u64
}

} // verus!
