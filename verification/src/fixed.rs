//! Fixed-point scalars and the integer square root they are measured with.

use vstd::prelude::*;

use vstd::arithmetic::div_mod::lemma_div_is_ordered;
use vstd::arithmetic::div_mod::lemma_div_multiples_vanish;
use vstd::arithmetic::div_mod::lemma_div_pos_is_pos;

verus! {

/// The fixed-point unit: an `i64` scalar counts thousandths, so `FX_ONE`
/// stands for 1.0.
pub const FX_ONE: i64 = 1000;

/// Largest magnitude a stored coordinate, velocity component or shape extent
/// may have. Generous for any on-screen scene, and small enough that the
/// squared distances and scaled products of one simulation tick fit in `i64`.
pub const COORD_LIMIT: i64 = 200_000_000;

/// Quotient of `n` and `d` rounded toward zero (the rounding of Rust's `/`),
/// meaningful for positive `d`.
pub open spec fn trunc_div(n: int, d: int) -> int {
    if n >= 0 {
        n / d
    } else {
        -((-n) / d)
    }
}

/// Product of two fixed-point scalars, rescaled back to thousandths.
pub open spec fn spec_fx_mul(a: int, b: int) -> int {
    trunc_div(a * b, FX_ONE as int)
}

/// Quotient of `n` and a positive `d`, rounded toward zero.
pub fn div_trunc(n: i64, d: i64) -> (r: i64)
    requires
        d >= 1,
    ensures
        r == trunc_div(n as int, d as int),
{
    proof {
        lemma_trunc_div_shrinks(n as int, d as int);
    }
    match n.checked_div(d) {
        Some(q) => q,
        None => {
            proof {
                assert(false);
            }
            0
        },
    }
}

/// Multiplies two fixed-point scalars: `3.000 * 0.500` gives `1.500`.
pub fn fx_mul(a: i64, b: i64) -> (r: i64)
    requires
        i64::MIN <= a * b <= i64::MAX,
    ensures
        r == spec_fx_mul(a as int, b as int),
{
    let p: i64 = a * b;
    div_trunc(p, FX_ONE)
}

/// Rounding toward zero never grows a magnitude: the quotient of `n` by a
/// positive `d` stays between `-|n|` and `|n|`.
pub proof fn lemma_trunc_div_shrinks(n: int, d: int)
    requires
        d >= 1,
    ensures
        n >= 0 ==> 0 <= trunc_div(n, d) <= n,
        n < 0 ==> n <= trunc_div(n, d) <= 0,
{
    if n >= 0 {
        assert(0 <= n / d <= n) by (nonlinear_arith)
            requires
                n >= 0 && d >= 1,
        ;
    } else {
        assert(0 <= (-n) / d <= -n) by (nonlinear_arith)
            requires
                n < 0 && d >= 1,
        ;
    }
}

/// Scaling by a fixed-point factor of at most 1.0 never grows a magnitude:
/// whatever bound held for `a` still holds for `a` times `f`.
pub proof fn lemma_fx_mul_small(a: int, f: int, bound: int)
    requires
        -bound <= a <= bound,
        0 <= f <= FX_ONE,
        0 <= bound,
    ensures
        -bound <= spec_fx_mul(a, f) <= bound,
{
    let d = FX_ONE as int;
    let n = a * f;
    assert(-(bound * d) <= n <= bound * d) by (nonlinear_arith)
        requires
            -bound <= a <= bound && 0 <= f <= d && 0 <= bound && n == a * f && d == 1000,
    ;
    lemma_div_multiples_vanish(bound, d);
    assert((d * bound) / d == bound);
    assert(d * bound == bound * d) by (nonlinear_arith);
    if n >= 0 {
        lemma_div_is_ordered(n, bound * d, d);
        lemma_div_pos_is_pos(n, d);
    } else {
        lemma_div_is_ordered(-n, bound * d, d);
        lemma_div_pos_is_pos(-n, d);
    }
}

/// Floor of the square root, written as a recursive specification.
pub open spec fn sqrt_floor(n: nat) -> nat
    decreases n,
{
    if n == 0 {
        0
    } else {
        let p = sqrt_floor((n - 1) as nat);
        if (p + 1) * (p + 1) <= n {
            p + 1
        } else {
            p
        }
    }
}

/// `sqrt_floor(n)` is squeezed between the two neighbouring squares.
pub proof fn lemma_sqrt_floor_bounds(n: nat)
    ensures
        sqrt_floor(n) * sqrt_floor(n) <= n,
        n < (sqrt_floor(n) + 1) * (sqrt_floor(n) + 1),
    decreases n,
{
    if n > 0 {
        lemma_sqrt_floor_bounds((n - 1) as nat);
        let p = sqrt_floor((n - 1) as nat);
        if (p + 1) * (p + 1) <= n {
            assert(sqrt_floor(n) == p + 1);
            assert(n - 1 < (p + 1) * (p + 1));
            assert((p + 1) * (p + 1) < (p + 2) * (p + 2)) by (nonlinear_arith);
            assert(n < (p + 2) * (p + 2));
            assert(sqrt_floor(n) + 1 == p + 2);
            assert((sqrt_floor(n) + 1) * (sqrt_floor(n) + 1) == (p + 2) * (p + 2));
            assert(n < (sqrt_floor(n) + 1) * (sqrt_floor(n) + 1));
        } else {
            assert(sqrt_floor(n) == p);
            assert(p * p <= n - 1);
            assert(n < (sqrt_floor(n) + 1) * (sqrt_floor(n) + 1));
        }
    } else {
        assert(sqrt_floor(n) == 0);
        assert((sqrt_floor(n) + 1) * (sqrt_floor(n) + 1) == 1) by (nonlinear_arith)
            requires
                sqrt_floor(n) == 0,
        ;
    }
}

/// Any `r` squeezed between the same squares equals `sqrt_floor(n)`.
pub proof fn lemma_sqrt_floor_unique(n: nat, r: nat)
    requires
        r * r <= n,
        n < (r + 1) * (r + 1),
    ensures
        r == sqrt_floor(n),
{
    lemma_sqrt_floor_bounds(n);
    let s = sqrt_floor(n);
    if r < s {
        assert((r + 1) * (r + 1) <= s * s) by (nonlinear_arith)
            requires
                r + 1 <= s,
        ;
    }
    if s < r {
        assert((s + 1) * (s + 1) <= r * r) by (nonlinear_arith)
            requires
                s + 1 <= r,
        ;
    }
}

/// Floor of the square root of `n`, by binary search.
pub fn isqrt(n: u64) -> (r: u64)
    ensures
        r == sqrt_floor(n as nat),
        r <= 0xFFFF_FFFF,
{
    let mut lo: u64 = 0;
    let mut hi: u64 = 0xFFFF_FFFF;
    if n < 0xFFFF_FFFF {
        hi = n;
        proof {
            assert(n < (n + 1) * (n + 1)) by (nonlinear_arith);
        }
    }
    while lo < hi
        invariant
            lo <= hi <= 0xFFFF_FFFF,
            lo * lo <= n,
            n < (hi + 1) * (hi + 1),
        decreases hi - lo,
    {
        let mid = lo + (hi - lo + 1) / 2;
        proof {
            assert(mid * mid <= 0xFFFF_FFFF * 0xFFFF_FFFF) by (nonlinear_arith)
                requires
                    0 <= mid <= 0xFFFF_FFFF,
            ;
        }
        if mid * mid <= n {
            lo = mid;
        } else {
            hi = mid - 1;
        }
    }
    proof {
        lemma_sqrt_floor_unique(n as nat, lo as nat);
    }
    lo
}

} // verus!
