//! Fixed-point scalars: an `i64` holds a real quantity scaled by `FP_ONE`
//! (one million), so `1_000_000` stands for 1.0. Products are divided back
//! by the scale with truncation toward zero, matching Rust's signed integer
//! division.

use vstd::prelude::*;

verus! {

/// The fixed-point unit: the `i64` representation of 1.0.
pub const FP_ONE: i64 = 1_000_000;

/// Division that truncates toward zero, the semantics of Rust's `/` on
/// signed integers, stated over mathematical integers.
pub open spec fn div_trunc(x: int, d: int) -> int
    recommends
        d > 0,
{
    if x >= 0 {
        x / d
    } else {
        -((-x) / d)
    }
}

/// The fixed-point product: the wide product scaled back down by `FP_ONE`,
/// truncating toward zero.
pub open spec fn fp_mul(a: int, b: int) -> int {
    div_trunc(a * b, FP_ONE as int)
}

/// Multiplies two fixed-point scalars. The wide product must fit in `i64`;
/// callers discharge that from their own magnitude bounds.
pub fn fp_mul_exec(a: i64, b: i64) -> (r: i64)
    requires
        i64::MIN <= a as int * b as int <= i64::MAX,
    ensures
        r == fp_mul(a as int, b as int),
{
    let p: i64 = a * b;
    let q = p.checked_div(FP_ONE);
    proof {
        assert(q is Some && q->0 == div_trunc(p as int, FP_ONE as int));
    }
    q.unwrap()
}

/// Truncating division never grows the magnitude of the numerator.
pub proof fn lemma_div_trunc_bound(x: int, d: int, m: int)
    requires
        d > 0,
        -m <= x <= m,
        0 <= m,
    ensures
        -m <= div_trunc(x, d) <= m,
        x >= 0 ==> 0 <= div_trunc(x, d) <= x,
        x <= 0 ==> x <= div_trunc(x, d) <= 0,
{
    if x >= 0 {
        assert(0 <= x / d <= x) by (nonlinear_arith)
            requires
                d > 0,
                x >= 0,
        ;
    } else {
        assert(0 <= (-x) / d <= -x) by (nonlinear_arith)
            requires
                d > 0,
                -x > 0,
        ;
    }
}

/// A magnitude bound on the fixed-point product: factors bounded by `ma` and
/// `mb` give a product bounded by `ma * mb / FP_ONE`.
pub proof fn lemma_fp_mul_bound(a: int, b: int, ma: int, mb: int)
    requires
        -ma <= a <= ma,
        -mb <= b <= mb,
        0 <= ma,
        0 <= mb,
    ensures
        -(ma * mb) <= fp_mul(a, b) <= ma * mb,
        -div_trunc(ma * mb, FP_ONE as int) <= fp_mul(a, b) <= div_trunc(ma * mb, FP_ONE as int),
{
    assert(-(ma * mb) <= a * b <= ma * mb) by (nonlinear_arith)
        requires
            -ma <= a <= ma,
            -mb <= b <= mb,
            0 <= ma,
            0 <= mb,
    ;
    lemma_div_trunc_bound(a * b, FP_ONE as int, ma * mb);
    assert(ma * mb >= 0) by (nonlinear_arith)
        requires
            0 <= ma,
            0 <= mb,
    ;
    if a * b >= 0 {
        assert((a * b) / (FP_ONE as int) <= (ma * mb) / (FP_ONE as int)) by (nonlinear_arith)
            requires
                0 <= a * b <= ma * mb,
        ;
    } else {
        assert((-(a * b)) / (FP_ONE as int) <= (ma * mb) / (FP_ONE as int)) by (nonlinear_arith)
            requires
                0 <= -(a * b) <= ma * mb,
        ;
    }
}

/// Multiplying by the fixed-point unit is exact.
pub proof fn lemma_fp_mul_one(a: int)
    ensures
        fp_mul(a, FP_ONE as int) == a,
        fp_mul(FP_ONE as int, a) == a,
        fp_mul(a, 0) == 0,
        fp_mul(0, a) == 0,
{
    assert(a * FP_ONE as int == FP_ONE as int * a) by (nonlinear_arith);
    if a >= 0 {
        assert((a * FP_ONE as int) / (FP_ONE as int) == a) by (nonlinear_arith)
            requires
                a >= 0,
        ;
    } else {
        assert(((-(a * FP_ONE as int))) / (FP_ONE as int) == -a) by (nonlinear_arith)
            requires
                a < 0,
        ;
    }
    assert(a * 0 == 0) by (nonlinear_arith);
    assert(0 * a == 0) by (nonlinear_arith);
}

/// `r` is the integer square root of `n` rounded down.
pub open spec fn is_sqrt_floor(n: int, r: int) -> bool {
    &&& 0 <= r
    &&& r * r <= n
    &&& n < (r + 1) * (r + 1)
}

/// The integer square root of `n` rounded down, as a function.
pub open spec fn sqrt_floor(n: int) -> int {
    choose|r: int| is_sqrt_floor(n, r)
}

/// Every nonnegative integer has a floor square root.
pub proof fn lemma_sqrt_floor_exists(n: int)
    requires
        0 <= n,
    ensures
        is_sqrt_floor(n, sqrt_floor(n)),
    decreases n,
{
    if n == 0 {
        assert(is_sqrt_floor(0, 0)) by (nonlinear_arith);
    } else {
        lemma_sqrt_floor_exists(n - 1);
        let r = sqrt_floor(n - 1);
        if (r + 1) * (r + 1) <= n {
            assert(is_sqrt_floor(n, r + 1)) by (nonlinear_arith)
                requires
                    is_sqrt_floor(n - 1, r),
                    (r + 1) * (r + 1) <= n,
            ;
        } else {
            assert(is_sqrt_floor(n, r));
        }
    }
    let w = choose|w: int| is_sqrt_floor(n, w);
    assert(is_sqrt_floor(n, w));
}

/// The floor square root is unique.
pub proof fn lemma_sqrt_floor_unique(n: int, r: int)
    requires
        is_sqrt_floor(n, r),
    ensures
        r == sqrt_floor(n),
{
    lemma_sqrt_floor_exists(n);
    let w = sqrt_floor(n);
    assert(r == w) by (nonlinear_arith)
        requires
            is_sqrt_floor(n, r),
            is_sqrt_floor(n, w),
    ;
}

/// Computes the integer square root of `n`, rounded down, by bisection.
pub fn isqrt64(n: u64) -> (r: u64)
    ensures
        r == sqrt_floor(n as int),
        is_sqrt_floor(n as int, r as int),
{
    let mut lo: u64 = 0;
    let mut hi: u64 = 4_294_967_296;
    proof {
        assert((hi as int) * (hi as int) > n as int) by (nonlinear_arith)
            requires
                hi == 4_294_967_296,
                n <= u64::MAX,
        ;
    }
    while hi - lo > 1
        invariant
            lo < hi <= 4_294_967_296,
            (lo as int) * (lo as int) <= n as int,
            (hi as int) * (hi as int) > n as int,
        decreases hi - lo,
    {
        let mid = lo + (hi - lo) / 2;
        proof {
            assert((mid as int) * (mid as int) <= u64::MAX as int) by (nonlinear_arith)
                requires
                    mid < 4_294_967_296,
            ;
        }
        if mid * mid <= n {
            lo = mid;
        } else {
            hi = mid;
        }
    }
    proof {
        assert(is_sqrt_floor(n as int, lo as int));
        lemma_sqrt_floor_unique(n as int, lo as int);
    }
    lo
}

/// Clamps a scalar into `[lo, hi]`.
pub fn clamp_fp(x: i64, lo: i64, hi: i64) -> (r: i64)
    requires
        lo <= hi,
    ensures
        r == clamp_spec(x as int, lo as int, hi as int),
        lo <= r <= hi,
{
    if x < lo {
        lo
    } else if x > hi {
        hi
    } else {
        x
    }
}

/// The nearest point of `[lo, hi]` to `x`.
pub open spec fn clamp_spec(x: int, lo: int, hi: int) -> int {
    if x < lo {
        lo
    } else if x > hi {
        hi
    } else {
        x
    }
}

} // verus!
