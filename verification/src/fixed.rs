//! Fixed-point scalar arithmetic.
//!
//! A scalar carries `FX_SCALE` steps per unit, stored in an `i64`. Every
//! operation clips its result to `[-FX_MAX, FX_MAX]`, so each executable
//! function is total and its contract states the exact value it returns.

use vstd::prelude::*;

verus! {

/// Number of fixed-point steps per unit.
pub const FX_SCALE: i64 = 1048576;

/// Largest representable scalar magnitude.
pub const FX_MAX: i64 = 70368744177664;

/// Smallest accepted hit distance: one fixed-point step above zero.
pub const FX_EPS: i64 = 1;

/// Largest coordinate magnitude the intersection routines accept: 512 units.
/// Keeping scene geometry inside this cube lets every determinant and
/// discriminant below be computed exactly in an `i128`.
pub const GEOM_MAX: i64 = 536870912;

/// Magnitude of a value produced by clipping.
pub open spec fn fx_clip(x: int) -> int {
    if x > FX_MAX {
        FX_MAX as int
    } else if x < -FX_MAX {
        -FX_MAX as int
    } else {
        x
    }
}

pub open spec fn abs1(x: int) -> int {
    if x >= 0 {
        x
    } else {
        -x
    }
}

/// Division rounding toward zero; zero divisors yield zero.
pub open spec fn div_trunc(n: int, d: int) -> int {
    if d == 0 {
        0
    } else if (n < 0) == (d < 0) {
        abs1(n) / abs1(d)
    } else {
        -(abs1(n) / abs1(d))
    }
}

pub open spec fn fx_add_spec(a: int, b: int) -> int {
    fx_clip(a + b)
}

pub open spec fn fx_sub_spec(a: int, b: int) -> int {
    fx_clip(a - b)
}

pub open spec fn fx_mul_spec(a: int, b: int) -> int {
    fx_clip(div_trunc(a * b, FX_SCALE as int))
}

pub open spec fn fx_div_spec(a: int, b: int) -> int {
    fx_clip(div_trunc(a * FX_SCALE, b))
}

pub open spec fn fx_min_spec(a: int, b: int) -> int {
    if a <= b {
        a
    } else {
        b
    }
}

pub open spec fn fx_max_spec(a: int, b: int) -> int {
    if a >= b {
        a
    } else {
        b
    }
}

/// Integer square root, the unique `r` with `r * r <= n < (r + 1) * (r + 1)`.
pub open spec fn isqrt_spec(n: nat) -> nat
    decreases n,
{
    if n == 0 {
        0
    } else if (isqrt_spec((n - 1) as nat) + 1) * (isqrt_spec((n - 1) as nat) + 1) <= n {
        isqrt_spec((n - 1) as nat) + 1
    } else {
        isqrt_spec((n - 1) as nat)
    }
}

/// Square root of a non-negative scalar: `sqrt(x / S)` is `isqrt(x * S) / S`.
pub open spec fn fx_sqrt_spec(x: int) -> int {
    if x < 0 {
        0
    } else {
        isqrt_spec((x * FX_SCALE) as nat) as int
    }
}

/// `isqrt_spec` meets its defining inequalities.
pub proof fn lemma_isqrt_bounds(n: nat)
    ensures
        isqrt_spec(n) * isqrt_spec(n) <= n,
        n < (isqrt_spec(n) + 1) * (isqrt_spec(n) + 1),
    decreases n,
{
    if n == 0 {
        assert(isqrt_spec(0) == 0);
        assert(0 < (0 + 1) * (0 + 1)) by (nonlinear_arith);
    } else {
        lemma_isqrt_bounds((n - 1) as nat);
        let p = isqrt_spec((n - 1) as nat);
        let s = isqrt_spec(n);
        if (p + 1) * (p + 1) <= n {
            assert(s == p + 1);
            assert(s * s <= n);
            assert(n < (s + 1) * (s + 1)) by (nonlinear_arith)
                requires
                    s == p + 1,
                    n - 1 < (p + 1) * (p + 1),
                    p >= 0,
            ;
        } else {
            assert(s == p);
            assert(s * s <= n - 1);
            assert(n < (s + 1) * (s + 1));
        }
    }
}

/// Any integer meeting the square-root inequalities is `isqrt_spec`.
pub proof fn lemma_isqrt_unique(n: nat, r: nat)
    requires
        r * r <= n,
        n < (r + 1) * (r + 1),
    ensures
        r == isqrt_spec(n),
{
    lemma_isqrt_bounds(n);
    let s = isqrt_spec(n);
    assert(r == s) by (nonlinear_arith)
        requires
            r * r <= n,
            n < (r + 1) * (r + 1),
            s * s <= n,
            n < (s + 1) * (s + 1),
            r >= 0,
            s >= 0,
    ;
}

/// Bound a product by the bounds of its factors.
pub proof fn lemma_mul_bound(a: int, b: int, m: int, n: int)
    by (nonlinear_arith)
    requires
        -m <= a <= m,
        -n <= b <= n,
    ensures
        -(m * n) <= a * b <= m * n,
{
}

/// The product of two 64-bit values stays well inside `i128`.
pub proof fn lemma_i64_product_fits(a: int, b: int)
    by (nonlinear_arith)
    requires
        -0x8000000000000000 <= a <= 0x7fffffffffffffff,
        -0x8000000000000000 <= b <= 0x7fffffffffffffff,
    ensures
        -0x40000000000000000000000000000000 <= a * b
            <= 0x40000000000000000000000000000000,
{
}

/// Clip an `i128` into the representable scalar range.
pub(crate) fn fx_clip_exec(x: i128) -> (r: i64)
    ensures
        r as int == fx_clip(x as int),
{
    let m: i128 = FX_MAX as i128;
    if x > m {
        FX_MAX
    } else if x < -m {
        -FX_MAX
    } else {
        x as i64
    }
}

/// Division of `i128` values, rounding toward zero.
pub(crate) fn div_trunc_i128(n: i128, d: i128) -> (r: i128)
    requires
        d != 0,
        n > i128::MIN,
        d > i128::MIN,
    ensures
        r as int == div_trunc(n as int, d as int),
{
    let nm: u128 = if n >= 0 {
        n as u128
    } else {
        (-n) as u128
    };
    let dm: u128 = if d >= 0 {
        d as u128
    } else {
        (-d) as u128
    };
    assert(nm == abs1(n as int));
    assert(dm == abs1(d as int));
    let q: u128 = nm / dm;
    assert(q <= nm) by (nonlinear_arith)
        requires
            dm >= 1,
            q == nm / dm,
    ;
    if (n < 0) != (d < 0) {
        -(q as i128)
    } else {
        q as i128
    }
}

pub fn fx_add(a: i64, b: i64) -> (r: i64)
    ensures
        r as int == fx_add_spec(a as int, b as int),
{
    fx_clip_exec(a as i128 + b as i128)
}

pub fn fx_sub(a: i64, b: i64) -> (r: i64)
    ensures
        r as int == fx_sub_spec(a as int, b as int),
{
    fx_clip_exec(a as i128 - b as i128)
}

pub fn fx_neg(a: i64) -> (r: i64)
    ensures
        r as int == fx_clip(-(a as int)),
{
    fx_clip_exec(-(a as i128))
}

pub fn fx_mul(a: i64, b: i64) -> (r: i64)
    ensures
        r as int == fx_mul_spec(a as int, b as int),
{
    proof {
        lemma_i64_product_fits(a as int, b as int);
    }
    let p: i128 = (a as i128) * (b as i128);
    fx_clip_exec(div_trunc_i128(p, FX_SCALE as i128))
}

pub fn fx_div(a: i64, b: i64) -> (r: i64)
    requires
        b != 0,
    ensures
        r as int == fx_div_spec(a as int, b as int),
{
    proof {
        lemma_i64_product_fits(a as int, FX_SCALE as int);
    }
    let p: i128 = (a as i128) * (FX_SCALE as i128);
    fx_clip_exec(div_trunc_i128(p, b as i128))
}

pub fn fx_min(a: i64, b: i64) -> (r: i64)
    ensures
        r as int == fx_min_spec(a as int, b as int),
{
    if a <= b {
        a
    } else {
        b
    }
}

pub fn fx_max(a: i64, b: i64) -> (r: i64)
    ensures
        r as int == fx_max_spec(a as int, b as int),
{
    if a >= b {
        a
    } else {
        b
    }
}

/// Integer square root by bisection over the 64-bit result range.
pub(crate) fn isqrt_u128(v: u128) -> (r: u128)
    ensures
        r as nat == isqrt_spec(v as nat),
        r * r <= v,
{
    let mut lo: u128 = 0;
    let mut hi: u128 = 18446744073709551616;
    assert((hi as nat) * (hi as nat) > v as nat) by (nonlinear_arith)
        requires
            hi == 18446744073709551616u128,
            v <= u128::MAX,
    ;
    while lo + 1 < hi
        invariant
            lo < hi,
            hi <= 18446744073709551616,
            (lo as nat) * (lo as nat) <= v as nat,
            (hi as nat) * (hi as nat) > v as nat,
        decreases hi - lo,
    {
        let mid: u128 = lo + (hi - lo) / 2;
        assert(lo < mid < hi);
        assert(mid * mid <= (18446744073709551615u128) * (18446744073709551615u128))
            by (nonlinear_arith)
            requires
                mid <= 18446744073709551615u128,
        ;
        if mid * mid <= v {
            lo = mid;
        } else {
            hi = mid;
        }
    }
    proof {
        lemma_isqrt_unique(v as nat, lo as nat);
    }
    lo
}

/// Square root of a non-negative scalar.
pub fn fx_sqrt(x: i64) -> (r: i64)
    requires
        x >= 0,
    ensures
        r as int == fx_sqrt_spec(x as int),
        r >= 0,
{
    assert((x as u128) * (FX_SCALE as u128) <= 0x7fffffffffffffffu128 * 1048576)
        by (nonlinear_arith)
        requires
            0 <= x <= 0x7fffffffffffffff,
    ;
    let v: u128 = (x as u128) * (FX_SCALE as u128);
    let r = isqrt_u128(v);
    assert(r < 4398046511104) by (nonlinear_arith)
        requires
            (r as nat) * (r as nat) <= v as nat,
            v < 0x800000000000000000000u128,
    ;
    r as i64
}

/// Scalar raised to a natural power, one clipped multiply per step.
pub open spec fn fx_pow_spec(b: int, e: nat) -> int
    decreases e,
{
    if e == 0 {
        FX_SCALE as int
    } else {
        fx_mul_spec(fx_pow_spec(b, (e - 1) as nat), b)
    }
}

pub fn fx_pow(b: i64, e: u32) -> (r: i64)
    ensures
        r as int == fx_pow_spec(b as int, e as nat),
{
    let mut acc: i64 = FX_SCALE;
    let mut i: u32 = 0;
    while i < e
        invariant
            i <= e,
            acc as int == fx_pow_spec(b as int, i as nat),
        decreases e - i,
    {
        acc = fx_mul(acc, b);
        i = i + 1;
    }
    acc
}

} // verus!
