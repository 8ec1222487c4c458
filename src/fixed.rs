//! Fixed-point scalars: a real number `r` is held as the `i64` nearest below
//! `r * ONE`, and every result is saturated to `[-LIMIT, LIMIT]`.
use vstd::prelude::*;

verus! {

/// The fixed-point unit: one millionth.
pub const ONE: i64 = 1_000_000;

/// The largest magnitude any fixed-point quantity takes.
pub const LIMIT: i64 = 1_000_000_000_000;

/// Saturates `x` to `[-LIMIT, LIMIT]`.
pub open spec fn sat(x: int) -> int {
    if x < -LIMIT {
        -LIMIT as int
    } else if x > LIMIT {
        LIMIT as int
    } else {
        x
    }
}

/// A scalar in the saturated range.
pub open spec fn in_range(x: int) -> bool {
    -LIMIT <= x <= LIMIT
}

/// Product of two fixed-point numbers, rounded down.
pub open spec fn mul_spec(a: int, b: int) -> int {
    sat((a * b) / (ONE as int))
}

/// `x / ONE`, rounded toward zero.
pub open spec fn trunc_div(x: int) -> int {
    if x >= 0 {
        x / (ONE as int)
    } else {
        -((-x) / (ONE as int))
    }
}

/// Product of two fixed-point numbers, rounded toward zero.
pub open spec fn mul0_spec(a: int, b: int) -> int {
    sat(trunc_div(a * b))
}

/// Quotient `a / b` of two fixed-point numbers, rounded down.
pub open spec fn div_spec(a: int, b: int) -> int
    recommends
        b > 0,
{
    sat((a * ONE) / b)
}

pub open spec fn add_spec(a: int, b: int) -> int {
    sat(a + b)
}

pub open spec fn sub_spec(a: int, b: int) -> int {
    sat(a - b)
}

pub open spec fn sign_spec(x: int) -> int {
    if x > 0 {
        1
    } else if x < 0 {
        -1
    } else {
        0
    }
}

/// The square root of `n`, rounded down.
pub open spec fn is_sqrt(n: int, r: int) -> bool {
    0 <= r && r * r <= n < (r + 1) * (r + 1)
}

pub open spec fn sqrt_spec(n: int) -> int {
    choose|r: int| is_sqrt(n, r)
}

/// There is one rounded-down square root, and `sqrt_spec` is it.
pub proof fn lemma_sqrt_unique(n: int, r: int)
    requires
        is_sqrt(n, r),
    ensures
        sqrt_spec(n) == r,
{
    let s = sqrt_spec(n);
    assert(is_sqrt(n, s));
    if s < r {
        assert((s + 1) * (s + 1) <= r * r) by (nonlinear_arith)
            requires
                0 <= s < r,
        ;
    } else if r < s {
        assert((r + 1) * (r + 1) <= s * s) by (nonlinear_arith)
            requires
                0 <= r < s,
        ;
    }
}

pub fn sat_i128(x: i128) -> (r: i64)
    ensures
        r == sat(x as int),
{
    if x < -(LIMIT as i128) {
        -LIMIT
    } else if x > LIMIT as i128 {
        LIMIT
    } else {
        x as i64
    }
}

proof fn lemma_floor_neg(n: int, d: int, q: int)
    requires
        d > 0,
        n < 0,
        q == (-(n + 1)) / d,
    ensures
        n / d == -q - 1,
{
    let rr = (-(n + 1)) % d;
    vstd::arithmetic::div_mod::lemma_fundamental_div_mod(-(n + 1), d);
    assert(-(n + 1) == d * q + rr);
    assert(n == d * (-q - 1) + (d - 1 - rr)) by (nonlinear_arith)
        requires
            -(n + 1) == d * q + rr,
    ;
    vstd::arithmetic::div_mod::lemma_fundamental_div_mod_converse(n, d, -q - 1, d - 1 - rr);
}

/// Floor division by a positive divisor.
pub fn floor_div(n: i128, d: i128) -> (r: i128)
    requires
        d > 0,
    ensures
        r == n / d,
{
    if n >= 0 {
        ((n as u128) / (d as u128)) as i128
    } else {
        let m: u128 = ((-(n + 1)) as u128) / (d as u128);
        proof {
            let ni = n as int;
            let di = d as int;
            let q = (-(ni + 1)) / di;
            assert(m == q);
            lemma_floor_neg(ni, di, q);
        }
        -(m as i128) - 1
    }
}

pub fn fx_mul(a: i64, b: i64) -> (r: i64)
    ensures
        r == mul_spec(a as int, b as int),
{
    assert(-0x4000_0000_0000_0000_0000_0000_0000_0000 <= (a as int) * (b as int)
        <= 0x4000_0000_0000_0000_0000_0000_0000_0000) by (nonlinear_arith)
        requires
            -0x8000_0000_0000_0000 <= a < 0x8000_0000_0000_0000,
            -0x8000_0000_0000_0000 <= b < 0x8000_0000_0000_0000,
    ;
    let p: i128 = (a as i128) * (b as i128);
    sat_i128(floor_div(p, ONE as i128))
}

pub fn fx_mul0(a: i64, b: i64) -> (r: i64)
    ensures
        r == mul0_spec(a as int, b as int),
{
    assert(-0x4000_0000_0000_0000_0000_0000_0000_0000 <= (a as int) * (b as int)
        <= 0x4000_0000_0000_0000_0000_0000_0000_0000) by (nonlinear_arith)
        requires
            -0x8000_0000_0000_0000 <= a < 0x8000_0000_0000_0000,
            -0x8000_0000_0000_0000 <= b < 0x8000_0000_0000_0000,
    ;
    let p: i128 = (a as i128) * (b as i128);
    if p >= 0 {
        sat_i128(floor_div(p, ONE as i128))
    } else {
        sat_i128(-floor_div(-p, ONE as i128))
    }
}

pub fn fx_div(a: i64, b: i64) -> (r: i64)
    requires
        b > 0,
    ensures
        r == div_spec(a as int, b as int),
{
    assert(-0x1_0000_0000_0000_0000_0000_0000 <= (a as int) * 1_000_000
        <= 0x1_0000_0000_0000_0000_0000_0000) by (nonlinear_arith)
        requires
            -0x8000_0000_0000_0000 <= a < 0x8000_0000_0000_0000,
    ;
    let p: i128 = (a as i128) * (ONE as i128);
    sat_i128(floor_div(p, b as i128))
}

pub fn fx_add(a: i64, b: i64) -> (r: i64)
    ensures
        r == add_spec(a as int, b as int),
{
    sat_i128(a as i128 + b as i128)
}

pub fn fx_sub(a: i64, b: i64) -> (r: i64)
    ensures
        r == sub_spec(a as int, b as int),
{
    sat_i128(a as i128 - b as i128)
}

pub fn fx_sign(x: i64) -> (r: i64)
    ensures
        r == sign_spec(x as int),
{
    if x > 0 {
        1
    } else if x < 0 {
        -1
    } else {
        0
    }
}

/// The square root of `n`, rounded down, by bisection.
pub fn isqrt(n: u128) -> (r: u128)
    requires
        n < 0x1_0000_0000_0000_0000_0000_0000,
    ensures
        is_sqrt(n as int, r as int),
        r == sqrt_spec(n as int),
{
    let mut lo: u128 = 0;
    let mut hi: u128 = 0x10_0000_0000_0000;
    assert(n < hi * hi) by (nonlinear_arith)
        requires
            n < 0x1_0000_0000_0000_0000_0000_0000,
            hi == 0x10_0000_0000_0000,
    ;
    while lo + 1 < hi
        invariant
            lo < hi <= 0x10_0000_0000_0000,
            lo * lo <= n < hi * hi,
        decreases hi - lo,
    {
        let mid: u128 = lo + (hi - lo) / 2;
        assert(mid * mid <= 0x100_0000_0000_0000_0000_0000_0000) by (nonlinear_arith)
            requires
                mid <= 0x10_0000_0000_0000,
        ;
        if mid * mid <= n {
            lo = mid;
        } else {
            hi = mid;
        }
    }
    proof {
        assert(hi == lo + 1);
        lemma_sqrt_unique(n as int, lo as int);
    }
    lo
}

} // verus!
