//! Fixed-point arithmetic: the scale, products and quotients rounded down,
//! integer square roots, and the bounds that keep them free of overflow.

use vstd::prelude::*;

verus! {

/// The fixed-point representation of 1.0: values count millionths.
pub const ONE: i64 = 1_000_000;

/// Largest magnitude of a coordinate that the geometry accepts (2^40 millionths).
pub const LIMIT: i64 = 1_099_511_627_776;

/// Largest argument of [`isqrt`] (2^120): the square of the upper end of
/// its search still fits in 128 bits.
pub const SQRT_LIMIT: u128 = 1_329_227_995_784_915_872_903_807_060_280_344_576;

/// `v` is a coordinate the geometry accepts.
pub open spec fn in_limit(v: int) -> bool {
    -LIMIT <= v <= LIMIT
}

/// Absolute value of a mathematical integer.
pub open spec fn abs(v: int) -> int {
    if v < 0 { -v } else { v }
}

/// `r` is the integer square root of `n`, rounded down.
pub open spec fn is_sqrt_floor(n: int, r: int) -> bool {
    0 <= r && r * r <= n && n < (r + 1) * (r + 1)
}

/// The integer square root of `n`, rounded down.
pub open spec fn sqrt_floor(n: int) -> int {
    choose|r: int| is_sqrt_floor(n, r)
}

/// The product of two fixed-point numbers, rounded down.
pub open spec fn mul_fixed(a: int, b: int) -> int {
    (a * b) / (ONE as int)
}

/// At most one number is the rounded-down square root of `n`.
pub proof fn lemma_sqrt_floor_unique(n: int, r1: int, r2: int)
    requires
        is_sqrt_floor(n, r1),
        is_sqrt_floor(n, r2),
    ensures
        r1 == r2,
{
    if r1 < r2 {
        assert((r1 + 1) * (r1 + 1) <= r2 * r2) by (nonlinear_arith)
            requires 0 <= r1, r1 + 1 <= r2;
    } else if r2 < r1 {
        assert((r2 + 1) * (r2 + 1) <= r1 * r1) by (nonlinear_arith)
            requires 0 <= r2, r2 + 1 <= r1;
    }
}

/// Every number from zero on has a rounded-down square root.
pub proof fn lemma_sqrt_floor_exists(n: int)
    requires
        0 <= n,
    ensures
        is_sqrt_floor(n, sqrt_floor(n)),
    decreases n,
{
    if n == 0 {
        assert(is_sqrt_floor(0, 0));
    } else {
        lemma_sqrt_floor_exists(n - 1);
        let r = sqrt_floor(n - 1);
        if n < (r + 1) * (r + 1) {
            assert(is_sqrt_floor(n, r));
        } else {
            assert((r + 2) * (r + 2) > (r + 1) * (r + 1)) by (nonlinear_arith)
                requires r >= 0;
            assert(is_sqrt_floor(n, r + 1));
        }
    }
}

/// A product is bounded by the product of the bounds of its factors.
pub proof fn lemma_prod_bound(a: int, b: int, ba: int, bb: int)
    requires
        -ba <= a <= ba,
        -bb <= b <= bb,
    ensures
        -(ba * bb) <= a * b <= ba * bb,
{
    assert(-(ba * bb) <= a * b <= ba * bb) by (nonlinear_arith)
        requires -ba <= a <= ba, -bb <= b <= bb;
}

/// Floor division bounds the quotient by the dividend when the divisor is at least 1.
pub proof fn lemma_div_bound(a: int, b: int, ba: int)
    requires
        -ba <= a <= ba,
        b >= 1,
    ensures
        -ba <= a / b <= ba,
{
    assert(-ba <= a / b <= ba) by (nonlinear_arith)
        requires -ba <= a <= ba, b >= 1;
}

/// Tells whether `value` and `compared` differ by at most `epsilon`.
pub fn float_eq(value: i64, compared: i64, epsilon: i64) -> (result: bool)
    ensures
        result == (abs(value - compared) <= epsilon),
{
    let d: i128 = value as i128 - compared as i128;
    if d < 0 {
        -d <= epsilon as i128
    } else {
        d <= epsilon as i128
    }
}

/// Division rounded toward negative infinity.
pub fn div_floor(a: i128, b: i128) -> (result: i128)
    requires
        b > 0,
        a > i128::MIN,
    ensures
        result == a / b,
{
    if a >= 0 {
        a / b
    } else {
        let m: i128 = -a;
        let q: i128 = m / b;
        let r: i128 = m % b;
        assert(m == b * q + r && 0 <= r < b) by (nonlinear_arith)
            requires q == m / b, r == m % b, b > 0, m >= 0;
        assert(b * (-q) == -(b * q) && b * (-q - 1) == -(b * q) - b) by (nonlinear_arith);
        if r == 0 {
            assert(a / b == -q) by (nonlinear_arith)
                requires a == b * (-q), b > 0;
            -q
        } else {
            assert(a / b == -q - 1) by (nonlinear_arith)
                requires a == b * (-q - 1) + (b - r), 0 < b - r < b, b > 0;
            assert(q >= 0) by (nonlinear_arith)
                requires q == m / b, b > 0, m >= 0;
            -q - 1
        }
    }
}

/// The integer square root of `n`, rounded down.
pub fn isqrt(n: u128) -> (result: u128)
    requires
        n <= SQRT_LIMIT,
    ensures
        is_sqrt_floor(n as int, result as int),
        result as int == sqrt_floor(n as int),
        result < 2_305_843_009_213_693_952,
{
    let mut lo: u128 = 0;
    let mut hi: u128 = 2_305_843_009_213_693_952;
    assert(hi * hi > n) by (nonlinear_arith)
        requires
            hi == 2_305_843_009_213_693_952u128,
            n <= 1_329_227_995_784_915_872_903_807_060_280_344_576u128,
    ;
    while hi - lo > 1
        invariant
            lo < hi <= 2_305_843_009_213_693_952,
            lo * lo <= n,
            n < hi * hi,
        decreases hi - lo,
    {
        let mid: u128 = lo + (hi - lo) / 2;
        assert(mid * mid <= 2_305_843_009_213_693_952 * 2_305_843_009_213_693_952) by (
            nonlinear_arith)
            requires
                mid <= 2_305_843_009_213_693_952,
        ;
        if mid * mid <= n {
            lo = mid;
        } else {
            hi = mid;
        }
    }
    proof {
        let r = choose|r: int| is_sqrt_floor(n as int, r);
        lemma_sqrt_floor_unique(n as int, lo as int, r);
    }
    lo
}

/// The product of two fixed-point numbers is bounded by the product of their
/// bounds, taken as a fixed-point product too.
pub proof fn lemma_mul_fixed_bound(a: int, b: int, ba: int, bb: int, br: int)
    requires
        -ba <= a <= ba,
        -bb <= b <= bb,
        ba * bb <= br * ONE,
    ensures
        -br <= mul_fixed(a, b) <= br,
{
    lemma_prod_bound(a, b, ba, bb);
    assert(-br <= (a * b) / 1_000_000 <= br) by (nonlinear_arith)
        requires -(br * 1_000_000) <= a * b <= br * 1_000_000;
}

/// The product of two numbers from zero to one lies from zero to one.
pub proof fn lemma_mul_fixed_unit(a: int, b: int)
    requires
        0 <= a <= ONE,
        0 <= b <= ONE,
    ensures
        0 <= mul_fixed(a, b) <= ONE,
        0 <= mul_fixed(a, b) <= a,
        0 <= mul_fixed(a, b) <= b,
{
    assert(0 <= a * b <= a * 1_000_000 && a * b <= b * 1_000_000) by (nonlinear_arith)
        requires 0 <= a <= 1_000_000, 0 <= b <= 1_000_000;
    assert(0 <= (a * b) / 1_000_000 <= a && (a * b) / 1_000_000 <= b) by (nonlinear_arith)
        requires 0 <= a * b <= a * 1_000_000, a * b <= b * 1_000_000;
}

/// One is the unit of the fixed-point product, and zero annihilates.
pub proof fn lemma_mul_fixed_one(v: int)
    ensures
        mul_fixed(ONE as int, v) == v,
        mul_fixed(v, ONE as int) == v,
        mul_fixed(0, v) == 0,
        mul_fixed(v, 0) == 0,
{
    assert((1_000_000 * v) / 1_000_000 == v && (v * 1_000_000) / 1_000_000 == v && (0 * v)
        / 1_000_000 == 0 && (v * 0) / 1_000_000 == 0) by (nonlinear_arith);
}

/// The product of two fixed-point numbers, rounded down. The ghost bounds
/// `ba` and `bb` on the factors give the bound `br` on the product.
pub(crate) fn fmul(
    a: i64,
    b: i64,
    Ghost(ba): Ghost<int>,
    Ghost(bb): Ghost<int>,
    Ghost(br): Ghost<int>,
) -> (result: i64)
    requires
        -ba <= a <= ba,
        -bb <= b <= bb,
        ba * bb <= br * ONE,
        br <= i64::MAX,
    ensures
        result == mul_fixed(a as int, b as int),
        -br <= result <= br,
{
    proof {
        lemma_mul_fixed_bound(a as int, b as int, ba, bb, br);
        lemma_prod_bound(a as int, b as int, 0x8000_0000_0000_0000, 0x8000_0000_0000_0000);
    }
    let p: i128 = (a as i128) * (b as i128);
    div_floor(p, ONE as i128) as i64
}

/// The product of two fixed-point numbers from minus one to one, rounded down.
pub(crate) fn fmul_unit(a: i64, b: i64) -> (result: i64)
    requires
        -ONE <= a <= ONE,
        -ONE <= b <= ONE,
    ensures
        result == mul_fixed(a as int, b as int),
        -ONE <= result <= ONE,
{
    fmul(a, b, Ghost(1_000_000), Ghost(1_000_000), Ghost(1_000_000))
}

} // verus!
