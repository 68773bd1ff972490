//! Scalar fixed-point arithmetic: magnitudes, directed division and integer
//! square roots.

use vstd::prelude::*;

verus! {

/// Thousandths per world unit: the scale of every length and speed.
pub const UNIT: i64 = 1000;

/// Microseconds per second: the scale of every time.
pub const MICROS_PER_SECOND: u64 = 1_000_000;

/// Largest magnitude of a configured value or of a component of a stored
/// vector (two to the power 31).
pub const LIMIT: i64 = 0x8000_0000;

/// Largest magnitude of a vector component or of a target length that the
/// rescaling operations accept (two to the power 44).
pub const REACH: i64 = 0x1000_0000_0000;

/// Factor by which a vector is enlarged before its length is rounded to an
/// integer, so that short vectors keep their direction (two to the power 19).
pub const PRECISION: u64 = 0x8_0000;

/// The magnitude of an integer.
pub open spec fn abs(v: int) -> int {
    if v < 0 {
        -v
    } else {
        v
    }
}

/// Whether a value lies within `bound` of zero.
pub open spec fn within(v: int, bound: int) -> bool {
    -bound <= v <= bound
}

/// Quotient of a non-negative `a` by a positive `d`, rounded up.
pub open spec fn div_ceil(a: int, d: int) -> int {
    (a + d - 1) / d
}

/// Quotient of `a` by a positive `d`, rounded toward zero.
pub open spec fn div_toward_zero(a: int, d: int) -> int {
    if a >= 0 {
        a / d
    } else {
        -((-a) / d)
    }
}

/// Quotient of `a` by a positive `d`, rounded away from zero.
pub open spec fn div_away_from_zero(a: int, d: int) -> int {
    if a >= 0 {
        div_ceil(a, d)
    } else {
        -div_ceil(-a, d)
    }
}

/// The integer square root: the largest `r` with `r * r <= n`.
pub open spec fn sqrt_floor(n: nat) -> nat
    decreases n,
{
    if n == 0 {
        0
    } else {
        let r = sqrt_floor((n - 1) as nat) as int;
        if (r + 1) * (r + 1) <= n {
            (r + 1) as nat
        } else {
            r as nat
        }
    }
}

/// The least `r` with `r * r >= n`.
pub open spec fn sqrt_ceil(n: nat) -> nat {
    let r = sqrt_floor(n) as int;
    if r * r == n {
        r as nat
    } else {
        (r + 1) as nat
    }
}

/// `sqrt_floor(n)` is the integer square root of `n`.
pub proof fn lemma_sqrt_floor_bounds(n: nat)
    ensures
        ({
            let r = sqrt_floor(n) as int;
            r * r <= n < (r + 1) * (r + 1)
        }),
    decreases n,
{
    if n > 0 {
        lemma_sqrt_floor_bounds((n - 1) as nat);
        let r = sqrt_floor((n - 1) as nat) as int;
        let s = sqrt_floor(n) as int;
        assert((s + 1) * (s + 1) > n) by (nonlinear_arith)
            requires
                r >= 0,
                n - 1 < (r + 1) * (r + 1),
                s == r + 1 || (s == r && (r + 1) * (r + 1) > n),
        ;
    } else {
        assert(sqrt_floor(0) == 0);
    }
}

/// Only one number lies between the bounds of `lemma_sqrt_floor_bounds`.
pub proof fn lemma_sqrt_floor_unique(n: nat, r: nat)
    requires
        (r as int) * (r as int) <= n,
        n < (r as int + 1) * (r as int + 1),
    ensures
        r == sqrt_floor(n),
{
    lemma_sqrt_floor_bounds(n);
    let s = sqrt_floor(n) as int;
    let r = r as int;
    if r < s {
        assert((r + 1) * (r + 1) <= s * s) by (nonlinear_arith)
            requires
                0 <= r + 1 <= s,
        ;
    } else if s < r {
        assert((s + 1) * (s + 1) <= r * r) by (nonlinear_arith)
            requires
                0 <= s + 1 <= r,
        ;
    }
}

/// `sqrt_ceil(n)` is the least number whose square reaches `n`.
pub proof fn lemma_sqrt_ceil_bounds(n: nat)
    ensures
        ({
            let c = sqrt_ceil(n) as int;
            &&& n <= c * c
            &&& c > 0 ==> (c - 1) * (c - 1) < n
            &&& sqrt_floor(n) <= c <= sqrt_floor(n) + 1
            &&& n > 0 ==> c > 0
        }),
{
    lemma_sqrt_floor_bounds(n);
    let r = sqrt_floor(n) as int;
    let c = sqrt_ceil(n) as int;
    assert(n <= c * c && (c > 0 ==> (c - 1) * (c - 1) < n) && (n > 0 ==> c > 0))
        by (nonlinear_arith)
        requires
            r >= 0,
            r * r <= n,
            n < (r + 1) * (r + 1),
            (c == r && r * r == n) || (c == r + 1 && r * r != n),
    ;
}

/// The magnitude of `v`.
pub fn magnitude(v: i64) -> (r: u64)
    ensures
        r == abs(v as int),
{
    if v >= 0 {
        v as u64
    } else {
        let below: i64 = -(v + 1);
        below as u64 + 1
    }
}

/// The product of two 64-bit numbers, which always fits 128 bits.
pub fn wide_product(a: u64, b: u64) -> (r: u128)
    ensures
        r == a * b,
{
    proof {
        lemma_product_bound(a as int, b as int, u64::MAX as int, u64::MAX as int);
    }
    (a as u128) * (b as u128)
}

/// The square of `v`.
pub fn square(v: i64) -> (r: u128)
    ensures
        r == v * v,
{
    proof {
        lemma_abs_product(v as int, v as int);
    }
    let m: u64 = magnitude(v);
    wide_product(m, m)
}

/// The integer square root of `n`.
pub fn isqrt(n: u128) -> (r: u64)
    ensures
        r == sqrt_floor(n as nat),
{
    let mut lo: u128 = 0;
    let mut hi: u128 = 0x1_0000_0000_0000_0000;
    while hi - lo > 1
        invariant
            lo < hi <= 0x1_0000_0000_0000_0000,
            lo * lo <= n,
            n < hi * hi,
        decreases hi - lo,
    {
        let mid: u128 = lo + (hi - lo) / 2;
        assert(mid * mid <= 0xffff_ffff_ffff_ffffint * 0xffff_ffff_ffff_ffffint) by (nonlinear_arith)
            requires
                0 <= mid <= 0xffff_ffff_ffff_ffff,
        ;
        if mid * mid <= n {
            lo = mid;
        } else {
            hi = mid;
        }
    }
    proof {
        lemma_sqrt_floor_unique(n as nat, lo as nat);
    }
    lo as u64
}

/// The least number whose square reaches `n`, for `n` up to two to the power 127.
pub fn isqrt_ceil(n: u128) -> (r: u64)
    requires
        n <= 0x8000_0000_0000_0000_0000_0000_0000_0000,
    ensures
        r == sqrt_ceil(n as nat),
{
    let root: u64 = isqrt(n);
    proof {
        lemma_sqrt_floor_bounds(n as nat);
        if root >= 0xf000_0000_0000_0000 {
            assert(root * root >= 0xf000_0000_0000_0000int * 0xf000_0000_0000_0000int)
                by (nonlinear_arith)
                requires
                    root >= 0xf000_0000_0000_0000,
            ;
            assert(0xf000_0000_0000_0000int * 0xf000_0000_0000_0000int
                > 0x8000_0000_0000_0000_0000_0000_0000_0000int) by (nonlinear_arith);
        }
    }
    let wide: u128 = root as u128;
    if wide * wide == n {
        root
    } else {
        root + 1
    }
}

/// A product of bounded magnitudes is bounded by the product of the bounds.
pub proof fn lemma_product_bound(a: int, b: int, bound_a: int, bound_b: int)
    requires
        0 <= a <= bound_a,
        0 <= b <= bound_b,
    ensures
        0 <= a * b <= bound_a * bound_b,
{
    assert(0 <= a * b <= bound_a * bound_b) by (nonlinear_arith)
        requires
            0 <= a <= bound_a,
            0 <= b <= bound_b,
    ;
}

/// The magnitude of a product is the product of the magnitudes.
pub proof fn lemma_abs_product(a: int, b: int)
    ensures
        abs(a * b) == abs(a) * abs(b),
        a * b >= 0 <==> (a == 0 || b == 0 || (a < 0 <==> b < 0)),
{
    assert(abs(a * b) == abs(a) * abs(b) && (a * b >= 0 <==> (a == 0 || b == 0 || (a < 0 <==> b
        < 0)))) by (nonlinear_arith);
}

/// A quotient by a positive divisor, with its remainder.
pub proof fn lemma_division(a: int, d: int)
    requires
        0 <= a,
        0 < d,
    ensures
        0 <= a / d,
        (a / d) * d <= a < (a / d) * d + d,
{
    assert(0 <= a / d && (a / d) * d <= a < (a / d) * d + d) by (nonlinear_arith)
        requires
            0 <= a,
            0 < d,
    ;
}

/// A rounded-up quotient by a positive divisor, with its excess.
pub proof fn lemma_division_ceil(a: int, d: int)
    requires
        0 <= a,
        0 < d,
    ensures
        0 <= div_ceil(a, d),
        a <= div_ceil(a, d) * d < a + d,
        a > 0 <==> div_ceil(a, d) > 0,
{
    let q = div_ceil(a, d);
    assert(0 <= q && a <= q * d < a + d && (a > 0 <==> q > 0)) by (nonlinear_arith)
        requires
            0 <= a,
            0 < d,
            q == (a + d - 1) / d,
    ;
}

} // verus!
