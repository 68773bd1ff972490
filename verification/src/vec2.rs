//! Planar vectors in fixed point, with rescaling that rounds in a chosen
//! direction.

use vstd::prelude::*;
use crate::fixed::{
    abs, div_away_from_zero, div_ceil, div_toward_zero, isqrt, isqrt_ceil, lemma_abs_product,
    lemma_division, lemma_division_ceil, lemma_product_bound, lemma_sqrt_ceil_bounds,
    lemma_sqrt_floor_bounds, magnitude, sqrt_ceil, sqrt_floor,
    within, PRECISION, REACH,
};

verus! {

/// A planar vector over the integers: the mathematical model of `Vec2`.
pub struct Vector {
    pub x: int,
    pub y: int,
}

impl Vector {
    /// The zero vector.
    pub open spec fn zero() -> Vector {
        Vector { x: 0, y: 0 }
    }

    pub open spec fn is_zero(self) -> bool {
        self.x == 0 && self.y == 0
    }

    /// The square of the length.
    pub open spec fn len2(self) -> int {
        self.x * self.x + self.y * self.y
    }

    pub open spec fn plus(self, other: Vector) -> Vector {
        Vector { x: self.x + other.x, y: self.y + other.y }
    }

    pub open spec fn minus(self, other: Vector) -> Vector {
        Vector { x: self.x - other.x, y: self.y - other.y }
    }

    /// Each component halved, rounded toward zero.
    pub open spec fn half(self) -> Vector {
        Vector { x: div_toward_zero(self.x, 2), y: div_toward_zero(self.y, 2) }
    }

    /// The vector as it is stored, for components that fit 64 bits.
    pub open spec fn stored(self) -> Vec2 {
        Vec2 { x: self.x as i64, y: self.y as i64 }
    }

    /// Whether both components lie within `bound` of zero.
    pub open spec fn within(self, bound: int) -> bool {
        crate::fixed::within(self.x, bound) && crate::fixed::within(self.y, bound)
    }

    /// The square of the length after enlarging by `PRECISION`.
    pub open spec fn fine_len2(self) -> nat {
        ((self.x * PRECISION) * (self.x * PRECISION) + (self.y * PRECISION) * (self.y
            * PRECISION)) as nat
    }

    /// `PRECISION` times the length, rounded down.
    pub open spec fn norm_floor(self) -> int {
        sqrt_floor(self.fine_len2()) as int
    }

    /// `PRECISION` times the length, rounded up.
    pub open spec fn norm_ceil(self) -> int {
        sqrt_ceil(self.fine_len2()) as int
    }

    /// The vector along `self` whose length is `length`, each component
    /// rounded toward zero: never longer than `length`. The zero vector has no
    /// direction and stays zero. A negative `length` reverses the direction.
    pub open spec fn with_length_floor(self, length: int) -> Vector {
        if self.is_zero() {
            Vector::zero()
        } else {
            Vector {
                x: div_toward_zero(self.x * PRECISION * length, self.norm_ceil()),
                y: div_toward_zero(self.y * PRECISION * length, self.norm_ceil()),
            }
        }
    }

    /// The vector along `self` whose length is `length`, each component
    /// rounded away from zero: never shorter than `length`. The zero vector
    /// stays zero. A negative `length` reverses the direction.
    pub open spec fn with_length_ceil(self, length: int) -> Vector {
        if self.is_zero() {
            Vector::zero()
        } else {
            Vector {
                x: div_away_from_zero(self.x * PRECISION * length, self.norm_floor()),
                y: div_away_from_zero(self.y * PRECISION * length, self.norm_floor()),
            }
        }
    }
}

/// A planar vector in thousandths of a world unit.
#[derive(Clone, Copy, Debug, PartialEq, Eq, Structural)]
pub struct Vec2 {
    pub x: i64,
    pub y: i64,
}

impl View for Vec2 {
    type V = Vector;

    open spec fn view(&self) -> Vector {
        Vector { x: self.x as int, y: self.y as int }
    }
}

/// A vector in space, in thousandths of a world unit. The third component
/// is the drawing layer.
#[derive(Clone, Copy, Debug, PartialEq, Eq, Structural)]
pub struct Vec3 {
    pub x: i64,
    pub y: i64,
    pub z: i64,
}

impl Vec3 {
    /// The planar part, as a mathematical vector.
    pub open spec fn planar(&self) -> Vector {
        Vector { x: self.x as int, y: self.y as int }
    }

    pub fn new(x: i64, y: i64, z: i64) -> (r: Vec3)
        ensures
            r == (Vec3 { x, y, z }),
    {
        Vec3 { x, y, z }
    }

    /// The planar part.
    pub fn xy(self) -> (r: Vec2)
        ensures
            r == (Vec2 { x: self.x, y: self.y }),
            r@ == self.planar(),
    {
        Vec2 { x: self.x, y: self.y }
    }
}

/// Halving lengthens no vector.
pub proof fn lemma_half_shrinks(v: Vector)
    ensures
        v.half().len2() <= v.len2(),
{
    let h = v.half();
    assert(h.x * h.x + h.y * h.y <= v.x * v.x + v.y * v.y) by (nonlinear_arith)
        requires
            abs(h.x) <= abs(v.x),
            abs(h.y) <= abs(v.y),
    ;
}

/// The fine length of a non-zero vector is positive and dominates each
/// enlarged component.
pub proof fn lemma_norm_dominates(v: Vector)
    requires
        !v.is_zero(),
    ensures
        0 < v.norm_floor() <= v.norm_ceil(),
        abs(v.x) * PRECISION <= v.norm_floor(),
        abs(v.y) * PRECISION <= v.norm_floor(),
        v.fine_len2() == v.len2() * (PRECISION * PRECISION),
{
    let p = PRECISION as int;
    let n = v.fine_len2() as int;
    let ax = abs(v.x) * p;
    let ay = abs(v.y) * p;
    assert((v.x * p) * (v.x * p) >= 0 && (v.y * p) * (v.y * p) >= 0) by (nonlinear_arith);
    assert(n == ax * ax + ay * ay && n == v.len2() * (p * p) && ax * ax <= n && ay * ay <= n)
        by (nonlinear_arith)
        requires
            n == (v.x * p) * (v.x * p) + (v.y * p) * (v.y * p),
            ax == abs(v.x) * p,
            ay == abs(v.y) * p,
            v.len2() == v.x * v.x + v.y * v.y,
    ;
    lemma_sqrt_floor_bounds(n as nat);
    lemma_sqrt_ceil_bounds(n as nat);
    let f = v.norm_floor();
    if ax > f {
        assert((f + 1) * (f + 1) <= ax * ax) by (nonlinear_arith)
            requires
                0 <= f + 1 <= ax,
        ;
    }
    if ay > f {
        assert((f + 1) * (f + 1) <= ay * ay) by (nonlinear_arith)
            requires
                0 <= f + 1 <= ay,
        ;
    }
    assert(ax >= p || ay >= p) by (nonlinear_arith)
        requires
            v.x != 0 || v.y != 0,
            ax == abs(v.x) * p,
            ay == abs(v.y) * p,
            p == 0x8_0000,
    ;
}

/// The magnitudes behind one component of a rescaled vector: the quotient
/// rounded down and rounded up, and how each relates to the component.
proof fn lemma_component(c: int, length: int, norm: int)
    requires
        norm > 0,
    ensures
        ({
            let a = abs(c) * PRECISION * abs(length);
            let down = div_toward_zero(c * PRECISION * length, norm);
            let up = div_away_from_zero(c * PRECISION * length, norm);
            &&& abs(down) == a / norm
            &&& abs(up) == div_ceil(a, norm)
            &&& down * down == (a / norm) * (a / norm)
            &&& up * up == div_ceil(a, norm) * div_ceil(a, norm)
            &&& a * a == (c * c) * (PRECISION * PRECISION) * (length * length)
            &&& 0 <= a
            &&& length >= 0 && c >= 0 ==> down >= 0 && up >= 0
            &&& length >= 0 && c <= 0 ==> down <= 0 && up <= 0
        }),
{
    let p = PRECISION as int;
    let a = abs(c) * p * abs(length);
    let t = c * p * length;
    assert(abs(t) == a && a * a == (c * c) * (p * p) * (length * length) && (length >= 0 && c
        >= 0 ==> t >= 0) && (length >= 0 && c <= 0 ==> t <= 0)) by (nonlinear_arith)
        requires
            a == abs(c) * p * abs(length),
            t == c * p * length,
            p > 0,
    ;
    lemma_division(a, norm);
    lemma_division_ceil(a, norm);
    let down = div_toward_zero(t, norm);
    let up = div_away_from_zero(t, norm);
    if t < 0 {
        assert(down * down == (a / norm) * (a / norm)) by (nonlinear_arith)
            requires
                down == -(a / norm),
        ;
        assert(up * up == div_ceil(a, norm) * div_ceil(a, norm)) by (nonlinear_arith)
            requires
                up == -div_ceil(a, norm),
        ;
    }
}

/// If `q * d <= a` for non-negative numbers, then `(q * d)` squared is at
/// most `a` squared, written with the squares apart.
proof fn lemma_square_of_product_le(q: int, d: int, a: int)
    requires
        0 <= q,
        0 <= d,
        q * d <= a,
    ensures
        (q * q) * (d * d) <= a * a,
{
    assert((q * q) * (d * d) <= a * a) by (nonlinear_arith)
        requires
            0 <= q,
            0 <= d,
            q * d <= a,
    ;
}

/// If `q * d >= a` for non-negative numbers, then `(q * d)` squared is at
/// least `a` squared, written with the squares apart.
proof fn lemma_square_of_product_ge(q: int, d: int, a: int)
    requires
        0 <= q,
        0 <= d,
        0 <= a <= q * d,
    ensures
        (q * q) * (d * d) >= a * a,
{
    assert((q * q) * (d * d) >= a * a) by (nonlinear_arith)
        requires
            0 <= q,
            0 <= d,
            0 <= a <= q * d,
    ;
}

/// Two terms with common factors add up to the sum with those factors.
proof fn lemma_weighted_sum(a: int, b: int, w: int, m: int)
    ensures
        a * w * m + b * w * m == ((a + b) * w) * m,
{
    assert(a * w * m + b * w * m == ((a + b) * w) * m) by (nonlinear_arith);
}

/// Rounded toward zero, a rescaled vector is never longer than the length
/// asked for.
pub proof fn lemma_with_length_floor_bounded(v: Vector, length: int)
    ensures
        v.with_length_floor(length).len2() <= length * length,
{
    if v.is_zero() {
        assert(length * length >= 0) by (nonlinear_arith);
    } else {
        lemma_norm_dominates(v);
        let p = PRECISION as int;
        let c = v.norm_ceil();
        let n = v.fine_len2() as int;
        lemma_sqrt_ceil_bounds(v.fine_len2());
        lemma_component(v.x, length, c);
        lemma_component(v.y, length, c);
        let ax = abs(v.x) * p * abs(length);
        let ay = abs(v.y) * p * abs(length);
        let qx = ax / c;
        let qy = ay / c;
        lemma_division(ax, c);
        lemma_division(ay, c);
        lemma_square_of_product_le(qx, c, ax);
        lemma_square_of_product_le(qy, c, ay);
        let s = qx * qx + qy * qy;
        let m2 = length * length;
        let c2 = c * c;
        lemma_weighted_sum(v.x * v.x, v.y * v.y, p * p, m2);
        assert(n * m2 <= c2 * m2) by (nonlinear_arith)
            requires
                n <= c2,
                m2 == length * length,
        ;
        assert(s * c2 == (qx * qx) * c2 + (qy * qy) * c2) by (nonlinear_arith)
            requires
                s == qx * qx + qy * qy,
        ;
        assert(s * c2 <= m2 * c2) by (nonlinear_arith)
            requires
                s * c2 <= n * m2,
                n * m2 <= c2 * m2,
        ;
        assert(s <= m2) by (nonlinear_arith)
            requires
                s * c2 <= m2 * c2,
                c2 > 0,
        ;
        assert(c2 > 0) by (nonlinear_arith)
            requires
                c > 0,
                c2 == c * c,
        ;
    }
}

/// Rounded away from zero, a rescaled non-zero vector is never shorter than
/// the length asked for.
pub proof fn lemma_with_length_ceil_reaches(v: Vector, length: int)
    requires
        !v.is_zero(),
    ensures
        v.with_length_ceil(length).len2() >= length * length,
{
    lemma_norm_dominates(v);
    let p = PRECISION as int;
    let f = v.norm_floor();
    let n = v.fine_len2() as int;
    lemma_sqrt_floor_bounds(v.fine_len2());
    lemma_component(v.x, length, f);
    lemma_component(v.y, length, f);
    let ax = abs(v.x) * p * abs(length);
    let ay = abs(v.y) * p * abs(length);
    let qx = div_ceil(ax, f);
    let qy = div_ceil(ay, f);
    lemma_division_ceil(ax, f);
    lemma_division_ceil(ay, f);
    lemma_square_of_product_ge(qx, f, ax);
    lemma_square_of_product_ge(qy, f, ay);
    let s = qx * qx + qy * qy;
    let m2 = length * length;
    let f2 = f * f;
    assert(f2 > 0) by (nonlinear_arith)
        requires
            f > 0,
            f2 == f * f,
    ;
    lemma_weighted_sum(v.x * v.x, v.y * v.y, p * p, m2);
    assert(n * m2 >= f2 * m2) by (nonlinear_arith)
        requires
            f2 <= n,
            m2 == length * length,
    ;
    assert(s * f2 == (qx * qx) * f2 + (qy * qy) * f2) by (nonlinear_arith)
        requires
            s == qx * qx + qy * qy,
    ;
    assert(s * f2 >= m2 * f2) by (nonlinear_arith)
        requires
            s * f2 >= n * m2,
            n * m2 >= f2 * m2,
    ;
    assert(s >= m2) by (nonlinear_arith)
        requires
            s * f2 >= m2 * f2,
            f2 > 0,
    ;
}

/// Rounded toward zero, a rescaled vector falls short of the length asked
/// for by less than two thousandths along each axis: with both components
/// moved two steps away from zero it is longer than that length. This holds
/// for lengths below `PRECISION` times the length of the vector.
pub proof fn lemma_with_length_floor_close(v: Vector, length: int)
    requires
        !v.is_zero(),
        0 <= length < v.norm_ceil(),
    ensures
        ({
            let r = v.with_length_floor(length);
            (abs(r.x) + 2) * (abs(r.x) + 2) + (abs(r.y) + 2) * (abs(r.y) + 2) > length * length
        }),
{
    lemma_norm_dominates(v);
    lemma_sqrt_ceil_bounds(v.fine_len2());
    let p = PRECISION as int;
    let c = v.norm_ceil();
    let d = c - 1;
    let n = v.fine_len2() as int;
    lemma_component(v.x, length, c);
    lemma_component(v.y, length, c);
    let ax = abs(v.x) * p * abs(length);
    let ay = abs(v.y) * p * abs(length);
    let ux = ax / c + 2;
    let uy = ay / c + 2;
    lemma_component_close(abs(v.x) * p, length, c);
    lemma_component_close(abs(v.y) * p, length, c);
    lemma_square_of_product_ge(ux, d, ax);
    lemma_square_of_product_ge(uy, d, ay);
    let s = ux * ux + uy * uy;
    let m2 = length * length;
    let d2 = d * d;
    lemma_weighted_sum(v.x * v.x, v.y * v.y, p * p, m2);
    if length > 0 {
        assert(d >= 1) by (nonlinear_arith)
            requires
                d == c - 1,
                c * c >= n,
                n == (v.x * v.x + v.y * v.y) * (p * p),
                v.x != 0 || v.y != 0,
                p == 0x8_0000,
                c >= 1,
        ;
        assert(n * m2 > d2 * m2) by (nonlinear_arith)
            requires
                d2 < n,
                m2 == length * length,
                length > 0,
        ;
        assert(s * d2 == (ux * ux) * d2 + (uy * uy) * d2) by (nonlinear_arith)
            requires
                s == ux * ux + uy * uy,
        ;
        assert(s * d2 > m2 * d2) by (nonlinear_arith)
            requires
                s * d2 == (ux * ux) * d2 + (uy * uy) * d2,
                (ux * ux) * d2 >= ax * ax,
                (uy * uy) * d2 >= ay * ay,
                ax * ax + ay * ay == n * m2,
                n * m2 > d2 * m2,
        ;
        assert(s > m2) by (nonlinear_arith)
            requires
                s * d2 > m2 * d2,
                d2 == d * d,
                d >= 1,
        ;
    } else {
        assert(s > 0 && m2 == 0) by (nonlinear_arith)
            requires
                s == ux * ux + uy * uy,
                ux >= 2,
                uy >= 2,
                m2 == length * length,
                length == 0,
        ;
    }
}

/// One component of `lemma_with_length_floor_close`: the quotient plus two,
/// times the divisor less one, reaches the dividend.
proof fn lemma_component_close(e: int, length: int, c: int)
    requires
        0 <= e <= c,
        0 <= length < c,
    ensures
        ({
            let a = e * abs(length);
            &&& 0 <= a
            &&& 0 <= a / c
            &&& a <= (a / c + 2) * (c - 1)
        }),
{
    let a = e * abs(length);
    assert(0 <= a <= c * length) by (nonlinear_arith)
        requires
            0 <= e <= c,
            0 <= length,
            a == e * length,
    ;
    lemma_division(a, c);
    let q = a / c;
    assert(q <= length) by (nonlinear_arith)
        requires
            q * c <= a,
            a <= c * length,
            c > 0,
            0 <= q,
    ;
    assert(a <= (q + 2) * (c - 1)) by (nonlinear_arith)
        requires
            a < q * c + c,
            0 <= q <= length,
            length < c,
    ;
}

/// The larger of two integers.
pub open spec fn max(a: int, b: int) -> int {
    if a >= b {
        a
    } else {
        b
    }
}

/// Rounded toward zero, a rescaled vector keeps the direction: each
/// component has the sign of the one it comes from or is zero, and the
/// cross product with the vector is smaller than the vector's larger
/// component, so that the result lies within one thousandth of the
/// vector's line.
pub proof fn lemma_with_length_floor_direction(v: Vector, length: int)
    requires
        !v.is_zero(),
        0 <= length,
    ensures
        ({
            let r = v.with_length_floor(length);
            &&& v.x >= 0 ==> r.x >= 0
            &&& v.x <= 0 ==> r.x <= 0
            &&& v.y >= 0 ==> r.y >= 0
            &&& v.y <= 0 ==> r.y <= 0
            &&& abs(r.x * v.y - r.y * v.x) < max(abs(v.x), abs(v.y))
        }),
{
    let r = v.with_length_floor(length);
    lemma_norm_dominates(v);
    let p = PRECISION as int;
    let c = v.norm_ceil();
    lemma_component(v.x, length, c);
    lemma_component(v.y, length, c);
    let ex = abs(v.x);
    let ey = abs(v.y);
    let a = ex * p * abs(length);
    let b = ey * p * abs(length);
    let qx = a / c;
    let qy = b / c;
    lemma_division(a, c);
    lemma_division(b, c);
    let big = max(ex, ey);
    let cross = r.x * v.y - r.y * v.x;
    let inner = qx * ey - qy * ex;
    assert(abs(cross) == abs(inner)) by (nonlinear_arith)
        requires
            cross == r.x * v.y - r.y * v.x,
            inner == qx * ey - qy * ex,
            (r.x == qx && v.x == ex) || (r.x == -qx && v.x == -ex),
            (r.y == qy && v.y == ey) || (r.y == -qy && v.y == -ey),
    ;
    if length == 0 {
        assert(a == 0 && b == 0) by (nonlinear_arith)
            requires
                a == ex * p * 0,
                b == ey * p * 0,
        ;
        assert(inner == 0) by (nonlinear_arith)
            requires
                inner == qx * ey - qy * ex,
                qx == 0,
                qy == 0,
        ;
    } else {
        let rx = a - qx * c;
        let ry = b - qy * c;
        let hx = qx * c;
        let hy = qy * c;
        assert(a * ey == b * ex) by (nonlinear_arith)
            requires
                a == ex * p * length,
                b == ey * p * length,
        ;
        assert(c * inner == hx * ey - hy * ex) by (nonlinear_arith)
            requires
                inner == qx * ey - qy * ex,
                hx == qx * c,
                hy == qy * c,
        ;
        assert(hx * ey - hy * ex == a * ey - rx * ey - b * ex + ry * ex) by (nonlinear_arith)
            requires
                hx == a - rx,
                hy == b - ry,
        ;
        assert(-(c * big) < ry * ex - rx * ey < c * big) by (nonlinear_arith)
            requires
                0 <= rx < c,
                0 <= ry < c,
                0 <= ex <= big,
                0 <= ey <= big,
                big > 0,
        ;
        assert(-big < inner < big) by (nonlinear_arith)
            requires
                -(c * big) < c * inner < c * big,
                c > 0,
        ;
    }
}

/// A length that does not exceed the vector's own, enlarged by `PRECISION`,
/// does not exceed the vector's fine length rounded down.
proof fn lemma_length_below_norm(v: Vector, length: int)
    requires
        0 <= length,
        length * length <= v.len2(),
        !v.is_zero(),
    ensures
        length * PRECISION <= v.norm_floor(),
        length * PRECISION <= v.norm_ceil(),
{
    lemma_norm_dominates(v);
    lemma_sqrt_floor_bounds(v.fine_len2());
    let p = PRECISION as int;
    let f = v.norm_floor();
    let n = v.fine_len2() as int;
    let lp = length * p;
    assert(lp * lp <= n) by (nonlinear_arith)
        requires
            lp == length * p,
            length * length <= v.len2(),
            n == v.len2() * (p * p),
    ;
    if lp > f {
        assert((f + 1) * (f + 1) <= lp * lp) by (nonlinear_arith)
            requires
                0 <= f + 1 <= lp,
        ;
    }
}

/// Rescaling to a length that the vector already has or exceeds moves no
/// component away from zero or across it, whichever way it is rounded.
/// Rounded away from zero to a positive length, every non-zero component
/// stays non-zero.
pub proof fn lemma_with_length_shrinks(v: Vector, length: int)
    requires
        0 <= length,
        length * length <= v.len2(),
    ensures
        ({
            let down = v.with_length_floor(length);
            let up = v.with_length_ceil(length);
            &&& v.x >= 0 ==> 0 <= down.x <= up.x <= v.x
            &&& v.x <= 0 ==> v.x <= up.x <= down.x <= 0
            &&& v.y >= 0 ==> 0 <= down.y <= up.y <= v.y
            &&& v.y <= 0 ==> v.y <= up.y <= down.y <= 0
            &&& length > 0 && v.x != 0 ==> up.x != 0
            &&& length > 0 && v.y != 0 ==> up.y != 0
        }),
{
    if !v.is_zero() {
        lemma_norm_dominates(v);
        lemma_length_below_norm(v, length);
        lemma_component_shrinks(v.x, length, v.norm_floor(), v.norm_ceil());
        lemma_component_shrinks(v.y, length, v.norm_floor(), v.norm_ceil());
    }
}

/// One component of `lemma_with_length_shrinks`.
proof fn lemma_component_shrinks(c: int, length: int, f: int, g: int)
    requires
        0 <= length,
        0 < f <= g,
        length * PRECISION <= f,
    ensures
        ({
            let down = div_toward_zero(c * PRECISION * length, g);
            let up = div_away_from_zero(c * PRECISION * length, f);
            &&& c >= 0 ==> 0 <= down <= up <= c
            &&& c <= 0 ==> c <= up <= down <= 0
            &&& length > 0 && c != 0 ==> up != 0
        }),
{
    let p = PRECISION as int;
    let a = abs(c) * p * abs(length);
    lemma_component(c, length, g);
    lemma_component(c, length, f);
    lemma_division(a, g);
    lemma_division_ceil(a, f);
    let qd = a / g;
    let qu = div_ceil(a, f);
    assert(a <= abs(c) * f && (length > 0 && c != 0 ==> a > 0)) by (nonlinear_arith)
        requires
            a == abs(c) * p * abs(length),
            0 <= length,
            length * p <= f,
            p > 0,
    ;
    assert(qu <= abs(c)) by (nonlinear_arith)
        requires
            qu * f < a + f,
            a <= abs(c) * f,
            f > 0,
            0 <= qu,
    ;
    assert(qd <= qu) by (nonlinear_arith)
        requires
            qd * g <= a,
            a <= qu * f,
            0 < f <= g,
            0 <= qd,
            0 <= qu,
    ;
}

impl Vec2 {
    pub fn new(x: i64, y: i64) -> (r: Vec2)
        ensures
            r == (Vec2 { x, y }),
    {
        Vec2 { x, y }
    }

    /// The zero vector.
    pub fn zero() -> (r: Vec2)
        ensures
            r@ == Vector::zero(),
    {
        Vec2 { x: 0, y: 0 }
    }

    pub fn is_zero(self) -> (r: bool)
        ensures
            r == self@.is_zero(),
    {
        self.x == 0 && self.y == 0
    }

    /// The square of the length.
    pub fn length_squared(self) -> (r: u128)
        ensures
            r == self@.len2(),
    {
        let ax: u128 = magnitude(self.x) as u128;
        let ay: u128 = magnitude(self.y) as u128;
        proof {
            lemma_product_bound(ax as int, ax as int, 0x8000_0000_0000_0000, 0x8000_0000_0000_0000);
            lemma_product_bound(ay as int, ay as int, 0x8000_0000_0000_0000, 0x8000_0000_0000_0000);
            assert(0x8000_0000_0000_0000int * 0x8000_0000_0000_0000int
                == 0x4000_0000_0000_0000_0000_0000_0000_0000int) by (nonlinear_arith);
            lemma_abs_product(self.x as int, self.x as int);
            lemma_abs_product(self.y as int, self.y as int);
        }
        ax * ax + ay * ay
    }

    /// The sum of two vectors within `REACH`.
    pub fn plus(self, other: Vec2) -> (r: Vec2)
        requires
            self@.within(REACH as int),
            other@.within(REACH as int),
        ensures
            r@ == self@.plus(other@),
    {
        Vec2 { x: self.x + other.x, y: self.y + other.y }
    }

    /// The difference of two vectors within `REACH`.
    pub fn minus(self, other: Vec2) -> (r: Vec2)
        requires
            self@.within(REACH as int),
            other@.within(REACH as int),
        ensures
            r@ == self@.minus(other@),
    {
        Vec2 { x: self.x - other.x, y: self.y - other.y }
    }

    /// Each component halved, rounded toward zero.
    pub fn half(self) -> (r: Vec2)
        ensures
            r@ == self@.half(),
    {
        Vec2 { x: halve(self.x), y: halve(self.y) }
    }

    /// `PRECISION` times the length, rounded down and rounded up.
    fn norms(self) -> (r: (u64, u64))
        requires
            self@.within(REACH as int),
        ensures
            r.0 == self@.norm_floor(),
            r.1 == self@.norm_ceil(),
    {
        let ax: u128 = magnitude(self.x) as u128 * (PRECISION as u128);
        let ay: u128 = magnitude(self.y) as u128 * (PRECISION as u128);
        proof {
            assert(ax == abs(self.x as int) * 0x8_0000);
            assert(ay == abs(self.y as int) * 0x8_0000);
            assert((self.x * PRECISION) * (self.x * PRECISION) >= 0 && (self.y * PRECISION) * (
            self.y * PRECISION) >= 0) by (nonlinear_arith);
            lemma_product_bound(ax as int, ax as int, 0x8000_0000_0000_0000, 0x8000_0000_0000_0000);
            lemma_product_bound(ay as int, ay as int, 0x8000_0000_0000_0000, 0x8000_0000_0000_0000);
            assert(0x8000_0000_0000_0000int * 0x8000_0000_0000_0000int
                == 0x4000_0000_0000_0000_0000_0000_0000_0000int) by (nonlinear_arith);
            let p = PRECISION as int;
            assert(ax * ax == (self.x * p) * (self.x * p) && ay * ay == (self.y * p) * (self.y
                * p)) by (nonlinear_arith)
                requires
                    ax == abs(self.x as int) * p,
                    ay == abs(self.y as int) * p,
            ;
        }
        let n: u128 = ax * ax + ay * ay;
        (isqrt(n), isqrt_ceil(n))
    }

    /// The vector along `self` with the given length, rounded toward zero.
    pub fn with_length_floor(self, length: i64) -> (r: Vec2)
        requires
            self@.within(REACH as int),
            within(length as int, REACH as int),
        ensures
            r@ == self@.with_length_floor(length as int),
            r@.within(abs(length as int)),
    {
        if self.x == 0 && self.y == 0 {
            return Vec2 { x: 0, y: 0 };
        }
        let (_, norm) = self.norms();
        proof {
            lemma_norm_dominates(self@);
        }
        Vec2 {
            x: scale_toward_zero(self.x, length, norm),
            y: scale_toward_zero(self.y, length, norm),
        }
    }

    /// The vector along `self` with the given length, rounded away from zero.
    pub fn with_length_ceil(self, length: i64) -> (r: Vec2)
        requires
            self@.within(REACH as int),
            within(length as int, REACH as int),
        ensures
            r@ == self@.with_length_ceil(length as int),
            r@.within(abs(length as int)),
    {
        if self.x == 0 && self.y == 0 {
            return Vec2 { x: 0, y: 0 };
        }
        let (norm, _) = self.norms();
        proof {
            lemma_norm_dominates(self@);
        }
        Vec2 {
            x: scale_away_from_zero(self.x, length, norm),
            y: scale_away_from_zero(self.y, length, norm),
        }
    }
}

/// Half of `v`, rounded toward zero.
pub fn halve(v: i64) -> (r: i64)
    ensures
        r == div_toward_zero(v as int, 2),
{
    let m: u64 = magnitude(v) / 2;
    if v >= 0 {
        m as i64
    } else {
        -(m as i64)
    }
}

/// `c * PRECISION * length / norm`, rounded toward zero, for a component `c`
/// of a vector whose fine length is at most `norm`.
fn scale_toward_zero(c: i64, length: i64, norm: u64) -> (r: i64)
    requires
        within(c as int, REACH as int),
        within(length as int, REACH as int),
        norm > 0,
        abs(c as int) * PRECISION <= norm,
    ensures
        r == div_toward_zero(c * PRECISION * length, norm as int),
        within(r as int, abs(length as int)),
{
    let ac: u128 = magnitude(c) as u128 * (PRECISION as u128);
    let al: u128 = magnitude(length) as u128;
    proof {
        lemma_product_bound(ac as int, al as int, norm as int, REACH as int);
        lemma_product_bound(norm as int, REACH as int, u64::MAX as int, REACH as int);
        lemma_division((ac * al) as int, norm as int);
        lemma_abs_product(c * PRECISION, length as int);
        assert(ac * al <= norm * al) by (nonlinear_arith)
            requires
                0 <= ac <= norm,
                0 <= al,
        ;
        assert((ac * al) as int / (norm as int) <= al) by (nonlinear_arith)
            requires
                0 <= ac * al <= norm * al,
                norm > 0,
        ;
    }
    let q: u128 = ac * al / (norm as u128);
    if (c < 0) == (length < 0) {
        q as i64
    } else {
        -(q as i64)
    }
}

/// `c * PRECISION * length / norm`, rounded away from zero, for a component
/// `c` of a vector whose fine length is at least `norm`.
fn scale_away_from_zero(c: i64, length: i64, norm: u64) -> (r: i64)
    requires
        within(c as int, REACH as int),
        within(length as int, REACH as int),
        norm > 0,
        abs(c as int) * PRECISION <= norm,
    ensures
        r == div_away_from_zero(c * PRECISION * length, norm as int),
        within(r as int, abs(length as int)),
{
    let ac: u128 = magnitude(c) as u128 * (PRECISION as u128);
    let al: u128 = magnitude(length) as u128;
    proof {
        lemma_product_bound(ac as int, al as int, norm as int, REACH as int);
        lemma_product_bound(norm as int, REACH as int, u64::MAX as int, REACH as int);
        lemma_division_ceil((ac * al) as int, norm as int);
        lemma_abs_product(c * PRECISION, length as int);
        assert(ac * al <= norm * al) by (nonlinear_arith)
            requires
                0 <= ac <= norm,
                0 <= al,
        ;
        assert(div_ceil((ac * al) as int, norm as int) <= al) by (nonlinear_arith)
            requires
                0 <= ac * al <= norm * al,
                norm > 0,
                div_ceil((ac * al) as int, norm as int) * norm < ac * al + norm,
        ;
    }
    let q: u128 = (ac * al + (norm as u128 - 1)) / (norm as u128);
    if (c < 0) == (length < 0) {
        q as i64
    } else {
        -(q as i64)
    }
}

} // verus!
