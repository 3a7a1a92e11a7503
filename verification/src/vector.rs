//! Two-dimensional vectors. `Vector` is the mathematical vector over the
//! integers that contracts speak of; `Vec2` is its machine form, with `i64`
//! coordinates in sub-units.

use vstd::math::{abs, max};
use vstd::prelude::*;
use crate::arith::{
    div_ceil, div_trunc, isqrt, isqrt_ceil, lemma_sqrt_ceil_bounds, lemma_sqrt_floor_exists,
    lemma_square_le, lemma_square_lt_root, sqrt_ceil, sqrt_floor,
};

verus! {

/// Largest length to which `Vec2::clamp_length` can stretch a vector.
pub const SPEED_LIMIT: i64 = 2_147_483_647;

/// Largest magnitude of a coordinate of a vector that `Vec2::with_length`
/// takes.
pub const DIRECTION_LIMIT: i64 = 4_000_000_000_000;

/// Largest length that `Vec2::with_length` gives.
pub const LENGTH_LIMIT: i64 = 1_048_576;

/// A vector of the integer plane.
pub struct Vector {
    pub x: int,
    pub y: int,
}

impl Vector {
    pub open spec fn zero() -> Vector {
        Vector { x: 0, y: 0 }
    }

    pub open spec fn plus(self, other: Vector) -> Vector {
        Vector { x: self.x + other.x, y: self.y + other.y }
    }

    pub open spec fn minus(self, other: Vector) -> Vector {
        Vector { x: self.x - other.x, y: self.y - other.y }
    }

    /// The vector multiplied by the integer `k`.
    pub open spec fn times(self, k: int) -> Vector {
        Vector { x: self.x * k, y: self.y * k }
    }

    /// The vector divided by a positive `n`, each coordinate rounded toward
    /// zero.
    pub open spec fn over(self, n: int) -> Vector {
        Vector { x: div_trunc(self.x, n), y: div_trunc(self.y, n) }
    }

    /// The square of the Euclidean length.
    pub open spec fn norm_sq(self) -> int {
        self.x * self.x + self.y * self.y
    }

    /// Both coordinates lie in `[-limit, limit]`.
    pub open spec fn within(self, limit: int) -> bool {
        -limit <= self.x <= limit && -limit <= self.y <= limit
    }

    /// Neither coordinate of `self` has the opposite sign of the same
    /// coordinate of `other`, and a zero coordinate of `other` is zero here.
    pub open spec fn along(self, other: Vector) -> bool {
        &&& other.x >= 0 ==> self.x >= 0
        &&& other.x <= 0 ==> self.x <= 0
        &&& other.y >= 0 ==> self.y >= 0
        &&& other.y <= 0 ==> self.y <= 0
    }

    /// The cross product with `other`: zero exactly where the two vectors
    /// lie on one line through the origin.
    pub open spec fn cross(self, other: Vector) -> int {
        self.x * other.y - self.y * other.x
    }

    /// `self` keeps the direction of `other` as far as whole coordinates
    /// allow: it points along `other`, and their cross product is smaller in
    /// magnitude than the larger coordinate of `other`, or zero where
    /// `other` is zero. Rounding each coordinate of an exact multiple of
    /// `other` by less than one gives just that. The zero vector, which has
    /// no direction, keeps that of every vector: how long `self` is, is for
    /// other clauses to say.
    pub open spec fn keeps_direction_of(self, other: Vector) -> bool {
        &&& self.along(other)
        &&& other == Vector::zero() ==> self.cross(other) == 0
        &&& other != Vector::zero() ==> abs(self.cross(other)) < max(
            abs(other.x) as int,
            abs(other.y) as int,
        )
    }

    /// The vector shortened to length `max` where it is longer: each
    /// coordinate times `max` over the length, the length rounded up and the
    /// quotient toward zero, so that the result is never longer than `max`.
    pub open spec fn clamp_length_max(self, max: int) -> Vector
        recommends
            max >= 0,
    {
        if self.norm_sq() <= max * max {
            self
        } else {
            let len = sqrt_ceil(self.norm_sq());
            Vector { x: div_trunc(self.x * max, len), y: div_trunc(self.y * max, len) }
        }
    }

    /// The coordinate `c` of a vector of squared length `norm_sq`, after the
    /// vector is stretched to length `target`: `|c| * target / length`
    /// rounded up, with the sign of `c`.
    pub open spec fn stretched(c: int, target: int, norm_sq: int) -> int
        recommends
            norm_sq > 0,
    {
        let r = sqrt_ceil(div_ceil(c * c * (target * target), norm_sq));
        if c < 0 {
            -r
        } else {
            r
        }
    }

    /// The coordinate `c` of a vector of squared length `norm_sq`, after the
    /// vector is brought to length `target`: `|c| * target / length` rounded
    /// down, with the sign of `c`.
    pub open spec fn scaled(c: int, target: int, norm_sq: int) -> int
        recommends
            norm_sq > 0,
    {
        let r = sqrt_floor((c * c * (target * target)) / norm_sq);
        if c < 0 {
            -r
        } else {
            r
        }
    }

    /// The vector of length `length` that points the way of this one, each
    /// coordinate rounded toward zero. The zero vector points nowhere and
    /// stays as it is.
    pub open spec fn with_length(self, length: int) -> Vector
        recommends
            0 <= length,
    {
        if self.norm_sq() == 0 {
            self
        } else {
            Vector {
                x: Self::scaled(self.x, length, self.norm_sq()),
                y: Self::scaled(self.y, length, self.norm_sq()),
            }
        }
    }

    /// Each coordinate of `self` is that of `other`, brought to length
    /// `length` and rounded toward zero by less than one: with `q` the
    /// squared length of `other`, `c` a coordinate of `other` and `r` the
    /// magnitude of the same coordinate of `self`,
    /// `r * sqrt(q) <= |c| * length < (r + 1) * sqrt(q)`, written in squares.
    pub open spec fn is_scaled(self, other: Vector, length: int) -> bool {
        let q = other.norm_sq();
        &&& self.along(other)
        &&& self.x * self.x * q <= other.x * other.x * (length * length)
        &&& other.x * other.x * (length * length) < (abs(self.x) + 1) * (abs(self.x) + 1) * q
        &&& self.y * self.y * q <= other.y * other.y * (length * length)
        &&& other.y * other.y * (length * length) < (abs(self.y) + 1) * (abs(self.y) + 1) * q
    }

    /// The vector brought to a length between `min` and `max`: stretched to
    /// `min` where it is shorter, shortened to `max` where it is longer. The
    /// zero vector has no direction and stays as it is.
    pub open spec fn clamp_length(self, min: int, max: int) -> Vector
        recommends
            0 <= min,
            0 <= max,
    {
        if self.norm_sq() == 0 {
            self
        } else if self.norm_sq() < min * min {
            Vector {
                x: Self::stretched(self.x, min, self.norm_sq()),
                y: Self::stretched(self.y, min, self.norm_sq()),
            }
        } else {
            self.clamp_length_max(max)
        }
    }
}

/// A squared length is never negative, and zero only for the zero vector.
pub proof fn lemma_norm_sq_zero(v: Vector)
    ensures
        v.norm_sq() >= 0,
        v.norm_sq() == 0 <==> v == Vector::zero(),
{
    assert(v.x * v.x >= 0 && v.y * v.y >= 0) by (nonlinear_arith);
    assert(v.x != 0 ==> v.x * v.x > 0) by (nonlinear_arith);
    assert(v.y != 0 ==> v.y * v.y > 0) by (nonlinear_arith);
}

/// The quotient `a * m / l` of non-negative integers, held against `a * m`
/// and, squared, against the squares.
pub proof fn lemma_quotient_square(a: int, m: int, l: int)
    requires
        a >= 0,
        m >= 0,
        l > 0,
    ensures
        0 <= (a * m) / l,
        ((a * m) / l) * l <= a * m < ((a * m) / l + 1) * l,
        ((a * m) / l) * ((a * m) / l) * (l * l) <= a * a * (m * m),
        ((a * m) / l + 1) * ((a * m) / l + 1) * (l * l) > a * a * (m * m),
        a <= l ==> (a * m) / l <= m,
{
    let p = a * m;
    let w = p / l;
    assert(p >= 0) by (nonlinear_arith)
        requires
            p == a * m,
            a >= 0,
            m >= 0,
    ;
    assert(0 <= w && w * l <= p < (w + 1) * l) by (nonlinear_arith)
        requires
            w == p / l,
            p >= 0,
            l > 0,
    ;
    assert(w * w * (l * l) <= a * a * (m * m)) by (nonlinear_arith)
        requires
            0 <= w * l <= p,
            p == a * m,
    {
        assert((w * l) * (w * l) <= p * p);
        assert((w * l) * (w * l) == w * w * (l * l));
        assert(p * p == a * a * (m * m));
    }
    assert((w + 1) * (w + 1) * (l * l) > a * a * (m * m)) by (nonlinear_arith)
        requires
            0 <= p < (w + 1) * l,
            p == a * m,
    {
        assert(((w + 1) * l) * ((w + 1) * l) > p * p);
        assert(((w + 1) * l) * ((w + 1) * l) == (w + 1) * (w + 1) * (l * l));
        assert(p * p == a * a * (m * m));
    }
    if a <= l {
        assert(w <= m) by (nonlinear_arith)
            requires
                w * l <= a * m,
                0 <= a <= l,
                m >= 0,
                l > 0,
                w >= 0,
        ;
    }
}

/// One coordinate of a shortened vector: `div_trunc(c * max, len)` is the
/// quotient of the magnitudes with the sign of `c`.
pub proof fn lemma_shortened_coordinate(c: int, max: int, len: int)
    requires
        max >= 0,
        len > 0,
    ensures
        c >= 0 ==> div_trunc(c * max, len) == (c * max) / len,
        c < 0 ==> div_trunc(c * max, len) == -(((-c) * max) / len),
{
    if c >= 0 {
        assert(c * max >= 0) by (nonlinear_arith)
            requires
                c >= 0,
                max >= 0,
        ;
    } else {
        assert((-c) * max == -(c * max) && c * max <= 0) by (nonlinear_arith)
            requires
                c < 0,
                max >= 0,
        ;
        if c * max == 0 {
            assert(0int / len == 0) by (nonlinear_arith)
                requires
                    len > 0,
            ;
        }
    }
}

/// `clamp_length_max` never gives a vector longer than `max`: the result
/// points along `v`, no coordinate exceeds `max`, and its length is at most
/// `max`.
pub proof fn lemma_clamp_length_max_shortens(v: Vector, max: int)
    requires
        max >= 0,
    ensures
        v.clamp_length_max(max).norm_sq() <= max * max,
        v.clamp_length_max(max).within(max),
        v.clamp_length_max(max).along(v),
{
    let q = v.norm_sq();
    let w = v.clamp_length_max(max);
    assert(v.x * v.x >= 0 && v.y * v.y >= 0) by (nonlinear_arith);
    if q > max * max {
        lemma_sqrt_ceil_bounds(q);
        let len = sqrt_ceil(q);
        let ax = if v.x < 0 { -v.x } else { v.x };
        let ay = if v.y < 0 { -v.y } else { v.y };
        assert(ax * ax == v.x * v.x && ay * ay == v.y * v.y) by (nonlinear_arith)
            requires
                ax == v.x || ax == -v.x,
                ay == v.y || ay == -v.y,
        ;
        if ax > len {
            lemma_square_le(len + 1, ax);
            assert((len + 1) * (len + 1) > len * len) by (nonlinear_arith)
                requires
                    len >= 0,
            ;
        }
        if ay > len {
            lemma_square_le(len + 1, ay);
            assert((len + 1) * (len + 1) > len * len) by (nonlinear_arith)
                requires
                    len >= 0,
            ;
        }
        lemma_shortened_coordinate(v.x, max, len);
        lemma_shortened_coordinate(v.y, max, len);
        lemma_quotient_square(ax, max, len);
        lemma_quotient_square(ay, max, len);
        let ux = (ax * max) / len;
        let uy = (ay * max) / len;
        assert(ax == 0 ==> ux == 0) by (nonlinear_arith)
            requires
                ux == (ax * max) / len,
                len > 0,
        ;
        assert(ay == 0 ==> uy == 0) by (nonlinear_arith)
            requires
                uy == (ay * max) / len,
                len > 0,
        ;
        assert(w.x == ux || w.x == -ux);
        assert(w.y == uy || w.y == -uy);
        assert(w.x * w.x == ux * ux && w.y * w.y == uy * uy) by (nonlinear_arith)
            requires
                w.x == ux || w.x == -ux,
                w.y == uy || w.y == -uy,
        ;
        assert(ux * ux + uy * uy <= max * max) by (nonlinear_arith)
            requires
                ux * ux * (len * len) <= ax * ax * (max * max),
                uy * uy * (len * len) <= ay * ay * (max * max),
                ax * ax + ay * ay <= len * len,
                len > 0,
        {
            assert((ux * ux + uy * uy) * (len * len) <= (ax * ax + ay * ay) * (max * max));
            assert((ax * ax + ay * ay) * (max * max) <= (len * len) * (max * max));
        }
    } else {
        if v.x > max || v.x < -max {
            assert(v.x * v.x > max * max) by (nonlinear_arith)
                requires
                    v.x > max || v.x < -max,
                    max >= 0,
            ;
        }
        if v.y > max || v.y < -max {
            assert(v.y * v.y > max * max) by (nonlinear_arith)
                requires
                    v.y > max || v.y < -max,
                    max >= 0,
            ;
        }
    }
}

/// The rounded-up quotient of `a` by `b`, held against `a`.
pub proof fn lemma_div_ceil(a: int, b: int)
    by (nonlinear_arith)
    requires
        a >= 0,
        b > 0,
    ensures
        0 <= div_ceil(a, b),
        div_ceil(a, b) * b >= a,
        (div_ceil(a, b) - 1) * b < a,
        a == 0 ==> div_ceil(a, b) == 0,
{
}

/// The magnitude of one coordinate of a stretched vector: it is at most
/// `target`, and its square, times the squared length, brackets the square
/// of `c * target`.
pub proof fn lemma_stretched_magnitude(c: int, target: int, norm_sq: int)
    requires
        target > 0,
        norm_sq > 0,
        c * c <= norm_sq,
    ensures
        ({
            let r = sqrt_ceil(div_ceil(c * c * (target * target), norm_sq));
            &&& 0 <= r <= target
            &&& r * r * norm_sq >= c * c * (target * target)
            &&& r >= 1 ==> (r - 1) * (r - 1) * norm_sq < c * c * (target * target)
            &&& c == 0 ==> r == 0
            &&& Vector::stretched(c, target, norm_sq) == if c < 0 { -r } else { r }
        }),
{
    let n = c * c * (target * target);
    assert(n >= 0 && n <= norm_sq * (target * target)) by (nonlinear_arith)
        requires
            n == c * c * (target * target),
            c * c <= norm_sq,
    ;
    lemma_div_ceil(n, norm_sq);
    let t = div_ceil(n, norm_sq);
    lemma_sqrt_ceil_bounds(t);
    let r = sqrt_ceil(t);
    assert(t <= target * target) by (nonlinear_arith)
        requires
            (t - 1) * norm_sq < n,
            n <= norm_sq * (target * target),
            norm_sq > 0,
    ;
    if r > target {
        lemma_square_le(target, r - 1);
    }
    assert(r * r * norm_sq >= n) by (nonlinear_arith)
        requires
            r * r >= t,
            t * norm_sq >= n,
            norm_sq > 0,
    ;
    if r >= 1 {
        assert((r - 1) * (r - 1) * norm_sq < n) by (nonlinear_arith)
            requires
                (r - 1) * (r - 1) < t,
                (t - 1) * norm_sq < n,
                norm_sq > 0,
        {
            assert((r - 1) * (r - 1) <= t - 1);
            assert((r - 1) * (r - 1) * norm_sq <= (t - 1) * norm_sq);
        }
    }
    if c == 0 {
        assert(n == 0) by (nonlinear_arith)
            requires
                n == c * c * (target * target),
                c == 0,
        ;
        assert(r == 0) by {
            lemma_sqrt_floor_exists(0);
            assert(sqrt_floor(0) * sqrt_floor(0) == 0) by (nonlinear_arith)
                requires
                    0 <= sqrt_floor(0),
                    sqrt_floor(0) * sqrt_floor(0) <= 0,
            ;
        }
    }
}

/// A vector shorter than `min` and not zero, stretched by `clamp_length`,
/// is at least `min` long and shorter than `min + 2`.
pub proof fn lemma_stretch_bounds(v: Vector, min: int, max: int)
    requires
        0 < v.norm_sq() < min * min,
        min > 0,
    ensures
        min * min <= v.clamp_length(min, max).norm_sq() < (min + 2) * (min + 2),
        v.clamp_length(min, max).within(min),
        v.clamp_length(min, max).along(v),
{
    let q = v.norm_sq();
    let w = v.clamp_length(min, max);
    let m2 = min * min;
    assert(v.x * v.x >= 0 && v.y * v.y >= 0) by (nonlinear_arith);
    lemma_stretched_magnitude(v.x, min, q);
    lemma_stretched_magnitude(v.y, min, q);
    let rx = sqrt_ceil(div_ceil(v.x * v.x * m2, q));
    let ry = sqrt_ceil(div_ceil(v.y * v.y * m2, q));
    assert(w.x * w.x == rx * rx && w.y * w.y == ry * ry) by (nonlinear_arith)
        requires
            w.x == rx || w.x == -rx,
            w.y == ry || w.y == -ry,
    ;
    assert(rx * rx + ry * ry >= m2) by (nonlinear_arith)
        requires
            rx * rx * q >= v.x * v.x * m2,
            ry * ry * q >= v.y * v.y * m2,
            q == v.x * v.x + v.y * v.y,
            q > 0,
    {
        assert((rx * rx + ry * ry) * q >= (v.x * v.x + v.y * v.y) * m2);
    }
    let dx = if rx >= 1 { rx - 1 } else { 0 };
    let dy = if ry >= 1 { ry - 1 } else { 0 };
    assert(dx * dx * q <= v.x * v.x * m2) by (nonlinear_arith)
        requires
            rx >= 1 ==> (rx - 1) * (rx - 1) * q < v.x * v.x * m2,
            dx == if rx >= 1 { rx - 1 } else { 0 },
            v.x * v.x >= 0,
            m2 == min * min,
    ;
    assert(dy * dy * q <= v.y * v.y * m2) by (nonlinear_arith)
        requires
            ry >= 1 ==> (ry - 1) * (ry - 1) * q < v.y * v.y * m2,
            dy == if ry >= 1 { ry - 1 } else { 0 },
            v.y * v.y >= 0,
            m2 == min * min,
    ;
    assert(dx * dx + dy * dy <= m2) by (nonlinear_arith)
        requires
            dx * dx * q <= v.x * v.x * m2,
            dy * dy * q <= v.y * v.y * m2,
            q == v.x * v.x + v.y * v.y,
            q > 0,
    {
        assert((dx * dx + dy * dy) * q <= (v.x * v.x + v.y * v.y) * m2);
    }
    assert(rx * rx + ry * ry < (min + 2) * (min + 2)) by (nonlinear_arith)
        requires
            dx * dx + dy * dy <= min * min,
            0 <= rx <= dx + 1,
            0 <= ry <= dy + 1,
            0 <= dx,
            0 <= dy,
            rx <= min,
            ry <= min,
            min > 0,
    {
        assert(rx * rx <= (dx + 1) * (dx + 1));
        assert(ry * ry <= (dy + 1) * (dy + 1));
        assert((dx + 1) * (dx + 1) + (dy + 1) * (dy + 1) == dx * dx + dy * dy + 2 * (dx + dy) + 2);
        assert(dx <= min && dy <= min);
    }
}

/// A vector longer than `max`, shortened to `max`, is still at least `min`
/// long where `min` is three or more below `max`.
pub proof fn lemma_shortened_not_short(v: Vector, min: int, max: int)
    requires
        0 <= min,
        min + 3 <= max,
        v.norm_sq() > max * max,
    ensures
        min * min <= v.clamp_length_max(max).norm_sq(),
{
    let q = v.norm_sq();
    let w = v.clamp_length_max(max);
    assert(v.x * v.x >= 0 && v.y * v.y >= 0) by (nonlinear_arith);
    assert(w.x * w.x >= 0 && w.y * w.y >= 0) by (nonlinear_arith);
    if min > 0 && w.norm_sq() < min * min {
        lemma_sqrt_ceil_bounds(q);
        let len = sqrt_ceil(q);
        let ax = if v.x < 0 { -v.x } else { v.x };
        let ay = if v.y < 0 { -v.y } else { v.y };
        assert(ax * ax == v.x * v.x && ay * ay == v.y * v.y) by (nonlinear_arith)
            requires
                ax == v.x || ax == -v.x,
                ay == v.y || ay == -v.y,
        ;
        lemma_shortened_coordinate(v.x, max, len);
        lemma_shortened_coordinate(v.y, max, len);
        lemma_quotient_square(ax, max, len);
        lemma_quotient_square(ay, max, len);
        let ux = (ax * max) / len;
        let uy = (ay * max) / len;
        assert(w.x * w.x == ux * ux && w.y * w.y == uy * uy) by (nonlinear_arith)
            requires
                w.x == ux || w.x == -ux,
                w.y == uy || w.y == -uy,
        ;
        // each magnitude is below min
        if ux >= min {
            lemma_square_le(min, ux);
        }
        if uy >= min {
            lemma_square_le(min, uy);
        }
        let s1 = (ux + 1) * (ux + 1) + (uy + 1) * (uy + 1);
        assert(s1 < (min + 2) * (min + 2)) by (nonlinear_arith)
            requires
                s1 == (ux + 1) * (ux + 1) + (uy + 1) * (uy + 1),
                ux * ux + uy * uy < min * min,
                0 <= ux <= min - 1,
                0 <= uy <= min - 1,
        ;
        assert(s1 * (len * len) > q * (max * max)) by (nonlinear_arith)
            requires
                s1 == (ux + 1) * (ux + 1) + (uy + 1) * (uy + 1),
                (ux + 1) * (ux + 1) * (len * len) > ax * ax * (max * max),
                (uy + 1) * (uy + 1) * (len * len) > ay * ay * (max * max),
                q == ax * ax + ay * ay,
        ;
        // the length exceeds max
        if len <= max {
            lemma_square_le(len, max);
        }
        assert(q * (max * max) >= (len - 1) * (len - 1) * (max * max)) by (nonlinear_arith)
            requires
                (len - 1) * (len - 1) < q,
        ;
        assert(((len - 1) * max) * ((len - 1) * max) < ((min + 2) * len) * ((min + 2) * len))
            by (nonlinear_arith)
            requires
                s1 * (len * len) > (len - 1) * (len - 1) * (max * max),
                s1 < (min + 2) * (min + 2),
                len > 0,
        {
            assert(s1 * (len * len) <= (min + 2) * (min + 2) * (len * len));
        }
        assert((len - 1) * max >= 0 && (min + 2) * len >= 0) by (nonlinear_arith)
            requires
                len >= 1,
                max >= 0,
                min >= 0,
        ;
        lemma_square_lt_root((len - 1) * max, (min + 2) * len);
        assert(false) by (nonlinear_arith)
            requires
                (len - 1) * max < (min + 2) * len,
                min + 3 <= max,
                len >= max + 1,
                min >= 0,
        ;
    }
}

/// `clamp_length` of a vector that is not zero lies between `min` and
/// `max`, where `max` leaves at least three sub-units of room above `min`,
/// and points along `v`.
pub proof fn lemma_clamp_length_bounds(v: Vector, min: int, max: int)
    requires
        0 <= min,
        min + 3 <= max,
        v.norm_sq() != 0,
    ensures
        min * min <= v.clamp_length(min, max).norm_sq() <= max * max,
        v.clamp_length(min, max).within(max),
        v.clamp_length(min, max).along(v),
{
    assert(v.norm_sq() >= 0) by (nonlinear_arith)
        requires
            v.norm_sq() == v.x * v.x + v.y * v.y,
    ;
    if v.norm_sq() < min * min {
        assert(min > 0) by (nonlinear_arith)
            requires
                0 < min * min,
                0 <= min,
        ;
        lemma_stretch_bounds(v, min, max);
        lemma_square_le(min + 2, max);
    } else {
        lemma_clamp_length_max_shortens(v, max);
        if v.norm_sq() > max * max {
            lemma_shortened_not_short(v, min, max);
        }
    }
}

/// The cross product of two vectors is, up to sign, the cross product of
/// their coordinates' magnitudes, where each coordinate of `w` has the sign
/// of the same coordinate of `v` or is zero.
proof fn lemma_cross_of_magnitudes(w: Vector, v: Vector, ux: int, uy: int, ax: int, ay: int)
    requires
        ax == abs(v.x),
        ay == abs(v.y),
        ux >= 0,
        uy >= 0,
        w.x == if v.x < 0 { -ux } else { ux },
        w.y == if v.y < 0 { -uy } else { uy },
    ensures
        abs(w.cross(v)) == abs(ux * ay - uy * ax),
{
    assert(w.x * v.y == ux * ay || w.x * v.y == -(ux * ay)) by (nonlinear_arith)
        requires
            w.x == ux || w.x == -ux,
            v.y == ay || v.y == -ay,
    ;
    assert(w.y * v.x == uy * ax || w.y * v.x == -(uy * ax)) by (nonlinear_arith)
        requires
            w.y == uy || w.y == -uy,
            v.x == ax || v.x == -ax,
    ;
    if (v.x < 0) == (v.y < 0) {
        assert(w.x * v.y == ux * ay && w.y * v.x == uy * ax) by (nonlinear_arith)
            requires
                (w.x == ux && v.x == ax && w.y == uy && v.y == ay) || (w.x == -ux && v.x == -ax
                    && w.y == -uy && v.y == -ay),
        ;
    } else {
        assert(w.x * v.y == -(ux * ay) && w.y * v.x == -(uy * ax)) by (nonlinear_arith)
            requires
                (w.x == ux && v.x == ax && w.y == -uy && v.y == -ay) || (w.x == -ux && v.x == -ax
                    && w.y == uy && v.y == ay),
        ;
    }
}

/// Two quotients `ux = ax * m / l` and `uy = ay * m / l`, rounded down:
/// `ux * ay` exceeds `uy * ax` by less than `ax`.
proof fn lemma_cross_between(ux: int, uy: int, ax: int, ay: int, m: int, l: int)
    requires
        ux * l <= ax * m,
        ay * m < (uy + 1) * l,
        l > 0,
        ax >= 0,
        ay >= 0,
        ux >= 0,
        uy >= 0,
        ax == 0 ==> ux == 0,
    ensures
        ax > 0 ==> ux * ay - uy * ax < ax,
        ax == 0 ==> ux * ay - uy * ax == 0,
{
    if ax > 0 {
        assert(ux * l * ay <= ax * m * ay) by (nonlinear_arith)
            requires
                ux * l <= ax * m,
                ay >= 0,
        ;
        assert(ay * m * ax < (uy + 1) * l * ax) by (nonlinear_arith)
            requires
                ay * m < (uy + 1) * l,
                ax > 0,
        ;
        assert(ax * m * ay == ay * m * ax) by (nonlinear_arith);
        assert(ux * ay < (uy + 1) * ax) by (nonlinear_arith)
            requires
                ux * l * ay < (uy + 1) * l * ax,
                l > 0,
        {
            assert((ux * ay) * l < ((uy + 1) * ax) * l);
        }
        assert((uy + 1) * ax == uy * ax + ax) by (nonlinear_arith);
    } else {
        assert(ux * ay == 0 && uy * ax == 0) by (nonlinear_arith)
            requires
                ux == 0,
                ax == 0,
        ;
    }
}

/// Shortening keeps the direction: `clamp_length_max` of `v` is parallel
/// to `v` up to the rounding of its coordinates.
pub proof fn lemma_clamp_length_max_keeps_direction(v: Vector, max: int)
    requires
        max >= 0,
    ensures
        v.clamp_length_max(max).keeps_direction_of(v),
{
    let q = v.norm_sq();
    let w = v.clamp_length_max(max);
    lemma_clamp_length_max_shortens(v, max);
    lemma_norm_sq_zero(v);
    if q > max * max {
        lemma_sqrt_ceil_bounds(q);
        let len = sqrt_ceil(q);
        let ax = abs(v.x) as int;
        let ay = abs(v.y) as int;
        lemma_shortened_coordinate(v.x, max, len);
        lemma_shortened_coordinate(v.y, max, len);
        lemma_quotient_square(ax, max, len);
        lemma_quotient_square(ay, max, len);
        let ux = (ax * max) / len;
        let uy = (ay * max) / len;
        assert(ax == 0 ==> ux == 0) by (nonlinear_arith)
            requires
                ux == (ax * max) / len,
                len > 0,
        ;
        assert(ay == 0 ==> uy == 0) by (nonlinear_arith)
            requires
                uy == (ay * max) / len,
                len > 0,
        ;
        lemma_cross_of_magnitudes(w, v, ux, uy, ax, ay);
        // len * ux lies in (ax * max - len, ax * max], and likewise for uy
        lemma_cross_between(ux, uy, ax, ay, max, len);
        lemma_cross_between(uy, ux, ay, ax, max, len);
    } else {
        assert(w.cross(v) == 0) by (nonlinear_arith)
            requires
                w == v,
                w.cross(v) == w.x * v.y - w.y * v.x,
        ;
    }
}

/// Two magnitudes `rx` and `ry` of a stretched vector, both rounded up:
/// `rx * ay` exceeds `ry * ax` by less than `ay`.
proof fn lemma_stretched_cross(rx: int, ry: int, ax: int, ay: int, m2: int, q: int)
    requires
        q > 0,
        m2 >= 0,
        rx >= 0,
        ry >= 0,
        ax >= 0,
        ay >= 0,
        rx >= 1 ==> (rx - 1) * (rx - 1) * q < ax * ax * m2,
        ry * ry * q >= ay * ay * m2,
        ay == 0 ==> ry == 0,
    ensures
        ay > 0 ==> rx * ay - ry * ax < ay,
        ay == 0 ==> rx * ay - ry * ax == 0,
{
    if ay > 0 {
        if rx >= 1 {
            let d = rx - 1;
            assert(d * d * q * (ay * ay) < ax * ax * m2 * (ay * ay)) by (nonlinear_arith)
                requires
                    d * d * q < ax * ax * m2,
                    ay > 0,
            ;
            assert(ay * ay * m2 * (ax * ax) <= ry * ry * q * (ax * ax)) by (nonlinear_arith)
                requires
                    ay * ay * m2 <= ry * ry * q,
            ;
            assert(ax * ax * m2 * (ay * ay) == ay * ay * m2 * (ax * ax)) by (nonlinear_arith);
            assert((d * ay) * (d * ay) * q == d * d * q * (ay * ay)) by (nonlinear_arith);
            assert((ry * ax) * (ry * ax) * q == ry * ry * q * (ax * ax)) by (nonlinear_arith);
            assert((d * ay) * (d * ay) < (ry * ax) * (ry * ax)) by (nonlinear_arith)
                requires
                    (d * ay) * (d * ay) * q < (ry * ax) * (ry * ax) * q,
                    q > 0,
            ;
            assert(d * ay >= 0 && ry * ax >= 0) by (nonlinear_arith)
                requires
                    d >= 0,
                    ay >= 0,
                    ry >= 0,
                    ax >= 0,
            ;
            lemma_square_lt_root(d * ay, ry * ax);
            assert(d * ay == rx * ay - ay) by (nonlinear_arith)
                requires
                    d == rx - 1,
            ;
        } else {
            assert(rx * ay == 0 && ry * ax >= 0) by (nonlinear_arith)
                requires
                    rx == 0,
                    ry >= 0,
                    ax >= 0,
            ;
        }
    } else {
        assert(rx * ay == 0 && ry * ax == 0) by (nonlinear_arith)
            requires
                ay == 0,
                ry == 0,
        ;
    }
}

/// Stretching keeps the direction: where `clamp_length` stretches `v`,
/// the result is parallel to `v` up to the rounding of its coordinates.
pub proof fn lemma_stretch_keeps_direction(v: Vector, min: int, max: int)
    requires
        0 < v.norm_sq() < min * min,
        min > 0,
    ensures
        v.clamp_length(min, max).keeps_direction_of(v),
{
    let q = v.norm_sq();
    let w = v.clamp_length(min, max);
    let m2 = min * min;
    lemma_stretch_bounds(v, min, max);
    lemma_norm_sq_zero(v);
    assert(v.x * v.x >= 0 && v.y * v.y >= 0) by (nonlinear_arith);
    lemma_stretched_magnitude(v.x, min, q);
    lemma_stretched_magnitude(v.y, min, q);
    let rx = sqrt_ceil(div_ceil(v.x * v.x * m2, q));
    let ry = sqrt_ceil(div_ceil(v.y * v.y * m2, q));
    let ax = abs(v.x) as int;
    let ay = abs(v.y) as int;
    assert(ax * ax == v.x * v.x && ay * ay == v.y * v.y) by (nonlinear_arith)
        requires
            ax == v.x || ax == -v.x,
            ay == v.y || ay == -v.y,
    ;
    assert(m2 >= 0) by (nonlinear_arith)
        requires
            m2 == min * min,
    ;
    lemma_cross_of_magnitudes(w, v, rx, ry, ax, ay);
    lemma_stretched_cross(rx, ry, ax, ay, m2, q);
    lemma_stretched_cross(ry, rx, ay, ax, m2, q);
}

/// `clamp_length` keeps the direction of every vector, up to the rounding
/// of its coordinates.
pub proof fn lemma_clamp_length_keeps_direction(v: Vector, min: int, max: int)
    requires
        0 <= min,
        0 <= max,
    ensures
        v.clamp_length(min, max).keeps_direction_of(v),
{
    lemma_norm_sq_zero(v);
    if v.norm_sq() == 0 {
        assert(v.cross(v) == 0) by (nonlinear_arith)
            requires
                v.cross(v) == v.x * v.y - v.y * v.x,
        ;
    } else if v.norm_sq() < min * min {
        assert(min > 0) by (nonlinear_arith)
            requires
                0 < min * min,
                0 <= min,
        ;
        lemma_stretch_keeps_direction(v, min, max);
    } else {
        lemma_clamp_length_max_keeps_direction(v, max);
    }
}

/// The magnitude of one coordinate of a vector brought to length
/// `target`: it is at most `target`, and its square and that of its
/// successor, times the squared length, bracket the square of `c * target`.
pub proof fn lemma_scaled_magnitude(c: int, target: int, norm_sq: int)
    requires
        target >= 0,
        norm_sq > 0,
        c * c <= norm_sq,
    ensures
        ({
            let r = sqrt_floor((c * c * (target * target)) / norm_sq);
            &&& 0 <= r <= target
            &&& r * r * norm_sq <= c * c * (target * target)
            &&& c * c * (target * target) < (r + 1) * (r + 1) * norm_sq
            &&& c == 0 ==> r == 0
            &&& Vector::scaled(c, target, norm_sq) == if c < 0 { -r } else { r }
        }),
{
    let n = c * c * (target * target);
    assert(n >= 0 && n <= norm_sq * (target * target)) by (nonlinear_arith)
        requires
            n == c * c * (target * target),
            c * c <= norm_sq,
    ;
    let t = n / norm_sq;
    assert(0 <= t && t * norm_sq <= n < (t + 1) * norm_sq && t <= target * target)
        by (nonlinear_arith)
        requires
            t == n / norm_sq,
            0 <= n <= norm_sq * (target * target),
            norm_sq > 0,
    ;
    lemma_sqrt_floor_exists(t);
    let r = sqrt_floor(t);
    if r > target {
        lemma_square_le(target + 1, r);
        assert((target + 1) * (target + 1) > target * target) by (nonlinear_arith)
            requires
                target >= 0,
        ;
    }
    assert(r * r * norm_sq <= n) by (nonlinear_arith)
        requires
            r * r <= t,
            t * norm_sq <= n,
            norm_sq > 0,
    ;
    assert(n < (r + 1) * (r + 1) * norm_sq) by (nonlinear_arith)
        requires
            t < (r + 1) * (r + 1),
            n < (t + 1) * norm_sq,
            norm_sq > 0,
    {
        assert((t + 1) * norm_sq <= (r + 1) * (r + 1) * norm_sq);
    }
    if c == 0 {
        assert(n == 0) by (nonlinear_arith)
            requires
                n == c * c * (target * target),
                c == 0,
        ;
        assert(r == 0) by (nonlinear_arith)
            requires
                0 <= r,
                r * r <= t,
                t * norm_sq <= n,
                n == 0,
                norm_sq > 0,
        ;
    }
}

/// A vector that is not zero, brought to length `length`, is at most
/// `length` long and longer than `length - 2`; each of its coordinates is
/// the exact one rounded toward zero by less than one.
pub proof fn lemma_with_length(v: Vector, length: int)
    requires
        length >= 0,
        v.norm_sq() != 0,
    ensures
        v.with_length(length).norm_sq() <= length * length,
        length >= 2 ==> (length - 2) * (length - 2) <= v.with_length(length).norm_sq(),
        v.with_length(length).within(length),
        v.with_length(length).is_scaled(v, length),
{
    let q = v.norm_sq();
    let w = v.with_length(length);
    let t2 = length * length;
    lemma_norm_sq_zero(v);
    assert(v.x * v.x >= 0 && v.y * v.y >= 0) by (nonlinear_arith);
    lemma_scaled_magnitude(v.x, length, q);
    lemma_scaled_magnitude(v.y, length, q);
    let rx = sqrt_floor((v.x * v.x * t2) / q);
    let ry = sqrt_floor((v.y * v.y * t2) / q);
    assert(rx == abs(w.x) && ry == abs(w.y));
    assert(w.x * w.x == rx * rx && w.y * w.y == ry * ry) by (nonlinear_arith)
        requires
            w.x == rx || w.x == -rx,
            w.y == ry || w.y == -ry,
    ;
    assert(rx * rx + ry * ry <= t2) by (nonlinear_arith)
        requires
            rx * rx * q <= v.x * v.x * t2,
            ry * ry * q <= v.y * v.y * t2,
            q == v.x * v.x + v.y * v.y,
            q > 0,
    {
        assert((rx * rx + ry * ry) * q <= (v.x * v.x + v.y * v.y) * t2);
    }
    if length >= 2 && rx * rx + ry * ry < (length - 2) * (length - 2) {
        let m = length - 2;
        if rx >= m {
            lemma_square_le(m, rx);
        }
        if ry >= m {
            lemma_square_le(m, ry);
        }
        assert(ry * ry >= 0 && rx * rx >= 0) by (nonlinear_arith);
        let s1 = (rx + 1) * (rx + 1) + (ry + 1) * (ry + 1);
        assert(s1 < (m + 2) * (m + 2)) by (nonlinear_arith)
            requires
                s1 == (rx + 1) * (rx + 1) + (ry + 1) * (ry + 1),
                rx * rx + ry * ry < m * m,
                0 <= rx <= m - 1,
                0 <= ry <= m - 1,
        ;
        assert(s1 * q > t2 * q) by (nonlinear_arith)
            requires
                s1 == (rx + 1) * (rx + 1) + (ry + 1) * (ry + 1),
                v.x * v.x * t2 < (rx + 1) * (rx + 1) * q,
                v.y * v.y * t2 < (ry + 1) * (ry + 1) * q,
                q == v.x * v.x + v.y * v.y,
        ;
        assert(false) by (nonlinear_arith)
            requires
                s1 * q > t2 * q,
                s1 < t2,
                q > 0,
        ;
    }
}

/// The triangle inequality, in squares: the sum of a vector no longer than
/// `la` and one no longer than `lb` is no longer than `la + lb`.
pub proof fn lemma_triangle(a: Vector, b: Vector, la: int, lb: int)
    requires
        la >= 0,
        lb >= 0,
        a.norm_sq() <= la * la,
        b.norm_sq() <= lb * lb,
    ensures
        a.plus(b).norm_sq() <= (la + lb) * (la + lb),
{
    let p = a.x * b.x + a.y * b.y;
    let na = a.norm_sq();
    let nb = b.norm_sq();
    lemma_norm_sq_zero(a);
    lemma_norm_sq_zero(b);
    // Lagrange's identity: |a|^2 |b|^2 - (a . b)^2 is the square of the cross product
    let xx = a.x * b.x;
    let yy = a.y * b.y;
    let xy = a.x * b.y;
    let yx = a.y * b.x;
    assert((a.x * a.x) * (b.x * b.x) == xx * xx) by (nonlinear_arith)
        requires
            xx == a.x * b.x,
    ;
    assert((a.y * a.y) * (b.y * b.y) == yy * yy) by (nonlinear_arith)
        requires
            yy == a.y * b.y,
    ;
    assert((a.x * a.x) * (b.y * b.y) == xy * xy) by (nonlinear_arith)
        requires
            xy == a.x * b.y,
    ;
    assert((a.y * a.y) * (b.x * b.x) == yx * yx) by (nonlinear_arith)
        requires
            yx == a.y * b.x,
    ;
    assert(xx * yy == xy * yx) by (nonlinear_arith)
        requires
            xx == a.x * b.x,
            yy == a.y * b.y,
            xy == a.x * b.y,
            yx == a.y * b.x,
    ;
    let ax2 = a.x * a.x;
    let ay2 = a.y * a.y;
    let bx2 = b.x * b.x;
    let by2 = b.y * b.y;
    assert(na * nb == ax2 * bx2 + ax2 * by2 + ay2 * bx2 + ay2 * by2) by (nonlinear_arith)
        requires
            na == ax2 + ay2,
            nb == bx2 + by2,
    ;
    assert(p * p == xx * xx + 2 * (xx * yy) + yy * yy) by (nonlinear_arith)
        requires
            p == xx + yy,
    ;
    assert((xy - yx) * (xy - yx) == xy * xy - 2 * (xy * yx) + yx * yx) by (nonlinear_arith);
    assert((xy - yx) * (xy - yx) >= 0) by (nonlinear_arith);
    assert(p * p <= na * nb);
    assert(na * nb <= (la * lb) * (la * lb)) by (nonlinear_arith)
        requires
            0 <= na <= la * la,
            0 <= nb <= lb * lb,
    {
        assert(na * nb <= (la * la) * nb);
        assert((la * la) * nb <= (la * la) * (lb * lb));
    }
    assert(la * lb >= 0) by (nonlinear_arith)
        requires
            la >= 0,
            lb >= 0,
    ;
    if p > la * lb {
        lemma_square_le(la * lb + 1, p);
        assert((la * lb + 1) * (la * lb + 1) > (la * lb) * (la * lb)) by (nonlinear_arith)
            requires
                la * lb >= 0,
        ;
    }
    assert(a.plus(b).norm_sq() == na + 2 * p + nb) by (nonlinear_arith)
        requires
            p == a.x * b.x + a.y * b.y,
            na == a.x * a.x + a.y * a.y,
            nb == b.x * b.x + b.y * b.y,
            a.plus(b).norm_sq() == (a.x + b.x) * (a.x + b.x) + (a.y + b.y) * (a.y + b.y),
    ;
    assert((la + lb) * (la + lb) == la * la + 2 * (la * lb) + lb * lb) by (nonlinear_arith);
}

/// `clamp_length` of a vector that is not zero lies within the band up to
/// rounding, however narrow the band is: it is shorter than `max + 2` and
/// at least `min - 3` long.
pub proof fn lemma_clamp_length_near_band(v: Vector, min: int, max: int)
    requires
        0 <= min <= max,
        v.norm_sq() != 0,
    ensures
        v.clamp_length(min, max).norm_sq() < (max + 2) * (max + 2),
        min >= 3 ==> (min - 3) * (min - 3) <= v.clamp_length(min, max).norm_sq(),
{
    lemma_norm_sq_zero(v);
    lemma_square_le(max, max + 2);
    lemma_square_le(min + 2, max + 2);
    assert((max + 2) * (max + 2) > max * max) by (nonlinear_arith)
        requires
            max >= 0,
    ;
    if min >= 3 {
        lemma_square_le(min - 3, min);
        lemma_square_le(min - 3, max - 3);
    }
    lemma_square_le(min, max);
    if v.norm_sq() < min * min {
        assert(min > 0) by (nonlinear_arith)
            requires
                0 < min * min,
                0 <= min,
        ;
        lemma_stretch_bounds(v, min, max);
    } else {
        lemma_clamp_length_max_shortens(v, max);
        if v.norm_sq() > max * max && max >= 3 {
            lemma_shortened_not_short(v, max - 3, max);
        }
    }
}

/// `clamp_length` leaves no coordinate above `max`, where `min` is not
/// above `max`.
pub proof fn lemma_clamp_length_within(v: Vector, min: int, max: int)
    requires
        0 <= min <= max,
    ensures
        v.clamp_length(min, max).within(max),
{
    lemma_norm_sq_zero(v);
    if v.norm_sq() == 0 {
    } else if v.norm_sq() < min * min {
        assert(min > 0) by (nonlinear_arith)
            requires
                0 < min * min,
                0 <= min,
        ;
        lemma_stretch_bounds(v, min, max);
    } else {
        lemma_clamp_length_max_shortens(v, max);
    }
}

/// A vector with `i64` coordinates.
#[derive(Clone, Copy, Debug, PartialEq, Eq, Structural)]
pub struct Vec2 {
    pub x: i64,
    pub y: i64,
}

impl View for Vec2 {
    type V = Vector;

    open spec fn view(&self) -> Vector {
        Vector { x: self.x as int, y: self.y as int }
    }
}

/// The magnitude of `c`.
fn magnitude(c: i64) -> (m: u128)
    ensures
        m == if c < 0 { -(c as int) } else { c as int },
        m <= 0x8000_0000_0000_0000,
        m * m == c * c,
{
    let m: u128 = if c < 0 {
        (-(c as i128)) as u128
    } else {
        c as u128
    };
    assert(m * m == c * c) by (nonlinear_arith)
        requires
            m == c || m == -c,
    ;
    m
}

impl Vec2 {
    pub fn new(x: i64, y: i64) -> (v: Vec2)
        ensures
            v.x == x,
            v.y == y,
    {
        Vec2 { x, y }
    }

    pub fn zero() -> (v: Vec2)
        ensures
            v@ == Vector::zero(),
    {
        Vec2 { x: 0, y: 0 }
    }

    /// The sum of two vectors that fits in `i64`.
    pub fn plus(self, other: Vec2) -> (v: Vec2)
        requires
            self@.plus(other@).within(i64::MAX as int),
        ensures
            v@ == self@.plus(other@),
    {
        Vec2 { x: self.x + other.x, y: self.y + other.y }
    }

    /// The difference of two vectors that fits in `i64`.
    pub fn minus(self, other: Vec2) -> (v: Vec2)
        requires
            self@.minus(other@).within(i64::MAX as int),
        ensures
            v@ == self@.minus(other@),
    {
        Vec2 { x: self.x - other.x, y: self.y - other.y }
    }

    /// The vector times `k`, where the product fits in `i64`.
    pub fn times(self, k: i64) -> (v: Vec2)
        requires
            self@.times(k as int).within(i64::MAX as int),
        ensures
            v@ == self@.times(k as int),
    {
        Vec2 { x: self.x * k, y: self.y * k }
    }

    /// The square of the vector's length.
    pub fn length_squared(self) -> (q: u128)
        ensures
            q == self@.norm_sq(),
    {
        let ax: u128 = magnitude(self.x);
        let ay: u128 = magnitude(self.y);
        assert(ax * ax <= 0x4000_0000_0000_0000_0000_0000_0000_0000) by (nonlinear_arith)
            requires
                0 <= ax <= 0x8000_0000_0000_0000,
        ;
        assert(ay * ay <= 0x4000_0000_0000_0000_0000_0000_0000_0000) by (nonlinear_arith)
            requires
                0 <= ay <= 0x8000_0000_0000_0000,
        ;
        ax * ax + ay * ay
    }

    /// The square of the distance between two points no further apart than
    /// `i64::MAX` along either axis.
    pub fn distance_squared(self, other: Vec2) -> (q: u128)
        requires
            self@.minus(other@).within(i64::MAX as int),
        ensures
            q == other@.minus(self@).norm_sq(),
            q == self@.minus(other@).norm_sq(),
    {
        let d = other.minus(self);
        assert(self@.minus(other@).norm_sq() == other@.minus(self@).norm_sq()) by (nonlinear_arith);
        d.length_squared()
    }

    /// The vector shortened to length `max` where it is longer, its
    /// direction kept.
    pub fn clamp_length_max(self, max: i64) -> (v: Vec2)
        requires
            max >= 0,
        ensures
            v@ == self@.clamp_length_max(max as int),
            self@.norm_sq() <= max * max ==> v == self,
            v@.norm_sq() <= max * max,
            self@.norm_sq() > max * max && max >= 3 ==> (max - 3) * (max - 3) <= v@.norm_sq(),
            v@.within(max as int),
            v@.keeps_direction_of(self@),
    {
        proof {
            lemma_clamp_length_max_shortens(self@, max as int);
            lemma_clamp_length_max_keeps_direction(self@, max as int);
            if self@.norm_sq() > max * max && max >= 3 {
                lemma_shortened_not_short(self@, max - 3, max as int);
            }
        }
        let q: u128 = self.length_squared();
        let m: u128 = max as u128;
        assert(m * m <= 0x4000_0000_0000_0000_0000_0000_0000_0000) by (nonlinear_arith)
            requires
                0 <= m <= 0x8000_0000_0000_0000,
        ;
        if q <= m * m {
            return self;
        }
        let len: u128 = isqrt_ceil(q);
        proof {
            lemma_sqrt_ceil_bounds(q as int);
        }
        let l: i128 = len as i128;
        let wx: i128 = scaled_quotient(self.x, max, l);
        let wy: i128 = scaled_quotient(self.y, max, l);
        Vec2 { x: wx as i64, y: wy as i64 }
    }

    /// The vector of length `length` that points the way of this one, each
    /// coordinate rounded toward zero; the zero vector stays zero.
    pub fn with_length(self, length: i64) -> (v: Vec2)
        requires
            self@.within(DIRECTION_LIMIT as int),
            0 <= length <= LENGTH_LIMIT,
        ensures
            v@ == self@.with_length(length as int),
            self@.norm_sq() == 0 ==> v == self,
            self@.norm_sq() != 0 ==> v@.is_scaled(self@, length as int),
            v@.norm_sq() <= length * length,
            self@.norm_sq() != 0 && length >= 2 ==> (length - 2) * (length - 2) <= v@.norm_sq(),
            v@.within(length as int),
    {
        let q: u128 = self.length_squared();
        if q == 0 {
            proof {
                lemma_norm_sq_zero(self@);
                assert(length * length >= 0) by (nonlinear_arith);
            }
            return self;
        }
        proof {
            lemma_with_length(self@, length as int);
            assert(self.x * self.x >= 0 && self.y * self.y >= 0) by (nonlinear_arith);
        }
        let x: i64 = scaled_coordinate(self.x, length, q);
        let y: i64 = scaled_coordinate(self.y, length, q);
        Vec2 { x, y }
    }

    /// The vector brought to a length between `min` and `max`, its direction
    /// kept; the zero vector stays zero.
    pub fn clamp_length(self, min: i64, max: i64) -> (v: Vec2)
        requires
            0 <= min <= SPEED_LIMIT,
            0 <= max,
        ensures
            v@ == self@.clamp_length(min as int, max as int),
            v@.keeps_direction_of(self@),
            self@.norm_sq() == 0 ==> v == self,
            self@.norm_sq() != 0 && min + 3 <= max ==> min * min <= v@.norm_sq() <= max * max,
            min <= max ==> v@.within(max as int),
    {
        proof {
            lemma_clamp_length_keeps_direction(self@, min as int, max as int);
            if min <= max {
                lemma_clamp_length_within(self@, min as int, max as int);
            }
        }
        let q: u128 = self.length_squared();
        if q == 0 {
            return self;
        }
        proof {
            if min + 3 <= max {
                lemma_clamp_length_bounds(self@, min as int, max as int);
            }
        }
        let m: u128 = min as u128;
        assert(m * m <= 0x4000_0000_0000_0000) by (nonlinear_arith)
            requires
                0 <= m <= 0x8000_0000,
        ;
        if q < m * m {
            proof {
                assert(min > 0) by (nonlinear_arith)
                    requires
                        0 < min * min,
                        0 <= min,
                ;
                assert(self.x * self.x >= 0 && self.y * self.y >= 0) by (nonlinear_arith);
                lemma_stretch_bounds(self@, min as int, max as int);
            }
            let wx: i64 = stretched_coordinate(self.x, min, q);
            let wy: i64 = stretched_coordinate(self.y, min, q);
            Vec2 { x: wx, y: wy }
        } else {
            self.clamp_length_max(max)
        }
    }
}

/// One coordinate of a vector of squared length `norm_sq`, brought to
/// length `target`.
fn scaled_coordinate(c: i64, target: i64, norm_sq: u128) -> (w: i64)
    requires
        0 <= target <= LENGTH_LIMIT,
        -DIRECTION_LIMIT <= c <= DIRECTION_LIMIT,
        0 < norm_sq,
        c * c <= norm_sq,
    ensures
        w == Vector::scaled(c as int, target as int, norm_sq as int),
{
    proof {
        lemma_scaled_magnitude(c as int, target as int, norm_sq as int);
    }
    let a: u128 = magnitude(c);
    let t: u128 = target as u128;
    assert(a * a <= 16_000_000_000_000_000_000_000_000) by (nonlinear_arith)
        requires
            0 <= a <= 4_000_000_000_000,
    ;
    assert(t * t <= 1_099_511_627_776) by (nonlinear_arith)
        requires
            0 <= t <= 1_048_576,
    ;
    let a2: u128 = a * a;
    let t2: u128 = t * t;
    assert(a2 * t2 <= 17_592_186_044_416_000_000_000_000_000_000_000_000) by (nonlinear_arith)
        requires
            0 <= a2 <= 16_000_000_000_000_000_000_000_000,
            0 <= t2 <= 1_099_511_627_776,
    ;
    assert(a2 * t2 == c * c * (target * target)) by (nonlinear_arith)
        requires
            a2 == c * c,
            t2 == target * target,
    ;
    let r: u64 = isqrt((a2 * t2) / norm_sq);
    if c < 0 {
        -(r as i64)
    } else {
        r as i64
    }
}

/// One coordinate of a vector of squared length `norm_sq`, stretched to
/// length `target`.
fn stretched_coordinate(c: i64, target: i64, norm_sq: u128) -> (w: i64)
    requires
        0 < target <= SPEED_LIMIT,
        0 < norm_sq < target * target,
        c * c <= norm_sq,
    ensures
        w == Vector::stretched(c as int, target as int, norm_sq as int),
{
    proof {
        lemma_stretched_magnitude(c as int, target as int, norm_sq as int);
    }
    let a: u128 = magnitude(c);
    let t: u128 = target as u128;
    assert(t * t <= 0x4000_0000_0000_0000) by (nonlinear_arith)
        requires
            0 <= t <= 0x8000_0000,
    ;
    let a2: u128 = a * a;
    let t2: u128 = t * t;
    assert(a2 * t2 <= 0x1000_0000_0000_0000_0000_0000_0000_0000) by (nonlinear_arith)
        requires
            0 <= a2 <= 0x4000_0000_0000_0000,
            0 <= t2 <= 0x4000_0000_0000_0000,
    ;
    assert(a2 * t2 == c * c * (target * target)) by (nonlinear_arith)
        requires
            a2 == c * c,
            t2 == target * target,
    ;
    let num: u128 = a2 * t2;
    let quotient: u128 = (num + norm_sq - 1) / norm_sq;
    let r: u128 = isqrt_ceil(quotient);
    if c < 0 {
        -(r as i64)
    } else {
        r as i64
    }
}

/// `c * max / len`, rounded toward zero.
fn scaled_quotient(c: i64, max: i64, len: i128) -> (w: i128)
    requires
        max >= 0,
        len > 0,
    ensures
        w == div_trunc(c * max, len as int),
{
    assert(-0x4000_0000_0000_0000_0000_0000_0000_0000 <= c * max
        <= 0x4000_0000_0000_0000_0000_0000_0000_0000) by (nonlinear_arith)
        requires
            -0x8000_0000_0000_0000 <= c <= 0x8000_0000_0000_0000,
            0 <= max <= 0x8000_0000_0000_0000,
    ;
    let p: i128 = (c as i128) * (max as i128);
    p / len
}

} // verus!
