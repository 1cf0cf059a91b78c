//! Vectors of three components, and the arithmetic of integer vectors.

use vstd::prelude::*;
use crate::fixed::{
    floor_sqrt, isqrt, lemma_floor_sqrt_exists, lemma_square_monotonic, ONE, ONE_SQUARED,
};
use crate::position::Point;

verus! {

/// A vector of three components.
///
/// With 64-bit integer components it is a vector of grid steps or of
/// fixed-point numbers, and has the arithmetic of this module.
#[derive(Debug, Copy, Clone, PartialEq)]
pub struct Vec3<T> {
    pub x: T,
    pub y: T,
    pub z: T,
}

impl<T> Vec3<T> {
    /// The vector with the given components.
    pub fn new(x: T, y: T, z: T) -> (r: Self)
        ensures
            r.x == x,
            r.y == y,
            r.z == z,
    {
        Self { x, y, z }
    }
}

/// Whether `v` fits a 64-bit signed integer.
pub open spec fn fits_i64(v: int) -> bool {
    i64::MIN <= v <= i64::MAX
}

impl View for Vec3<i64> {
    type V = Point;

    open spec fn view(&self) -> Point {
        Point { x: self.x as int, y: self.y as int, z: self.z as int }
    }
}

impl Vec3<i64> {
    /// The dot product, over the integers.
    pub open spec fn spec_dot(self, other: Self) -> int {
        self.x * other.x + self.y * other.y + self.z * other.z
    }

    /// The first component of the cross product, over the integers.
    pub open spec fn spec_cross_x(self, other: Self) -> int {
        self.y * other.z - self.z * other.y
    }

    /// The second component of the cross product, over the integers.
    pub open spec fn spec_cross_y(self, other: Self) -> int {
        self.z * other.x - self.x * other.z
    }

    /// The third component of the cross product, over the integers.
    pub open spec fn spec_cross_z(self, other: Self) -> int {
        self.x * other.y - self.y * other.x
    }

    /// The squared Euclidean length, over the integers.
    pub open spec fn spec_sq_length(self) -> int {
        self.x * self.x + self.y * self.y + self.z * self.z
    }

    /// The dot product of two vectors.
    pub fn dot(&self, other: Self) -> (r: i64)
        requires
            fits_i64(self.spec_dot(other)),
        ensures
            r == self.spec_dot(other),
    {
        let wide = wide_dot(self.x, other.x, self.y, other.y, self.z, other.z);
        wide as i64
    }

    /// The cross product of two vectors.
    pub fn cross(&self, other: Self) -> (r: Self)
        requires
            fits_i64(self.spec_cross_x(other)),
            fits_i64(self.spec_cross_y(other)),
            fits_i64(self.spec_cross_z(other)),
        ensures
            r.x == self.spec_cross_x(other),
            r.y == self.spec_cross_y(other),
            r.z == self.spec_cross_z(other),
    {
        Self {
            x: wide_det(self.y, other.z, self.z, other.y) as i64,
            y: wide_det(self.z, other.x, self.x, other.z) as i64,
            z: wide_det(self.x, other.y, self.y, other.x) as i64,
        }
    }

    /// The squared Euclidean length.
    pub fn sq_length(&self) -> (r: i64)
        requires
            fits_i64(self.spec_sq_length()),
        ensures
            r == self.spec_sq_length(),
    {
        let wide = wide_dot(self.x, self.x, self.y, self.y, self.z, self.z);
        wide as i64
    }

    /// The Euclidean length, rounded down.
    pub open spec fn spec_length(self) -> int {
        floor_sqrt(self.spec_sq_length())
    }

    /// The unit vector in the direction of this vector, in fixed point:
    /// each component is the component's share of the length, scaled to
    /// one and rounded to the nearest millionth. The zero vector has the
    /// zero vector.
    pub open spec fn spec_normalize(self) -> Point {
        let sq = self.spec_sq_length();
        Point {
            x: unit_component(self.x as int, sq),
            y: unit_component(self.y as int, sq),
            z: unit_component(self.z as int, sq),
        }
    }

    /// The Euclidean length, rounded down. The length of a vector of
    /// fixed-point numbers is a fixed-point number.
    pub fn length(&self) -> (r: u64)
        ensures
            r == self.spec_length(),
            self.x <= r && -self.x <= r,
            self.y <= r && -self.y <= r,
            self.z <= r && -self.z <= r,
    {
        let sq = self.wide_sq_length();
        let r = isqrt(sq);
        proof {
            lemma_component_below_length(self.x as int, sq as int, r as int);
            lemma_component_below_length(self.y as int, sq as int, r as int);
            lemma_component_below_length(self.z as int, sq as int, r as int);
        }
        r
    }

    /// The squared Euclidean length in 128 bits, which always hold it.
    fn wide_sq_length(&self) -> (sq: u128)
        ensures
            sq == self.spec_sq_length(),
            0 <= self.x * self.x <= sq,
            0 <= self.y * self.y <= sq,
            0 <= self.z * self.z <= sq,
    {
        let xx = wide_mul(self.x, self.x);
        let yy = wide_mul(self.y, self.y);
        let zz = wide_mul(self.z, self.z);
        proof {
            lemma_square_is_positive(self.x as int);
            lemma_square_is_positive(self.y as int);
            lemma_square_is_positive(self.z as int);
        }
        xx as u128 + yy as u128 + zz as u128
    }

    /// The unit vector in the direction of this vector, in fixed point,
    /// each component rounded to the nearest millionth; the zero vector
    /// for the zero vector. The length of the result is one to within a
    /// millionth, see `lemma_normalize_is_unit`.
    pub fn normalize(&self) -> (r: Self)
        ensures
            r@ == self.spec_normalize(),
            -ONE <= r.x <= ONE,
            -ONE <= r.y <= ONE,
            -ONE <= r.z <= ONE,
    {
        let sq = self.wide_sq_length();
        Self { x: unit_part(self.x, sq), y: unit_part(self.y, sq), z: unit_part(self.z, sq) }
    }

    /// A normalised vector has the length of one, to within a millionth:
    /// the square of its length lies between the squares of `ONE - 1` and
    /// of `ONE + 1`. Each component keeps its sign, and is within a
    /// millionth of the component's share of the length: with `n` the
    /// magnitude of a component of the result and `c` that of the vector,
    /// `(n - 1) / ONE <= c / length <= (n + 1) / ONE`, stated in squares.
    pub proof fn lemma_normalize_is_unit(v: Self)
        requires
            v.x != 0 || v.y != 0 || v.z != 0,
        ensures
            ({
                let n = v.spec_normalize();
                let sq = v.spec_sq_length();
                &&& (ONE - 1) * (ONE - 1) <= n.x * n.x + n.y * n.y + n.z * n.z <= (ONE + 1) * (ONE
                    + 1)
                &&& (v.x >= 0 ==> n.x >= 0) && (v.x <= 0 ==> n.x <= 0)
                &&& (v.y >= 0 ==> n.y >= 0) && (v.y <= 0 ==> n.y <= 0)
                &&& (v.z >= 0 ==> n.z >= 0) && (v.z <= 0 ==> n.z <= 0)
                &&& near_share(abs_of(n.x), abs_of(v.x as int), sq)
                &&& near_share(abs_of(n.y), abs_of(v.y as int), sq)
                &&& near_share(abs_of(n.z), abs_of(v.z as int), sq)
            }),
    {
        let sq = v.spec_sq_length();
        let (x, y, z) = (abs_of(v.x as int), abs_of(v.y as int), abs_of(v.z as int));
        assert(x * x == v.x * v.x && y * y == v.y * v.y && z * z == v.z * v.z) by (nonlinear_arith)
            requires
                x == v.x || x == -v.x,
                y == v.y || y == -v.y,
                z == v.z || z == -v.z,
        ;
        assert(sq == x * x + y * y + z * z);
        assert(0 <= x * x && 0 <= y * y && 0 <= z * z) by (nonlinear_arith);
        assert(sq > 0) by (nonlinear_arith)
            requires
                sq == x * x + y * y + z * z,
                x > 0 || y > 0 || z > 0,
                x >= 0 && y >= 0 && z >= 0,
        ;
        let a = unit_magnitude(v.x as int, sq);
        let b = unit_magnitude(v.y as int, sq);
        let c = unit_magnitude(v.z as int, sq);
        let weight = share_weight(sq);
        lemma_share_weight(sq);
        lemma_share(x, sq);
        lemma_share(y, sq);
        lemma_share(z, sq);
        lemma_shares_add_up(a, b, c, x, y, z, sq, weight);
        lemma_share_is_near(a, x, sq, weight);
        lemma_share_is_near(b, y, sq, weight);
        lemma_share_is_near(c, z, sq, weight);
        let n = v.spec_normalize();
        assert(n.x == a || n.x == -a);
        assert(n.y == b || n.y == -b);
        assert(n.z == c || n.z == -c);
        assert(n.x * n.x == a * a && n.y * n.y == b * b && n.z * n.z == c * c) by (nonlinear_arith)
            requires
                n.x == a || n.x == -a,
                n.y == b || n.y == -b,
                n.z == c || n.z == -c,
        ;
    }
}

/// The absolute value of `c`.
pub open spec fn abs_of(c: int) -> int {
    if c < 0 {
        -c
    } else {
        c
    }
}

/// Up to this squared length the share of a component is taken from the
/// exact squared length; beyond it the products would leave 128 bits,
/// and the share is taken from the length rounded down, which is then
/// long enough to lose nothing.
pub const NORMALIZE_EXACT_LIMIT: u128 = 0x10_0000_0000_0000_0000_0000;

/// The magnitude of the component `c` of a unit vector in the direction
/// of a vector of the squared length `sq`: `c / sqrt(sq)`, scaled to one
/// and rounded to the nearest whole number. Half of the root of four
/// times a square, rounded up, is the root of the square rounded to the
/// nearest.
pub open spec fn unit_magnitude(c: int, sq: int) -> int {
    if sq <= 0 {
        0
    } else if sq <= NORMALIZE_EXACT_LIMIT {
        (floor_sqrt((4 * (abs_of(c) * abs_of(c)) * ONE_SQUARED) / sq) + 1) / 2
    } else {
        (2 * (abs_of(c) * ONE) + floor_sqrt(sq)) / (2 * floor_sqrt(sq))
    }
}

/// The component `c` of a unit vector in the direction of a vector of the
/// squared length `sq`: its magnitude with the sign of `c`.
pub open spec fn unit_component(c: int, sq: int) -> int {
    if c >= 0 {
        unit_magnitude(c, sq)
    } else {
        -unit_magnitude(c, sq)
    }
}

/// Whether `n` millionths are within a millionth of the share that a
/// component of magnitude `c` has of a vector of the squared length
/// `sq`: `(n - 1) / ONE <= c / sqrt(sq) <= (n + 1) / ONE`, in squares.
pub open spec fn near_share(n: int, c: int, sq: int) -> bool {
    &&& 0 <= n
    &&& n >= 1 ==> (n - 1) * (n - 1) * sq <= c * c * ONE_SQUARED
    &&& c * c * ONE_SQUARED <= (n + 1) * (n + 1) * sq
}

/// The square against which the shares of a vector of the squared length
/// `sq` are taken: `sq` itself where the share is exact, and the square of
/// the length rounded down where the vector is long.
pub open spec fn share_weight(sq: int) -> int {
    if sq <= NORMALIZE_EXACT_LIMIT {
        sq
    } else {
        floor_sqrt(sq) * floor_sqrt(sq)
    }
}

/// Whether `n` is the share of a component of magnitude `m` rounded to
/// the nearest, taken against `weight`: `2 m ONE` lies between
/// `(2 n - 1)` and `(2 n + 1)` times the root of the weight, in squares.
pub open spec fn nearest_share(n: int, m: int, weight: int) -> bool {
    &&& 0 <= n
    &&& n >= 1 ==> (2 * n - 1) * (2 * n - 1) * weight <= 4 * (m * m) * ONE_SQUARED
    &&& 4 * (m * m) * ONE_SQUARED < (2 * n + 1) * (2 * n + 1) * weight
}

/// The weight of the shares is positive, no more than the squared length,
/// and so near to it that the difference does not count.
proof fn lemma_share_weight(sq: int)
    requires
        0 < sq,
    ensures
        0 < share_weight(sq) <= sq,
        4 * ONE_SQUARED * (sq - share_weight(sq)) < 2 * share_weight(sq),
        sq > NORMALIZE_EXACT_LIMIT ==> crate::fixed::is_floor_sqrt(sq, floor_sqrt(sq))
            && floor_sqrt(sq) >= 0x400_0000_0000,
{
    if sq > NORMALIZE_EXACT_LIMIT {
        lemma_floor_sqrt_exists(sq);
        let l = floor_sqrt(sq);
        assert(l >= 0x400_0000_0000) by {
            if l < 0x400_0000_0000 {
                lemma_square_monotonic(l + 1, 0x400_0000_0000);
                assert(0x400_0000_0000int * 0x400_0000_0000int
                    == 0x10_0000_0000_0000_0000_0000int) by (nonlinear_arith);
            }
        }
        let w = l * l;
        assert(0 < w && sq - w <= 2 * l && 8 * 1_000_000_000_000 * l < 2 * w) by (nonlinear_arith)
            requires
                w == l * l,
                l * l <= sq < (l + 1) * (l + 1),
                l >= 0x400_0000_0000,
        ;
        assert(4 * ONE_SQUARED * (sq - w) <= 8 * 1_000_000_000_000 * l) by (nonlinear_arith)
            requires
                0 <= sq - w <= 2 * l,
                ONE_SQUARED == 1_000_000_000_000,
        ;
    }
}

/// The share of a component is its share rounded to the nearest, and no
/// more than one.
proof fn lemma_share(m: int, sq: int)
    requires
        0 <= m,
        m * m <= sq,
        0 < sq,
    ensures
        nearest_share(unit_magnitude(m, sq), m, share_weight(sq)),
        unit_magnitude(m, sq) <= ONE,
        m == 0 ==> unit_magnitude(m, sq) == 0,
{
    let big = ONE_SQUARED as int;
    let n = unit_magnitude(m, sq);
    assert(abs_of(m) == m);
    assert(0 <= m * m) by (nonlinear_arith);
    if sq <= NORMALIZE_EXACT_LIMIT {
        let p = 4 * (m * m) * big;
        assert(0 <= p <= 4 * big * sq) by (nonlinear_arith)
            requires
                p == 4 * (m * m) * big,
                0 <= m * m <= sq,
                0 <= big,
        ;
        let share = p / sq;
        lemma_floor_quotient(p, sq);
        assert(share <= 4 * big) by (nonlinear_arith)
            requires
                share * sq <= p,
                p <= 4 * big * sq,
                0 < sq,
        ;
        lemma_floor_sqrt_exists(share);
        let r = floor_sqrt(share);
        assert(n == (r + 1) / 2);
        // The root is no more than two millions.
        if r > 2_000_000 {
            lemma_square_monotonic(2_000_001, r);
            assert(2_000_001int * 2_000_001int > 4 * 1_000_000_000_000int) by (nonlinear_arith);
        }
        // Twice the share is the root, or one more.
        let d = 2 * n;
        assert(r <= d <= r + 1);
        if n >= 1 {
            lemma_square_monotonic(d - 1, r);
            assert((d - 1) * (d - 1) * sq <= share * sq) by (nonlinear_arith)
                requires
                    (d - 1) * (d - 1) <= share,
                    0 < sq,
            ;
        }
        lemma_square_monotonic(r + 1, d + 1);
        assert((share + 1) * sq <= (d + 1) * (d + 1) * sq) by (nonlinear_arith)
            requires
                share + 1 <= (d + 1) * (d + 1),
                0 < sq,
        ;
        assert((share + 1) * sq == share * sq + sq) by (nonlinear_arith);
        if m == 0 {
            assert(p == 0);
            assert(share == 0) by (nonlinear_arith)
                requires
                    share * sq <= 0,
                    0 <= share,
                    0 < sq,
            ;
            assert(r == 0) by (nonlinear_arith)
                requires
                    r * r <= 0,
                    0 <= r,
            ;
        }
    } else {
        lemma_share_weight(sq);
        let l = floor_sqrt(sq);
        let one = ONE as int;
        lemma_component_below_length(m, sq, l);
        let p = 2 * (m * one) + l;
        assert(0 <= m * one <= l * one) by (nonlinear_arith)
            requires
                0 <= m <= l,
                0 <= one,
        ;
        lemma_floor_quotient(p, 2 * l);
        assert(n == p / (2 * l));
        assert(n * (2 * l) == 2 * n * l && (2 * n - 1) * l == 2 * n * l - l && (2 * n + 1) * l == 2
            * n * l + l) by (nonlinear_arith);
        assert(n <= one) by (nonlinear_arith)
            requires
                2 * n * l <= 2 * (m * one) + l,
                m * one <= l * one,
                0 < l,
        ;
        // Between the neighbours of twice the share, times the length.
        let u = 2 * (m * one);
        if n >= 1 {
            assert(0 <= (2 * n - 1) * l) by (nonlinear_arith)
                requires
                    n >= 1,
                    l > 0,
            ;
            lemma_square_monotonic((2 * n - 1) * l, u);
        }
        lemma_square_monotonic(u, (2 * n + 1) * l);
        assert(u * u == 4 * (m * m) * big) by (nonlinear_arith)
            requires
                u == 2 * (m * one),
                big == one * one,
        ;
        assert(((2 * n - 1) * l) * ((2 * n - 1) * l) == (2 * n - 1) * (2 * n - 1) * (l * l))
            by (nonlinear_arith);
        assert(((2 * n + 1) * l) * ((2 * n + 1) * l) == (2 * n + 1) * (2 * n + 1) * (l * l))
            by (nonlinear_arith);
        if m == 0 {
            assert(m * one == 0) by (nonlinear_arith)
                requires
                    m == 0,
            ;
            assert(n == 0) by (nonlinear_arith)
                requires
                    n * (2 * l) <= l,
                    0 <= n,
                    0 < l,
            ;
        }
    }
}

/// The squares of the shares of the three components add up to one, to
/// within a millionth of the length.
proof fn lemma_shares_add_up(a: int, b: int, c: int, x: int, y: int, z: int, sq: int, weight: int)
    requires
        nearest_share(a, x, weight),
        nearest_share(b, y, weight),
        nearest_share(c, z, weight),
        sq == x * x + y * y + z * z,
        0 < weight <= sq,
        4 * ONE_SQUARED * (sq - weight) < 2 * weight,
    ensures
        (ONE - 1) * (ONE - 1) <= a * a + b * b + c * c <= (ONE + 1) * (ONE + 1),
{
    let big = ONE_SQUARED as int;
    let (da, db, dc) = (2 * a, 2 * b, 2 * c);
    let s = da * da + db * db + dc * dc;
    let d = da + db + dc;
    lemma_doubled_share(a, x, weight);
    lemma_doubled_share(b, y, weight);
    lemma_doubled_share(c, z, weight);
    let px = 4 * (x * x) * big;
    let py = 4 * (y * y) * big;
    let pz = 4 * (z * z) * big;
    assert(px + py + pz == 4 * big * sq) by (nonlinear_arith)
        requires
            px == 4 * (x * x) * big,
            py == 4 * (y * y) * big,
            pz == 4 * (z * z) * big,
            sq == x * x + y * y + z * z,
    ;
    // Above: every square of a doubled share is the component and a little.
    assert(s * weight <= 4 * big * sq + 2 * d * weight) by (nonlinear_arith)
        requires
            da * da * weight <= px + 2 * da * weight,
            db * db * weight <= py + 2 * db * weight,
            dc * dc * weight <= pz + 2 * dc * weight,
            px + py + pz == 4 * big * sq,
            s == da * da + db * db + dc * dc,
            d == da + db + dc,
    ;
    assert(s <= 4 * big + 2 * d + 1) by (nonlinear_arith)
        requires
            s * weight <= 4 * big * sq + 2 * d * weight,
            4 * big * (sq - weight) < 2 * weight,
            0 < weight,
    ;
    // Below: every component is less than the next doubled share.
    let high = (da + 1) * (da + 1) + (db + 1) * (db + 1) + (dc + 1) * (dc + 1);
    assert(4 * big * sq < high * weight) by (nonlinear_arith)
        requires
            px < (da + 1) * (da + 1) * weight,
            py < (db + 1) * (db + 1) * weight,
            pz < (dc + 1) * (dc + 1) * weight,
            px + py + pz == 4 * big * sq,
            high == (da + 1) * (da + 1) + (db + 1) * (db + 1) + (dc + 1) * (dc + 1),
    ;
    assert(high > 4 * big) by (nonlinear_arith)
        requires
            4 * big * sq < high * weight,
            0 < weight <= sq,
            0 < big,
    ;
    assert(high == s + 2 * d + 3) by (nonlinear_arith)
        requires
            high == (da + 1) * (da + 1) + (db + 1) * (db + 1) + (dc + 1) * (dc + 1),
            s == da * da + db * db + dc * dc,
            d == da + db + dc,
    ;
    lemma_doubled_shares_are_short(da, db, dc, s, d);
    assert(s == 4 * (a * a + b * b + c * c)) by (nonlinear_arith)
        requires
            s == da * da + db * db + dc * dc,
            da == 2 * a,
            db == 2 * b,
            dc == 2 * c,
    ;
    assert((ONE - 1) * (ONE - 1) == 1_000_000_000_000 - 2_000_000 + 1 && (ONE + 1) * (ONE + 1)
        == 1_000_000_000_000 + 2_000_000 + 1) by (nonlinear_arith)
        requires
            ONE == 1_000_000,
    ;
}

/// A share rounded to the nearest, doubled: its square times the weight
/// is no more than the component and twice the doubled share, and the
/// component is less than the square of the next number.
proof fn lemma_doubled_share(n: int, m: int, weight: int)
    requires
        nearest_share(n, m, weight),
        0 < weight,
    ensures
        (2 * n) * (2 * n) * weight <= 4 * (m * m) * ONE_SQUARED + 2 * (2 * n) * weight,
        4 * (m * m) * ONE_SQUARED < (2 * n + 1) * (2 * n + 1) * weight,
        0 <= 2 * n,
{
    let d = 2 * n;
    let p = 4 * (m * m) * ONE_SQUARED;
    assert(0 <= m * m) by (nonlinear_arith);
    assert(0 <= p) by (nonlinear_arith)
        requires
            p == 4 * (m * m) * ONE_SQUARED,
            0 <= m * m,
    ;
    if n >= 1 {
        assert(d * d * weight <= p + 2 * d * weight) by (nonlinear_arith)
            requires
                (d - 1) * (d - 1) * weight <= p,
                d >= 2,
                0 < weight,
        ;
    } else {
        assert(d * d * weight == 0 && 2 * d * weight == 0) by (nonlinear_arith)
            requires
                d == 0,
        ;
    }
}

/// Three doubled shares whose squares add up to four million millions,
/// give or take twice their sum, have squares that add up to four times
/// the square of a million, give or take four times two millions.
proof fn lemma_doubled_shares_are_short(da: int, db: int, dc: int, s: int, d: int)
    requires
        0 <= da && 0 <= db && 0 <= dc,
        s == da * da + db * db + dc * dc,
        d == da + db + dc,
        s <= 4 * 1_000_000_000_000 + 2 * d + 1,
        s + 2 * d + 3 > 4 * 1_000_000_000_000,
    ensures
        4 * (1_000_000_000_000 - 2_000_000 + 1) <= s <= 4 * (1_000_000_000_000 + 2_000_000 + 1),
{
    assert(d * d <= 3 * s) by (nonlinear_arith)
        requires
            s == da * da + db * db + dc * dc,
            d == da + db + dc,
    ;
    if d >= 3_464_105 {
        lemma_square_monotonic(3_464_102, d - 3);
        assert(3_464_102int * 3_464_102int > 12 * 1_000_000_000_000int + 12) by (nonlinear_arith);
        assert((d - 3) * (d - 3) == d * d - 6 * d + 9) by (nonlinear_arith);
    }
}

/// A share rounded to the nearest is within a millionth of the share.
proof fn lemma_share_is_near(n: int, m: int, sq: int, weight: int)
    requires
        nearest_share(n, m, weight),
        weight == share_weight(sq),
        0 < sq,
        0 <= m,
        n <= ONE,
    ensures
        near_share(n, m, sq),
{
    let big = ONE_SQUARED as int;
    let p = m * m * big;
    lemma_share_weight(sq);
    assert(4 * (m * m) * big == 4 * p) by (nonlinear_arith)
        requires
            p == m * m * big,
    ;
    // Above: the weight is no more than the squared length.
    assert((2 * n + 1) * (2 * n + 1) * weight <= (2 * n + 2) * (2 * n + 2) * sq) by (nonlinear_arith)
        requires
            0 <= n,
            0 < weight <= sq,
    ;
    assert((2 * n + 2) * (2 * n + 2) * sq == 4 * ((n + 1) * (n + 1) * sq)) by (nonlinear_arith);
    if n >= 1 {
        // Below: the squared length is hardly more than the weight.
        if sq <= NORMALIZE_EXACT_LIMIT {
            assert((2 * n - 2) * (2 * n - 2) * sq <= (2 * n - 1) * (2 * n - 1) * sq)
                by (nonlinear_arith)
                requires
                    n >= 1,
                    0 < sq,
            ;
        } else {
            let l = floor_sqrt(sq);
            let e = 2 * n - 2;
            assert(e * (l + 1) <= (e + 1) * l) by (nonlinear_arith)
                requires
                    0 <= e <= 2_000_000,
                    l >= 0x400_0000_0000,
            ;
            assert(0 <= e * (l + 1)) by (nonlinear_arith)
                requires
                    0 <= e,
                    0 <= l,
            ;
            lemma_square_monotonic(e * (l + 1), (e + 1) * l);
            assert(e * e * sq <= (e * (l + 1)) * (e * (l + 1))) by (nonlinear_arith)
                requires
                    sq < (l + 1) * (l + 1),
                    0 <= e,
            ;
            assert(((e + 1) * l) * ((e + 1) * l) == (e + 1) * (e + 1) * (l * l)) by (nonlinear_arith);
        }
        assert((2 * n - 2) * (2 * n - 2) * sq == 4 * ((n - 1) * (n - 1) * sq)) by (nonlinear_arith);
    }
}

/// The component `c` of a unit vector in the direction of a vector of the
/// squared length `sq`.
fn unit_part(c: i64, sq: u128) -> (r: i64)
    requires
        0 <= c * c <= sq,
    ensures
        r == unit_component(c as int, sq as int),
        -ONE <= r <= ONE,
{
    if sq == 0 {
        return 0;
    }
    let magnitude: u128 = if c >= 0 {
        c as u128
    } else {
        (-(c as i128)) as u128
    };
    assert(magnitude == abs_of(c as int));
    assert(magnitude * magnitude == c * c) by (nonlinear_arith)
        requires
            magnitude == c || magnitude == -c,
    ;
    proof {
        lemma_share(magnitude as int, sq as int);
        assert(unit_magnitude(c as int, sq as int) == unit_magnitude(
            magnitude as int,
            sq as int,
        ));
    }
    let part: u128 = if sq <= NORMALIZE_EXACT_LIMIT {
        let square = magnitude * magnitude;
        assert(4 * square * ONE_SQUARED <= 4 * NORMALIZE_EXACT_LIMIT * ONE_SQUARED)
            by (nonlinear_arith)
            requires
                0 <= square <= NORMALIZE_EXACT_LIMIT,
        ;
        let share = (4 * square * ONE_SQUARED) / sq;
        let root = isqrt(share);
        (root as u128 + 1) / 2
    } else {
        let l = isqrt(sq);
        proof {
            lemma_share_weight(sq as int);
            assert(magnitude * ONE <= 0x8000_0000_0000_0000 * 1_000_000) by (nonlinear_arith)
                requires
                    0 <= magnitude <= 0x8000_0000_0000_0000,
            ;
        }
        (2 * (magnitude * ONE as u128) + l as u128) / (2 * l as u128)
    };
    if c >= 0 {
        part as i64
    } else {
        -(part as i64)
    }
}

/// A quotient rounded down, for a positive divisor.
proof fn lemma_floor_quotient(p: int, d: int)
    requires
        0 <= p,
        0 < d,
    ensures
        0 <= p / d,
        (p / d) * d <= p < (p / d) * d + d,
{
    vstd::arithmetic::div_mod::lemma_fundamental_div_mod(p, d);
    vstd::arithmetic::div_mod::lemma_mod_bound(p, d);
    let q = p / d;
    assert(q * d == d * q) by (nonlinear_arith);
    assert(0 <= q) by (nonlinear_arith)
        requires
            p == d * q + p % d,
            0 <= p % d < d,
            0 <= p,
            0 < d,
    ;
}

/// A square is not negative.
proof fn lemma_square_is_positive(a: int)
    ensures
        0 <= a * a,
{
    assert(0 <= a * a) by (nonlinear_arith);
}

/// No component of a vector is longer than the vector.
proof fn lemma_component_below_length(c: int, sq: int, l: int)
    requires
        0 <= c * c <= sq,
        crate::fixed::is_floor_sqrt(sq, l),
    ensures
        c <= l,
        -c <= l,
{
    if c > l {
        lemma_square_monotonic(l + 1, c);
    }
    if -c > l {
        lemma_square_monotonic(l + 1, -c);
        assert((-c) * (-c) == c * c) by (nonlinear_arith);
    }
}

/// The quotient of `a` by `b`, rounded towards zero.
pub open spec fn trunc_div(a: int, b: int) -> int {
    if a == 0 {
        0
    } else if a > 0 && b > 0 {
        a / b
    } else if a < 0 && b < 0 {
        (a * -1) / (b * -1)
    } else if a < 0 {
        ((a * -1) / b) * -1
    } else {
        (a / (b * -1)) * -1
    }
}

/// Whether `a` can be divided by `b` within 64 bits.
pub open spec fn divides_i64(a: i64, b: i64) -> bool {
    b != 0 && !(a == i64::MIN && b == -1)
}

/// The quotient of `a` by `b`, rounded towards zero.
fn quotient(a: i64, b: i64) -> (r: i64)
    requires
        divides_i64(a, b),
    ensures
        r == trunc_div(a as int, b as int),
{
    proof {
        lemma_trunc_div_fits(a as int, b as int);
    }
    let q = a.checked_div(b);
    q.unwrap()
}

/// A quotient rounded towards zero fits 64 bits, but for the least
/// number divided by minus one.
proof fn lemma_trunc_div_fits(a: int, b: int)
    requires
        i64::MIN <= a <= i64::MAX,
        b != 0,
        !(a == i64::MIN && b == -1),
    ensures
        fits_i64(trunc_div(a, b)),
{
    let m = if a < 0 {
        -a
    } else {
        a
    };
    let d = if b < 0 {
        -b
    } else {
        b
    };
    let q = m / d;
    vstd::arithmetic::div_mod::lemma_fundamental_div_mod(m, d);
    vstd::arithmetic::div_mod::lemma_mod_bound(m, d);
    assert(0 <= q <= m) by (nonlinear_arith)
        requires
            m == d * q + m % d,
            0 <= m % d < d,
            0 <= m,
            0 < d,
    ;
    if d >= 2 {
        assert(2 * q <= m) by (nonlinear_arith)
            requires
                m == d * q + m % d,
                0 <= m % d,
                0 <= q,
                2 <= d,
        ;
    }
}

impl std::ops::Add for Vec3<i64> {
    type Output = Vec3<i64>;

    fn add(self, other: Vec3<i64>) -> (r: Vec3<i64>) {
        Vec3 { x: self.x + other.x, y: self.y + other.y, z: self.z + other.z }
    }
}

impl vstd::std_specs::ops::AddSpecImpl for Vec3<i64> {
    open spec fn obeys_add_spec() -> bool {
        true
    }

    open spec fn add_req(self, other: Vec3<i64>) -> bool {
        self@.plus(other@).representable()
    }

    open spec fn add_spec(self, other: Vec3<i64>) -> Vec3<i64> {
        Vec3 {
            x: (self.x + other.x) as i64,
            y: (self.y + other.y) as i64,
            z: (self.z + other.z) as i64,
        }
    }
}

impl std::ops::Sub for Vec3<i64> {
    type Output = Vec3<i64>;

    fn sub(self, other: Vec3<i64>) -> (r: Vec3<i64>) {
        Vec3 { x: self.x - other.x, y: self.y - other.y, z: self.z - other.z }
    }
}

impl vstd::std_specs::ops::SubSpecImpl for Vec3<i64> {
    open spec fn obeys_sub_spec() -> bool {
        true
    }

    open spec fn sub_req(self, other: Vec3<i64>) -> bool {
        self@.minus(other@).representable()
    }

    open spec fn sub_spec(self, other: Vec3<i64>) -> Vec3<i64> {
        Vec3 {
            x: (self.x - other.x) as i64,
            y: (self.y - other.y) as i64,
            z: (self.z - other.z) as i64,
        }
    }
}

impl std::ops::Neg for Vec3<i64> {
    type Output = Vec3<i64>;

    fn neg(self) -> (r: Vec3<i64>) {
        Vec3 { x: -self.x, y: -self.y, z: -self.z }
    }
}

impl vstd::std_specs::ops::NegSpecImpl for Vec3<i64> {
    open spec fn obeys_neg_spec() -> bool {
        true
    }

    open spec fn neg_req(self) -> bool {
        self@.scaled(-1).representable()
    }

    open spec fn neg_spec(self) -> Vec3<i64> {
        Vec3 { x: (-self.x) as i64, y: (-self.y) as i64, z: (-self.z) as i64 }
    }
}

impl std::ops::Mul<Vec3<i64>> for Vec3<i64> {
    type Output = Vec3<i64>;

    fn mul(self, other: Vec3<i64>) -> (r: Vec3<i64>) {
        Vec3 { x: self.x * other.x, y: self.y * other.y, z: self.z * other.z }
    }
}

impl vstd::std_specs::ops::MulSpecImpl<Vec3<i64>> for Vec3<i64> {
    open spec fn obeys_mul_spec() -> bool {
        true
    }

    open spec fn mul_req(self, other: Vec3<i64>) -> bool {
        fits_i64(self.x * other.x) && fits_i64(self.y * other.y) && fits_i64(self.z * other.z)
    }

    open spec fn mul_spec(self, other: Vec3<i64>) -> Vec3<i64> {
        Vec3 {
            x: (self.x * other.x) as i64,
            y: (self.y * other.y) as i64,
            z: (self.z * other.z) as i64,
        }
    }
}

impl std::ops::Mul<i64> for Vec3<i64> {
    type Output = Vec3<i64>;

    fn mul(self, other: i64) -> (r: Vec3<i64>) {
        Vec3 { x: self.x * other, y: self.y * other, z: self.z * other }
    }
}

impl vstd::std_specs::ops::MulSpecImpl<i64> for Vec3<i64> {
    open spec fn obeys_mul_spec() -> bool {
        true
    }

    open spec fn mul_req(self, other: i64) -> bool {
        self@.scaled(other as int).representable()
    }

    open spec fn mul_spec(self, other: i64) -> Vec3<i64> {
        Vec3 { x: (self.x * other) as i64, y: (self.y * other) as i64, z: (self.z * other) as i64 }
    }
}

impl std::ops::Div<Vec3<i64>> for Vec3<i64> {
    type Output = Vec3<i64>;

    fn div(self, other: Vec3<i64>) -> (r: Vec3<i64>) {
        Vec3 {
            x: quotient(self.x, other.x),
            y: quotient(self.y, other.y),
            z: quotient(self.z, other.z),
        }
    }
}

impl vstd::std_specs::ops::DivSpecImpl<Vec3<i64>> for Vec3<i64> {
    open spec fn obeys_div_spec() -> bool {
        true
    }

    open spec fn div_req(self, other: Vec3<i64>) -> bool {
        divides_i64(self.x, other.x) && divides_i64(self.y, other.y) && divides_i64(
            self.z,
            other.z,
        )
    }

    open spec fn div_spec(self, other: Vec3<i64>) -> Vec3<i64> {
        Vec3 {
            x: trunc_div(self.x as int, other.x as int) as i64,
            y: trunc_div(self.y as int, other.y as int) as i64,
            z: trunc_div(self.z as int, other.z as int) as i64,
        }
    }
}

impl std::ops::Div<i64> for Vec3<i64> {
    type Output = Vec3<i64>;

    fn div(self, other: i64) -> (r: Vec3<i64>) {
        Vec3 { x: quotient(self.x, other), y: quotient(self.y, other), z: quotient(self.z, other) }
    }
}

impl vstd::std_specs::ops::DivSpecImpl<i64> for Vec3<i64> {
    open spec fn obeys_div_spec() -> bool {
        true
    }

    open spec fn div_req(self, other: i64) -> bool {
        divides_i64(self.x, other) && divides_i64(self.y, other) && divides_i64(self.z, other)
    }

    open spec fn div_spec(self, other: i64) -> Vec3<i64> {
        Vec3 {
            x: trunc_div(self.x as int, other as int) as i64,
            y: trunc_div(self.y as int, other as int) as i64,
            z: trunc_div(self.z as int, other as int) as i64,
        }
    }
}

/// The product of two 64-bit integers, which always fits 128 bits.
pub fn wide_mul(a: i64, b: i64) -> (r: i128)
    ensures
        r == a * b,
        -0x3fff_ffff_ffff_ffff_8000_0000_0000_0000 <= r <= 0x4000_0000_0000_0000_0000_0000_0000_0000,
{
    proof {
        lemma_product_bounds(a as int, b as int);
    }
    (a as i128) * (b as i128)
}

/// The range of a product of two 64-bit integers.
proof fn lemma_product_bounds(a: int, b: int)
    requires
        -0x8000_0000_0000_0000 <= a <= 0x7fff_ffff_ffff_ffff,
        -0x8000_0000_0000_0000 <= b <= 0x7fff_ffff_ffff_ffff,
    ensures
        -0x3fff_ffff_ffff_ffff_8000_0000_0000_0000 <= a * b
            <= 0x4000_0000_0000_0000_0000_0000_0000_0000,
{
    if a >= 0 && b >= 0 {
        assert(0 <= a * b <= 0x7fff_ffff_ffff_ffff * 0x7fff_ffff_ffff_ffff) by (nonlinear_arith)
            requires
                0 <= a <= 0x7fff_ffff_ffff_ffff,
                0 <= b <= 0x7fff_ffff_ffff_ffff,
        ;
    } else if a < 0 && b < 0 {
        assert(0 <= a * b <= 0x8000_0000_0000_0000 * 0x8000_0000_0000_0000) by (nonlinear_arith)
            requires
                -0x8000_0000_0000_0000 <= a < 0,
                -0x8000_0000_0000_0000 <= b < 0,
        ;
    } else if a < 0 {
        assert(-0x8000_0000_0000_0000 * 0x7fff_ffff_ffff_ffff <= a * b <= 0) by (nonlinear_arith)
            requires
                -0x8000_0000_0000_0000 <= a < 0,
                0 <= b <= 0x7fff_ffff_ffff_ffff,
        ;
    } else {
        assert(-0x8000_0000_0000_0000 * 0x7fff_ffff_ffff_ffff <= a * b <= 0) by (nonlinear_arith)
            requires
                -0x8000_0000_0000_0000 <= b < 0,
                0 <= a <= 0x7fff_ffff_ffff_ffff,
        ;
    }
}

/// `a * b + c * d + e * f` in 128 bits, where the sum fits 64 bits.
fn wide_dot(a: i64, b: i64, c: i64, d: i64, e: i64, f: i64) -> (r: i128)
    requires
        fits_i64(a * b + c * d + e * f),
    ensures
        r == a * b + c * d + e * f,
{
    let ab = wide_mul(a, b);
    let cd = wide_mul(c, d);
    let ef = wide_mul(e, f);
    ab + cd + ef
}

/// `a * b - c * d` in 128 bits.
fn wide_det(a: i64, b: i64, c: i64, d: i64) -> (r: i128)
    ensures
        r == a * b - c * d,
{
    let ab = wide_mul(a, b);
    let cd = wide_mul(c, d);
    ab - cd
}

} // verus!
