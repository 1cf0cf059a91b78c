//! The ring order: every offset of the grid in one sequence, the centre
//! first and then shell after shell of growing Chebyshev distance, each
//! shell in ascending order of `(x, y, z)`.
//!
//! [`ring_nth`] gives the offset at each place of the order and
//! [`ring_rank`] the place of each offset. The two are inverse to each
//! other, so the order visits every offset exactly once, and the first
//! `(2r + 1)^3` places hold exactly the offsets within distance `r`.
//! [`PositionAroundIterator`] walks the order around a centre.

use vstd::prelude::*;
use crate::position::{Point, Position};

verus! {

/// The centre of the grid.
pub open spec fn origin() -> Point {
    Point { x: 0, y: 0, z: 0 }
}

/// The number of points within Chebyshev distance `r` of a centre:
/// `(2r + 1)^3`, and none for a negative radius.
pub open spec fn ring_size(r: int) -> int {
    if r < 0 {
        0
    } else {
        (2 * r + 1) * (2 * r + 1) * (2 * r + 1)
    }
}

/// Where `(y, z)` stands within the hollow square that shell `s` cuts out
/// of a plane `x = const` with `|x| < s`, rows of `y` ascending and `z`
/// ascending within a row.
pub open spec fn row_index(s: int, y: int, z: int) -> int {
    if y == -s {
        z + s
    } else if y < s {
        (2 * s + 1) + 2 * (y + s - 1) + (if z == s {
            1int
        } else {
            0int
        })
    } else {
        (2 * s + 1) + 2 * (2 * s - 1) + (z + s)
    }
}

/// Where `p` stands within shell `s`, the points of the shell taken in
/// lexicographic order of `(x, y, z)`.
pub open spec fn shell_index(s: int, p: Point) -> int {
    let w = 2 * s + 1;
    if p.x == -s {
        (p.y + s) * w + (p.z + s)
    } else if p.x < s {
        w * w + (p.x + s - 1) * (8 * s) + row_index(s, p.y, p.z)
    } else {
        w * w + (2 * s - 1) * (8 * s) + (p.y + s) * w + (p.z + s)
    }
}

/// The place of offset `p` in the ring order: all nearer shells come
/// first, then the points of its own shell that precede it.
pub open spec fn ring_rank(p: Point) -> int {
    let s = p.norm();
    ring_size(s - 1) + shell_index(s, p)
}

/// The offset that follows `p` in the ring order.
pub open spec fn ring_next(p: Point) -> Point {
    let s = p.norm();
    if p.z < s && (p.x == s || p.x == -s || p.y == s || p.y == -s) {
        Point { z: p.z + 1, ..p }
    } else if p.z < s {
        Point { z: s, ..p }
    } else if p.y < s {
        Point { y: p.y + 1, z: -s, ..p }
    } else if p.x < s {
        Point { x: p.x + 1, y: -s, z: -s }
    } else {
        Point { x: -(s + 1), y: -(s + 1), z: -(s + 1) }
    }
}

/// The `k`-th offset of the ring order, counting from zero: the centre
/// first, then shell after shell outwards.
pub open spec fn ring_nth(k: int) -> Point
    decreases k,
{
    if k <= 0 {
        origin()
    } else {
        ring_next(ring_nth(k - 1))
    }
}

/// Whether every point within Chebyshev distance `radius` of `center`
/// fits 64-bit coordinates.
pub open spec fn ring_fits(center: Point, radius: int) -> bool {
    &&& 0 <= radius
    &&& i64::MIN <= center.x - radius && center.x + radius <= i64::MAX
    &&& i64::MIN <= center.y - radius && center.y + radius <= i64::MAX
    &&& i64::MIN <= center.z - radius && center.z + radius <= i64::MAX
}

proof fn lemma_cube_expand(s: int)
    ensures
        (2 * s + 1) * (2 * s + 1) * (2 * s + 1) == 8 * s * s * s + 12 * s * s + 6 * s + 1,
        (2 * s - 1) * (2 * s - 1) * (2 * s - 1) == 8 * s * s * s - 12 * s * s + 6 * s - 1,
        (2 * s + 1) * (2 * s + 1) == 4 * s * s + 4 * s + 1,
        (2 * s - 1) * (8 * s) == 16 * s * s - 8 * s,
        (2 * s) * (2 * s + 1) == 4 * s * s + 2 * s,
{
    assert((2 * s + 1) * (2 * s + 1) * (2 * s + 1) == 8 * s * s * s + 12 * s * s + 6 * s + 1)
        by (nonlinear_arith);
    assert((2 * s - 1) * (2 * s - 1) * (2 * s - 1) == 8 * s * s * s - 12 * s * s + 6 * s - 1)
        by (nonlinear_arith);
    assert((2 * s + 1) * (2 * s + 1) == 4 * s * s + 4 * s + 1) by (nonlinear_arith);
    assert((2 * s - 1) * (8 * s) == 16 * s * s - 8 * s) by (nonlinear_arith);
    assert((2 * s) * (2 * s + 1) == 4 * s * s + 2 * s) by (nonlinear_arith);
}

/// A ring of radius zero holds the centre alone.
pub proof fn lemma_ring_size_zero()
    ensures
        ring_size(0) == 1,
        ring_size(-1) == 0,
{
    assert((2 * 0 + 1) * (2 * 0 + 1) * (2 * 0 + 1) == 1) by (nonlinear_arith);
}

/// A shell of radius `s >= 1` holds `24 s^2 + 2` points.
pub proof fn lemma_shell_size(s: int)
    requires
        s >= 1,
    ensures
        ring_size(s) - ring_size(s - 1) == 24 * s * s + 2,
        ring_size(s) - ring_size(s - 1) == 2 * ((2 * s + 1) * (2 * s + 1)) + (2 * s - 1) * (8
            * s),
{
    assert((2 * s + 1) * (2 * s + 1) * (2 * s + 1) - (2 * (s - 1) + 1) * (2 * (s - 1) + 1) * (2
        * (s - 1) + 1) == 24 * s * s + 2) by (nonlinear_arith);
    assert(2 * ((2 * s + 1) * (2 * s + 1)) + (2 * s - 1) * (8 * s) == 24 * s * s + 2)
        by (nonlinear_arith);
}

/// Larger radii hold more points.
pub proof fn lemma_ring_size_monotonic(a: int, b: int)
    requires
        a <= b,
    ensures
        ring_size(a) <= ring_size(b),
        0 <= ring_size(a),
        a >= 0 ==> ring_size(a) >= 1,
    decreases b - a,
{
    if a >= 0 {
        assert((2 * a + 1) * (2 * a + 1) * (2 * a + 1) >= 1) by (nonlinear_arith)
            requires
                a >= 0,
        ;
    }
    if a < b {
        lemma_ring_size_monotonic(a, b - 1);
        if b >= 1 {
            lemma_shell_size(b);
            assert(24 * b * b + 2 >= 0) by (nonlinear_arith);
        } else if b == 0 {
            lemma_ring_size_zero();
        }
    }
}

/// The index of a point within its own shell lies between zero and the
/// size of the shell.
pub proof fn lemma_shell_index_bounds(p: Point)
    ensures
        0 <= shell_index(p.norm(), p),
        ring_size(p.norm() - 1) + shell_index(p.norm(), p) < ring_size(p.norm()),
{
    let s = p.norm();
    let w = 2 * s + 1;
    if s == 0 {
        lemma_ring_size_zero();
        assert((p.y + s) * w == 0) by (nonlinear_arith)
            requires
                p.y + s == 0,
        ;
    } else {
        lemma_shell_size(s);
        lemma_cube_expand(s);
        assert(w * w == 4 * s * s + 4 * s + 1);
        if p.x == -s {
            assert(0 <= (p.y + s) * w <= (2 * s) * w) by (nonlinear_arith)
                requires
                    0 <= p.y + s <= 2 * s,
                    w >= 0,
            ;
        } else if p.x < s {
            assert(0 <= (p.x + s - 1) * (8 * s) <= (2 * s - 2) * (8 * s)) by (nonlinear_arith)
                requires
                    0 <= p.x + s - 1 <= 2 * s - 2,
                    s >= 1,
            ;
            assert((2 * s - 2) * (8 * s) == (2 * s - 1) * (8 * s) - 8 * s) by (nonlinear_arith);
            assert(0 <= row_index(s, p.y, p.z) < 8 * s);
        } else {
            assert(0 <= (p.y + s) * w <= (2 * s) * w) by (nonlinear_arith)
                requires
                    0 <= p.y + s <= 2 * s,
                    w >= 0,
            ;
        }
    }
}

/// The rank of a point lies within the ranks of its own shell.
pub proof fn lemma_rank_bounds(p: Point)
    ensures
        ring_size(p.norm() - 1) <= ring_rank(p) < ring_size(p.norm()),
        0 <= ring_rank(p),
{
    lemma_shell_index_bounds(p);
    lemma_ring_size_monotonic(p.norm() - 1, p.norm());
}

/// The successor of a point has the next rank, and lies in the same shell
/// or opens the next one.
pub proof fn lemma_rank_next(p: Point)
    ensures
        ring_rank(ring_next(p)) == ring_rank(p) + 1,
        ring_next(p).norm() == p.norm() || ring_next(p).norm() == p.norm() + 1,
        (ring_next(p).norm() == p.norm() + 1) <==> (p.x == p.norm() && p.y == p.norm() && p.z
            == p.norm()),
{
    let s = p.norm();
    let w = 2 * s + 1;
    let q = ring_next(p);
    lemma_cube_expand(s);
    if p.x == s && p.y == s && p.z == s {
        assert(q.norm() == s + 1);
        assert(shell_index(s + 1, q) == 0) by {
            assert((q.y + (s + 1)) * (2 * (s + 1) + 1) == 0) by (nonlinear_arith)
                requires
                    q.y + (s + 1) == 0,
            ;
        }
        if s == 0 {
            lemma_ring_size_zero();
            assert((p.y + s) * w == 0) by (nonlinear_arith)
                requires
                    p.y + s == 0,
            ;
        } else {
            lemma_shell_size(s);
            assert((p.y + s) * w == (2 * s) * w);
        }
    } else {
        assert(s >= 1);
        assert(q.norm() == s);
        if p.z < s && (p.x == s || p.x == -s || p.y == s || p.y == -s) {
        } else if p.z < s {
        } else if p.y < s {
            assert((p.y + 1 + s) * w == (p.y + s) * w + w) by (nonlinear_arith);
        } else {
            assert((p.y + s) * w == (2 * s) * w);
            assert((q.y + s) * w == 0) by (nonlinear_arith)
                requires
                    q.y + s == 0,
            ;
            assert((p.x + 1 + s - 1) * (8 * s) == (p.x + s - 1) * (8 * s) + 8 * s)
                by (nonlinear_arith);
            assert((q.x + s - 1) * (8 * s) == (p.x + s - 1) * (8 * s) + 8 * s);
            if p.x == -s {
                assert((p.x + s) * (8 * s) == 0) by (nonlinear_arith)
                    requires
                        p.x + s == 0,
                ;
            }
        }
    }
}

/// The `k`-th offset has rank `k`.
pub proof fn lemma_rank_of_nth(k: int)
    requires
        0 <= k,
    ensures
        ring_rank(ring_nth(k)) == k,
    decreases k,
{
    if k == 0 {
        lemma_ring_size_zero();
        assert(origin().norm() == 0);
        assert((origin().y + 0) * (2 * 0 + 1) == 0) by (nonlinear_arith);
    } else {
        lemma_rank_of_nth(k - 1);
        lemma_rank_next(ring_nth(k - 1));
    }
}

/// Two numbers written as `a * m + b` with `0 <= b < m` are equal only
/// where both digits are.
proof fn lemma_digits_unique(a: int, b: int, c: int, d: int, m: int)
    requires
        0 <= b < m,
        0 <= d < m,
        a * m + b == c * m + d,
    ensures
        a == c,
        b == d,
{
    assert(a == c) by (nonlinear_arith)
        requires
            0 <= b < m,
            0 <= d < m,
            a * m + b == c * m + d,
    ;
}

/// Within one shell, points with the same index are the same point.
proof fn lemma_shell_index_injective(s: int, p: Point, q: Point)
    requires
        p.norm() == s,
        q.norm() == s,
        shell_index(s, p) == shell_index(s, q),
    ensures
        p == q,
{
    let w = 2 * s + 1;
    if s == 0 {
    } else {
        lemma_cube_expand(s);
        // The range of indices of each of the three classes of `x`.
        assert forall|r: Point| r.norm() == s && (r.x == -s || r.x == s) implies 0 <= (r.y + s)
            * w + (r.z + s) < w * w by {
            assert(0 <= (r.y + s) * w <= (2 * s) * w) by (nonlinear_arith)
                requires
                    0 <= r.y + s <= 2 * s,
                    w >= 0,
            ;
        }
        assert forall|r: Point| r.norm() == s && -s < r.x < s implies 0 <= (r.x + s - 1) * (8
            * s) + row_index(s, r.y, r.z) < (2 * s - 1) * (8 * s) by {
            assert(0 <= (r.x + s - 1) * (8 * s) <= (2 * s - 2) * (8 * s)) by (nonlinear_arith)
                requires
                    0 <= r.x + s - 1 <= 2 * s - 2,
                    s >= 1,
            ;
            assert((2 * s - 2) * (8 * s) == (2 * s - 1) * (8 * s) - 8 * s) by (nonlinear_arith);
        }
        assert((2 * s - 1) * (8 * s) >= 0) by (nonlinear_arith)
            requires
                s >= 1,
        ;
        if p.x == -s || p.x == s {
            assert(q.x == p.x);
            lemma_digits_unique(p.y + s, p.z + s, q.y + s, q.z + s, w);
        } else {
            assert(-s < q.x < s);
            lemma_digits_unique(
                p.x + s - 1,
                row_index(s, p.y, p.z),
                q.x + s - 1,
                row_index(s, q.y, q.z),
                8 * s,
            );
        }
    }
}

/// Distinct offsets have distinct ranks.
pub proof fn lemma_rank_injective(p: Point, q: Point)
    requires
        ring_rank(p) == ring_rank(q),
    ensures
        p == q,
{
    lemma_rank_bounds(p);
    lemma_rank_bounds(q);
    if p.norm() < q.norm() {
        lemma_ring_size_monotonic(p.norm(), q.norm() - 1);
    } else if q.norm() < p.norm() {
        lemma_ring_size_monotonic(q.norm(), p.norm() - 1);
    } else {
        lemma_shell_index_injective(p.norm(), p, q);
    }
}

/// The ring order visits no offset twice.
pub proof fn lemma_ring_distinct(j: int, k: int)
    requires
        0 <= j,
        0 <= k,
        ring_nth(j) == ring_nth(k),
    ensures
        j == k,
{
    lemma_rank_of_nth(j);
    lemma_rank_of_nth(k);
}

/// The ring order omits no offset: every offset stands at the place that
/// its rank gives, and an offset within Chebyshev distance `r` of the
/// centre stands among the first `(2r + 1)^3`.
pub proof fn lemma_ring_complete(p: Point, r: int)
    requires
        p.norm() <= r,
    ensures
        0 <= ring_rank(p) < ring_size(r),
        ring_nth(ring_rank(p)) == p,
{
    lemma_rank_bounds(p);
    lemma_ring_size_monotonic(p.norm(), r);
    lemma_rank_of_nth(ring_rank(p));
    lemma_rank_injective(ring_nth(ring_rank(p)), p);
}

/// The first `(2r + 1)^3` offsets of the ring order are exactly those
/// within Chebyshev distance `r` of the centre.
pub proof fn lemma_ring_prefix_is_cube(k: int, r: int)
    requires
        0 <= k,
        0 <= r,
    ensures
        k < ring_size(r) <==> ring_nth(k).norm() <= r,
{
    let p = ring_nth(k);
    lemma_rank_of_nth(k);
    lemma_rank_bounds(p);
    if p.norm() <= r {
        lemma_ring_size_monotonic(p.norm(), r);
    } else {
        lemma_ring_size_monotonic(r, p.norm() - 1);
    }
}

/// The ring order is nearest shell first: a later offset is never nearer
/// to the centre than an earlier one.
pub proof fn lemma_ring_nearest_first(j: int, k: int)
    requires
        0 <= j <= k,
    ensures
        ring_nth(j).norm() <= ring_nth(k).norm(),
{
    let p = ring_nth(j);
    let q = ring_nth(k);
    lemma_rank_of_nth(j);
    lemma_rank_of_nth(k);
    lemma_rank_bounds(p);
    lemma_rank_bounds(q);
    if q.norm() < p.norm() {
        lemma_ring_size_monotonic(q.norm(), p.norm() - 1);
    }
}

/// The centre comes first, and only there.
pub proof fn lemma_ring_center_once(k: int)
    requires
        0 <= k,
    ensures
        ring_nth(k) == origin() <==> k == 0,
{
    if ring_nth(k) == origin() {
        lemma_ring_distinct(k, 0);
    }
}

/// Enumerates every position within a Chebyshev radius of a centre, the
/// centre first and then shell after shell outwards, each position once.
///
/// The enumeration keeps its place between calls, so it can be drained a
/// few positions at a time.
#[derive(Clone, Copy, Debug)]
pub struct PositionAroundIterator {
    start: Position,
    current: Position,
    current_radius: i64,
    radius: i64,
    finished: bool,
}

impl PositionAroundIterator {
    #[verifier::type_invariant]
    spec fn well_formed(self) -> bool {
        &&& ring_fits(self.start@, self.radius as int)
        &&& self.radius <= usize::MAX
        &&& 0 <= self.current_radius <= self.radius
        &&& self.current@.norm() == self.current_radius
    }

    /// The centre of the enumeration.
    pub closed spec fn center(self) -> Position {
        self.start
    }

    /// The Chebyshev radius that the enumeration covers.
    pub closed spec fn radius(self) -> int {
        self.radius as int
    }

    /// How many positions the enumeration has handed out so far.
    pub closed spec fn yielded(self) -> int {
        if self.finished {
            ring_size(self.radius as int)
        } else {
            ring_rank(self.current@)
        }
    }

    /// Starts an enumeration around `start`.
    pub fn new(start: Position, radius: usize) -> (it: PositionAroundIterator)
        requires
            ring_fits(start@, radius as int),
        ensures
            it.center() == start,
            it.radius() == radius,
            it.yielded() == 0,
    {
        proof {
            lemma_rank_of_nth(0);
        }
        PositionAroundIterator {
            start,
            current: Position::new(0, 0, 0),
            current_radius: 0,
            radius: radius as i64,
            finished: false,
        }
    }

    /// Hands out the next position, or `None` once all `(2r + 1)^3` have
    /// been handed out.
    pub fn next(&mut self) -> (r: Option<Position>)
        ensures
            final(self).center() == old(self).center(),
            final(self).radius() == old(self).radius(),
            0 <= old(self).yielded() <= ring_size(old(self).radius()),
            old(self).yielded() < ring_size(old(self).radius()) ==> {
                &&& r matches Some(p)
                &&& p@ == old(self).center()@.plus(ring_nth(old(self).yielded()))
                &&& final(self).yielded() == old(self).yielded() + 1
            },
            old(self).yielded() == ring_size(old(self).radius()) ==> {
                &&& r is None
                &&& *final(self) == *old(self)
            },
    {
        proof {
            use_type_invariant(&*self);
            lemma_ring_complete(self.current@, self.radius as int);
            lemma_ring_size_monotonic(self.radius as int, self.radius as int);
        }
        if self.finished {
            return None;
        }
        let p = self.current;
        let s = self.current_radius;
        let out = Position::new(self.start.x + p.x, self.start.y + p.y, self.start.z + p.z);
        proof {
            lemma_rank_next(p@);
            lemma_rank_bounds(p@);
        }
        if p.x == s && p.y == s && p.z == s {
            if s == self.radius {
                proof {
                    lemma_rank_bounds(ring_next(p@));
                    lemma_ring_size_monotonic(s as int, s as int);
                }
                *self = PositionAroundIterator { finished: true, ..*self };
            } else {
                let t = s + 1;
                *self = PositionAroundIterator {
                    current: Position::new(-t, -t, -t),
                    current_radius: t,
                    ..*self
                };
            }
        } else {
            let q = if p.z < s && (p.x == s || p.x == -s || p.y == s || p.y == -s) {
                Position::new(p.x, p.y, p.z + 1)
            } else if p.z < s {
                Position::new(p.x, p.y, s)
            } else if p.y < s {
                Position::new(p.x, p.y + 1, -s)
            } else {
                Position::new(p.x + 1, -s, -s)
            };
            assert(q@ == ring_next(p@));
            *self = PositionAroundIterator { current: q, ..*self };
        }
        Some(out)
    }

    /// The centre of the enumeration.
    pub fn get_center(&self) -> (r: Position)
        ensures
            r == self.center(),
            ring_fits(r@, self.radius()),
    {
        proof {
            use_type_invariant(self);
        }
        self.start
    }

    /// The Chebyshev radius that the enumeration covers.
    pub fn get_radius(&self) -> (r: usize)
        ensures
            r == self.radius(),
    {
        proof {
            use_type_invariant(self);
        }
        self.radius as usize
    }

    /// Whether every position has been handed out.
    pub fn is_done(&self) -> (r: bool)
        ensures
            r <==> self.yielded() == ring_size(self.radius()),
            0 <= self.yielded() <= ring_size(self.radius()),
    {
        proof {
            use_type_invariant(self);
            lemma_rank_bounds(self.current@);
            lemma_ring_size_monotonic(self.current@.norm(), self.radius as int);
        }
        self.finished
    }
}

/// An enumeration has never handed out fewer positions than none.
pub proof fn lemma_yielded_bounds(it: PositionAroundIterator)
    ensures
        0 <= it.yielded(),
{
    lemma_rank_bounds(it.current@);
    lemma_ring_size_monotonic(it.radius as int, it.radius as int);
}

impl Position {
    /// Enumerates the positions within `radius` of this one, nearest
    /// shell first.
    pub fn iter_around(&self, radius: usize) -> (it: PositionAroundIterator)
        requires
            ring_fits(self@, radius as int),
        ensures
            it.center() == *self,
            it.radius() == radius,
            it.yielded() == 0,
    {
        PositionAroundIterator::new(*self, radius)
    }
}

} // verus!
