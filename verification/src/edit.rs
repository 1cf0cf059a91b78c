//! Sphere edits: what filling and digging do to the samples of a grid.
//!
//! An edit reaches the samples whose Euclidean distance from the centre of
//! the edit is below its radius. Its strength falls off linearly, from the
//! whole amount at the centre to nothing at the radius. Filling raises
//! empty samples and digging lowers solid ones.

use vstd::prelude::*;
use crate::fixed::{
    floor_sqrt, isqrt, lemma_floor_sqrt_exists, lemma_floor_sqrt_less, lemma_square_monotonic,
    mul_ratio, ONE_SQUARED,
};
use crate::grid::{
    chunk_origin, grid_point, origin_coordinate, valid_chunk_point, CHUNK_VOXELS_VOLUME,
};
use crate::position::{Point, Position};
use crate::voxel::Voxel;

verus! {

/// No edit lowers a density below this: `-0.1`.
pub const DENSITY_FLOOR: i32 = -100_000;

/// No edit raises a density above this: `1.0`.
pub const DENSITY_CEILING: i32 = 1_000_000;

/// The world grid position of sample `i` of the chunk at `chunk`.
pub open spec fn sample_point(chunk: Point, i: int) -> Point {
    chunk_origin(chunk).plus(grid_point(i))
}

/// The squared Euclidean distance between two grid positions, in grid
/// steps.
pub open spec fn sq_distance(a: Point, b: Point) -> int {
    let d = a.minus(b);
    d.x * d.x + d.y * d.y + d.z * d.z
}

/// Whether a sample at squared distance `sq` lies within the fixed-point
/// `radius`.
pub open spec fn in_reach(sq: int, radius: int) -> bool {
    sq * ONE_SQUARED < radius * radius
}

/// The fixed-point distance of a sample at squared distance `sq`, rounded
/// down.
pub open spec fn reach_distance(sq: int) -> int {
    floor_sqrt(sq * ONE_SQUARED)
}

/// By how much an edit of `amount` changes a sample at squared distance
/// `sq`: `amount * (radius - distance) / radius`, rounded down.
pub open spec fn strength(sq: int, radius: int, amount: int) -> int {
    (amount * (radius - reach_distance(sq))) / radius
}

/// The density of an empty sample after a fill of strength `delta`.
pub open spec fn fill_value(v: int, delta: int) -> int {
    let lifted = if v < DENSITY_FLOOR {
        DENSITY_FLOOR as int
    } else {
        v
    };
    if lifted + delta > DENSITY_CEILING {
        DENSITY_CEILING as int
    } else {
        lifted + delta
    }
}

/// The density of a solid sample after a dig of strength `delta`.
pub open spec fn dig_value(v: int, delta: int) -> int {
    if v - delta < DENSITY_FLOOR {
        DENSITY_FLOOR as int
    } else {
        v - delta
    }
}

/// Whether a fill touches the sample `v` at squared distance `sq`.
pub open spec fn fill_touches(v: Voxel, sq: int, radius: int) -> bool {
    in_reach(sq, radius) && v.value < 0
}

/// Whether a dig touches the sample `v` at squared distance `sq`.
pub open spec fn dig_touches(v: Voxel, sq: int, radius: int) -> bool {
    in_reach(sq, radius) && v.value >= 0
}

/// The sample `v` after a fill: raised and painted where the fill touches
/// it, unchanged elsewhere.
pub open spec fn fill_sample(v: Voxel, paint: Voxel, sq: int, radius: int, amount: int) -> Voxel {
    if fill_touches(v, sq, radius) {
        Voxel { value: fill_value(v.value as int, strength(sq, radius, amount)) as i32, id: paint.id }
    } else {
        v
    }
}

/// The sample `v` after a dig: lowered where the dig touches it, unchanged
/// elsewhere.
pub open spec fn dig_sample(v: Voxel, sq: int, radius: int, amount: int) -> Voxel {
    if dig_touches(v, sq, radius) {
        Voxel { value: dig_value(v.value as int, strength(sq, radius, amount)) as i32, id: v.id }
    } else {
        v
    }
}

/// The grid `s` of the chunk at `chunk` after a fill around `center`.
pub open spec fn filled(
    s: Seq<Voxel>,
    chunk: Point,
    center: Point,
    radius: int,
    paint: Voxel,
    amount: int,
) -> Seq<Voxel> {
    Seq::new(
        s.len(),
        |i: int| fill_sample(s[i], paint, sq_distance(sample_point(chunk, i), center), radius, amount),
    )
}

/// The grid `s` of the chunk at `chunk` after a dig around `center`.
pub open spec fn dug(s: Seq<Voxel>, chunk: Point, center: Point, radius: int, amount: int) -> Seq<
    Voxel,
> {
    Seq::new(
        s.len(),
        |i: int| dig_sample(s[i], sq_distance(sample_point(chunk, i), center), radius, amount),
    )
}

/// How many of the first `n` samples of `s` a fill around `center`
/// touches.
pub open spec fn fill_count(s: Seq<Voxel>, chunk: Point, center: Point, radius: int, n: int) -> int
    decreases n,
{
    if n <= 0 {
        0
    } else {
        fill_count(s, chunk, center, radius, n - 1) + (if fill_touches(
            s[n - 1],
            sq_distance(sample_point(chunk, n - 1), center),
            radius,
        ) {
            1int
        } else {
            0int
        })
    }
}

/// How many of the first `n` samples of `s` a dig around `center` touches.
pub open spec fn dig_count(s: Seq<Voxel>, chunk: Point, center: Point, radius: int, n: int) -> int
    decreases n,
{
    if n <= 0 {
        0
    } else {
        dig_count(s, chunk, center, radius, n - 1) + (if dig_touches(
            s[n - 1],
            sq_distance(sample_point(chunk, n - 1), center),
            radius,
        ) {
            1int
        } else {
            0int
        })
    }
}

/// A count of touched samples lies between zero and the number of samples
/// counted, and is zero exactly where no sample is touched.
pub proof fn lemma_dig_count_bounds(s: Seq<Voxel>, chunk: Point, center: Point, radius: int, n: int)
    requires
        0 <= n,
    ensures
        0 <= dig_count(s, chunk, center, radius, n) <= n,
        dig_count(s, chunk, center, radius, n) == 0 <==> (forall|i: int|
            0 <= i < n ==> !dig_touches(
                #[trigger] s[i],
                sq_distance(sample_point(chunk, i), center),
                radius,
            )),
    decreases n,
{
    if n > 0 {
        lemma_dig_count_bounds(s, chunk, center, radius, n - 1);
    }
}

/// A count of touched samples lies between zero and the number of samples
/// counted, and is zero exactly where no sample is touched.
pub proof fn lemma_fill_count_bounds(
    s: Seq<Voxel>,
    chunk: Point,
    center: Point,
    radius: int,
    n: int,
)
    requires
        0 <= n,
    ensures
        0 <= fill_count(s, chunk, center, radius, n) <= n,
        fill_count(s, chunk, center, radius, n) == 0 <==> (forall|i: int|
            0 <= i < n ==> !fill_touches(
                #[trigger] s[i],
                sq_distance(sample_point(chunk, i), center),
                radius,
            )),
    decreases n,
{
    if n > 0 {
        lemma_fill_count_bounds(s, chunk, center, radius, n - 1);
    }
}

/// An edit that touches no sample leaves the grid as it was, so a caller
/// may skip rebuilding the mesh on a count of zero.
pub proof fn lemma_zero_count_unchanged(
    s: Seq<Voxel>,
    chunk: Point,
    center: Point,
    radius: int,
    paint: Voxel,
    amount: int,
)
    ensures
        dig_count(s, chunk, center, radius, s.len() as int) == 0 ==> dug(
            s,
            chunk,
            center,
            radius,
            amount,
        ) == s,
        fill_count(s, chunk, center, radius, s.len() as int) == 0 ==> filled(
            s,
            chunk,
            center,
            radius,
            paint,
            amount,
        ) == s,
{
    lemma_dig_count_bounds(s, chunk, center, radius, s.len() as int);
    lemma_fill_count_bounds(s, chunk, center, radius, s.len() as int);
    if dig_count(s, chunk, center, radius, s.len() as int) == 0 {
        assert(dug(s, chunk, center, radius, amount) =~= s);
    }
    if fill_count(s, chunk, center, radius, s.len() as int) == 0 {
        assert(filled(s, chunk, center, radius, paint, amount) =~= s);
    }
}

/// Digging where every sample in reach is already at or below the floor
/// touches nothing and changes nothing.
pub proof fn lemma_dig_at_floor_is_noop(
    s: Seq<Voxel>,
    chunk: Point,
    center: Point,
    radius: int,
    amount: int,
)
    requires
        forall|i: int|
            0 <= i < s.len() && in_reach(sq_distance(sample_point(chunk, i), center), radius)
                ==> (#[trigger] s[i]).value <= DENSITY_FLOOR,
    ensures
        dig_count(s, chunk, center, radius, s.len() as int) == 0,
        dug(s, chunk, center, radius, amount) == s,
{
    lemma_dig_count_bounds(s, chunk, center, radius, s.len() as int);
    lemma_zero_count_unchanged(s, chunk, center, radius, s[0], amount);
}

/// A fill followed by a dig of the same centre, radius and amount gives a
/// sample its density back, where the fill touched the sample and made it
/// solid and neither the floor nor the ceiling cut a value off.
pub proof fn lemma_fill_then_dig_restores(
    v: Voxel,
    paint: Voxel,
    sq: int,
    radius: int,
    amount: int,
)
    requires
        fill_touches(v, sq, radius),
        DENSITY_FLOOR <= v.value,
        0 <= v.value + strength(sq, radius, amount) <= DENSITY_CEILING,
    ensures
        dig_sample(fill_sample(v, paint, sq, radius, amount), sq, radius, amount).value
            == v.value,
{
}

/// A fill of a grid followed by a dig of the same centre, radius and
/// amount gives each sample its density back that the fill touched and
/// made solid, where neither the floor nor the ceiling cut a value off.
pub proof fn lemma_fill_then_dig_restores_grid(
    s: Seq<Voxel>,
    chunk: Point,
    center: Point,
    radius: int,
    paint: Voxel,
    amount: int,
    i: int,
)
    requires
        0 <= i < s.len(),
        fill_touches(s[i], sq_distance(sample_point(chunk, i), center), radius),
        DENSITY_FLOOR <= s[i].value,
        0 <= s[i].value + strength(sq_distance(sample_point(chunk, i), center), radius, amount)
            <= DENSITY_CEILING,
    ensures
        dug(filled(s, chunk, center, radius, paint, amount), chunk, center, radius, amount)[i].value
            == s[i].value,
{
    lemma_fill_then_dig_restores(
        s[i],
        paint,
        sq_distance(sample_point(chunk, i), center),
        radius,
        amount,
    );
}

/// An edit treats a sample by its world position alone: two chunks that
/// share a sample, and hold the same value for it, hold the same value for
/// it after both have been through the same edit.
pub proof fn lemma_shared_samples_agree(
    s: Seq<Voxel>,
    chunk: Point,
    i: int,
    t: Seq<Voxel>,
    other: Point,
    j: int,
    center: Point,
    radius: int,
    paint: Voxel,
    amount: int,
)
    requires
        0 <= i < s.len(),
        0 <= j < t.len(),
        sample_point(chunk, i) == sample_point(other, j),
        s[i] == t[j],
    ensures
        dug(s, chunk, center, radius, amount)[i] == dug(t, other, center, radius, amount)[j],
        filled(s, chunk, center, radius, paint, amount)[i] == filled(
            t,
            other,
            center,
            radius,
            paint,
            amount,
        )[j],
{
}

/// The distance and the strength of an edit at a sample whose distance
/// is known: `l` is the fixed-point distance of a sample at squared
/// distance `sq`, rounded down, and the sample is in reach exactly where
/// `l` is below the radius.
pub proof fn lemma_reach_is(sq: int, radius: int, amount: int, l: int)
    requires
        0 <= radius,
        crate::fixed::is_floor_sqrt(sq * ONE_SQUARED, l),
    ensures
        reach_distance(sq) == l,
        in_reach(sq, radius) <==> l < radius,
        strength(sq, radius, amount) == (amount * (radius - l)) / radius,
{
    crate::fixed::lemma_floor_sqrt_is(sq * ONE_SQUARED, l);
    lemma_floor_sqrt_less(sq * ONE_SQUARED, l, radius);
}

/// The strength of an edit lies between nothing and the whole amount.
pub proof fn lemma_strength_bounds(sq: int, radius: int, amount: int)
    requires
        0 <= sq,
        0 <= amount,
        in_reach(sq, radius),
        0 <= radius,
    ensures
        0 <= reach_distance(sq) < radius,
        0 <= strength(sq, radius, amount) <= amount,
{
    let n = sq * ONE_SQUARED;
    assert(n >= 0) by (nonlinear_arith)
        requires
            n == sq * ONE_SQUARED,
            sq >= 0,
    ;
    lemma_floor_sqrt_exists(n);
    let l = floor_sqrt(n);
    lemma_floor_sqrt_less(n, l, radius);
    let k = radius - l;
    assert(0 <= amount * k <= amount * radius) by (nonlinear_arith)
        requires
            0 <= amount,
            0 < k <= radius,
    ;
    vstd::arithmetic::div_mod::lemma_div_is_ordered(0, amount * k, radius);
    vstd::arithmetic::div_mod::lemma_div_is_ordered(amount * k, amount * radius, radius);
    assert((amount * radius) / radius == amount) by (nonlinear_arith)
        requires
            radius > 0,
    ;
    assert(0int / radius == 0) by (nonlinear_arith)
        requires
            radius > 0,
    ;
}

/// The strength of an edit of `amount` on sample `index` of the chunk at
/// `chunk_pos`, or `None` where the sample is out of reach.
pub fn strength_at(chunk_pos: Position, index: usize, center: Position, radius: u32, amount: u32)
    -> (r: Option<u32>)
    requires
        valid_chunk_point(chunk_pos@),
        index < CHUNK_VOXELS_VOLUME,
    ensures
        r.is_some() == in_reach(
            sq_distance(sample_point(chunk_pos@, index as int), center@),
            radius as int,
        ),
        r matches Some(delta) ==> delta == strength(
            sq_distance(sample_point(chunk_pos@, index as int), center@),
            radius as int,
            amount as int,
        ),
{
    let ghost sq = sq_distance(sample_point(chunk_pos@, index as int), center@);
    let local = crate::chunk::Chunk::index_to_pos(index);
    let dx: i128 = (origin_coordinate(chunk_pos.x) + local.x) as i128 - center.x as i128;
    let dy: i128 = (origin_coordinate(chunk_pos.y) + local.y) as i128 - center.y as i128;
    let dz: i128 = (origin_coordinate(chunk_pos.z) + local.z) as i128 - center.z as i128;
    let ax: i128 = if dx < 0 {
        -dx
    } else {
        dx
    };
    let ay: i128 = if dy < 0 {
        -dy
    } else {
        dy
    };
    let az: i128 = if dz < 0 {
        -dz
    } else {
        dz
    };
    let reach: i128 = radius as i128;
    proof {
        assert(dx * dx == ax * ax) by (nonlinear_arith)
            requires
                ax == dx || ax == -dx,
        ;
        assert(dy * dy == ay * ay) by (nonlinear_arith)
            requires
                ay == dy || ay == -dy,
        ;
        assert(dz * dz == az * az) by (nonlinear_arith)
            requires
                az == dz || az == -dz,
        ;
        assert(sq == ax * ax + ay * ay + az * az);
        assert(ax * ax >= 0 && ay * ay >= 0 && az * az >= 0) by (nonlinear_arith);
        lemma_out_of_reach(ax as int, sq, radius as int);
        lemma_out_of_reach(ay as int, sq, radius as int);
        lemma_out_of_reach(az as int, sq, radius as int);
    }
    if ax >= 4295 || ay >= 4295 || az >= 4295 {
        return None;
    }
    assert(ax * ax <= 4294 * 4294 && ay * ay <= 4294 * 4294 && az * az <= 4294 * 4294)
        by (nonlinear_arith)
        requires
            0 <= ax <= 4294,
            0 <= ay <= 4294,
            0 <= az <= 4294,
    ;
    let sq_steps: u128 = (ax * ax + ay * ay + az * az) as u128;
    assert(sq_steps * ONE_SQUARED <= 3 * 4294 * 4294 * ONE_SQUARED) by (nonlinear_arith)
        requires
            sq_steps <= 3 * 4294 * 4294,
    ;
    let n: u128 = sq_steps * ONE_SQUARED;
    assert(radius * radius <= 0xffff_ffff * 0xffff_ffff) by (nonlinear_arith)
        requires
            0 <= radius <= 0xffff_ffff,
    ;
    let reach_squared: u128 = (radius as u128) * (radius as u128);
    if n >= reach_squared {
        return None;
    }
    let distance = isqrt(n);
    proof {
        lemma_floor_sqrt_less(n as int, distance as int, radius as int);
    }
    Some(mul_ratio(amount, radius as u64 - distance, radius as u64))
}

/// A sample as far as the radius on one axis alone is out of reach.
proof fn lemma_out_of_reach(a: int, sq: int, radius: int)
    requires
        0 <= a,
        a * a <= sq,
        0 <= radius,
    ensures
        a * 1_000_000 >= radius ==> !in_reach(sq, radius),
        a >= 4295 && radius <= 0xffff_ffff ==> !in_reach(sq, radius),
{
    if a * 1_000_000 >= radius {
        lemma_square_monotonic(radius, a * 1_000_000);
        assert((a * 1_000_000) * (a * 1_000_000) == (a * a) * ONE_SQUARED) by (nonlinear_arith);
        assert((a * a) * ONE_SQUARED <= sq * ONE_SQUARED) by (nonlinear_arith)
            requires
                a * a <= sq,
        ;
    }
}

} // verus!
