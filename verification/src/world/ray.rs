//! Ray casting: the first solid sample along a line of sight.

use vstd::prelude::*;
use crate::chunk::Chunk;
use crate::fixed::ONE;
use crate::grid::chunk_of;
use crate::position::{Point, Position};
use crate::vec3::Vec3;
use crate::voxel::Voxel;
use crate::world::streaming::lemma_with_chunks;
use crate::world::{grid_cord_of, grid_of_vec, sample_at, with_chunks, World};

verus! {

/// The length of one step of a ray: `0.01`.
pub const RAY_STEP: i64 = 10_000;

/// The point at distance `len` along the ray from `from` in direction
/// `dir`, all fixed-point numbers, each product rounded down.
pub open spec fn ray_point(from: Point, dir: Point, len: int) -> Point {
    Point {
        x: from.x + (dir.x * len) / (ONE as int),
        y: from.y + (dir.y * len) / (ONE as int),
        z: from.z + (dir.z * len) / (ONE as int),
    }
}

/// What a ray from `from` in direction `dir` hits, marched in steps of
/// `RAY_STEP` from the distance `len` on: the first solid sample, with
/// its world grid position. There is no hit where the ray passes
/// `max_dist`, enters a chunk that is not resident, or leaves the range
/// of fixed-point numbers.
pub open spec fn ray_march(
    chunks: Map<Position, Chunk>,
    from: Point,
    dir: Point,
    max_dist: int,
    len: int,
) -> Option<(Position, Voxel)>
    decreases max_dist + RAY_STEP - len,
{
    if len < 0 || len >= max_dist {
        None
    } else {
        let point = ray_point(from, dir, len);
        let grid = grid_of_vec(point);
        if !point.representable() {
            None
        } else {
            match sample_at(chunks, grid) {
                Some(voxel) => if voxel.solid() {
                    Some((grid.to_position(), voxel))
                } else {
                    ray_march(chunks, from, dir, max_dist, len + RAY_STEP)
                },
                None => None,
            }
        }
    }
}

/// A ray that starts in a chunk that is not resident hits nothing.
pub proof fn lemma_ray_without_chunk_hits_nothing(
    chunks: Map<Position, Chunk>,
    from: Point,
    dir: Point,
    max_dist: int,
)
    requires
        !chunks.contains_key(chunk_of(grid_of_vec(from)).to_position()),
    ensures
        ray_march(chunks, from, dir, max_dist, 0).is_none(),
{
    assert((dir.x * 0) / (ONE as int) == 0 && (dir.y * 0) / (ONE as int) == 0 && (dir.z * 0) / (
    ONE as int) == 0) by (nonlinear_arith);
    assert(ray_point(from, dir, 0) == from);
}

/// What a ray hits is a solid sample, found at the position that the ray
/// reports for it.
pub proof fn lemma_ray_hits_solid(
    chunks: Map<Position, Chunk>,
    from: Point,
    dir: Point,
    max_dist: int,
    len: int,
)
    ensures
        ray_march(chunks, from, dir, max_dist, len) matches Some((position, voxel)) ==> {
            &&& voxel.solid()
            &&& sample_at(chunks, position@) == Some(voxel)
            &&& chunks.contains_key(chunk_of(position@).to_position())
        },
    decreases max_dist + RAY_STEP - len,
{
    if len < 0 || len >= max_dist {
    } else {
        let point = ray_point(from, dir, len);
        let grid = grid_of_vec(point);
        if point.representable() {
            vstd::arithmetic::div_mod::lemma_fundamental_div_mod(point.x, ONE as int);
            vstd::arithmetic::div_mod::lemma_fundamental_div_mod(point.y, ONE as int);
            vstd::arithmetic::div_mod::lemma_fundamental_div_mod(point.z, ONE as int);
            vstd::arithmetic::div_mod::lemma_mod_bound(point.x, ONE as int);
            vstd::arithmetic::div_mod::lemma_mod_bound(point.y, ONE as int);
            vstd::arithmetic::div_mod::lemma_mod_bound(point.z, ONE as int);
            assert(grid.representable());
            assert(grid.to_position()@ == grid);
            match sample_at(chunks, grid) {
                Some(voxel) => {
                    if !voxel.solid() {
                        lemma_ray_hits_solid(chunks, from, dir, max_dist, len + RAY_STEP);
                    }
                },
                None => {},
            }
        }
    }
}

/// A ray that hits goes on hitting the same sample when chunks are taken
/// in at positions that were not resident: the ray has passed through
/// resident chunks alone.
pub proof fn lemma_ray_survives_new_chunks(
    chunks: Map<Position, Chunk>,
    fresh: Seq<Chunk>,
    from: Point,
    dir: Point,
    max_dist: int,
    len: int,
)
    requires
        forall|i: int| 0 <= i < fresh.len() ==> !chunks.contains_key((#[trigger] fresh[i]).position()),
        ray_march(chunks, from, dir, max_dist, len).is_some(),
    ensures
        ray_march(with_chunks(chunks, fresh), from, dir, max_dist, len) == ray_march(
            chunks,
            from,
            dir,
            max_dist,
            len,
        ),
    decreases max_dist + RAY_STEP - len,
{
    let taken = with_chunks(chunks, fresh);
    let point = ray_point(from, dir, len);
    let grid = grid_of_vec(point);
    let place = chunk_of(grid).to_position();
    lemma_with_chunks(chunks, fresh);
    assert(chunks.contains_key(place));
    assert(taken.contains_key(place));
    assert(taken[place] == chunks[place]);
    assert(sample_at(taken, grid) == sample_at(chunks, grid));
    if !sample_at(chunks, grid).unwrap().solid() {
        lemma_ray_survives_new_chunks(chunks, fresh, from, dir, max_dist, len + RAY_STEP);
    }
}

/// One coordinate of a point on a ray, or `None` where it does not fit
/// 64 bits.
fn ray_coordinate(from: i64, dir: i64, len: i64) -> (r: Option<i64>)
    requires
        0 <= len,
    ensures
        r.is_some() == crate::vec3::fits_i64(from + (dir * len) / (ONE as int)),
        r matches Some(v) ==> v == from + (dir * len) / (ONE as int),
{
    let product = crate::vec3::wide_mul(dir, len);
    let q = product.checked_div_euclid(ONE as i128);
    let moved: i128 = q.unwrap();
    proof {
        vstd::arithmetic::div_mod::lemma_fundamental_div_mod(product as int, ONE as int);
        vstd::arithmetic::div_mod::lemma_mod_bound(product as int, ONE as int);
    }
    let at: i128 = from as i128 + moved;
    if at < i64::MIN as i128 || at > i64::MAX as i128 {
        None
    } else {
        Some(at as i64)
    }
}

impl World {
    /// What a ray from the fixed-point world position `from` in direction
    /// `dir` hits within `max_dist`: the first solid sample on the ray,
    /// with its world grid position. The ray is marched in steps of
    /// `RAY_STEP`; `None` where it hits nothing.
    pub fn cast_ray(&self, from: Vec3<i64>, dir: Vec3<i64>, max_dist: i64) -> (r: Option<
        (Position, Voxel),
    >)
        ensures
            r == ray_march(self.chunks(), from@, dir@, max_dist as int, 0),
    {
        let mut ray_len: i64 = 0;
        let mut current: Option<&Chunk> = None;
        while ray_len < max_dist
            invariant
                0 <= ray_len,
                ray_march(self.chunks(), from@, dir@, max_dist as int, ray_len as int) == ray_march(
                    self.chunks(),
                    from@,
                    dir@,
                    max_dist as int,
                    0,
                ),
                current matches Some(chunk) ==> self.chunks().contains_key(chunk.position())
                    && self.chunks()[chunk.position()] == *chunk,
            decreases max_dist + RAY_STEP - ray_len,
        {
            let x = ray_coordinate(from.x, dir.x, ray_len);
            let y = ray_coordinate(from.y, dir.y, ray_len);
            let z = ray_coordinate(from.z, dir.z, ray_len);
            let grid = match (x, y, z) {
                (Some(x), Some(y), Some(z)) => Position::new(
                    grid_cord_of(x),
                    grid_cord_of(y),
                    grid_cord_of(z),
                ),
                _ => {
                    return None;
                },
            };
            let chunk_pos = Chunk::get_chunk_pos(grid);
            let chunk = match current {
                Some(chunk) if chunk.get_position() == chunk_pos => chunk,
                _ => match self.get_chunk(chunk_pos) {
                    Some(chunk) => chunk,
                    None => {
                        return None;
                    },
                },
            };
            current = Some(chunk);
            proof {
                crate::grid::lemma_chunk_and_local(grid@);
            }
            match chunk.get_voxel(Chunk::get_in_chunk_pos(grid)) {
                Some(voxel) => {
                    if voxel.is_solid() {
                        return Some((grid, voxel));
                    }
                },
                None => {
                    return None;
                },
            }
            if ray_len > i64::MAX - RAY_STEP {
                assert(ray_march(
                    self.chunks(),
                    from@,
                    dir@,
                    max_dist as int,
                    ray_len + RAY_STEP,
                ).is_none());
                return None;
            }
            ray_len += RAY_STEP;
        }
        None
    }
}

} // verus!
