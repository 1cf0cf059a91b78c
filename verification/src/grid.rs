//! The layout of a chunk's sample grid.
//!
//! A chunk is a cube of `CHUNK_REAL_SIZE` unit cells on each edge. Its grid
//! holds one more sample per axis, so that all eight corners of every cell
//! belong to the chunk itself.

use vstd::prelude::*;
use crate::position::Point;
use crate::true_mod::{floor_div, floor_mod, lemma_floor_div_mod};
use crate::voxel::Voxel;

verus! {

/// The edge length of a chunk, in unit cells.
pub const CHUNK_REAL_SIZE: usize = 16;

/// The number of samples along one edge of a chunk's grid: one more than
/// the chunk has cells.
pub const CHUNK_VOXELS_SIZE: usize = 17;

/// The number of samples in a chunk's grid: the cube of the number along
/// one edge.
pub const CHUNK_VOXELS_VOLUME: usize = 4913;

/// The sizes of the grid fit together.
pub proof fn lemma_grid_sizes()
    ensures
        CHUNK_VOXELS_SIZE == CHUNK_REAL_SIZE + 1,
        CHUNK_VOXELS_VOLUME == CHUNK_VOXELS_SIZE * CHUNK_VOXELS_SIZE * CHUNK_VOXELS_SIZE,
{
}

/// The largest absolute coordinate that a chunk may have: the largest
/// for which every point of the chunk, its last cell included, has a
/// world position that fits 64 bits as a fixed-point number. One more,
/// and the far corner of the chunk's last cell would not.
pub const CHUNK_COORD_LIMIT: i64 = 576_460_752_302;

/// The limit is as wide as 64 bits allow: the far corner of the last cell
/// of a chunk at the limit fits as a fixed-point number, and that of a
/// chunk one further does not.
pub proof fn lemma_chunk_coord_limit()
    ensures
        (CHUNK_COORD_LIMIT * 16 + 16) * 1_000_000 <= i64::MAX,
        ((CHUNK_COORD_LIMIT + 1) * 16 + 16) * 1_000_000 > i64::MAX,
        -(CHUNK_COORD_LIMIT * 16) * 1_000_000 >= i64::MIN,
{
}

/// Whether `c` is the position of a chunk inside the world's bounds.
pub open spec fn valid_chunk_point(c: Point) -> bool {
    &&& -CHUNK_COORD_LIMIT <= c.x <= CHUNK_COORD_LIMIT
    &&& -CHUNK_COORD_LIMIT <= c.y <= CHUNK_COORD_LIMIT
    &&& -CHUNK_COORD_LIMIT <= c.z <= CHUNK_COORD_LIMIT
}

/// Whether the local position `p` lies inside a chunk's grid.
pub open spec fn in_chunk(p: Point) -> bool {
    &&& 0 <= p.x < CHUNK_VOXELS_SIZE
    &&& 0 <= p.y < CHUNK_VOXELS_SIZE
    &&& 0 <= p.z < CHUNK_VOXELS_SIZE
}

/// The index in the grid of the sample at local position `p`.
pub open spec fn grid_index(p: Point) -> int {
    p.x + p.y * CHUNK_VOXELS_SIZE + p.z * CHUNK_VOXELS_SIZE * CHUNK_VOXELS_SIZE
}

/// The local position of the sample at index `i` of the grid.
pub open spec fn grid_point(i: int) -> Point {
    Point {
        x: i % (CHUNK_VOXELS_SIZE as int),
        y: (i / (CHUNK_VOXELS_SIZE as int)) % (CHUNK_VOXELS_SIZE as int),
        z: i / (CHUNK_VOXELS_SIZE as int) / (CHUNK_VOXELS_SIZE as int),
    }
}

/// The sample at local position `p` of the grid `s`, if `p` lies inside.
pub open spec fn grid_get(s: Seq<Voxel>, p: Point) -> Option<Voxel> {
    if in_chunk(p) {
        Some(s[grid_index(p)])
    } else {
        None
    }
}

/// The grid `s` with the sample at local position `p` replaced by `v`;
/// `s` itself where `p` lies outside.
pub open spec fn grid_set(s: Seq<Voxel>, p: Point, v: Voxel) -> Seq<Voxel> {
    if in_chunk(p) {
        s.update(grid_index(p), v)
    } else {
        s
    }
}

/// The chunk that holds the world grid position `p`: each coordinate
/// divided by the chunk's edge length and rounded down.
pub open spec fn chunk_of(p: Point) -> Point {
    Point {
        x: floor_div(p.x, CHUNK_REAL_SIZE as int),
        y: floor_div(p.y, CHUNK_REAL_SIZE as int),
        z: floor_div(p.z, CHUNK_REAL_SIZE as int),
    }
}

/// Where the world grid position `p` lies within its chunk.
pub open spec fn local_of(p: Point) -> Point {
    Point {
        x: floor_mod(p.x, CHUNK_REAL_SIZE as int),
        y: floor_mod(p.y, CHUNK_REAL_SIZE as int),
        z: floor_mod(p.z, CHUNK_REAL_SIZE as int),
    }
}

/// The world grid position of the first sample of chunk `c`.
pub open spec fn chunk_origin(c: Point) -> Point {
    c.scaled(CHUNK_REAL_SIZE as int)
}

/// Index and local position determine each other: the grid stores the
/// sample at `(x, y, z)` at index `x + y * n + z * n * n`, for `n` samples
/// along an edge.
pub proof fn lemma_grid_index_round_trip(p: Point)
    requires
        in_chunk(p),
    ensures
        0 <= grid_index(p) < CHUNK_VOXELS_VOLUME,
        grid_index(p) == p.x + p.y * 17 + p.z * 289,
        grid_point(grid_index(p)) == p,
{
}

/// Every index of the grid is the index of its own local position.
pub proof fn lemma_grid_point_round_trip(i: int)
    requires
        0 <= i < CHUNK_VOXELS_VOLUME,
    ensures
        in_chunk(grid_point(i)),
        grid_index(grid_point(i)) == i,
{
}

/// Different local positions have different indices.
pub proof fn lemma_grid_index_injective(p: Point, q: Point)
    requires
        in_chunk(p),
        in_chunk(q),
        grid_index(p) == grid_index(q),
    ensures
        p == q,
{
    lemma_grid_index_round_trip(p);
    lemma_grid_index_round_trip(q);
}

/// A read after a write returns the written sample, a read anywhere else
/// is unchanged by the write, and outside the grid a write changes
/// nothing and a read finds nothing.
pub proof fn lemma_set_then_get(s: Seq<Voxel>, p: Point, q: Point, v: Voxel)
    requires
        s.len() == CHUNK_VOXELS_VOLUME,
    ensures
        in_chunk(p) ==> grid_get(grid_set(s, p, v), p) == Some(v),
        !in_chunk(p) ==> grid_get(s, p).is_none() && grid_set(s, p, v) == s,
        p != q ==> grid_get(grid_set(s, p, v), q) == grid_get(s, q),
        grid_set(s, p, v).len() == CHUNK_VOXELS_VOLUME,
{
    if in_chunk(p) {
        lemma_grid_index_round_trip(p);
        if p != q && in_chunk(q) {
            lemma_grid_index_round_trip(q);
        }
    }
}

/// A world grid position is the origin of its chunk plus its local
/// position, and the local position lies in the chunk's first
/// `CHUNK_REAL_SIZE` samples on each axis.
pub proof fn lemma_chunk_and_local(p: Point)
    ensures
        p == chunk_origin(chunk_of(p)).plus(local_of(p)),
        0 <= local_of(p).x < CHUNK_REAL_SIZE,
        0 <= local_of(p).y < CHUNK_REAL_SIZE,
        0 <= local_of(p).z < CHUNK_REAL_SIZE,
        in_chunk(local_of(p)),
{
    lemma_floor_div_mod(p.x, CHUNK_REAL_SIZE as int);
    lemma_floor_div_mod(p.y, CHUNK_REAL_SIZE as int);
    lemma_floor_div_mod(p.z, CHUNK_REAL_SIZE as int);
}

/// One coordinate of the world grid position of a chunk's first sample.
pub fn origin_coordinate(c: i64) -> (r: i64)
    requires
        -CHUNK_COORD_LIMIT <= c <= CHUNK_COORD_LIMIT,
    ensures
        r == c * CHUNK_REAL_SIZE,
        -9_223_372_036_832 <= r <= 9_223_372_036_832,
{
    let size = CHUNK_REAL_SIZE as i64;
    assert(-9_223_372_036_832 <= c * size <= 9_223_372_036_832) by (nonlinear_arith)
        requires
            -576_460_752_302 <= c <= 576_460_752_302,
            size == 16,
    ;
    c * size
}

} // verus!
