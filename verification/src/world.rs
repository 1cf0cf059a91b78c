//! The world: the resident chunks around a moving viewer.
//!
//! A frame goes in steps. [`World::update`] is told where the viewer is
//! and answers with the chunks to generate next, nearest first.
//! [`World::insert_chunks`] takes in the chunks that were generated.
//! [`World::evict`] gives up one chunk that has fallen too far behind.
//! [`World::process_input`] carries out the edit that the keys ask for,
//! at the place that [`World::cast_ray`] finds.
//!
//! Generating a chunk needs the noise functions, which the world does not
//! hold: the caller generates the chunks it is asked for and hands them
//! in. An edit reaches the chunk that was hit and the twenty-six around
//! it, and none of them is left out: where one is not resident the edit
//! changes nothing and names the missing positions, and the same request
//! with those chunks handed over takes them in and edits them all.

use vstd::prelude::*;
use crate::chunk::Chunk;
use crate::chunk_map::ChunkMap;
use crate::fixed::ONE;
use crate::generator::Generator;
use crate::grid::{chunk_of, local_of, valid_chunk_point};
use crate::position::{Point, Position};
use crate::ring::{ring_fits, ring_nth, ring_size, PositionAroundIterator};
use crate::true_mod::floor_div;
use crate::vec3::Vec3;
use crate::voxel::Voxel;

pub mod ray;
pub mod sculpt;
pub mod streaming;

verus! {

/// The edge length of a chunk as a fixed-point number.
pub const CHUNK_EXTENT: i64 = 16_000_000;

/// The resident chunks around a moving viewer, and the state of their
/// streaming.
pub struct World {
    pub(crate) chunks: ChunkMap,
    pub(crate) chunk_generating_per_frame: usize,
    pub(crate) render_distance: u32,
    pub(crate) chunk_load_iterator: PositionAroundIterator,
    pub(crate) generation_enabled: bool,
    pub(crate) generator: Generator,
}

/// The chunk that holds the fixed-point world position `v`: each
/// coordinate divided by the extent of a chunk and rounded down.
pub open spec fn chunk_of_vec(v: Point) -> Point {
    Point {
        x: floor_div(v.x, CHUNK_EXTENT as int),
        y: floor_div(v.y, CHUNK_EXTENT as int),
        z: floor_div(v.z, CHUNK_EXTENT as int),
    }
}

/// The world grid position of the sample at or just below the
/// fixed-point world position `v` on each axis.
pub open spec fn grid_of_vec(v: Point) -> Point {
    Point { x: floor_div(v.x, ONE as int), y: floor_div(v.y, ONE as int), z: floor_div(v.z, ONE as int) }
}

/// Whether a chunk at `p` is to be generated: it lies inside the world's
/// bounds and is not resident.
pub open spec fn wanted(chunks: Map<Position, Chunk>, p: Position) -> bool {
    valid_chunk_point(p@) && !chunks.contains_key(p)
}

/// The position at place `k` of the ring order around `center`.
pub open spec fn ring_position(center: Position, k: int) -> Position {
    center@.plus(ring_nth(k)).to_position()
}

/// The positions to generate next: the first `budget` wanted positions of
/// the ring order around `center`, from place `from` on and within
/// `radius`.
pub open spec fn pending(
    chunks: Map<Position, Chunk>,
    center: Position,
    radius: int,
    from: int,
    budget: int,
) -> Seq<Position>
    decreases ring_size(radius) - from,
{
    if budget <= 0 || from >= ring_size(radius) || from < 0 {
        Seq::empty()
    } else if wanted(chunks, ring_position(center, from)) {
        seq![ring_position(center, from)] + pending(chunks, center, radius, from + 1, budget - 1)
    } else {
        pending(chunks, center, radius, from + 1, budget)
    }
}

/// The place in the ring order at which the search for the positions to
/// generate next stops: after the last of them, or at the end of the
/// ring.
pub open spec fn pending_end(
    chunks: Map<Position, Chunk>,
    center: Position,
    radius: int,
    from: int,
    budget: int,
) -> int
    decreases ring_size(radius) - from,
{
    if budget <= 0 || from >= ring_size(radius) || from < 0 {
        from
    } else if wanted(chunks, ring_position(center, from)) {
        pending_end(chunks, center, radius, from + 1, budget - 1)
    } else {
        pending_end(chunks, center, radius, from + 1, budget)
    }
}

/// The number of resident chunks at which no more are generated:
/// `(2r + 1)^3` for a render distance of `r`, or all that can be counted.
pub open spec fn chunk_cap(render_distance: int) -> int {
    if ring_size(render_distance) > usize::MAX {
        usize::MAX as int
    } else {
        ring_size(render_distance)
    }
}

/// How many chunks may be generated in one frame: the number per frame,
/// but no more than the cap leaves room for.
pub open spec fn load_budget(resident: int, per_frame: int, render_distance: int) -> int {
    let room = chunk_cap(render_distance) - resident;
    if room <= 0 {
        0
    } else if room < per_frame {
        room
    } else {
        per_frame
    }
}

/// The map after the chunks of `generated` have been put in, one after
/// the other.
pub open spec fn with_chunks(chunks: Map<Position, Chunk>, generated: Seq<Chunk>) -> Map<
    Position,
    Chunk,
>
    decreases generated.len(),
{
    if generated.len() == 0 {
        chunks
    } else {
        with_chunks(chunks, generated.drop_last()).insert(
            generated.last().position(),
            generated.last(),
        )
    }
}

/// Whether the chunk at `p` is too far from the viewer's chunk to stay
/// resident: more than one beyond the render distance.
pub open spec fn too_far(p: Position, viewer_chunk: Point, render_distance: int) -> bool {
    p@.distance(viewer_chunk) > render_distance + 1
}

/// One coordinate of the chunk that holds a fixed-point coordinate.
fn chunk_cord_of(v: i64) -> (r: i64)
    ensures
        r == floor_div(v as int, CHUNK_EXTENT as int),
        -576_460_752_304 <= r <= 576_460_752_303,
{
    let q = v.checked_div_euclid(CHUNK_EXTENT);
    q.unwrap()
}

/// One coordinate of the grid position at or below a fixed-point
/// coordinate.
pub(crate) fn grid_cord_of(v: i64) -> (r: i64)
    ensures
        r == floor_div(v as int, ONE as int),
{
    let q = v.checked_div_euclid(ONE);
    q.unwrap()
}

impl World {
    /// The resident chunks, by position.
    pub closed spec fn chunks(self) -> Map<Position, Chunk> {
        self.chunks@
    }

    /// The Chebyshev radius, in chunks, that is kept resident around the
    /// viewer.
    pub closed spec fn render_distance(self) -> int {
        self.render_distance as int
    }

    /// How many chunks are generated per frame at most.
    pub closed spec fn chunks_per_frame(self) -> int {
        self.chunk_generating_per_frame as int
    }

    /// Whether chunks are loaded and unloaded.
    pub closed spec fn generation_enabled(self) -> bool {
        self.generation_enabled
    }

    /// The enumeration of the positions to load.
    pub closed spec fn loader(self) -> PositionAroundIterator {
        self.chunk_load_iterator
    }

    /// The density field.
    pub closed spec fn generator(self) -> Generator {
        self.generator
    }

    /// The render distance and the number of chunks per frame are not
    /// negative, and no more than their types hold.
    pub proof fn lemma_configuration(self)
        ensures
            0 <= self.render_distance() <= u32::MAX,
            0 <= self.chunks_per_frame() <= usize::MAX,
    {
    }

    /// A world without chunks, with the viewer taken to be in the chunk
    /// at the origin and generation enabled.
    pub fn new(render_distance: u32, chunk_generating_per_frame: usize) -> (world: World)
        ensures
            world.chunks() == Map::<Position, Chunk>::empty(),
            world.render_distance() == render_distance,
            world.chunks_per_frame() == chunk_generating_per_frame,
            world.generation_enabled(),
            world.loader().center() == (Position { x: 0, y: 0, z: 0 }),
            world.loader().radius() == render_distance,
            world.loader().yielded() == 0,
            world.generator().scale() == 100_000,
            world.generator().noise_threshold() == 600_000,
    {
        World {
            chunks: ChunkMap::new(),
            chunk_generating_per_frame,
            render_distance,
            chunk_load_iterator: Position::new(0, 0, 0).iter_around(render_distance as usize),
            generation_enabled: true,
            generator: Generator::new(),
        }
    }

    /// The density field.
    pub fn get_generator(&self) -> (r: Generator)
        ensures
            r == self.generator(),
    {
        self.generator
    }

    /// Whether chunks are loaded and unloaded.
    pub fn is_generation_enabled(&self) -> (r: bool)
        ensures
            r == self.generation_enabled(),
    {
        self.generation_enabled
    }

    /// The number of resident chunks.
    pub fn chunk_count(&self) -> (r: usize)
        ensures
            r == self.chunks().dom().len(),
            self.chunks().dom().finite(),
    {
        self.chunks.len()
    }

    /// The number of resident chunks at which no more are generated.
    pub fn get_max_chunk(&self) -> (r: usize)
        ensures
            r == chunk_cap(self.render_distance()),
    {
        let side: u128 = self.render_distance as u128 * 2 + 1;
        assert(side * side <= 0x2_0000_0000 * 0x2_0000_0000 && side * side * side
            <= 0x2_0000_0000 * 0x2_0000_0000 * 0x2_0000_0000) by (nonlinear_arith)
            requires
                0 <= side <= 0x2_0000_0000,
        ;
        let cube: u128 = side * side * side;
        if cube > usize::MAX as u128 {
            usize::MAX
        } else {
            cube as usize
        }
    }

    /// The chunk that holds the fixed-point world position `vec`.
    pub fn get_chunk_cord_by_vec(vec: Vec3<i64>) -> (r: Position)
        ensures
            r@ == chunk_of_vec(vec@),
            ring_fits(r@, u32::MAX as int),
    {
        Position::new(chunk_cord_of(vec.x), chunk_cord_of(vec.y), chunk_cord_of(vec.z))
    }

    /// The resident chunk that holds the fixed-point world position
    /// `vec`, if there is one.
    pub fn get_chunk_by_vec(&self, vec: Vec3<i64>) -> (r: Option<&Chunk>)
        ensures
            r.is_some() == self.chunks().contains_key(chunk_of_vec(vec@).to_position()),
            r matches Some(chunk) ==> *chunk == self.chunks()[chunk_of_vec(vec@).to_position()],
    {
        self.chunks.get(Self::get_chunk_cord_by_vec(vec))
    }

    /// The resident chunk at `chunk_pos`, if there is one.
    pub fn get_chunk(&self, chunk_pos: Position) -> (r: Option<&Chunk>)
        ensures
            r.is_some() == self.chunks().contains_key(chunk_pos),
            r matches Some(chunk) ==> *chunk == self.chunks()[chunk_pos] && chunk.position()
                == chunk_pos,
    {
        self.chunks.get(chunk_pos)
    }

    /// The sample at the world grid position `pos`, or `None` where its
    /// chunk is not resident.
    pub fn get_voxel(&self, pos: Position) -> (r: Option<Voxel>)
        ensures
            r == sample_at(self.chunks(), pos@),
    {
        let chunk_pos = Chunk::get_chunk_pos(pos);
        match self.get_chunk(chunk_pos) {
            Some(chunk) => {
                proof {
                    crate::grid::lemma_chunk_and_local(pos@);
                }
                chunk.get_voxel(Chunk::get_in_chunk_pos(pos))
            },
            None => None,
        }
    }
}

/// The sample at the world grid position `p`, or `None` where its chunk
/// is not resident.
pub open spec fn sample_at(chunks: Map<Position, Chunk>, p: Point) -> Option<Voxel> {
    let chunk_pos = chunk_of(p).to_position();
    if chunks.contains_key(chunk_pos) {
        crate::grid::grid_get(chunks[chunk_pos].voxels(), local_of(p))
    } else {
        None
    }
}

} // verus!
