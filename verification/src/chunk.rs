//! Chunks: a grid of density samples with the mesh built from them.

use vstd::prelude::*;
use crate::direction::Direction;
use crate::edit::{
    dig_count, dig_sample, dug, fill_count, fill_sample, filled, sample_point, sq_distance,
    strength_at, DENSITY_CEILING, DENSITY_FLOOR,
};
use crate::generator::{generated, Generator, NoiseSample};
use crate::grid::{
    chunk_of, grid_get, grid_index, grid_point, grid_set, in_chunk, lemma_grid_index_round_trip,
    lemma_grid_point_round_trip, local_of, origin_coordinate, valid_chunk_point, CHUNK_COORD_LIMIT,
    CHUNK_REAL_SIZE, CHUNK_VOXELS_SIZE, CHUNK_VOXELS_VOLUME,
};
use crate::mesh::Mesh;
use crate::position::Position;
use crate::true_mod::{floor_div, true_mod};
use crate::voxel::{Voxel, VoxelData};
use crate::voxels_to_vertex::{chunk_mesh, chunk_vertices, CHUNK_CELLS};

verus! {

/// A cube of density samples: the unit of streaming, generation and
/// meshing.
///
/// The chunk at position `(cx, cy, cz)` covers the world grid positions
/// from `(16 cx, 16 cy, 16 cz)` on; its grid holds seventeen samples per
/// axis, the last of each axis shared with the next chunk. Besides the
/// samples it keeps the mesh built from them, once one has been built.
pub struct Chunk {
    pos: Position,
    mesh: Option<Mesh>,
    voxels: Vec<Voxel>,
}

impl Chunk {
    #[verifier::type_invariant]
    spec fn well_formed(self) -> bool {
        &&& self.voxels.len() == CHUNK_VOXELS_VOLUME
        &&& valid_chunk_point(self.pos@)
    }

    /// The chunk's position, in chunks.
    pub closed spec fn position(self) -> Position {
        self.pos
    }

    /// The samples of the grid, by index.
    pub closed spec fn voxels(self) -> Seq<Voxel> {
        self.voxels@
    }

    /// The cached mesh, if one has been built.
    pub closed spec fn mesh(self) -> Option<Mesh> {
        self.mesh
    }

    /// Whether `pos` is the position of a chunk inside the world's bounds.
    pub fn is_valid_position(pos: Position) -> (r: bool)
        ensures
            r == valid_chunk_point(pos@),
    {
        -CHUNK_COORD_LIMIT <= pos.x && pos.x <= CHUNK_COORD_LIMIT && -CHUNK_COORD_LIMIT <= pos.y
            && pos.y <= CHUNK_COORD_LIMIT && -CHUNK_COORD_LIMIT <= pos.z && pos.z
            <= CHUNK_COORD_LIMIT
    }

    /// A chunk at `pos` with every sample zeroed and no mesh.
    pub fn new(pos: Position) -> (chunk: Chunk)
        requires
            valid_chunk_point(pos@),
        ensures
            chunk.position() == pos,
            chunk.mesh().is_none(),
            chunk.voxels().len() == CHUNK_VOXELS_VOLUME,
            forall|i: int| 0 <= i < CHUNK_VOXELS_VOLUME ==> chunk.voxels()[i] == Voxel::zeroed(),
    {
        let mut voxels: Vec<Voxel> = Vec::with_capacity(CHUNK_VOXELS_VOLUME);
        let mut i: usize = 0;
        while i < CHUNK_VOXELS_VOLUME
            invariant
                i <= CHUNK_VOXELS_VOLUME,
                voxels.len() == i,
                forall|j: int| 0 <= j < i ==> voxels[j] == Voxel::zeroed(),
            decreases CHUNK_VOXELS_VOLUME - i,
        {
            voxels.push(Voxel::zeroed());
            i += 1;
        }
        Chunk { pos, mesh: None, voxels }
    }

    /// The chunk's position, in chunks.
    pub fn get_position(&self) -> (r: Position)
        ensures
            r == self.position(),
            valid_chunk_point(r@),
            self.voxels().len() == CHUNK_VOXELS_VOLUME,
    {
        proof {
            use_type_invariant(self);
        }
        self.pos
    }

    /// Whether the local position `pos` lies inside a chunk's grid.
    pub fn check_pos_in_chunk(pos: Position) -> (r: bool)
        ensures
            r == in_chunk(pos@),
    {
        pos.x >= 0 && pos.x < CHUNK_VOXELS_SIZE as i64 && pos.y >= 0 && pos.y
            < CHUNK_VOXELS_SIZE as i64 && pos.z >= 0 && pos.z < CHUNK_VOXELS_SIZE as i64
    }

    /// The index in the grid of the sample at local position `pos`, or
    /// `None` where `pos` lies outside the grid.
    pub fn pos_to_index(pos: Position) -> (r: Option<usize>)
        ensures
            r.is_some() == in_chunk(pos@),
            r matches Some(i) ==> i == grid_index(pos@) && i < CHUNK_VOXELS_VOLUME,
    {
        if !Self::check_pos_in_chunk(pos) {
            return None;
        }
        proof {
            lemma_grid_index_round_trip(pos@);
        }
        let size = CHUNK_VOXELS_SIZE;
        let row = pos.y as usize * size;
        let plane = pos.z as usize * size * size;
        Some(pos.x as usize + row + plane)
    }

    /// The local position of the sample at `index`.
    pub fn index_to_pos(index: usize) -> (r: Position)
        ensures
            r@ == grid_point(index as int),
            index < CHUNK_VOXELS_VOLUME ==> in_chunk(r@),
    {
        proof {
            if index < CHUNK_VOXELS_VOLUME {
                lemma_grid_point_round_trip(index as int);
            }
        }
        Position {
            x: (index % CHUNK_VOXELS_SIZE) as i64,
            y: ((index / CHUNK_VOXELS_SIZE) % CHUNK_VOXELS_SIZE) as i64,
            z: (index / CHUNK_VOXELS_SIZE / CHUNK_VOXELS_SIZE) as i64,
        }
    }

    /// One coordinate divided by the chunk's edge length, rounded down.
    fn cord_to_chunk_cord(v: i64) -> (r: i64)
        ensures
            r == floor_div(v as int, CHUNK_REAL_SIZE as int),
    {
        let q = v.checked_div_euclid(CHUNK_REAL_SIZE as i64);
        q.unwrap()
    }

    /// The chunk that holds the world grid position `pos`.
    pub fn get_chunk_pos(pos: Position) -> (r: Position)
        ensures
            r@ == chunk_of(pos@),
    {
        Position::new(
            Self::cord_to_chunk_cord(pos.x),
            Self::cord_to_chunk_cord(pos.y),
            Self::cord_to_chunk_cord(pos.z),
        )
    }

    /// Where the world grid position `pos` lies within its chunk.
    pub fn get_in_chunk_pos(pos: Position) -> (r: Position)
        ensures
            r@ == local_of(pos@),
    {
        Position::new(
            true_mod(pos.x, CHUNK_REAL_SIZE as i64),
            true_mod(pos.y, CHUNK_REAL_SIZE as i64),
            true_mod(pos.z, CHUNK_REAL_SIZE as i64),
        )
    }

    /// The world grid position `pos` relative to the chunk's first sample.
    pub fn pos_to_relative(&self, pos: Position) -> (r: Position)
        requires
            pos@.minus(self.position()@.scaled(CHUNK_REAL_SIZE as int)).representable(),
        ensures
            r@ == pos@.minus(self.position()@.scaled(CHUNK_REAL_SIZE as int)),
    {
        proof {
            use_type_invariant(self);
        }
        let origin = Position::new(
            origin_coordinate(self.pos.x),
            origin_coordinate(self.pos.y),
            origin_coordinate(self.pos.z),
        );
        Position::new(pos.x - origin.x, pos.y - origin.y, pos.z - origin.z)
    }

    /// Stores `voxel` at the local position `in_chunk_position`. Returns
    /// whether the position lies inside the grid; outside, nothing
    /// changes.
    pub fn set_voxel(&mut self, in_chunk_position: Position, voxel: Voxel) -> (r: bool)
        ensures
            r == in_chunk(in_chunk_position@),
            final(self).voxels() == grid_set(old(self).voxels(), in_chunk_position@, voxel),
            final(self).position() == old(self).position(),
            final(self).mesh() == old(self).mesh(),
    {
        proof {
            use_type_invariant(&*self);
        }
        match Self::pos_to_index(in_chunk_position) {
            Some(index) => {
                self.voxels[index] = voxel;
                true
            },
            None => false,
        }
    }

    /// The sample at the local position `in_chunk_position`, or `None`
    /// where the position lies outside the grid.
    pub fn get_voxel(&self, in_chunk_position: Position) -> (r: Option<Voxel>)
        ensures
            r == grid_get(self.voxels(), in_chunk_position@),
    {
        proof {
            use_type_invariant(self);
        }
        match Self::pos_to_index(in_chunk_position) {
            Some(index) => Some(self.voxels[index]),
            None => None,
        }
    }

    /// The sample at the local position `in_chunk_position` with its
    /// place, or `None` where the position lies outside the grid.
    pub fn get_voxel_data(&self, in_chunk_position: Position) -> (r: Option<VoxelData>)
        ensures
            r.is_some() == in_chunk(in_chunk_position@),
            r matches Some(data) ==> {
                &&& Some(data.voxel) == grid_get(self.voxels(), in_chunk_position@)
                &&& data.in_chunk_position == in_chunk_position
                &&& *data.chunk == *self
            },
    {
        match self.get_voxel(in_chunk_position) {
            Some(voxel) => Some(VoxelData { voxel, chunk: self, in_chunk_position }),
            None => None,
        }
    }

    /// The sample one step from the local position `pos` in direction
    /// `dir`, or `None` where that neighbour lies outside the grid.
    pub fn get_neighbor(&self, pos: Position, dir: Direction) -> (r: Option<VoxelData>)
        ensures
            r.is_some() == in_chunk(pos@.neighbor(dir)),
            r matches Some(data) ==> {
                &&& Some(data.voxel) == grid_get(self.voxels(), pos@.neighbor(dir))
                &&& data.in_chunk_position@ == pos@.neighbor(dir)
                &&& *data.chunk == *self
            },
    {
        match pos.checked_neighbor(dir) {
            Some(result_pos) => self.get_voxel_data(result_pos),
            None => None,
        }
    }

    /// Raises towards solid the empty samples within `radius` of the
    /// world grid position `center`, by `value` at the centre and less
    /// towards the radius, and gives them the material of `voxel`.
    /// Returns how many samples it touched.
    pub fn fill(&mut self, center: Position, radius: u32, voxel: Voxel, value: u32) -> (count:
        usize)
        ensures
            final(self).voxels() == filled(
                old(self).voxels(),
                old(self).position()@,
                center@,
                radius as int,
                voxel,
                value as int,
            ),
            count == fill_count(
                old(self).voxels(),
                old(self).position()@,
                center@,
                radius as int,
                CHUNK_VOXELS_VOLUME as int,
            ),
            final(self).position() == old(self).position(),
            final(self).mesh() == old(self).mesh(),
    {
        proof {
            use_type_invariant(&*self);
        }
        let ghost before = self.voxels@;
        let ghost chunk = self.pos@;
        let mut count: usize = 0;
        let mut i: usize = 0;
        while i < CHUNK_VOXELS_VOLUME
            invariant
                i <= CHUNK_VOXELS_VOLUME,
                self.voxels.len() == CHUNK_VOXELS_VOLUME,
                before.len() == CHUNK_VOXELS_VOLUME,
                self.pos == old(self).pos,
                self.mesh == old(self).mesh,
                chunk == self.pos@,
                valid_chunk_point(chunk),
                count == fill_count(before, chunk, center@, radius as int, i as int),
                count <= i,
                forall|j: int|
                    0 <= j < i ==> self.voxels[j] == fill_sample(
                        before[j],
                        voxel,
                        sq_distance(sample_point(chunk, j), center@),
                        radius as int,
                        value as int,
                    ),
                forall|j: int| i <= j < CHUNK_VOXELS_VOLUME ==> self.voxels[j] == before[j],
            decreases CHUNK_VOXELS_VOLUME - i,
        {
            let current = self.voxels[i];
            if current.value < 0 {
                match strength_at(self.pos, i, center, radius, value) {
                    Some(delta) => {
                        let lifted: i64 = if current.value < DENSITY_FLOOR {
                            DENSITY_FLOOR as i64
                        } else {
                            current.value as i64
                        };
                        let raised: i64 = lifted + delta as i64;
                        let capped: i64 = if raised > DENSITY_CEILING as i64 {
                            DENSITY_CEILING as i64
                        } else {
                            raised
                        };
                        self.voxels[i] = Voxel { value: capped as i32, id: voxel.id };
                        count += 1;
                    },
                    None => {},
                }
            }
            i += 1;
        }
        assert(self.voxels@ =~= filled(
            before,
            chunk,
            center@,
            radius as int,
            voxel,
            value as int,
        ));
        count
    }

    /// Lowers towards empty the solid samples within `radius` of the
    /// world grid position `center`, by `value` at the centre and less
    /// towards the radius. Returns how many samples it touched.
    pub fn dig(&mut self, center: Position, radius: u32, value: u32) -> (count: usize)
        ensures
            final(self).voxels() == dug(
                old(self).voxels(),
                old(self).position()@,
                center@,
                radius as int,
                value as int,
            ),
            count == dig_count(
                old(self).voxels(),
                old(self).position()@,
                center@,
                radius as int,
                CHUNK_VOXELS_VOLUME as int,
            ),
            final(self).position() == old(self).position(),
            final(self).mesh() == old(self).mesh(),
    {
        proof {
            use_type_invariant(&*self);
        }
        let ghost before = self.voxels@;
        let ghost chunk = self.pos@;
        let mut count: usize = 0;
        let mut i: usize = 0;
        while i < CHUNK_VOXELS_VOLUME
            invariant
                i <= CHUNK_VOXELS_VOLUME,
                self.voxels.len() == CHUNK_VOXELS_VOLUME,
                before.len() == CHUNK_VOXELS_VOLUME,
                self.pos == old(self).pos,
                self.mesh == old(self).mesh,
                chunk == self.pos@,
                valid_chunk_point(chunk),
                count == dig_count(before, chunk, center@, radius as int, i as int),
                count <= i,
                forall|j: int|
                    0 <= j < i ==> self.voxels[j] == dig_sample(
                        before[j],
                        sq_distance(sample_point(chunk, j), center@),
                        radius as int,
                        value as int,
                    ),
                forall|j: int| i <= j < CHUNK_VOXELS_VOLUME ==> self.voxels[j] == before[j],
            decreases CHUNK_VOXELS_VOLUME - i,
        {
            let current = self.voxels[i];
            if current.value >= 0 {
                match strength_at(self.pos, i, center, radius, value) {
                    Some(delta) => {
                        let lowered: i64 = current.value as i64 - delta as i64;
                        let floored: i64 = if lowered < DENSITY_FLOOR as i64 {
                            DENSITY_FLOOR as i64
                        } else {
                            lowered
                        };
                        self.voxels[i] = Voxel { value: floored as i32, id: current.id };
                        count += 1;
                    },
                    None => {},
                }
            }
            i += 1;
        }
        assert(self.voxels@ =~= dug(before, chunk, center@, radius as int, value as int));
        count
    }

    /// Builds the mesh of the chunk's surface from its samples and caches
    /// it in place of the mesh it had.
    pub fn update_mesh(&mut self)
        ensures
            final(self).mesh() matches Some(mesh) && mesh.vertices@ == chunk_vertices(
                old(self).voxels(),
                old(self).position()@,
                CHUNK_CELLS as int,
            ),
            final(self).voxels() == old(self).voxels(),
            final(self).position() == old(self).position(),
    {
        proof {
            use_type_invariant(&*self);
        }
        let vertex = chunk_mesh(&*self);
        self.mesh = Some(Mesh::new(vertex));
    }

    /// The cached mesh, if one has been built.
    pub fn get_mesh(&self) -> (r: Option<&Mesh>)
        ensures
            r.is_some() == self.mesh().is_some(),
            r matches Some(mesh) ==> Some(*mesh) == self.mesh(),
    {
        self.mesh.as_ref()
    }

    /// Fills the grid from the density field: every sample becomes the
    /// field's sample at its world position. `noise` holds the values of
    /// the noise functions at each sample, by index. Returns whether
    /// `noise` has one entry per sample; where it has not, nothing
    /// changes.
    pub fn generate_voxels(&mut self, generator: &Generator, noise: &Vec<NoiseSample>) -> (r: bool)
        ensures
            r == (noise@.len() == CHUNK_VOXELS_VOLUME),
            final(self).voxels() == (if r {
                generated(*generator, old(self).position()@, noise@)
            } else {
                old(self).voxels()
            }),
            final(self).position() == old(self).position(),
            final(self).mesh() == old(self).mesh(),
    {
        proof {
            use_type_invariant(&*self);
        }
        if noise.len() != CHUNK_VOXELS_VOLUME {
            return false;
        }
        let ghost chunk = self.pos@;
        let mut i: usize = 0;
        while i < CHUNK_VOXELS_VOLUME
            invariant
                i <= CHUNK_VOXELS_VOLUME,
                self.voxels.len() == CHUNK_VOXELS_VOLUME,
                noise@.len() == CHUNK_VOXELS_VOLUME,
                self.pos == old(self).pos,
                self.mesh == old(self).mesh,
                chunk == self.pos@,
                valid_chunk_point(chunk),
                forall|j: int|
                    0 <= j < i ==> self.voxels[j] == generator.voxel_at(
                        sample_point(chunk, j),
                        noise@[j],
                    ),
            decreases CHUNK_VOXELS_VOLUME - i,
        {
            let local = Self::index_to_pos(i);
            let pos = Position::new(
                origin_coordinate(self.pos.x) + local.x,
                origin_coordinate(self.pos.y) + local.y,
                origin_coordinate(self.pos.z) + local.z,
            );
            self.voxels[i] = generator.generate_voxel(pos, noise[i]);
            i += 1;
        }
        assert(self.voxels@ =~= generated(*generator, chunk, noise@));
        true
    }

    /// Fills the grid from the density field and builds the mesh. Returns
    /// whether `noise` has one entry per sample; where it has not,
    /// nothing changes.
    pub fn generate(&mut self, generator: &Generator, noise: &Vec<NoiseSample>) -> (r: bool)
        ensures
            r == (noise@.len() == CHUNK_VOXELS_VOLUME),
            r ==> {
                &&& final(self).voxels() == generated(*generator, old(self).position()@, noise@)
                &&& final(self).mesh() matches Some(mesh) && mesh.vertices@ == chunk_vertices(
                    final(self).voxels(),
                    old(self).position()@,
                    CHUNK_CELLS as int,
                )
            },
            !r ==> final(self).voxels() == old(self).voxels() && final(self).mesh() == old(
                self,
            ).mesh(),
            final(self).position() == old(self).position(),
    {
        if self.generate_voxels(generator, noise) {
            self.update_mesh();
            true
        } else {
            false
        }
    }
}

} // verus!
