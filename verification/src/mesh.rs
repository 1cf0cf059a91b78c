//! The mesh of a chunk's surface, as the extractor builds it.

use vstd::prelude::*;
use crate::vec3::Vec3;
use crate::voxel::VoxelId;

verus! {

/// One corner of a triangle of the surface.
///
/// `position` is a point of world space and `normal` the unit normal of
/// the triangle, both in fixed-point numbers; `id` is the material.
#[derive(Clone, Copy, Debug, PartialEq)]
pub struct Vertex {
    pub position: Vec3<i64>,
    pub normal: Vec3<i64>,
    pub id: VoxelId,
}

/// The triangles of one chunk's surface: three vertices per triangle.
#[derive(Clone, Debug, PartialEq)]
pub struct Mesh {
    pub vertices: Vec<Vertex>,
}

impl Mesh {
    /// A mesh of the given vertices.
    pub fn new(vertex: Vec<Vertex>) -> (r: Mesh)
        ensures
            r.vertices == vertex,
    {
        Mesh { vertices: vertex }
    }

    /// The number of vertices to draw.
    pub fn size(&self) -> (r: usize)
        ensures
            r == self.vertices@.len(),
    {
        self.vertices.len()
    }
}

} // verus!
