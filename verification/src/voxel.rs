//! Density samples.

use vstd::prelude::*;
use crate::chunk::Chunk;
use crate::position::Position;

verus! {

/// Identifies the material of a sample.
pub type VoxelId = u32;

/// One sample of the density field.
///
/// `value` is the density as a fixed-point number. A sample is solid where
/// its density is zero or more, and empty where it is negative; the
/// surface runs where the density crosses zero.
#[derive(Clone, Copy, Debug, PartialEq, Eq, Structural)]
pub struct Voxel {
    pub value: i32,
    pub id: VoxelId,
}

impl Voxel {
    /// Whether the sample is solid.
    pub open spec fn solid(self) -> bool {
        self.value >= 0
    }

    /// The sample of a freshly allocated grid: density zero, material zero.
    pub open spec fn spec_zeroed() -> Voxel {
        Voxel { value: 0, id: 0 }
    }

    /// The sample of a freshly allocated grid: density zero, material zero.
    #[verifier::when_used_as_spec(spec_zeroed)]
    pub fn zeroed() -> (r: Voxel)
        ensures
            r == Voxel::spec_zeroed(),
    {
        Voxel { value: 0, id: 0 }
    }

    /// Whether the sample is solid.
    pub fn is_solid(&self) -> (r: bool)
        ensures
            r == self.solid(),
    {
        self.value >= 0
    }
}

/// A sample together with the chunk and the place in it where it was read.
pub struct VoxelData<'a> {
    pub chunk: &'a Chunk,
    pub voxel: Voxel,
    pub in_chunk_position: Position,
}

} // verus!
