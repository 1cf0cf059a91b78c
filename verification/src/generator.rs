//! The density field: from a world position and the noise sampled there
//! to a density sample.
//!
//! The field itself holds no noise source. Whoever samples it evaluates
//! the noise functions at the position and hands over their values as
//! fixed-point numbers, so that a sample depends on nothing but the
//! field's parameters, the position and those values.

use vstd::prelude::*;
use crate::edit::sample_point;
use crate::fixed::ONE;
use crate::grid::CHUNK_VOXELS_VOLUME;
use crate::position::{Point, Position};
use crate::voxel::{Voxel, VoxelId};

verus! {

/// The material above the grass line.
pub const MATERIAL_GRASS: VoxelId = 1;

/// The material below the grass line.
pub const MATERIAL_ROCK: VoxelId = 2;

/// The values of the noise functions at one position, as fixed-point
/// numbers; each noise function ranges from minus one to one.
#[derive(Clone, Copy, Debug, PartialEq, Eq, Structural)]
pub struct NoiseSample {
    /// Coarse two-dimensional noise that warps the height of the terrain.
    pub warp: i32,
    /// Fine two-dimensional noise on the height of the terrain.
    pub fine: i32,
    /// Three-dimensional noise that shapes cliffs and caves.
    pub detail: i32,
    /// Slow three-dimensional noise that thins the detail out.
    pub mask: i32,
    /// Low-amplitude noise that moves the line between materials.
    pub jitter: i32,
}

/// The parameters of the density field.
#[derive(Clone, Copy, Debug, PartialEq, Eq, Structural)]
pub struct Generator {
    scale: i32,
    noise_threshold: i32,
}

/// The grid of the chunk at `chunk` as the field fills it, where `noise`
/// holds the values of the noise functions at each sample, by index.
pub open spec fn generated(generator: Generator, chunk: Point, noise: Seq<NoiseSample>) -> Seq<
    Voxel,
> {
    Seq::new(
        CHUNK_VOXELS_VOLUME as nat,
        |i: int| generator.voxel_at(sample_point(chunk, i), noise[i]),
    )
}

/// `v` cut off to the range of a 32-bit signed integer.
pub open spec fn clamp_i32(v: int) -> int {
    if v < i32::MIN {
        i32::MIN as int
    } else if v > i32::MAX {
        i32::MAX as int
    } else {
        v
    }
}

impl Generator {
    /// The frequency scale of the field, a fixed-point number.
    pub closed spec fn scale(self) -> int {
        self.scale as int
    }

    /// The threshold of the field, a fixed-point number.
    pub closed spec fn noise_threshold(self) -> int {
        self.noise_threshold as int
    }

    /// The level term at height `y`: the height, raised by the warp and
    /// the fine noise and lowered by the threshold, times `scale / 100`.
    /// It grows with the height.
    pub open spec fn level(self, y: int, noise: NoiseSample) -> int {
        ((y * ONE + (noise.warp + ONE) * 10 + (noise.fine + ONE) / 1000 - self.noise_threshold())
            * self.scale()) / (100 * ONE)
    }

    /// The detail term: the detail noise, brought to the range from zero
    /// to one, less the mask's share of the threshold, times
    /// `10 * scale`.
    pub open spec fn detail(self, noise: NoiseSample) -> int {
        (((noise.detail + ONE) / 2 - ((noise.mask + ONE) * self.noise_threshold()) / (2 * ONE))
            * 10 * self.scale()) / (ONE as int)
    }

    /// The density at height `y`: the detail term less the level term,
    /// cut off to 32 bits.
    pub open spec fn density(self, y: int, noise: NoiseSample) -> int {
        clamp_i32(self.detail(noise) - self.level(y, noise))
    }

    /// The material at height `y`: grass where the level term, moved by a
    /// twentieth of the jitter, is above `-0.03 * scale`, and rock below.
    pub open spec fn material(self, y: int, noise: NoiseSample) -> VoxelId {
        if -self.level(y, noise) * 100 + noise.jitter * 5 < 3 * self.scale() {
            MATERIAL_GRASS
        } else {
            MATERIAL_ROCK
        }
    }

    /// The sample at the world grid position `pos`.
    pub open spec fn voxel_at(self, pos: Point, noise: NoiseSample) -> Voxel {
        Voxel { value: self.density(pos.y, noise) as i32, id: self.material(pos.y, noise) }
    }

    /// The field with a scale of `0.1` and a threshold of `0.6`.
    pub fn new() -> (r: Generator)
        ensures
            r.scale() == 100_000,
            r.noise_threshold() == 600_000,
    {
        Generator { scale: 100_000, noise_threshold: 600_000 }
    }

    /// A field with the given parameters, both fixed-point numbers.
    pub fn with_parameters(scale: i32, noise_threshold: i32) -> (r: Generator)
        ensures
            r.scale() == scale,
            r.noise_threshold() == noise_threshold,
    {
        Generator { scale, noise_threshold }
    }

    /// The level term at height `y`.
    fn get_level_val(&self, y: i64, noise: NoiseSample) -> (r: i128)
        ensures
            r == self.level(y as int, noise),
            -0x8_0000_0000_0000_0000_0000_0000_0000 <= r <= 0x8_0000_0000_0000_0000_0000_0000_0000,
    {
        proof {
            lemma_product_bound(y as int, ONE as int, 0x8000_0000_0000_0000, 0x10_0000);
        }
        let height: i128 = y as i128 * ONE as i128;
        let warp: i128 = (noise.warp as i128 + ONE as i128) * 10;
        let fine: i128 = floor_quotient(noise.fine as i128 + ONE as i128, 1000);
        let raised: i128 = height + warp + fine - self.noise_threshold as i128;
        proof {
            lemma_product_bound(
                raised as int,
                self.scale as int,
                0x10_0000_0000_0000_0000_0000,
                0x8000_0000,
            );
        }
        floor_quotient(raised * self.scale as i128, 100 * ONE as i128)
    }

    /// The detail term.
    fn get_cliffs_val(&self, noise: NoiseSample) -> (r: i128)
        ensures
            r == self.detail(noise),
            -0x1000_0000_0000_0000_0000_0000 <= r <= 0x1000_0000_0000_0000_0000_0000,
    {
        let detail: i128 = floor_quotient(noise.detail as i128 + ONE as i128, 2);
        proof {
            lemma_product_bound(
                noise.mask + ONE,
                self.noise_threshold as int,
                0x1_0000_0000,
                0x8000_0000,
            );
        }
        let mask: i128 = floor_quotient(
            (noise.mask as i128 + ONE as i128) * self.noise_threshold as i128,
            2 * ONE as i128,
        );
        let thinned: i128 = (detail - mask) * 10;
        proof {
            lemma_product_bound(
                thinned as int,
                self.scale as int,
                0x1_0000_0000_0000_0000,
                0x8000_0000,
            );
        }
        floor_quotient(thinned * self.scale as i128, ONE as i128)
    }

    /// The sample of the field at the world grid position `pos`, where
    /// the noise functions have the values `noise`.
    pub fn generate_voxel(&self, pos: Position, noise: NoiseSample) -> (r: Voxel)
        ensures
            r == self.voxel_at(pos@, noise),
    {
        let level = self.get_level_val(pos.y, noise);
        let cliffs = self.get_cliffs_val(noise);
        let density: i128 = cliffs - level;
        let value: i32 = if density < i32::MIN as i128 {
            i32::MIN
        } else if density > i32::MAX as i128 {
            i32::MAX
        } else {
            density as i32
        };
        let id = if -level * 100 + noise.jitter as i128 * 5 < 3 * self.scale as i128 {
            MATERIAL_GRASS
        } else {
            MATERIAL_ROCK
        };
        Voxel { value, id }
    }
}

/// `a / b`, rounded down, for a positive `b`.
fn floor_quotient(a: i128, b: i128) -> (r: i128)
    requires
        b > 0,
    ensures
        r == a / b,
        a >= 0 ==> 0 <= r <= a,
        a < 0 ==> a <= r < 0,
{
    proof {
        vstd::arithmetic::div_mod::lemma_fundamental_div_mod(a as int, b as int);
        vstd::arithmetic::div_mod::lemma_mod_bound(a as int, b as int);
        let q = a as int / b as int;
        assert(a >= 0 ==> 0 <= q <= a) by (nonlinear_arith)
            requires
                a == b * q + (a as int) % (b as int),
                0 <= (a as int) % (b as int) < b,
                b > 0,
        ;
        assert(a < 0 ==> a <= q < 0) by (nonlinear_arith)
            requires
                a == b * q + (a as int) % (b as int),
                0 <= (a as int) % (b as int) < b,
                b > 0,
        ;
    }
    let q = a.checked_div_euclid(b);
    q.unwrap()
}

/// A product is bounded by the product of the bounds of its factors.
proof fn lemma_product_bound(a: int, b: int, bound_a: int, bound_b: int)
    requires
        -bound_a <= a <= bound_a,
        -bound_b <= b <= bound_b,
    ensures
        -(bound_a * bound_b) <= a * b <= bound_a * bound_b,
{
    assert(-(bound_a * bound_b) <= a * b <= bound_a * bound_b) by (nonlinear_arith)
        requires
            -bound_a <= a <= bound_a,
            -bound_b <= b <= bound_b,
    ;
}

} // verus!
