//! Core of a voxel terrain engine: integer grid coordinates, chunked density
//! samples, iso-surface extraction, chunk streaming around a moving viewer,
//! and sphere edits found by ray casting, with machine-checked contracts.
//!
//! Lengths and densities are fixed-point numbers, see [`fixed`]. The
//! library holds no floating point, reads no clock and starts no thread:
//! noise values, the time and generated chunks are handed to it.
//!
//! - [`position`], [`position_order`], [`direction`], [`ring`]: grid
//!   coordinates, their order, and the enumeration of the positions around
//!   a centre, nearest shell first.
//! - [`voxel`], [`grid`], [`chunk`], [`edit`]: samples, the layout of a
//!   chunk's grid, chunks, and what filling and digging do to a grid.
//! - [`generator`]: the density field.
//! - [`triangulation_table`], [`voxels_to_vertex`], [`mesh`]: the surface
//!   extractor and its case table.
//! - [`chunk_map`], [`world`]: the resident chunks and their streaming,
//!   ray casting and edits.
//! - [`input`], [`time`]: action signals and frame time.

pub mod chunk;
pub mod chunk_map;
pub mod direction;
pub mod edit;
pub mod fixed;
pub mod generator;
pub mod grid;
pub mod input;
pub mod mesh;
pub mod position;
pub mod position_order;
pub mod ring;
pub mod time;
pub mod triangulation_table;
pub mod triangulation_table_proof;
pub mod true_mod;
pub mod vec3;
pub mod voxel;
pub mod voxels_to_vertex;
pub mod world;
