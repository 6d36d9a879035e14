//! Voxel terrain in chunks of 16 x 16 x 16 blocks: which chunk holds a world
//! position, how a chunk is filled from a density, how its blocks are read,
//! and how its solid blocks become a triangle surface with one quad for each
//! side that faces air.

pub mod chunk;
pub mod face;
pub mod mesh;
pub mod streaming;
pub mod surface;
