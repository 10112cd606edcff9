//! A voxel world: chunks of blocks generated from column heightmaps, stitched together across
//! their shared faces, and meshed into greedy quads.
//!
//! Each chunk stores a 16^3 interior inside an 18^3 grid whose one-cell halo holds copies of
//! the neighbouring chunks' boundary blocks, so that each chunk can be meshed on its own.

pub mod block;
pub mod lattice;
pub mod grid;
pub mod mesher;
pub mod chunk;
pub mod world;
pub mod game;
pub mod math;
pub mod player;
