//! A streaming, chunked voxel terrain core.
//!
//! The world is an unbounded horizontal grid of chunks, each a square column of
//! voxels. This crate holds the coordinate algebra that relates chunks, voxels
//! and world positions, the registry of loaded chunks, and the per-frame
//! decisions that spawn, age and retire chunks around moving observers.
//!
//! - `ids`, `model`, `layout`, `layout_laws`: identifiers, the coordinate
//!   algebra over mathematical integers, its executable form, and its laws.
//! - `neighbors`, `neighbor_laws`: the rings of chunks around a chunk.
//! - `tracker`: the set of chunks that have an owner.
//! - `shape`, `generator`, `mesher`: the order of a chunk's voxel buffer, the
//!   walk that the density field is sampled along, and the assembly of a mesh.
//! - `streaming`, `spawn`: the chunks that exist, and the steps of one frame.
//! - `debug`: the switch of the performance overlay.
//!
//! Distances and positions are whole numbers of world units; a distance is
//! kept as its square. Noise, surface extraction and drawing work in floating
//! point and are left to the program around this crate.

pub mod ids;
pub mod model;
pub mod layout;
pub mod layout_laws;
pub mod neighbors;
pub mod neighbor_laws;
pub mod tracker;
pub mod shape;
pub mod generator;
pub mod mesher;
pub mod debug;
pub mod streaming;
pub mod spawn;

pub use debug::DebugUIPlugin;
pub use generator::{ChunkVoxelData, VoxelGenerator, VoxelType};
pub use ids::{ChunkId, VoxelId};
pub use layout::{CubicVoxelLayout, LayoutError, WorldPos};
pub use mesher::GeneratedMesh;
pub use spawn::spawn_chunks;
pub use streaming::despawn::despawn_chunks;
pub use streaming::distances::calc_chunk_distances;
pub use streaming::frame::{run_frame, FrameOrders};
pub use streaming::stages::{attach_chunk_mesh, build_chunk_mesh, load_voxels};
pub use streaming::{Chunk, ChunkSpawner, ChunkStage, ChunkWorld, SpawnOrder, StreamingConfig};
pub use tracker::ChunkTracker;
