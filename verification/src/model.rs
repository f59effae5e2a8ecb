//! The coordinate algebra of a cubic voxel layout, over mathematical integers.
//!
//! Everything here is ghost code: the contracts of the executable layout are
//! written over these functions, and `layout_laws` proves how they relate.

use vstd::prelude::*;
use crate::ids::{ChunkPoint, VoxelPoint};

verus! {

/// A position in world space, on the integer lattice of world units.
pub ghost struct SpacePoint {
    pub x: int,
    pub y: int,
    pub z: int,
}

/// The configuration of a layout, free of machine limits.
pub ghost struct LayoutModel {
    /// The chunk whose center is world position zero.
    pub origin: ChunkPoint,
    /// World units per voxel edge.
    pub voxel_side_length: int,
    /// Voxels from a chunk's center column to its edge, the center excluded.
    pub chunk_voxel_length: int,
    /// Voxels in one column of a chunk.
    pub chunk_voxel_height: int,
}

impl LayoutModel {
    /// A layout is valid when its three lengths are all at least one.
    pub open spec fn valid(self) -> bool {
        &&& self.voxel_side_length >= 1
        &&& self.chunk_voxel_length >= 1
        &&& self.chunk_voxel_height >= 1
    }

    /// Voxels along one horizontal edge of a chunk.
    pub open spec fn full_length(self) -> int {
        1 + 2 * self.chunk_voxel_length
    }

    /// World units along one horizontal edge of a chunk.
    pub open spec fn chunk_side_length(self) -> int {
        self.full_length() * self.voxel_side_length
    }

    /// The three dimensions of a chunk's voxel buffer: the chunk itself and a
    /// halo of one voxel on every side.
    pub open spec fn shape(self) -> Seq<int> {
        seq![self.full_length() + 2, self.chunk_voxel_height + 2, self.full_length() + 2]
    }

    /// The number of entries in a chunk's voxel buffer.
    pub open spec fn shape_volume(self) -> int {
        (self.full_length() + 2) * (self.chunk_voxel_height + 2) * (self.full_length() + 2)
    }

    /// The voxel at the center of the lowest layer of `chunk`.
    pub open spec fn center_voxel(self, chunk: ChunkPoint) -> VoxelPoint {
        VoxelPoint { x: chunk.x * self.full_length(), y: 0, z: chunk.y * self.full_length() }
    }

    /// The voxel of `chunk` with the lowest coordinates.
    pub open spec fn origin_voxel(self, chunk: ChunkPoint) -> VoxelPoint {
        VoxelPoint {
            x: chunk.x * self.full_length() - self.chunk_voxel_length,
            y: 0,
            z: chunk.y * self.full_length() - self.chunk_voxel_length,
        }
    }

    /// The voxel at the offset `(x, y, z)` from the center voxel of `chunk`.
    pub open spec fn voxel_at(self, chunk: ChunkPoint, x: int, y: int, z: int) -> VoxelPoint {
        VoxelPoint {
            x: x + chunk.x * self.full_length(),
            y: y,
            z: z + chunk.y * self.full_length(),
        }
    }

    /// Whether every voxel of `chunk`, its halo included, has coordinates that
    /// fit the machine's voxel identifiers.
    pub open spec fn covers(self, chunk: ChunkPoint) -> bool {
        let reach = self.chunk_voxel_length + 1;
        &&& i32::MIN <= chunk.x * self.full_length() - reach
        &&& chunk.x * self.full_length() + reach <= i32::MAX
        &&& i32::MIN <= chunk.y * self.full_length() - reach
        &&& chunk.y * self.full_length() + reach <= i32::MAX
    }

    /// The chunk that holds `voxel`: floored division on both horizontal axes.
    pub open spec fn voxel_to_chunk(self, voxel: VoxelPoint) -> ChunkPoint {
        ChunkPoint {
            x: (voxel.x + self.chunk_voxel_length) / self.full_length(),
            y: (voxel.z + self.chunk_voxel_length) / self.full_length(),
        }
    }

    /// The world position of `voxel`, relative to the center of the origin chunk.
    pub open spec fn voxel_to_space(self, voxel: VoxelPoint) -> SpacePoint {
        let center = self.center_voxel(self.origin);
        SpacePoint {
            x: (voxel.x - center.x) * self.voxel_side_length,
            y: (voxel.y - center.y) * self.voxel_side_length,
            z: (voxel.z - center.z) * self.voxel_side_length,
        }
    }

    /// The world position of the center of `chunk`.
    pub open spec fn chunk_to_space(self, chunk: ChunkPoint) -> SpacePoint {
        self.voxel_to_space(self.center_voxel(chunk))
    }

    /// The voxel that holds the world position `space`. The horizontal axes
    /// divide by the voxel side length, the vertical axis by the chunk height.
    pub open spec fn space_to_voxel(self, space: SpacePoint) -> VoxelPoint {
        let center = self.center_voxel(self.origin);
        VoxelPoint {
            x: space.x / self.voxel_side_length + center.x,
            y: space.y / self.chunk_voxel_height + center.y,
            z: space.z / self.voxel_side_length + center.z,
        }
    }

    /// The chunk that holds the world position `space`.
    pub open spec fn space_to_chunk(self, space: SpacePoint) -> ChunkPoint {
        self.voxel_to_chunk(self.space_to_voxel(space))
    }

    /// The number of voxels in one chunk, the halo excluded.
    pub open spec fn chunk_voxel_count(self) -> int {
        self.full_length() * self.full_length() * self.chunk_voxel_height
    }

    /// The `index`-th voxel of `chunk` in enumeration order: the vertical axis
    /// varies fastest, then z, then x.
    pub open spec fn chunk_voxel(self, chunk: ChunkPoint, index: int) -> VoxelPoint {
        let y = index % self.chunk_voxel_height;
        let column = index / self.chunk_voxel_height;
        let z = column % self.full_length();
        let x = column / self.full_length();
        self.voxel_at(chunk, x - self.chunk_voxel_length, y, z - self.chunk_voxel_length)
    }

    /// All voxels of `chunk` in enumeration order.
    pub open spec fn chunk_voxels(self, chunk: ChunkPoint) -> Seq<VoxelPoint> {
        Seq::new(self.chunk_voxel_count() as nat, |index: int| self.chunk_voxel(chunk, index))
    }

    /// The squared Euclidean distance, in world units, between the centers of
    /// `a` and `b`.
    pub open spec fn chunk_distance_squared(self, a: ChunkPoint, b: ChunkPoint) -> int {
        let p = self.chunk_to_space(a);
        let q = self.chunk_to_space(b);
        (p.x - q.x) * (p.x - q.x) + (p.y - q.y) * (p.y - q.y) + (p.z - q.z) * (p.z - q.z)
    }
}

} // verus!
