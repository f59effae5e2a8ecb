//! The voxel kinds, and the walk over a chunk's voxel buffer that the density
//! field is sampled along.

use vstd::prelude::*;
use crate::ids::{VoxelId, VoxelPoint};
use crate::shape::{delinearized, lemma_delinearized, shape_delinearize, shape_size, shape_usable,
    shape_volume};

verus! {

/// What a voxel is made of.
#[derive(Clone, Copy, PartialEq, Eq, Structural, Debug)]
pub enum VoxelType {
    Air,
    Dirt,
}

/// How a voxel takes part in meshing.
#[derive(Clone, Copy, PartialEq, Eq, Structural, Debug)]
pub enum VoxelVisibility {
    /// The voxel has no faces of its own and hides none.
    Empty,
    /// The voxel has faces and hides what lies behind them.
    Opaque,
}

impl VoxelType {
    /// The material number of the voxel kind: 0 for air, 1 for dirt.
    pub fn to_mat_id(&self) -> (id: u8)
        ensures
            id == (match *self {
                VoxelType::Air => 0u8,
                VoxelType::Dirt => 1u8,
            }),
    {
        match self {
            VoxelType::Air => 0,
            VoxelType::Dirt => 1,
        }
    }

    /// Air is empty; every other kind is opaque.
    pub fn get_visibility(&self) -> (visibility: VoxelVisibility)
        ensures
            visibility == (if *self == VoxelType::Air {
                VoxelVisibility::Empty
            } else {
                VoxelVisibility::Opaque
            }),
    {
        if let VoxelType::Air = self {
            VoxelVisibility::Empty
        } else {
            VoxelVisibility::Opaque
        }
    }

    /// The value by which faces are merged: two faces merge when their voxels
    /// are of the same kind.
    pub fn merge_value(&self) -> (value: VoxelType)
        ensures
            value == *self,
    {
        *self
    }
}

/// The absolute voxel whose value stands at `index` of the buffer with the
/// dimensions `shape` that starts at `origin`.
pub open spec fn sample_position(origin: VoxelPoint, shape: [u32; 3], index: int) -> VoxelPoint {
    let local = delinearized(shape, index);
    origin.shifted(local.0, local.1, local.2)
}

/// Whether every voxel of the buffer with the dimensions `shape` that starts
/// at `origin` has coordinates that fit a voxel identifier: the buffer is
/// empty, or its far corner fits.
pub open spec fn buffer_representable(origin: VoxelPoint, shape: [u32; 3]) -> bool {
    shape_volume(shape) == 0 || origin.shifted(
        shape[0] - 1,
        shape[1] - 1,
        shape[2] - 1,
    ).representable()
}

/// Produces the voxel values of chunks from a deterministic density field.
#[derive(Clone, Copy, Debug)]
pub struct VoxelGenerator;

impl VoxelGenerator {
    /// Whether `sample_positions` accepts the buffer.
    pub fn can_sample(&self, origin: VoxelId, shape: [u32; 3]) -> (accepted: bool)
        ensures
            accepted == (shape_usable(shape) && buffer_representable(origin@, shape)),
    {
        proof {
            assert(shape[0] * shape[1] <= 0xffff_ffff * 0xffff_ffff) by (nonlinear_arith)
                requires
                    0 <= shape[0] <= 0xffff_ffff,
                    0 <= shape[1] <= 0xffff_ffff,
            ;
        }
        let layer: u64 = (shape[0] as u64) * (shape[1] as u64);
        if layer > 0xffff_ffff {
            return false;
        }
        proof {
            assert(layer * shape[2] <= 0xffff_ffff * 0xffff_ffff) by (nonlinear_arith)
                requires
                    0 <= layer <= 0xffff_ffff,
                    0 <= shape[2] <= 0xffff_ffff,
            ;
        }
        let volume: u64 = layer * (shape[2] as u64);
        if volume > 0xffff_ffff {
            return false;
        }
        if volume == 0 {
            return true;
        }
        proof {
            assert(shape[0] >= 1 && shape[1] >= 1 && shape[2] >= 1) by (nonlinear_arith)
                requires
                    shape[0] * shape[1] * shape[2] > 0,
                    shape[0] >= 0,
                    shape[1] >= 0,
                    shape[2] >= 0,
            ;
        }
        let x: i64 = origin.0 as i64 + (shape[0] as i64 - 1);
        let y: i64 = origin.1 as i64 + (shape[1] as i64 - 1);
        let z: i64 = origin.2 as i64 + (shape[2] as i64 - 1);
        x <= 0x7fff_ffff && y <= 0x7fff_ffff && z <= 0x7fff_ffff
    }

    /// The absolute voxels of the buffer with the dimensions `shape` that
    /// starts at `origin`, in the order of the buffer: x varies fastest, then
    /// y, then z. The value of an entry depends on nothing but its voxel.
    pub fn sample_positions(&self, origin: VoxelId, shape: [u32; 3]) -> (positions: Vec<VoxelId>)
        requires
            shape_usable(shape),
            buffer_representable(origin@, shape),
        ensures
            positions@.len() == shape_volume(shape),
            forall|index: int|
                0 <= index < positions@.len() ==> (#[trigger] positions@[index])@
                    == sample_position(origin@, shape, index),
    {
        let size: u32 = shape_size(shape);
        let mut positions: Vec<VoxelId> = Vec::new();
        let mut index: u32 = 0;
        while index < size
            invariant
                shape_usable(shape),
                buffer_representable(origin@, shape),
                size == shape_volume(shape),
                index <= size,
                positions@.len() == index,
                forall|k: int|
                    0 <= k < positions@.len() ==> (#[trigger] positions@[k])@ == sample_position(
                        origin@,
                        shape,
                        k,
                    ),
            decreases size - index,
        {
            proof {
                lemma_delinearized(shape, index as int);
            }
            let local = shape_delinearize(shape, index);
            let x: i64 = origin.0 as i64 + local[0] as i64;
            let y: i64 = origin.1 as i64 + local[1] as i64;
            let z: i64 = origin.2 as i64 + local[2] as i64;
            positions.push(VoxelId(x as i32, y as i32, z as i32));
            index = index + 1;
        }
        positions
    }
}

impl Default for VoxelGenerator {
    fn default() -> (generator: Self) {
        VoxelGenerator
    }
}

/// The voxel values of one chunk, in the order of its buffer.
pub struct ChunkVoxelData<T> {
    voxels: Vec<T>,
    shape: [u32; 3],
}

impl<T> View for ChunkVoxelData<T> {
    type V = Seq<T>;

    closed spec fn view(&self) -> Seq<T> {
        self.voxels@
    }
}

impl<T> ChunkVoxelData<T> {
    /// The dimensions of the buffer.
    pub closed spec fn spec_shape(&self) -> [u32; 3] {
        self.shape
    }

    /// The invariant of every buffer: a usable shape, and one value for each
    /// of its entries.
    pub closed spec fn wf(&self) -> bool {
        shape_usable(self.shape) && self.voxels@.len() == shape_volume(self.shape)
    }

    /// Makes a buffer of `voxels`, if there is one value for each entry of
    /// `shape`.
    pub fn new(voxels: Vec<T>, shape: [u32; 3]) -> (data: Option<Self>)
        requires
            shape_usable(shape),
        ensures
            data is Some <==> voxels@.len() == shape_volume(shape),
            data matches Some(d) ==> d.wf() && d@ == voxels@ && d.spec_shape() == shape,
    {
        let size = shape_size(shape);
        if voxels.len() == size as usize {
            Some(ChunkVoxelData { voxels, shape })
        } else {
            None
        }
    }

    /// The values, in the order of the buffer.
    pub fn voxels(&self) -> (voxels: &Vec<T>)
        ensures
            voxels@ == self@,
    {
        &self.voxels
    }

    /// The dimensions of the buffer.
    pub fn shape(&self) -> (shape: [u32; 3])
        ensures
            shape == self.spec_shape(),
    {
        self.shape
    }
}

} // verus!
