//! The executable layout: chunk and voxel coordinates on machine integers.

use vstd::prelude::*;
use vstd::arithmetic::div_mod::{lemma_fundamental_div_mod, lemma_fundamental_div_mod_converse};
use crate::ids::{ChunkId, ChunkPoint, VoxelId, fits_i32, voxel_points};
use crate::model::{LayoutModel, SpacePoint};
use crate::shape::{shape_usable, shape_volume};

verus! {

/// A position in world space, in whole world units.
#[derive(Clone, Copy, PartialEq, Eq, Structural, Debug, Hash)]
pub struct WorldPos {
    pub x: i64,
    pub y: i64,
    pub z: i64,
}

impl View for WorldPos {
    type V = SpacePoint;

    open spec fn view(&self) -> SpacePoint {
        SpacePoint { x: self.x as int, y: self.y as int, z: self.z as int }
    }
}

impl WorldPos {
    /// The position `(x, y, z)`, with `y` the height.
    pub fn new(x: i64, y: i64, z: i64) -> (pos: Self)
        ensures
            pos@ == (SpacePoint { x: x as int, y: y as int, z: z as int }),
    {
        Self { x, y, z }
    }
}

/// Why a layout could not be built.
#[derive(Clone, Copy, PartialEq, Eq, Structural, Debug)]
pub enum LayoutError {
    /// The voxel side length is zero.
    ZeroVoxelSideLength,
    /// The chunk radius is zero.
    ZeroChunkLength,
    /// The chunk height is zero.
    ZeroChunkHeight,
    /// The voxel side length, or the number of entries in a chunk's voxel
    /// buffer, is beyond what the machine's integers hold.
    TooLarge,
    /// The voxels of the origin chunk do not fit the voxel identifiers.
    OriginOutOfRange,
}

/// The largest voxel side length a layout accepts.
pub open spec fn max_voxel_side_length() -> int {
    i32::MAX as int
}

/// Whether the three lengths can be held by the machine: the side length
/// within `i32`, the voxel buffer's entry count within `u32`.
pub open spec fn lengths_fit(m: LayoutModel) -> bool {
    &&& m.voxel_side_length <= max_voxel_side_length()
    &&& m.shape_volume() <= u32::MAX
}

/// The model of a layout built from the given parameters.
pub open spec fn model_of(
    origin: ChunkId,
    voxel_side_length: u32,
    chunk_voxel_length: u32,
    chunk_voxel_height: u32,
) -> LayoutModel {
    LayoutModel {
        origin: origin@,
        voxel_side_length: voxel_side_length as int,
        chunk_voxel_length: chunk_voxel_length as int,
        chunk_voxel_height: chunk_voxel_height as int,
    }
}

/// What `CubicVoxelLayout::new` answers on a model: the first failed
/// condition in a fixed order, or nothing when all hold.
pub open spec fn rejection(m: LayoutModel) -> Option<LayoutError> {
    if m.voxel_side_length < 1 {
        Some(LayoutError::ZeroVoxelSideLength)
    } else if m.chunk_voxel_length < 1 {
        Some(LayoutError::ZeroChunkLength)
    } else if m.chunk_voxel_height < 1 {
        Some(LayoutError::ZeroChunkHeight)
    } else if !lengths_fit(m) {
        Some(LayoutError::TooLarge)
    } else if !m.covers(m.origin) {
        Some(LayoutError::OriginOutOfRange)
    } else {
        None
    }
}

/// A grid of cubic voxels grouped into square chunks.
pub struct CubicVoxelLayout {
    origin: ChunkId,
    voxel_side_length: u32,
    chunk_voxel_length: u32,
    chunk_voxel_height: u32,
    shape: [u32; 3],
}

impl View for CubicVoxelLayout {
    type V = LayoutModel;

    closed spec fn view(&self) -> LayoutModel {
        model_of(
            self.origin,
            self.voxel_side_length,
            self.chunk_voxel_length,
            self.chunk_voxel_height,
        )
    }
}

/// A volume within `u32` bounds each of its positive factors.
pub proof fn lemma_volume_bounds(a: int, b: int)
    requires
        a >= 1,
        b >= 1,
        a * b * a <= u32::MAX,
    ensures
        a * a <= u32::MAX,
        a <= 65535,
        b <= u32::MAX,
        a * b <= u32::MAX,
{
    assert(a * a <= a * b * a) by (nonlinear_arith)
        requires
            a >= 1,
            b >= 1,
    ;
    assert(a <= 65535) by (nonlinear_arith)
        requires
            a >= 1,
            a * a <= 0xffff_ffff,
    ;
    assert(b <= a * b * a && a * b <= a * b * a) by (nonlinear_arith)
        requires
            a >= 1,
            b >= 1,
    ;
}

impl CubicVoxelLayout {
    /// The invariant of every layout: a valid model within the machine's limits.
    pub closed spec fn wf(&self) -> bool {
        &&& rejection(self@) is None
        &&& self.shape@ =~= seq![
            (self@.full_length() + 2) as u32,
            (self@.chunk_voxel_height + 2) as u32,
            (self@.full_length() + 2) as u32,
        ]
    }

    /// What the invariant gives to callers: a valid model whose lengths and
    /// origin chunk are within the machine's limits.
    pub proof fn lemma_wf(&self)
        requires
            self.wf(),
        ensures
            self@.valid(),
            lengths_fit(self@),
            self@.covers(self@.origin),
            self@.origin.representable(),
            3 <= self@.full_length() <= 65533,
            self@.chunk_voxel_height + 2 <= u32::MAX,
    {
        lemma_volume_bounds(self@.full_length() + 2, self@.chunk_voxel_height + 2);
    }

    /// Builds a layout, or says which parameter it cannot accept.
    pub fn new(
        origin: ChunkId,
        voxel_side_length: u32,
        chunk_voxel_length: u32,
        chunk_voxel_height: u32,
    ) -> (result: Result<Self, LayoutError>)
        ensures
            match result {
                Ok(layout) => {
                    &&& layout.wf()
                    &&& layout@ == model_of(
                        origin,
                        voxel_side_length,
                        chunk_voxel_length,
                        chunk_voxel_height,
                    )
                    &&& rejection(layout@) is None
                },
                Err(error) => rejection(
                    model_of(origin, voxel_side_length, chunk_voxel_length, chunk_voxel_height),
                ) == Some(error),
            },
    {
        let ghost m = model_of(origin, voxel_side_length, chunk_voxel_length, chunk_voxel_height);
        if voxel_side_length == 0 {
            return Err(LayoutError::ZeroVoxelSideLength);
        }
        if chunk_voxel_length == 0 {
            return Err(LayoutError::ZeroChunkLength);
        }
        if chunk_voxel_height == 0 {
            return Err(LayoutError::ZeroChunkHeight);
        }
        if voxel_side_length > 0x7fff_ffff {
            return Err(LayoutError::TooLarge);
        }
        // A buffer of at most 2^32 entries has horizontal edges below 2^16.
        if chunk_voxel_length > 32766 {
            proof {
                if m.shape_volume() <= u32::MAX {
                    lemma_volume_bounds(m.full_length() + 2, m.chunk_voxel_height + 2);
                }
            }
            return Err(LayoutError::TooLarge);
        }
        let side: u64 = 3 + 2 * (chunk_voxel_length as u64);
        let tall: u64 = chunk_voxel_height as u64 + 2;
        assert(side * side <= 65535 * 65535) by (nonlinear_arith)
            requires
                0 <= side <= 65535,
        ;
        let base: u64 = side * side;
        assert(base * tall <= 0xffff_ffff * 0x1_0000_0001) by (nonlinear_arith)
            requires
                0 <= base <= 0xffff_ffff,
                0 <= tall <= 0x1_0000_0001,
        ;
        let volume: u64 = base * tall;
        assert(volume == m.shape_volume()) by (nonlinear_arith)
            requires
                volume == side * side * tall,
                side == m.full_length() + 2,
                tall == m.chunk_voxel_height + 2,
                m.shape_volume() == (m.full_length() + 2) * (m.chunk_voxel_height + 2) * (
                m.full_length() + 2),
        ;
        if volume > 0xffff_ffff {
            return Err(LayoutError::TooLarge);
        }
        let full: i64 = 1 + 2 * (chunk_voxel_length as i64);
        let reach: i64 = chunk_voxel_length as i64 + 1;
        assert(-0x8000_0000 * 65535 <= origin.0 * full <= 0x8000_0000 * 65535
            && -0x8000_0000 * 65535 <= origin.1 * full <= 0x8000_0000 * 65535)
            by (nonlinear_arith)
            requires
                -0x8000_0000 <= origin.0 <= 0x7fff_ffff,
                -0x8000_0000 <= origin.1 <= 0x7fff_ffff,
                0 <= full <= 65535,
        ;
        let cx: i64 = (origin.0 as i64) * full;
        let cz: i64 = (origin.1 as i64) * full;
        if cx - reach < -0x8000_0000 || cx + reach > 0x7fff_ffff || cz - reach < -0x8000_0000 || cz
            + reach > 0x7fff_ffff {
            return Err(LayoutError::OriginOutOfRange);
        }
        let layout = Self {
            origin,
            voxel_side_length,
            chunk_voxel_length,
            chunk_voxel_height,
            shape: [side as u32, tall as u32, side as u32],
        };
        Ok(layout)
    }

    /// The chunk whose center is world position zero.
    pub fn origin(&self) -> (origin: ChunkId)
        ensures
            origin@ == self@.origin,
    {
        self.origin
    }

    /// World units per voxel edge.
    pub fn voxel_side_length(&self) -> (length: u32)
        ensures
            length == self@.voxel_side_length,
    {
        self.voxel_side_length
    }

    /// Voxels from a chunk's center column to its edge.
    pub fn chunk_voxel_length(&self) -> (length: u32)
        ensures
            length == self@.chunk_voxel_length,
    {
        self.chunk_voxel_length
    }

    /// The dimensions of a chunk's voxel buffer, halo included.
    pub fn shape(&self) -> (shape: [u32; 3])
        requires
            self.wf(),
        ensures
            shape@.len() == 3,
            shape@[0] == self@.full_length() + 2,
            shape@[1] == self@.chunk_voxel_height + 2,
            shape@[2] == self@.full_length() + 2,
            shape_usable(shape),
            shape_volume(shape) == self@.shape_volume(),
    {
        proof {
            self.lemma_wf();
            lemma_volume_bounds(self@.full_length() + 2, self@.chunk_voxel_height + 2);
        }
        self.shape
    }

    /// World units along one horizontal edge of a chunk.
    #[inline]
    pub fn chunk_side_length(&self) -> (length: u64)
        requires
            self.wf(),
        ensures
            length == self@.chunk_side_length(),
    {
        proof {
            self.lemma_wf();
            assert(self@.full_length() * self@.voxel_side_length <= 65533 * 0x7fff_ffff)
                by (nonlinear_arith)
                requires
                    0 <= self@.full_length() <= 65533,
                    0 <= self@.voxel_side_length <= 0x7fff_ffff,
            ;
        }
        (self.chunk_voxel_full_length() as u64) * (self.voxel_side_length as u64)
    }

    /// Voxels along one horizontal edge of a chunk.
    #[inline]
    pub fn chunk_voxel_full_length(&self) -> (length: u32)
        requires
            self.wf(),
        ensures
            length == self@.full_length(),
    {
        proof {
            self.lemma_wf();
        }
        1 + (self.chunk_voxel_length * 2)
    }

    /// Voxels in one column of a chunk.
    #[inline]
    pub fn chunk_voxel_height(&self) -> (height: u32)
        ensures
            height == self@.chunk_voxel_height,
    {
        self.chunk_voxel_height
    }
}

/// A floored quotient by a positive divisor lies between the dividend and zero.
pub proof fn lemma_floor_div_bounds(a: int, d: int)
    requires
        d >= 1,
    ensures
        a >= 0 ==> 0 <= a / d <= a,
        a < 0 ==> a <= a / d < 0,
{
    lemma_fundamental_div_mod(a, d);
    let q = a / d;
    let r = a % d;
    assert(a >= 0 ==> 0 <= q <= a) by (nonlinear_arith)
        requires
            a == d * q + r,
            0 <= r < d,
            d >= 1,
    ;
    assert(a < 0 ==> a <= q < 0) by (nonlinear_arith)
        requires
            a == d * q + r,
            0 <= r < d,
            d >= 1,
    ;
}

/// The floored quotient of `a` by the positive divisor `d`.
pub fn floor_div(a: i64, d: i64) -> (q: i64)
    requires
        d >= 1,
    ensures
        q == a as int / d as int,
{
    proof {
        lemma_floor_div_bounds(a as int, d as int);
    }
    a.checked_div_euclid(d).unwrap()
}

/// Dividing `q * d + r` by `d`, with `0 <= r < d`, gives `q`.
pub proof fn lemma_div_of_offset(q: int, d: int, r: int)
    requires
        0 <= r < d,
    ensures
        (q * d + r) / d == q,
        (q * d + r) % d == r,
{
    lemma_fundamental_div_mod_converse(q * d + r, d, q, r);
}

impl CubicVoxelLayout {
    /// The products that place a covered chunk stay within `i32`.
    proof fn lemma_covered(&self, chunk: ChunkId)
        requires
            self.wf(),
            self@.covers(chunk@),
        ensures
            fits_i32(chunk@.x * self@.full_length()),
            fits_i32(chunk@.y * self@.full_length()),
            self@.center_voxel(chunk@).representable(),
            self@.origin_voxel(chunk@).representable(),
            3 <= self@.full_length() <= 65533,
            1 <= self@.chunk_voxel_length <= 32766,
    {
        self.lemma_wf();
    }

    /// The chunk of a voxel within `i32` has coordinates within `i32`.
    proof fn lemma_chunk_of_voxel_fits(&self, coordinate: int)
        requires
            self.wf(),
            fits_i32(coordinate),
        ensures
            fits_i32((coordinate + self@.chunk_voxel_length) / self@.full_length()),
    {
        self.lemma_wf();
        let a = coordinate + self@.chunk_voxel_length;
        let d = self@.full_length();
        lemma_floor_div_bounds(a, d);
        lemma_fundamental_div_mod(a, d);
        let q = a / d;
        let r = a % d;
        assert(q <= 0x7fff_ffff) by (nonlinear_arith)
            requires
                a == d * q + r,
                0 <= r,
                d >= 3,
                a <= 0x7fff_ffff + d,
        ;
    }

    /// The voxel at the center of the lowest layer of `chunk`.
    #[inline]
    pub fn get_center_voxel(&self, chunk: &ChunkId) -> (voxel: VoxelId)
        requires
            self.wf(),
            self@.covers(chunk@),
        ensures
            voxel@ == self@.center_voxel(chunk@),
    {
        proof {
            self.lemma_covered(*chunk);
        }
        let full: i32 = self.chunk_voxel_full_length() as i32;
        VoxelId(chunk.x() * full, 0, chunk.y() * full)
    }

    /// The voxel of `chunk` with the lowest coordinates.
    #[inline]
    pub fn get_origin(&self, chunk: &ChunkId) -> (voxel: VoxelId)
        requires
            self.wf(),
            self@.covers(chunk@),
        ensures
            voxel@ == self@.origin_voxel(chunk@),
    {
        proof {
            self.lemma_covered(*chunk);
        }
        let full: i32 = self.chunk_voxel_full_length() as i32;
        let length: i32 = self.chunk_voxel_length as i32;
        VoxelId((chunk.x() * full) - length, 0, (chunk.y() * full) - length)
    }

    /// The voxel at the offset `(x, y, z)` from the center voxel of `chunk`.
    /// The offset may reach into the halo, or beyond it.
    #[inline]
    pub fn get_voxel(&self, chunk: &ChunkId, x: i32, y: i32, z: i32) -> (voxel: VoxelId)
        requires
            self.wf(),
            self@.voxel_at(chunk@, x as int, y as int, z as int).representable(),
        ensures
            voxel@ == self@.voxel_at(chunk@, x as int, y as int, z as int),
    {
        proof {
            self.lemma_wf();
            assert(-0x8000_0000 * 65533 <= chunk.0 * self@.full_length() <= 0x8000_0000 * 65533
                && -0x8000_0000 * 65533 <= chunk.1 * self@.full_length() <= 0x8000_0000 * 65533)
                by (nonlinear_arith)
                requires
                    -0x8000_0000 <= chunk.0 <= 0x7fff_ffff,
                    -0x8000_0000 <= chunk.1 <= 0x7fff_ffff,
                    0 <= self@.full_length() <= 65533,
            ;
        }
        let full: i64 = self.chunk_voxel_full_length() as i64;
        let vx: i64 = x as i64 + (chunk.x() as i64) * full;
        let vz: i64 = z as i64 + (chunk.y() as i64) * full;
        VoxelId(vx as i32, y, vz as i32)
    }

    /// The chunk that holds `voxel`, for every voxel the machine can name.
    pub fn voxel_to_chunk(&self, voxel: &VoxelId) -> (chunk: ChunkId)
        requires
            self.wf(),
        ensures
            chunk@ == self@.voxel_to_chunk(voxel@),
    {
        proof {
            self.lemma_wf();
            self.lemma_chunk_of_voxel_fits(voxel@.x);
            self.lemma_chunk_of_voxel_fits(voxel@.z);
        }
        let full: i64 = self.chunk_voxel_full_length() as i64;
        let length: i64 = self.chunk_voxel_length as i64;
        let x: i64 = floor_div(voxel.x() as i64 + length, full);
        let y: i64 = floor_div(voxel.z() as i64 + length, full);
        ChunkId::new(x as i32, y as i32)
    }

    /// The world position of `voxel`, relative to the center of the origin chunk.
    pub fn voxel_to_space(&self, voxel: &VoxelId) -> (space: WorldPos)
        requires
            self.wf(),
        ensures
            space@ == self@.voxel_to_space(voxel@),
    {
        proof {
            self.lemma_wf();
            self.lemma_covered(self.origin);
        }
        let center = self.get_center_voxel(&self.origin);
        let side: i64 = self.voxel_side_length as i64;
        let dx: i64 = voxel.x() as i64 - center.x() as i64;
        let dy: i64 = voxel.y() as i64 - center.y() as i64;
        let dz: i64 = voxel.z() as i64 - center.z() as i64;
        proof {
            assert(-0xffff_ffff * 0x7fff_ffff <= dx * side <= 0xffff_ffff * 0x7fff_ffff
                && -0xffff_ffff * 0x7fff_ffff <= dy * side <= 0xffff_ffff * 0x7fff_ffff
                && -0xffff_ffff * 0x7fff_ffff <= dz * side <= 0xffff_ffff * 0x7fff_ffff)
                by (nonlinear_arith)
                requires
                    -0xffff_ffff <= dx <= 0xffff_ffff,
                    -0xffff_ffff <= dy <= 0xffff_ffff,
                    -0xffff_ffff <= dz <= 0xffff_ffff,
                    1 <= side <= 0x7fff_ffff,
            ;
        }
        WorldPos { x: dx * side, y: dy * side, z: dz * side }
    }

    /// The world position of the center of `chunk`.
    pub fn chunk_to_space(&self, chunk: &ChunkId) -> (space: WorldPos)
        requires
            self.wf(),
            self@.covers(chunk@),
        ensures
            space@ == self@.chunk_to_space(chunk@),
    {
        let center = self.get_center_voxel(chunk);
        self.voxel_to_space(&center)
    }

    /// The voxel that holds the world position `space`.
    pub fn space_to_voxel(&self, space: &WorldPos) -> (voxel: VoxelId)
        requires
            self.wf(),
            self@.space_to_voxel(space@).representable(),
        ensures
            voxel@ == self@.space_to_voxel(space@),
    {
        proof {
            self.lemma_wf();
            self.lemma_covered(self.origin);
        }
        let center = self.get_center_voxel(&self.origin);
        let divisor: i64 = self.voxel_side_length as i64;
        let x: i64 = floor_div(space.x, divisor);
        let y: i64 = floor_div(space.y, self.chunk_voxel_height as i64);
        let z: i64 = floor_div(space.z, divisor);
        VoxelId(
            (x + center.x() as i64) as i32,
            (y + center.y() as i64) as i32,
            (z + center.z() as i64) as i32,
        )
    }

    /// The chunk that holds the world position `space`.
    pub fn space_to_chunk(&self, space: &WorldPos) -> (chunk: ChunkId)
        requires
            self.wf(),
            self@.space_to_voxel(space@).representable(),
        ensures
            chunk@ == self@.space_to_chunk(space@),
    {
        let voxel = self.space_to_voxel(space);
        self.voxel_to_chunk(&voxel)
    }
}

/// Where the voxel of column `(x, z)` and height `y` stands in the
/// enumeration of a chunk with `full` columns per edge and `height` layers.
pub proof fn lemma_enumeration_index(full: int, height: int, x: int, z: int, y: int)
    requires
        0 <= x,
        0 <= z < full,
        0 <= y < height,
    ensures
        ((x * full + z) * height + y) % height == y,
        ((x * full + z) * height + y) / height == x * full + z,
        (x * full + z) % full == z,
        (x * full + z) / full == x,
        0 <= (x * full + z) * height + y,
        x < full ==> (x * full + z) * height + y < full * full * height,
{
    lemma_div_of_offset(x * full + z, height, y);
    lemma_div_of_offset(x, full, z);
    assert(0 <= (x * full + z) * height + y) by (nonlinear_arith)
        requires
            0 <= x,
            0 <= z < full,
            0 <= y < height,
    ;
    if x < full {
        assert((x * full + z) * height + y < full * full * height) by (nonlinear_arith)
            requires
                0 <= x < full,
                0 <= z < full,
                0 <= y < height,
        ;
    }
}

impl CubicVoxelLayout {
    /// The height of a chunk is far below the range of a voxel coordinate.
    proof fn lemma_height_fits(&self)
        requires
            self.wf(),
        ensures
            self@.chunk_voxel_height < 0x1000_0000,
    {
        self.lemma_wf();
        let a = self@.full_length() + 2;
        let b = self@.chunk_voxel_height + 2;
        assert(b < 0x1000_0000) by (nonlinear_arith)
            requires
                a >= 5,
                b >= 1,
                a * b * a <= 0xffff_ffff,
        ;
    }

    /// All voxels of `chunk`, the halo excluded, column by column: the vertical
    /// axis varies fastest, then z, then x.
    pub fn get_chunk_voxels(&self, chunk: &ChunkId) -> (voxels: Vec<VoxelId>)
        requires
            self.wf(),
            self@.covers(chunk@),
        ensures
            voxel_points(voxels@) == self@.chunk_voxels(chunk@),
            voxels@.len() == self@.chunk_voxel_count(),
    {
        proof {
            self.lemma_wf();
            self.lemma_height_fits();
            self.lemma_covered(*chunk);
        }
        let full: u32 = self.chunk_voxel_full_length();
        let height: u32 = self.chunk_voxel_height;
        let length: i32 = self.chunk_voxel_length as i32;
        let ghost m = self@;
        let ghost c = chunk@;
        let mut voxels: Vec<VoxelId> = Vec::new();
        let mut x: u32 = 0;
        while x < full
            invariant
                self.wf(),
                m == self@,
                c == chunk@,
                m.covers(c),
                full == m.full_length(),
                height == m.chunk_voxel_height,
                length == m.chunk_voxel_length,
                3 <= full <= 65533,
                1 <= height < 0x1000_0000,
                fits_i32(c.x * m.full_length()),
                fits_i32(c.y * m.full_length()),
                x <= full,
                voxels@.len() == x * full * height,
                forall|k: int| 0 <= k < voxels@.len() ==> (#[trigger] voxels@[k])@ == m.chunk_voxel(c, k),
            decreases full - x,
        {
            let mut z: u32 = 0;
            proof {
                assert((x * full + 0) * height == x * full * height) by (nonlinear_arith);
            }
            while z < full
                invariant
                    self.wf(),
                    m == self@,
                    c == chunk@,
                    m.covers(c),
                    full == m.full_length(),
                    height == m.chunk_voxel_height,
                    length == m.chunk_voxel_length,
                    3 <= full <= 65533,
                    1 <= height < 0x1000_0000,
                    fits_i32(c.x * m.full_length()),
                    fits_i32(c.y * m.full_length()),
                    x < full,
                    z <= full,
                    voxels@.len() == (x * full + z) * height,
                    forall|k: int| 0 <= k < voxels@.len() ==> (#[trigger] voxels@[k])@ == m.chunk_voxel(c, k),
                decreases full - z,
            {
                let mut y: u32 = 0;
                while y < height
                    invariant
                        self.wf(),
                        m == self@,
                        c == chunk@,
                        m.covers(c),
                        full == m.full_length(),
                        height == m.chunk_voxel_height,
                        length == m.chunk_voxel_length,
                        3 <= full <= 65533,
                        1 <= height < 0x1000_0000,
                        fits_i32(c.x * m.full_length()),
                        fits_i32(c.y * m.full_length()),
                        x < full,
                        z < full,
                        y <= height,
                        voxels@.len() == (x * full + z) * height + y,
                        forall|k: int| 0 <= k < voxels@.len() ==> (#[trigger] voxels@[k])@ == m.chunk_voxel(c, k),
                    decreases height - y,
                {
                    let voxel = self.get_voxel(
                        chunk,
                        x as i32 - length,
                        y as i32,
                        z as i32 - length,
                    );
                    proof {
                        lemma_enumeration_index(
                            full as int,
                            height as int,
                            x as int,
                            z as int,
                            y as int,
                        );
                    }
                    voxels.push(voxel);
                    y = y + 1;
                }
                proof {
                    assert((x * full + z) * height + height == (x * full + (z + 1)) * height)
                        by (nonlinear_arith);
                }
                z = z + 1;
            }
            proof {
                assert((x * full + full) * height == (x + 1) * full * height) by (nonlinear_arith);
            }
            x = x + 1;
        }
        proof {
            assert(full * full * height == m.chunk_voxel_count());
            assert(voxel_points(voxels@) =~= m.chunk_voxels(c));
        }
        voxels
    }

    /// The squared Euclidean distance, in world units, between the centers of
    /// `a` and `b`.
    pub fn get_chunk_distance_squared(&self, a: &ChunkId, b: &ChunkId) -> (distance: u128)
        requires
            self.wf(),
            self@.covers(a@),
            self@.covers(b@),
        ensures
            distance == self@.chunk_distance_squared(a@, b@),
    {
        let p = self.chunk_to_space(a);
        let q = self.chunk_to_space(b);
        proof {
            self.lemma_wf();
            self.lemma_covered(*a);
            self.lemma_covered(*b);
            self.lemma_covered(self.origin);
            let full = self@.full_length();
            let side = self@.voxel_side_length;
            let o = self@.origin;
            assert(p.x - q.x == (a@.x * full - b@.x * full) * side && p.z - q.z == (a@.y * full
                - b@.y * full) * side) by (nonlinear_arith)
                requires
                    p.x == (a@.x * full - o.x * full) * side,
                    q.x == (b@.x * full - o.x * full) * side,
                    p.z == (a@.y * full - o.y * full) * side,
                    q.z == (b@.y * full - o.y * full) * side,
            ;
            assert(-0xffff_ffff * 0x7fff_ffff <= p.x - q.x <= 0xffff_ffff * 0x7fff_ffff
                && -0xffff_ffff * 0x7fff_ffff <= p.z - q.z <= 0xffff_ffff * 0x7fff_ffff)
                by (nonlinear_arith)
                requires
                    p.x - q.x == (a@.x * full - b@.x * full) * side,
                    p.z - q.z == (a@.y * full - b@.y * full) * side,
                    -0xffff_ffff <= a@.x * full - b@.x * full <= 0xffff_ffff,
                    -0xffff_ffff <= a@.y * full - b@.y * full <= 0xffff_ffff,
                    1 <= side <= 0x7fff_ffff,
            ;
        }
        let dx: i128 = p.x as i128 - q.x as i128;
        let dz: i128 = p.z as i128 - q.z as i128;
        proof {
            assert(0 <= dx * dx <= 0x7fff_fffe_8000_0001 * 0x7fff_fffe_8000_0001 && 0 <= dz * dz
                <= 0x7fff_fffe_8000_0001 * 0x7fff_fffe_8000_0001) by (nonlinear_arith)
                requires
                    -0x7fff_fffe_8000_0001 <= dx <= 0x7fff_fffe_8000_0001,
                    -0x7fff_fffe_8000_0001 <= dz <= 0x7fff_fffe_8000_0001,
            ;
        }
        let sx: i128 = dx * dx;
        let sz: i128 = dz * dz;
        proof {
            let side = self@.voxel_side_length;
            assert(p.y == 0 && q.y == 0) by (nonlinear_arith)
                requires
                    p.y == (0 - 0) * side,
                    q.y == (0 - 0) * side,
            ;
            assert((p.y - q.y) * (p.y - q.y) == 0) by (nonlinear_arith)
                requires
                    p.y == 0,
                    q.y == 0,
            ;
        }
        (sx + sz) as u128
    }
}

/// The model of the layout that `CubicVoxelLayout::default` builds: unit
/// voxels, chunks of 101 by 101 columns, 20 voxels high, around chunk zero.
pub open spec fn default_model() -> LayoutModel {
    LayoutModel {
        origin: ChunkPoint { x: 0, y: 0 },
        voxel_side_length: 1,
        chunk_voxel_length: 50,
        chunk_voxel_height: 20,
    }
}

impl Default for CubicVoxelLayout {
    fn default() -> (layout: Self)
        ensures
            layout.wf(),
            layout@ == default_model(),
    {
        proof {
            let m = default_model();
            assert(m.shape_volume() == 233398) by (nonlinear_arith)
                requires
                    m.shape_volume() == (101 + 2) * (20 + 2) * (101 + 2),
            ;
            assert(0 * m.full_length() == 0) by (nonlinear_arith);
            assert(rejection(m) is None);
        }
        let built = Self::new(ChunkId::default(), 1, 50, 20);
        built.unwrap()
    }
}

impl CubicVoxelLayout {
    /// Whether every voxel of `chunk`, its halo included, fits the voxel
    /// identifiers, so that the chunk can be placed and enumerated.
    pub fn covers(&self, chunk: &ChunkId) -> (covered: bool)
        requires
            self.wf(),
        ensures
            covered == self@.covers(chunk@),
    {
        proof {
            self.lemma_wf();
            assert(-0x8000_0000 * 65533 <= chunk.0 * self@.full_length() <= 0x8000_0000 * 65533
                && -0x8000_0000 * 65533 <= chunk.1 * self@.full_length() <= 0x8000_0000 * 65533)
                by (nonlinear_arith)
                requires
                    -0x8000_0000 <= chunk.0 <= 0x7fff_ffff,
                    -0x8000_0000 <= chunk.1 <= 0x7fff_ffff,
                    0 <= self@.full_length() <= 65533,
            ;
        }
        let full: i64 = self.chunk_voxel_full_length() as i64;
        let reach: i64 = self.chunk_voxel_length as i64 + 1;
        let cx: i64 = (chunk.0 as i64) * full;
        let cz: i64 = (chunk.1 as i64) * full;
        -0x8000_0000 <= cx - reach && cx + reach <= 0x7fff_ffff && -0x8000_0000 <= cz - reach && cz
            + reach <= 0x7fff_ffff
    }

    /// The voxel that holds the world position `space`, if its coordinates fit
    /// a voxel identifier.
    pub fn try_space_to_voxel(&self, space: &WorldPos) -> (voxel: Option<VoxelId>)
        requires
            self.wf(),
        ensures
            voxel is Some <==> self@.space_to_voxel(space@).representable(),
            voxel matches Some(v) ==> v@ == self@.space_to_voxel(space@),
    {
        proof {
            self.lemma_wf();
            self.lemma_covered(self.origin);
        }
        let center = self.get_center_voxel(&self.origin);
        let divisor: i64 = self.voxel_side_length as i64;
        let x: i128 = floor_div(space.x, divisor) as i128 + center.x() as i128;
        let y: i128 = floor_div(space.y, self.chunk_voxel_height as i64) as i128 + center.y() as i128;
        let z: i128 = floor_div(space.z, divisor) as i128 + center.z() as i128;
        if -0x8000_0000 <= x && x <= 0x7fff_ffff && -0x8000_0000 <= y && y <= 0x7fff_ffff
            && -0x8000_0000 <= z && z <= 0x7fff_ffff {
            Some(VoxelId(x as i32, y as i32, z as i32))
        } else {
            None
        }
    }
}

} // verus!
