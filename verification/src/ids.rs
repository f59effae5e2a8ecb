//! Chunk and voxel identifiers, with the unbounded integer points they stand for.

use vstd::prelude::*;

verus! {

/// A chunk position on the unbounded horizontal grid, as mathematical integers.
pub ghost struct ChunkPoint {
    pub x: int,
    pub y: int,
}

/// A voxel position in absolute voxel space, as mathematical integers.
pub ghost struct VoxelPoint {
    pub x: int,
    pub y: int,
    pub z: int,
}

/// Whether `v` can be held in an `i32`.
pub open spec fn fits_i32(v: int) -> bool {
    i32::MIN <= v <= i32::MAX
}

impl ChunkPoint {
    /// Whether both coordinates can be held in a `ChunkId`.
    pub open spec fn representable(self) -> bool {
        fits_i32(self.x) && fits_i32(self.y)
    }

    /// The point reached from `self` by the offset `(dx, dy)`.
    pub open spec fn shifted(self, dx: int, dy: int) -> ChunkPoint {
        ChunkPoint { x: self.x + dx, y: self.y + dy }
    }

    /// The identifier of a representable point.
    pub open spec fn id(self) -> ChunkId {
        ChunkId(self.x as i32, self.y as i32)
    }

    /// The larger of the two axis distances between `self` and `other`.
    pub open spec fn chebyshev(self, other: ChunkPoint) -> int {
        let dx = if self.x >= other.x { self.x - other.x } else { other.x - self.x };
        let dy = if self.y >= other.y { self.y - other.y } else { other.y - self.y };
        if dx >= dy { dx } else { dy }
    }
}

impl VoxelPoint {
    /// Whether all three coordinates can be held in a `VoxelId`.
    pub open spec fn representable(self) -> bool {
        fits_i32(self.x) && fits_i32(self.y) && fits_i32(self.z)
    }

    /// The point reached from `self` by the offset `(dx, dy, dz)`.
    pub open spec fn shifted(self, dx: int, dy: int, dz: int) -> VoxelPoint {
        VoxelPoint { x: self.x + dx, y: self.y + dy, z: self.z + dz }
    }
}

/// Identifies a chunk on the horizontal grid.
#[derive(Clone, Copy, PartialEq, Eq, Structural, Debug, Hash)]
pub struct ChunkId(pub i32, pub i32);

impl View for ChunkId {
    type V = ChunkPoint;

    open spec fn view(&self) -> ChunkPoint {
        ChunkPoint { x: self.0 as int, y: self.1 as int }
    }
}

impl ChunkId {
    /// The chunk at `(x, y)` of the grid.
    pub fn new(x: i32, y: i32) -> (id: Self)
        ensures
            id@ == (ChunkPoint { x: x as int, y: y as int }),
    {
        Self(x, y)
    }

    /// The first coordinate.
    #[inline]
    pub fn x(&self) -> (x: i32)
        ensures
            x == self@.x,
    {
        self.0
    }

    /// The second coordinate.
    #[inline]
    pub fn y(&self) -> (y: i32)
        ensures
            y == self@.y,
    {
        self.1
    }

    /// Every identifier stands for a representable point, and two identifiers
    /// with the same point are the same identifier.
    pub proof fn lemma_view(self, other: ChunkId)
        ensures
            self@.representable(),
            self@ == other@ <==> self == other,
    {
    }
}

impl Default for ChunkId {
    fn default() -> (id: Self)
        ensures
            id@ == (ChunkPoint { x: 0, y: 0 }),
    {
        Self(0, 0)
    }
}

impl core::ops::Add for ChunkId {
    type Output = Self;

    #[inline]
    fn add(self, other: Self) -> (sum: Self) {
        Self(self.0 + other.0, self.1 + other.1)
    }
}

impl vstd::std_specs::ops::AddSpecImpl for ChunkId {
    open spec fn obeys_add_spec() -> bool {
        true
    }

    open spec fn add_req(self, other: Self) -> bool {
        self@.shifted(other@.x, other@.y).representable()
    }

    open spec fn add_spec(self, other: Self) -> Self {
        ChunkId((self.0 + other.0) as i32, (self.1 + other.1) as i32)
    }
}

impl core::ops::Sub for ChunkId {
    type Output = Self;

    #[inline]
    fn sub(self, other: Self) -> (difference: Self) {
        Self(self.0 - other.0, self.1 - other.1)
    }
}

impl vstd::std_specs::ops::SubSpecImpl for ChunkId {
    open spec fn obeys_sub_spec() -> bool {
        true
    }

    open spec fn sub_req(self, other: Self) -> bool {
        self@.shifted(-other@.x, -other@.y).representable()
    }

    open spec fn sub_spec(self, other: Self) -> Self {
        ChunkId((self.0 - other.0) as i32, (self.1 - other.1) as i32)
    }
}

/// Identifies one voxel in absolute voxel space.
#[derive(Clone, Copy, PartialEq, Eq, Structural, Debug, Hash)]
pub struct VoxelId(pub i32, pub i32, pub i32);

impl View for VoxelId {
    type V = VoxelPoint;

    open spec fn view(&self) -> VoxelPoint {
        VoxelPoint { x: self.0 as int, y: self.1 as int, z: self.2 as int }
    }
}

impl VoxelId {
    /// The voxel at `(x, y, z)`, with `y` the height.
    pub fn new(x: i32, y: i32, z: i32) -> (id: Self)
        ensures
            id@ == (VoxelPoint { x: x as int, y: y as int, z: z as int }),
    {
        Self(x, y, z)
    }

    /// The first horizontal coordinate.
    #[inline]
    pub fn x(&self) -> (x: i32)
        ensures
            x == self@.x,
    {
        self.0
    }

    /// The height.
    #[inline]
    pub fn y(&self) -> (y: i32)
        ensures
            y == self@.y,
    {
        self.1
    }

    /// The second horizontal coordinate.
    #[inline]
    pub fn z(&self) -> (z: i32)
        ensures
            z == self@.z,
    {
        self.2
    }

    /// Every identifier stands for a representable point, and two identifiers
    /// with the same point are the same identifier.
    pub proof fn lemma_view(self, other: VoxelId)
        ensures
            self@.representable(),
            self@ == other@ <==> self == other,
    {
    }
}

impl Default for VoxelId {
    fn default() -> (id: Self)
        ensures
            id@ == (VoxelPoint { x: 0, y: 0, z: 0 }),
    {
        Self(0, 0, 0)
    }
}

impl core::ops::Add for VoxelId {
    type Output = Self;

    #[inline]
    fn add(self, other: Self) -> (sum: Self) {
        Self(self.0 + other.0, self.1 + other.1, self.2 + other.2)
    }
}

impl vstd::std_specs::ops::AddSpecImpl for VoxelId {
    open spec fn obeys_add_spec() -> bool {
        true
    }

    open spec fn add_req(self, other: Self) -> bool {
        self@.shifted(other@.x, other@.y, other@.z).representable()
    }

    open spec fn add_spec(self, other: Self) -> Self {
        VoxelId((self.0 + other.0) as i32, (self.1 + other.1) as i32, (self.2 + other.2) as i32)
    }
}

impl core::ops::Sub for VoxelId {
    type Output = Self;

    #[inline]
    fn sub(self, other: Self) -> (difference: Self) {
        Self(self.0 - other.0, self.1 - other.1, self.2 - other.2)
    }
}

impl vstd::std_specs::ops::SubSpecImpl for VoxelId {
    open spec fn obeys_sub_spec() -> bool {
        true
    }

    open spec fn sub_req(self, other: Self) -> bool {
        self@.shifted(-other@.x, -other@.y, -other@.z).representable()
    }

    open spec fn sub_spec(self, other: Self) -> Self {
        VoxelId((self.0 - other.0) as i32, (self.1 - other.1) as i32, (self.2 - other.2) as i32)
    }
}

/// The points that a sequence of chunk identifiers stands for.
pub open spec fn chunk_points(ids: Seq<ChunkId>) -> Seq<ChunkPoint> {
    Seq::new(ids.len(), |i: int| ids[i]@)
}

/// The points that a sequence of voxel identifiers stands for.
pub open spec fn voxel_points(ids: Seq<VoxelId>) -> Seq<VoxelPoint> {
    Seq::new(ids.len(), |i: int| ids[i]@)
}

} // verus!
