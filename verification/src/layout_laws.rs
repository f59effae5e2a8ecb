//! What holds of every valid layout: the mappings between voxels, chunks and
//! world positions agree with each other.

use vstd::prelude::*;
use vstd::arithmetic::div_mod::{lemma_fundamental_div_mod, lemma_fundamental_div_mod_converse};
use crate::ids::{ChunkPoint, VoxelPoint};
use crate::model::{LayoutModel, SpacePoint};

verus! {

/// Scaling by a positive factor and dividing by it again gives the value back.
pub proof fn lemma_scale_round_trip(value: int, factor: int)
    requires
        factor >= 1,
    ensures
        (value * factor) / factor == value,
{
    lemma_fundamental_div_mod_converse(value * factor, factor, value, 0);
}

/// A chunk holds exactly the voxels whose horizontal coordinates are within
/// the chunk's radius of its center voxel.
pub proof fn lemma_chunk_membership(m: LayoutModel, voxel: VoxelPoint, chunk: ChunkPoint)
    requires
        m.valid(),
    ensures
        m.voxel_to_chunk(voxel) == chunk <==> {
            let center = m.center_voxel(chunk);
            &&& center.x - m.chunk_voxel_length <= voxel.x <= center.x + m.chunk_voxel_length
            &&& center.z - m.chunk_voxel_length <= voxel.z <= center.z + m.chunk_voxel_length
        },
{
    let full = m.full_length();
    let length = m.chunk_voxel_length;
    lemma_floor_div_characterized(voxel.x + length, full, chunk.x);
    lemma_floor_div_characterized(voxel.z + length, full, chunk.y);
}

/// The floored quotient of `a` by `d` is `q` exactly when `a` lies in the
/// `q`-th stretch of length `d`.
pub proof fn lemma_floor_div_characterized(a: int, d: int, q: int)
    requires
        d >= 1,
    ensures
        a / d == q <==> q * d <= a < q * d + d,
{
    lemma_fundamental_div_mod(a, d);
    if q * d <= a < q * d + d {
        lemma_fundamental_div_mod_converse(a, d, q, a - q * d);
    }
    if a / d == q {
        assert(d * (a / d) == q * d) by (nonlinear_arith)
            requires
                a / d == q,
        ;
    }
}

/// The center of the origin chunk is world position zero.
pub proof fn lemma_origin_is_zero(m: LayoutModel)
    requires
        m.valid(),
    ensures
        m.chunk_to_space(m.origin) == (SpacePoint { x: 0, y: 0, z: 0 }),
{
    assert(0 * m.voxel_side_length == 0) by (nonlinear_arith);
}

/// Taking a voxel to world space and back is exact on both horizontal axes.
/// On the vertical axis the way back divides by the chunk height, so the
/// voxel comes back whole exactly when its height survives that division.
pub proof fn lemma_voxel_space_round_trip(m: LayoutModel, voxel: VoxelPoint)
    requires
        m.valid(),
    ensures
        m.space_to_voxel(m.voxel_to_space(voxel)).x == voxel.x,
        m.space_to_voxel(m.voxel_to_space(voxel)).z == voxel.z,
        m.space_to_voxel(m.voxel_to_space(voxel)).y == (voxel.y * m.voxel_side_length)
            / m.chunk_voxel_height,
        m.space_to_voxel(m.voxel_to_space(voxel)) == voxel <==> (voxel.y * m.voxel_side_length)
            / m.chunk_voxel_height == voxel.y,
        voxel.y == 0 ==> m.space_to_voxel(m.voxel_to_space(voxel)) == voxel,
{
    let center = m.center_voxel(m.origin);
    lemma_scale_round_trip(voxel.x - center.x, m.voxel_side_length);
    lemma_scale_round_trip(voxel.z - center.z, m.voxel_side_length);
    if voxel.y == 0 {
        assert(0 * m.voxel_side_length == 0) by (nonlinear_arith);
        lemma_fundamental_div_mod_converse(0, m.chunk_voxel_height, 0, 0);
    }
}

/// The center voxel of a chunk belongs to that chunk.
pub proof fn lemma_center_in_chunk(m: LayoutModel, chunk: ChunkPoint)
    requires
        m.valid(),
    ensures
        m.voxel_to_chunk(m.center_voxel(chunk)) == chunk,
{
    lemma_chunk_membership(m, m.center_voxel(chunk), chunk);
}

/// Taking a chunk to the world position of its center and back gives the
/// same chunk.
pub proof fn lemma_chunk_space_round_trip(m: LayoutModel, chunk: ChunkPoint)
    requires
        m.valid(),
    ensures
        m.space_to_chunk(m.chunk_to_space(chunk)) == chunk,
{
    let center = m.center_voxel(chunk);
    lemma_voxel_space_round_trip(m, center);
    lemma_center_in_chunk(m, chunk);
    let back = m.space_to_voxel(m.voxel_to_space(center));
    assert(back == center);
}

/// The chunk of a voxel is the same whether it is found from the voxel or
/// from the voxel's world position.
pub proof fn lemma_voxel_chunk_consistent(m: LayoutModel, voxel: VoxelPoint)
    requires
        m.valid(),
    ensures
        m.voxel_to_chunk(voxel) == m.space_to_chunk(m.voxel_to_space(voxel)),
{
    lemma_voxel_space_round_trip(m, voxel);
}

/// A chunk enumerates `full_length^2 * chunk_voxel_height` voxels.
pub proof fn lemma_chunk_voxels_len(m: LayoutModel, chunk: ChunkPoint)
    requires
        m.valid(),
    ensures
        m.chunk_voxels(chunk).len() == m.full_length() * m.full_length() * m.chunk_voxel_height,
{
    assert(m.full_length() * m.full_length() * m.chunk_voxel_height >= 0) by (nonlinear_arith)
        requires
            m.full_length() >= 0,
            m.chunk_voxel_height >= 0,
    ;
}

/// Every voxel that a chunk enumerates maps back to that chunk, and lies
/// within the chunk's height.
pub proof fn lemma_chunk_voxels_closed(m: LayoutModel, chunk: ChunkPoint, index: int)
    requires
        m.valid(),
        0 <= index < m.chunk_voxels(chunk).len(),
    ensures
        m.voxel_to_chunk(m.chunk_voxels(chunk)[index]) == chunk,
        0 <= m.chunk_voxels(chunk)[index].y < m.chunk_voxel_height,
{
    lemma_chunk_voxels_len(m, chunk);
    let full = m.full_length();
    let height = m.chunk_voxel_height;
    let column = index / height;
    lemma_fundamental_div_mod(index, height);
    lemma_fundamental_div_mod(column, full);
    assert(0 <= column < full * full) by (nonlinear_arith)
        requires
            index == height * column + index % height,
            0 <= index % height < height,
            0 <= index < full * full * height,
            full >= 1,
    ;
    assert(0 <= column / full < full) by (nonlinear_arith)
        requires
            column == full * (column / full) + column % full,
            0 <= column % full < full,
            0 <= column < full * full,
    ;
    lemma_chunk_membership(m, m.chunk_voxel(chunk, index), chunk);
}

/// Every voxel of a chunk within the chunk's height is enumerated by it.
pub proof fn lemma_chunk_voxels_complete(m: LayoutModel, voxel: VoxelPoint)
    requires
        m.valid(),
        0 <= voxel.y < m.chunk_voxel_height,
    ensures
        m.chunk_voxels(m.voxel_to_chunk(voxel)).contains(voxel),
{
    let chunk = m.voxel_to_chunk(voxel);
    let full = m.full_length();
    let height = m.chunk_voxel_height;
    lemma_chunk_membership(m, voxel, chunk);
    let center = m.center_voxel(chunk);
    let x = voxel.x - center.x + m.chunk_voxel_length;
    let z = voxel.z - center.z + m.chunk_voxel_length;
    let index = (x * full + z) * height + voxel.y;
    lemma_fundamental_div_mod_converse(index, height, x * full + z, voxel.y);
    lemma_fundamental_div_mod_converse(x * full + z, full, x, z);
    assert(0 <= index < full * full * height) by (nonlinear_arith)
        requires
            index == (x * full + z) * height + voxel.y,
            0 <= x < full,
            0 <= z < full,
            0 <= voxel.y < height,
    ;
    lemma_chunk_voxels_len(m, chunk);
    assert(m.chunk_voxels(chunk)[index] == voxel);
}

} // verus!
