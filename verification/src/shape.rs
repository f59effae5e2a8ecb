//! The linear order of a chunk's voxel buffer, as `ndshape` defines it.
//!
//! A buffer of dimensions `[X, Y, Z]` is laid out with x varying fastest: the
//! entry of the local position `(x, y, z)` stands at `x + X * y + X * Y * z`.

use vstd::prelude::*;
use block_mesh::ndshape::{RuntimeShape, Shape};

verus! {

/// The number of entries of a buffer with the dimensions `dims`.
pub open spec fn shape_volume(dims: [u32; 3]) -> int {
    dims[0] * dims[1] * dims[2]
}

/// Whether a buffer with the dimensions `dims` can be indexed: the size of one
/// layer and the number of entries fit `u32`.
pub open spec fn shape_usable(dims: [u32; 3]) -> bool {
    &&& dims[0] * dims[1] <= u32::MAX
    &&& shape_volume(dims) <= u32::MAX
}

/// The local position whose entry stands at `index` of a buffer with the
/// dimensions `dims`.
pub open spec fn delinearized(dims: [u32; 3], index: int) -> (int, int, int) {
    let layer = dims[0] * dims[1];
    let rest = index % layer;
    (rest % (dims[0] as int), rest / (dims[0] as int), index / layer)
}

/// The place in a buffer with the dimensions `dims` of the entry of the local
/// position `(x, y, z)`.
pub open spec fn linearized(dims: [u32; 3], x: int, y: int, z: int) -> int {
    x + dims[0] * y + dims[0] * dims[1] * z
}

/// `RuntimeShape::<u32, 3>::new` followed by `Shape::size`: the product of the
/// three dimensions. The product is formed in `u32`, so the contract asks that
/// it fits.
#[verifier::external_body]
pub(crate) fn shape_size(dims: [u32; 3]) -> (size: u32)
    requires
        shape_usable(dims),
    ensures
        size == shape_volume(dims),
{
    RuntimeShape::<u32, 3>::new(dims).size()
}

/// `RuntimeShape::<u32, 3>::new` followed by `Shape::delinearize`: the z
/// coordinate is the index divided by the size of one layer, the y coordinate
/// what is left divided by the length of one row, the x coordinate the rest.
/// Neither divisor may be zero.
#[verifier::external_body]
pub(crate) fn shape_delinearize(dims: [u32; 3], index: u32) -> (position: [u32; 3])
    requires
        shape_usable(dims),
        dims[0] >= 1,
        dims[1] >= 1,
    ensures
        (position[0] as int, position[1] as int, position[2] as int) == delinearized(
            dims,
            index as int,
        ),
{
    RuntimeShape::<u32, 3>::new(dims).delinearize(index)
}

/// Within a usable buffer, taking an index to its local position gives a
/// position inside the dimensions, and the only one that stands at that index.
pub proof fn lemma_delinearized(dims: [u32; 3], index: int)
    requires
        shape_usable(dims),
        0 <= index < shape_volume(dims),
    ensures
        dims[0] >= 1,
        dims[1] >= 1,
        dims[2] >= 1,
        0 <= delinearized(dims, index).0 < dims[0],
        0 <= delinearized(dims, index).1 < dims[1],
        0 <= delinearized(dims, index).2 < dims[2],
        linearized(
            dims,
            delinearized(dims, index).0,
            delinearized(dims, index).1,
            delinearized(dims, index).2,
        ) == index,
{
    let row = dims[0] as int;
    let layer = dims[0] * dims[1];
    let rest = index % layer;
    let z = index / layer;
    assert(dims[0] >= 1 && dims[1] >= 1 && layer >= 1) by (nonlinear_arith)
        requires
            layer == dims[0] * dims[1],
            0 <= index < layer * dims[2],
            dims[0] >= 0,
            dims[1] >= 0,
            dims[2] >= 0,
    ;
    vstd::arithmetic::div_mod::lemma_fundamental_div_mod(index, layer);
    vstd::arithmetic::div_mod::lemma_fundamental_div_mod(rest, row);
    assert(0 <= z < dims[2]) by (nonlinear_arith)
        requires
            index == layer * z + rest,
            0 <= rest < layer,
            0 <= index < layer * dims[2],
    ;

    assert(0 <= rest / row < dims[1]) by (nonlinear_arith)
        requires
            rest == row * (rest / row) + rest % row,
            0 <= rest % row < row,
            0 <= rest < row * dims[1],
    ;
    assert(dims[0] * dims[1] * z == layer * z);
}

} // verus!
