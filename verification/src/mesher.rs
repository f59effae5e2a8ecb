//! What surrounds surface extraction: the part of a voxel buffer that is
//! meshed, and the assembly of the extracted surface into a mesh.

use vstd::prelude::*;

verus! {

/// The corners of the part of a buffer with the dimensions `shape` that is
/// handed to surface extraction: from the first entry to the last on every
/// axis, the halo included. Extraction reads the halo to close the surface at
/// the chunk's edge, and makes no face on the far side of it.
pub fn mesh_extent(shape: [u32; 3]) -> (extent: ([u32; 3], [u32; 3]))
    requires
        shape[0] >= 1,
        shape[1] >= 1,
        shape[2] >= 1,
    ensures
        extent.0@ =~= seq![0u32, 0u32, 0u32],
        extent.1@ =~= seq![(shape[0] - 1) as u32, (shape[1] - 1) as u32, (shape[2] - 1) as u32],
{
    ([0, 0, 0], [shape[0] - 1, shape[1] - 1, shape[2] - 1])
}

/// Whether `indices` describes triangles over `vertex_count` vertices: three
/// indices per triangle, each naming a vertex.
pub open spec fn triangles_over(indices: Seq<u32>, vertex_count: int) -> bool {
    &&& indices.len() % 3 == 0
    &&& forall|i: int| 0 <= i < indices.len() ==> (#[trigger] indices[i]) < vertex_count
}

/// Whether `indices` describes triangles over `vertex_count` vertices.
pub fn indices_reference_vertices(indices: &Vec<u32>, vertex_count: usize) -> (valid: bool)
    ensures
        valid == triangles_over(indices@, vertex_count as int),
{
    if indices.len() % 3 != 0 {
        return false;
    }
    let mut i: usize = 0;
    while i < indices.len()
        invariant
            i <= indices@.len(),
            forall|k: int| 0 <= k < i ==> (#[trigger] indices@[k]) < vertex_count,
        decreases indices@.len() - i,
    {
        if indices[i] as usize >= vertex_count {
            return false;
        }
        i = i + 1;
    }
    true
}

/// The geometry of one chunk: one position, one normal and one texture
/// coordinate per vertex, and the triangles over them.
pub struct GeneratedMesh<P, N, U> {
    positions: Vec<P>,
    normals: Vec<N>,
    uvs: Vec<U>,
    indices: Vec<u32>,
}

impl<P, N, U: Copy> GeneratedMesh<P, N, U> {
    /// The invariant of every mesh: the three vertex arrays are parallel, and
    /// the indices describe triangles over them.
    pub closed spec fn wf(&self) -> bool {
        &&& self.normals@.len() == self.positions@.len()
        &&& self.uvs@.len() == self.positions@.len()
        &&& triangles_over(self.indices@, self.positions@.len() as int)
    }

    /// The position of each vertex.
    pub closed spec fn spec_positions(&self) -> Seq<P> {
        self.positions@
    }

    /// The normal of each vertex.
    pub closed spec fn spec_normals(&self) -> Seq<N> {
        self.normals@
    }

    /// The texture coordinate of each vertex.
    pub closed spec fn spec_uvs(&self) -> Seq<U> {
        self.uvs@
    }

    /// The vertices of each triangle, three by three.
    pub closed spec fn spec_indices(&self) -> Seq<u32> {
        self.indices@
    }

    /// Whether an extracted surface can be made a mesh: one normal per
    /// position, and indices that describe triangles over the positions.
    pub open spec fn accepts(positions: Seq<P>, normals: Seq<N>, indices: Seq<u32>) -> bool {
        normals.len() == positions.len() && triangles_over(indices, positions.len() as int)
    }

    /// Makes a mesh of an extracted surface, with the texture coordinate `uv`
    /// at every vertex. Nothing is made of a surface whose arrays do not fit
    /// each other.
    pub fn assemble(positions: Vec<P>, normals: Vec<N>, indices: Vec<u32>, uv: U) -> (mesh: Option<
        Self,
    >)
        ensures
            mesh is Some <==> Self::accepts(positions@, normals@, indices@),
            mesh matches Some(m) ==> {
                &&& m.wf()
                &&& m.spec_positions() == positions@
                &&& m.spec_normals() == normals@
                &&& m.spec_indices() == indices@
                &&& m.spec_uvs() == Seq::new(positions@.len(), |i: int| uv)
            },
    {
        let vertex_count = positions.len();
        if normals.len() != vertex_count || !indices_reference_vertices(&indices, vertex_count) {
            return None;
        }
        let mut uvs: Vec<U> = Vec::new();
        let mut i: usize = 0;
        while i < vertex_count
            invariant
                i <= vertex_count,
                uvs@.len() == i,
                forall|k: int| 0 <= k < i ==> uvs@[k] == uv,
            decreases vertex_count - i,
        {
            uvs.push(uv);
            i = i + 1;
        }
        proof {
            assert(uvs@ =~= Seq::new(positions@.len(), |i: int| uv));
        }
        Some(GeneratedMesh { positions, normals, uvs, indices })
    }

    /// The number of vertices.
    pub fn vertex_count(&self) -> (count: usize)
        ensures
            count == self.spec_positions().len(),
    {
        self.positions.len()
    }

    /// The number of triangles.
    pub fn triangle_count(&self) -> (count: usize)
        ensures
            count == self.spec_indices().len() / 3,
    {
        self.indices.len() / 3
    }

    /// Gives the four arrays to whoever draws the mesh.
    pub fn into_parts(self) -> (parts: (Vec<P>, Vec<N>, Vec<U>, Vec<u32>))
        ensures
            parts.0@ == self.spec_positions(),
            parts.1@ == self.spec_normals(),
            parts.2@ == self.spec_uvs(),
            parts.3@ == self.spec_indices(),
    {
        (self.positions, self.normals, self.uvs, self.indices)
    }
}

} // verus!
