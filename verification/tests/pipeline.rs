use block_mesh::ndshape::{RuntimeShape, Shape};
use fast_surface_nets::{surface_nets, SurfaceNetsBuffer};
use noise::{Fbm, MultiFractal, NoiseFn};
use voxel_terrain::generator::{ChunkVoxelData, VoxelGenerator};
use voxel_terrain::ids::{ChunkId, VoxelId};
use voxel_terrain::layout::CubicVoxelLayout;
use voxel_terrain::mesher::{mesh_extent, GeneratedMesh};

fn small_layout() -> CubicVoxelLayout {
    match CubicVoxelLayout::new(ChunkId::new(0, 0), 1, 8, 20) {
        Ok(layout) => layout,
        Err(error) => panic!("layout rejected: {:?}", error),
    }
}

fn density(field: &Fbm, voxel: &VoxelId) -> f32 {
    let height = field.get([voxel.x() as f64 * 0.05, voxel.z() as f64 * 0.05]);
    voxel.y() as f32 - ((height + 1.0) * 8.) as f32
}

fn sample(layout: &CubicVoxelLayout, chunk: ChunkId) -> (Vec<VoxelId>, ChunkVoxelData<f32>) {
    let field = Fbm::new().set_octaves(3);
    let generator = VoxelGenerator::default();
    let origin = layout.get_origin(&chunk);
    let shape = layout.shape();
    assert!(generator.can_sample(origin, shape));
    let positions = generator.sample_positions(origin, shape);
    let values: Vec<f32> = positions.iter().map(|voxel| density(&field, voxel)).collect();
    match ChunkVoxelData::new(values, shape) {
        Some(data) => (positions, data),
        None => panic!("the buffer does not fill its shape"),
    }
}

#[test]
fn sample_positions_stand_where_the_shape_puts_them() {
    let layout = small_layout();
    let chunk = ChunkId::new(-2, 3);
    let (positions, data) = sample(&layout, chunk);
    let shape = RuntimeShape::<u32, 3>::new(layout.shape());
    assert_eq!(layout.shape(), [19, 22, 19]);
    assert_eq!(positions.len(), shape.usize());
    assert_eq!(data.voxels().len(), shape.usize());
    let origin = layout.get_origin(&chunk);
    for local in [[0u32, 0, 0], [18, 0, 0], [0, 21, 0], [0, 0, 18], [7, 13, 5], [18, 21, 18]] {
        let index = shape.linearize(local) as usize;
        let expected =
            origin + VoxelId::new(local[0] as i32, local[1] as i32, local[2] as i32);
        assert_eq!(positions[index], expected);
    }
}

#[test]
fn a_surface_is_extracted_from_the_sampled_density() {
    let layout = small_layout();
    let (_, data) = sample(&layout, ChunkId::new(0, 0));
    let shape = data.shape();
    let (min, max) = mesh_extent(shape);
    assert_eq!(max, [18, 21, 18]);
    let mut buffer = SurfaceNetsBuffer::default();
    surface_nets(data.voxels().as_slice(), &RuntimeShape::<u32, 3>::new(shape), min, max, &mut buffer);
    let vertices = buffer.positions.len();
    let triangles = buffer.indices.len() / 3;
    assert!(vertices > 0 && triangles > 0);
    match GeneratedMesh::assemble(buffer.positions, buffer.normals, buffer.indices, [0.0f32; 2]) {
        Some(mesh) => {
            assert_eq!(mesh.vertex_count(), vertices);
            assert_eq!(mesh.triangle_count(), triangles);
            let (_, normals, uvs, indices) = mesh.into_parts();
            assert_eq!(normals.len(), vertices);
            assert_eq!(uvs, vec![[0.0f32; 2]; vertices]);
            assert!(indices.iter().all(|index| (*index as usize) < vertices));
        }
        None => panic!("the extracted surface was refused"),
    }
}

#[test]
fn neighboring_chunks_meet_without_a_seam() {
    let layout = small_layout();
    let (left_positions, left) = sample(&layout, ChunkId::new(0, 0));
    let (right_positions, right) = sample(&layout, ChunkId::new(1, 0));
    let mut shared = 0;
    for (i, voxel) in left_positions.iter().enumerate() {
        if let Some(j) = right_positions.iter().position(|other| other == voxel) {
            assert_eq!(left.voxels()[i], right.voxels()[j]);
            shared += 1;
        }
    }
    // The buffers are 19 wide and start 17 apart: two layers of 22 by 19 are shared.
    assert_eq!(shared, 2 * 22 * 19);
}
