use voxel_terrain::ids::ChunkId;
use voxel_terrain::layout::CubicVoxelLayout;

#[test]
fn first_ring_comes_edge_step_by_edge_step() {
    let layout = CubicVoxelLayout::default();
    let ring = layout.get_chunk_neighbors(&ChunkId::new(0, 0), 1);
    let expected = vec![
        ChunkId::new(1, -1),
        ChunkId::new(1, 1),
        ChunkId::new(-1, 1),
        ChunkId::new(-1, -1),
        ChunkId::new(1, 0),
        ChunkId::new(0, 1),
        ChunkId::new(-1, 0),
        ChunkId::new(0, -1),
    ];
    assert_eq!(ring, expected);
}

#[test]
fn rings_come_nearest_first_around_any_chunk() {
    let layout = CubicVoxelLayout::default();
    let center = ChunkId::new(10, -3);
    let all = layout.get_chunk_neighbors(&center, 2);
    assert_eq!(all.len(), 24);
    assert_eq!(all[0], ChunkId::new(11, -4));
    assert_eq!(all[8], ChunkId::new(12, -5));
    assert_eq!(all[9], ChunkId::new(12, -1));
    assert_eq!(all[10], ChunkId::new(8, -1));
    assert_eq!(all[11], ChunkId::new(8, -5));
    assert_eq!(all[23], ChunkId::new(11, -5));
}

#[test]
fn no_rings_give_no_neighbors() {
    let layout = CubicVoxelLayout::default();
    assert!(layout.get_chunk_neighbors(&ChunkId::new(5, 5), 0).is_empty());
    assert!(layout.get_chunk_neighbors(&ChunkId::new(5, 5), -3).is_empty());
    assert!(layout.get_chunk_neighbors(&ChunkId::new(i32::MAX, i32::MIN), -1).is_empty());
}

#[test]
fn chunk_should_have_appropriate_number_of_neighbors() {
    let layout = CubicVoxelLayout::default();
    for distance in 1..10i32 {
        let count = layout.get_chunk_neighbors(&ChunkId::new(-17, 4), distance).len() as i32;
        assert_eq!(count, (distance * 2 + 1) * (distance * 2 + 1) - 1);
    }
}

#[test]
fn neighbor_should_have_correct_distance() {
    let layout = CubicVoxelLayout::default();
    let chunk = ChunkId::new(3, -8);
    for distance in 1..6i32 {
        for neighbor in layout.get_chunk_neighbors(&chunk, distance) {
            let diff = neighbor - chunk;
            let max = diff.x().abs().max(diff.y().abs());
            assert!(1 <= max && max <= distance);
        }
    }
}

#[test]
fn neighbor_should_be_mutual() {
    let layout = CubicVoxelLayout::default();
    let chunk = ChunkId::new(0, 99);
    for distance in 1..5i32 {
        for neighbor in layout.get_chunk_neighbors(&chunk, distance) {
            let back = layout.get_chunk_neighbors(&neighbor, distance);
            assert_eq!(back.iter().filter(|n| **n == chunk).count(), 1);
        }
    }
}

#[test]
fn neighbors_are_all_different() {
    let layout = CubicVoxelLayout::default();
    let mut all = layout.get_chunk_neighbors(&ChunkId::new(1, 1), 6);
    let count = all.len();
    all.sort_by_key(|chunk| (chunk.x(), chunk.y()));
    all.dedup();
    assert_eq!(all.len(), count);
    assert_eq!(count, 168);
}

#[test]
fn neighbors_reach_the_edge_of_the_grid() {
    let layout = CubicVoxelLayout::default();
    let ring = layout.get_chunk_neighbors(&ChunkId::new(i32::MAX - 1, i32::MIN + 1), 1);
    assert_eq!(ring[0], ChunkId::new(i32::MAX, i32::MIN));
    assert_eq!(ring[2], ChunkId::new(i32::MAX - 2, i32::MIN + 2));
}
