use voxel_terrain::ids::{ChunkId, VoxelId};
use voxel_terrain::layout::{floor_div, CubicVoxelLayout, LayoutError, WorldPos};

fn layout(origin: ChunkId, side: u32, length: u32, height: u32) -> CubicVoxelLayout {
    match CubicVoxelLayout::new(origin, side, length, height) {
        Ok(layout) => layout,
        Err(error) => panic!("layout rejected: {:?}", error),
    }
}

#[test]
fn default_layout_places_chunk_centers() {
    let layout = CubicVoxelLayout::default();
    assert_eq!(layout.origin(), ChunkId::new(0, 0));
    assert_eq!(layout.voxel_side_length(), 1);
    assert_eq!(layout.chunk_voxel_length(), 50);
    assert_eq!(layout.chunk_voxel_full_length(), 101);
    assert_eq!(layout.chunk_voxel_height(), 20);
    assert_eq!(layout.chunk_side_length(), 101);
    assert_eq!(layout.get_center_voxel(&ChunkId::new(0, 0)), VoxelId::new(0, 0, 0));
    assert_eq!(layout.chunk_to_space(&ChunkId::new(0, 0)), WorldPos::new(0, 0, 0));
    assert_eq!(layout.get_center_voxel(&ChunkId::new(1, 0)), VoxelId::new(101, 0, 0));
    assert_eq!(layout.shape(), [103, 22, 103]);
}

#[test]
fn new_rejects_zero_lengths() {
    let origin = ChunkId::new(0, 0);
    assert_eq!(
        CubicVoxelLayout::new(origin, 0, 50, 20).err(),
        Some(LayoutError::ZeroVoxelSideLength)
    );
    assert_eq!(CubicVoxelLayout::new(origin, 1, 0, 20).err(), Some(LayoutError::ZeroChunkLength));
    assert_eq!(CubicVoxelLayout::new(origin, 1, 50, 0).err(), Some(LayoutError::ZeroChunkHeight));
    assert_eq!(CubicVoxelLayout::new(origin, 0, 0, 0).err(), Some(LayoutError::ZeroVoxelSideLength));
}

#[test]
fn new_rejects_what_the_machine_cannot_hold() {
    let origin = ChunkId::new(0, 0);
    assert_eq!(CubicVoxelLayout::new(origin, 0x8000_0000, 1, 1).err(), Some(LayoutError::TooLarge));
    assert!(CubicVoxelLayout::new(origin, 0x7fff_ffff, 1, 1).is_ok());
    assert_eq!(CubicVoxelLayout::new(origin, 1, 40000, 1).err(), Some(LayoutError::TooLarge));
    assert_eq!(CubicVoxelLayout::new(origin, 1, 50, u32::MAX).err(), Some(LayoutError::TooLarge));
    // 103 * 103 * 404_841 is the largest buffer of this width within u32.
    assert!(CubicVoxelLayout::new(origin, 1, 50, 404_839).is_ok());
    assert_eq!(CubicVoxelLayout::new(origin, 1, 50, 404_840).err(), Some(LayoutError::TooLarge));
}

#[test]
fn new_rejects_an_origin_whose_voxels_do_not_fit() {
    let far = ChunkId::new(i32::MAX, 0);
    assert_eq!(CubicVoxelLayout::new(far, 1, 50, 20).err(), Some(LayoutError::OriginOutOfRange));
    // 21_262_213 * 101 + 51 is the last halo that fits.
    assert!(CubicVoxelLayout::new(ChunkId::new(21_262_213, 0), 1, 50, 20).is_ok());
    assert_eq!(
        CubicVoxelLayout::new(ChunkId::new(21_262_214, 0), 1, 50, 20).err(),
        Some(LayoutError::OriginOutOfRange)
    );
    assert!(CubicVoxelLayout::new(ChunkId::new(0, -21_262_213), 1, 50, 20).is_ok());
    assert_eq!(
        CubicVoxelLayout::new(ChunkId::new(0, -21_262_214), 1, 50, 20).err(),
        Some(LayoutError::OriginOutOfRange)
    );
}

#[test]
fn origin_and_local_voxels() {
    let layout = CubicVoxelLayout::default();
    assert_eq!(layout.get_origin(&ChunkId::new(0, 0)), VoxelId::new(-50, 0, -50));
    assert_eq!(layout.get_origin(&ChunkId::new(2, -1)), VoxelId::new(152, 0, -151));
    assert_eq!(layout.get_voxel(&ChunkId::new(2, -1), -3, 7, 4), VoxelId::new(199, 7, -97));
    assert_eq!(layout.get_voxel(&ChunkId::new(0, 0), -51, -1, 51), VoxelId::new(-51, -1, 51));
}

#[test]
fn voxel_to_chunk_uses_floored_division() {
    let layout = CubicVoxelLayout::default();
    assert_eq!(layout.voxel_to_chunk(&VoxelId::new(0, 0, 0)), ChunkId::new(0, 0));
    assert_eq!(layout.voxel_to_chunk(&VoxelId::new(50, 3, -50)), ChunkId::new(0, 0));
    assert_eq!(layout.voxel_to_chunk(&VoxelId::new(51, 0, -51)), ChunkId::new(1, -1));
    assert_eq!(layout.voxel_to_chunk(&VoxelId::new(-151, 0, -152)), ChunkId::new(-1, -2));
    assert_eq!(
        layout.voxel_to_chunk(&VoxelId::new(i32::MAX, 0, i32::MIN)),
        ChunkId::new(21_262_214, -21_262_214)
    );
}

#[test]
fn floor_div_rounds_down() {
    assert_eq!(floor_div(7, 2), 3);
    assert_eq!(floor_div(-7, 2), -4);
    assert_eq!(floor_div(-8, 2), -4);
    assert_eq!(floor_div(0, 5), 0);
    assert_eq!(floor_div(i64::MIN, 1), i64::MIN);
}

#[test]
fn voxel_to_space_is_relative_to_the_origin_chunk() {
    let layout = layout(ChunkId::new(3, -2), 4, 2, 6);
    // The origin chunk's center voxel is (15, 0, -10).
    assert_eq!(layout.chunk_to_space(&ChunkId::new(3, -2)), WorldPos::new(0, 0, 0));
    assert_eq!(layout.voxel_to_space(&VoxelId::new(16, 2, -13)), WorldPos::new(4, 8, -12));
    assert_eq!(layout.chunk_to_space(&ChunkId::new(4, -2)), WorldPos::new(20, 0, 0));
    assert_eq!(layout.chunk_side_length(), 20);
}

#[test]
fn space_to_voxel_divides_the_vertical_axis_by_the_chunk_height() {
    let layout = layout(ChunkId::new(3, -2), 4, 2, 6);
    assert_eq!(layout.space_to_voxel(&WorldPos::new(4, 8, -12)), VoxelId::new(16, 1, -13));
    assert_eq!(layout.space_to_voxel(&WorldPos::new(7, 5, -9)), VoxelId::new(16, 0, -13));
    assert_eq!(layout.space_to_voxel(&WorldPos::new(-1, -1, -1)), VoxelId::new(14, -1, -11));
    assert_eq!(layout.space_to_chunk(&WorldPos::new(-1, -1, -1)), ChunkId::new(3, -2));
    assert_eq!(layout.space_to_chunk(&WorldPos::new(12, 0, -12)), ChunkId::new(4, -3));
}

#[test]
fn try_space_to_voxel_refuses_what_does_not_fit() {
    let layout = CubicVoxelLayout::default();
    assert_eq!(layout.try_space_to_voxel(&WorldPos::new(5, 45, -7)), Some(VoxelId::new(5, 2, -7)));
    assert_eq!(layout.try_space_to_voxel(&WorldPos::new(i64::MAX, 0, 0)), None);
    assert_eq!(layout.try_space_to_voxel(&WorldPos::new(0, 0, -0x8000_0001)), None);
    assert_eq!(
        layout.try_space_to_voxel(&WorldPos::new(0x7fff_ffff, 0, -0x8000_0000)),
        Some(VoxelId::new(i32::MAX, 0, i32::MIN))
    );
}

#[test]
fn voxel_space_coordinates_should_be_reversible() {
    for origin in [ChunkId::new(0, 0), ChunkId::new(-7, 12), ChunkId::new(10000, -10000)] {
        for length in [1u32, 3, 50] {
            let layout = layout(origin, 1, length, length);
            for x in [-10000, -51, -1, 0, 1, 50, 9999] {
                for z in [-10000, -2, 0, 3, 10000] {
                    let voxel = VoxelId::new(x, 0, z);
                    let space = layout.voxel_to_space(&voxel);
                    assert_eq!(layout.space_to_voxel(&space), voxel);
                }
            }
        }
    }
}

#[test]
fn a_raised_voxel_does_not_come_back_from_space() {
    let layout = CubicVoxelLayout::default();
    let voxel = VoxelId::new(4, 1, 9);
    let back = layout.space_to_voxel(&layout.voxel_to_space(&voxel));
    assert_eq!(back, VoxelId::new(4, 0, 9));
}

#[test]
fn chunk_space_coordinates_should_be_reversible() {
    for origin in [ChunkId::new(0, 0), ChunkId::new(-7, 12)] {
        for side in [1u32, 2, 16] {
            let layout = layout(origin, side, 5, 9);
            for x in -20..20 {
                for y in [-300, -1, 0, 1, 299] {
                    let chunk = ChunkId::new(x, y);
                    let space = layout.chunk_to_space(&chunk);
                    assert_eq!(layout.space_to_chunk(&space), chunk);
                }
            }
        }
    }
}

#[test]
fn voxel_should_resolve_to_same_chunk_in_space() {
    let layout = layout(ChunkId::new(2, 5), 3, 4, 7);
    for x in -100..100 {
        for z in [-37, -5, -4, 0, 4, 5, 36] {
            let voxel = VoxelId::new(x, 3, z);
            let space = layout.voxel_to_space(&voxel);
            assert_eq!(layout.space_to_chunk(&space), layout.voxel_to_chunk(&voxel));
        }
    }
}

#[test]
fn voxel_to_chunk_xz_distance_should_be_voxel_length_or_less() {
    let layout = layout(ChunkId::new(0, 0), 1, 7, 7);
    for x in -200..200 {
        let voxel = VoxelId::new(x, 0, -x * 3);
        let chunk = layout.voxel_to_chunk(&voxel);
        let diff = voxel - layout.get_center_voxel(&chunk);
        assert!(diff.x().abs() <= 7 && diff.z().abs() <= 7);
        assert_eq!(diff.y(), 0);
    }
}

#[test]
fn chunk_should_have_correct_number_of_voxels() {
    for (length, height) in [(1u32, 1u32), (2, 5), (50, 20)] {
        let layout = layout(ChunkId::new(1, 1), 1, length, height);
        let voxels = layout.get_chunk_voxels(&ChunkId::new(-3, 4));
        let full = layout.chunk_voxel_full_length() as usize;
        assert_eq!(voxels.len(), full * full * height as usize);
    }
}

#[test]
fn chunk_voxels_come_column_by_column() {
    let layout = layout(ChunkId::new(0, 0), 1, 1, 2);
    let voxels = layout.get_chunk_voxels(&ChunkId::new(1, -1));
    assert_eq!(voxels.len(), 18);
    assert_eq!(voxels[0], VoxelId::new(2, 0, -4));
    assert_eq!(voxels[1], VoxelId::new(2, 1, -4));
    assert_eq!(voxels[2], VoxelId::new(2, 0, -3));
    assert_eq!(voxels[6], VoxelId::new(3, 0, -4));
    assert_eq!(voxels[17], VoxelId::new(4, 1, -2));
}

#[test]
fn voxel_to_chunk_should_return_same_value_for_same_chunk() {
    let layout = layout(ChunkId::new(-4, 9), 1, 3, 4);
    for chunk in [ChunkId::new(0, 0), ChunkId::new(-1, 1), ChunkId::new(7, -12)] {
        for voxel in layout.get_chunk_voxels(&chunk) {
            assert_eq!(layout.voxel_to_chunk(&voxel), chunk);
        }
    }
}

#[test]
fn chunk_distance_is_squared_and_in_world_units() {
    let layout = layout(ChunkId::new(5, 5), 2, 1, 1);
    // Chunks are 3 voxels of 2 units wide: centers are 6 units apart.
    let a = ChunkId::new(0, 0);
    assert_eq!(layout.get_chunk_distance_squared(&a, &a), 0);
    assert_eq!(layout.get_chunk_distance_squared(&a, &ChunkId::new(1, 0)), 36);
    assert_eq!(layout.get_chunk_distance_squared(&a, &ChunkId::new(-3, 4)), 900);
    assert_eq!(layout.get_chunk_distance_squared(&ChunkId::new(-3, 4), &a), 900);
}

#[test]
fn chunk_distance_holds_the_largest_world() {
    let layout = layout(ChunkId::new(0, 0), 0x7fff_ffff, 1, 1);
    let low = ChunkId::new(-715_827_882, 0);
    let high = ChunkId::new(715_827_881, 0);
    assert!(layout.covers(&low) && layout.covers(&high));
    assert!(!layout.covers(&ChunkId::new(715_827_882, 0)));
    assert!(!layout.covers(&ChunkId::new(-715_827_883, 0)));
    let across: u128 = 4_294_967_289u128 * 0x7fff_ffff;
    assert_eq!(layout.get_chunk_distance_squared(&low, &high), across * across);
}

#[test]
fn identifiers_add_and_subtract() {
    assert_eq!(ChunkId::new(1, -2) + ChunkId::new(10, 20), ChunkId::new(11, 18));
    assert_eq!(ChunkId::new(1, -2) - ChunkId::new(10, 20), ChunkId::new(-9, -22));
    assert_eq!(VoxelId::new(1, 2, 3) + VoxelId::new(-1, 5, 7), VoxelId::new(0, 7, 10));
    assert_eq!(VoxelId::new(1, 2, 3) - VoxelId::new(-1, 5, 7), VoxelId::new(2, -3, -4));
    assert_eq!(ChunkId::default(), ChunkId::new(0, 0));
    assert_eq!(VoxelId::default(), VoxelId::new(0, 0, 0));
    assert_eq!((ChunkId::new(4, 5).x(), ChunkId::new(4, 5).y()), (4, 5));
}

#[test]
fn chunk_space_coordinates_should_be_zero_when_at_origin() {
    for origin in [ChunkId::new(0, 0), ChunkId::new(-10000, 10000), ChunkId::new(77, -3)] {
        for length in [1u32, 7, 49] {
            let layout = layout(origin, 1, length, length);
            assert_eq!(layout.chunk_to_space(&layout.origin()), WorldPos::new(0, 0, 0));
        }
    }
}

#[test]
fn voxel_to_chunk_vertical_distance_should_be_voxel_length_or_less() {
    let layout = layout(ChunkId::new(12, -5), 1, 9, 9);
    for x in [-10000, -5, 0, 4, 10000] {
        let voxel = VoxelId::new(x, 0, 3 * x);
        let chunk = layout.voxel_to_chunk(&voxel);
        let diff = voxel - layout.get_center_voxel(&chunk);
        assert!(diff.y().abs() <= 9);
    }
}
