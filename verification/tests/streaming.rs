use voxel_terrain::ids::{ChunkId, VoxelId};
use voxel_terrain::layout::{CubicVoxelLayout, WorldPos};
use voxel_terrain::streaming::config::ConfigError;
use voxel_terrain::streaming::distances::{fresh_sites_are_placed, has_fresh, nearest_fresh_site};
use voxel_terrain::streaming::frame::can_run_frame;
use voxel_terrain::streaming::{
    Chunk, ChunkEvent, ChunkSpawner, ChunkStage, ChunkWorld, SpawnOrder, StreamingConfig,
};
use voxel_terrain::{
    attach_chunk_mesh, build_chunk_mesh, calc_chunk_distances, despawn_chunks, load_voxels,
    run_frame, spawn_chunks,
};

fn config(rings: i32, despawn_distance: u64) -> StreamingConfig {
    StreamingConfig { spawn_ring_radius: rings, despawn_distance }
}

fn ids(world: &ChunkWorld) -> Vec<ChunkId> {
    world.chunks().iter().map(|chunk| chunk.id).collect()
}

fn sorted(mut chunks: Vec<ChunkId>) -> Vec<ChunkId> {
    chunks.sort_by_key(|chunk| (chunk.x(), chunk.y()));
    chunks
}

fn square(center: ChunkId, rings: i32) -> Vec<ChunkId> {
    let mut all = Vec::new();
    for x in -rings..=rings {
        for y in -rings..=rings {
            all.push(center + ChunkId::new(x, y));
        }
    }
    sorted(all)
}

#[test]
fn defaults() {
    assert_eq!(StreamingConfig::default(), config(4, 1000));
    assert_eq!(ChunkSpawner::default(), ChunkSpawner { last_loaded_chunk: None, fresh: false });
    let chunk = Chunk::default();
    assert_eq!(chunk.id, ChunkId::new(0, 0));
    assert_eq!(chunk.distance_squared_to_nearest_spawner, 0);
    assert_eq!(chunk.stage, ChunkStage::Spawned);
    assert!(ChunkWorld::default().chunks().is_empty());
}

#[test]
fn first_spawn_brings_the_whole_neighborhood() {
    let layout = CubicVoxelLayout::default();
    let config = config(2, 1000);
    let mut world = ChunkWorld::new();
    let mut site = ChunkSpawner::default();
    let position = WorldPos::new(10, 30, -20);
    assert!(layout.can_spawn_chunks(&position, &config));
    let orders = spawn_chunks(&mut world, &layout, &config, &mut site, &position);
    assert_eq!(orders.len(), 25);
    assert_eq!(
        orders[0],
        SpawnOrder {
            chunk: ChunkId::new(0, 0),
            position: WorldPos::new(0, 0, 0),
            origin: VoxelId::new(-50, 0, -50),
        }
    );
    assert_eq!(
        orders[1],
        SpawnOrder {
            chunk: ChunkId::new(1, -1),
            position: WorldPos::new(101, 0, -101),
            origin: VoxelId::new(51, 0, -151),
        }
    );
    assert_eq!(site, ChunkSpawner { last_loaded_chunk: Some(ChunkId::new(0, 0)), fresh: true });
    assert_eq!(sorted(ids(&world)), square(ChunkId::new(0, 0), 2));
    for chunk in world.chunks() {
        assert_eq!(chunk.stage, ChunkStage::VoxelsPending);
        assert_eq!(chunk.distance_squared_to_nearest_spawner, 0);
        assert!(world.is_loaded(&chunk.id));
    }
    assert!(!world.is_loaded(&ChunkId::new(3, 0)));
}

#[test]
fn a_site_that_stays_in_its_chunk_spawns_nothing() {
    let layout = CubicVoxelLayout::default();
    let config = config(1, 1000);
    let mut world = ChunkWorld::new();
    let mut site = ChunkSpawner::default();
    spawn_chunks(&mut world, &layout, &config, &mut site, &WorldPos::new(0, 0, 0));
    site.fresh = false;
    let orders = spawn_chunks(&mut world, &layout, &config, &mut site, &WorldPos::new(50, 0, -50));
    assert!(orders.is_empty());
    assert!(!site.fresh);
    assert_eq!(world.chunks().len(), 9);
}

#[test]
fn moving_one_chunk_over_spawns_the_union_of_both_neighborhoods() {
    let layout = CubicVoxelLayout::default();
    let config = config(2, 1_000_000);
    let mut world = ChunkWorld::new();
    let mut site = ChunkSpawner::default();
    let first = spawn_chunks(&mut world, &layout, &config, &mut site, &WorldPos::new(0, 0, 0));
    let second = spawn_chunks(&mut world, &layout, &config, &mut site, &WorldPos::new(101, 0, 0));
    assert_eq!(first.len(), 25);
    // Only the column at x = 3 is new.
    let new: Vec<ChunkId> = second.iter().map(|order| order.chunk).collect();
    assert_eq!(
        sorted(new),
        vec![
            ChunkId::new(3, -2),
            ChunkId::new(3, -1),
            ChunkId::new(3, 0),
            ChunkId::new(3, 1),
            ChunkId::new(3, 2)
        ]
    );
    assert_eq!(site.last_loaded_chunk, Some(ChunkId::new(1, 0)));
    let mut union = square(ChunkId::new(0, 0), 2);
    union.extend(square(ChunkId::new(1, 0), 2));
    let mut union = sorted(union);
    union.dedup();
    assert_eq!(union.len(), 30);
    assert_eq!(sorted(ids(&world)), union);
}

#[test]
fn two_sites_do_not_spawn_a_chunk_twice() {
    let layout = CubicVoxelLayout::default();
    let config = config(1, 1000);
    let mut world = ChunkWorld::new();
    let mut left = ChunkSpawner::default();
    let mut right = ChunkSpawner::default();
    let a = spawn_chunks(&mut world, &layout, &config, &mut left, &WorldPos::new(0, 0, 0));
    let b = spawn_chunks(&mut world, &layout, &config, &mut right, &WorldPos::new(202, 0, 0));
    assert_eq!(a.len(), 9);
    assert_eq!(b.len(), 6);
    let all = sorted(ids(&world));
    let mut unique = all.clone();
    unique.dedup();
    assert_eq!(all, unique);
    assert_eq!(all.len(), 15);
}

#[test]
fn can_spawn_chunks_knows_the_edge_of_the_world() {
    let layout = CubicVoxelLayout::default();
    assert!(layout.can_spawn_chunks(&WorldPos::new(0, 0, 0), &config(-1, 1)));
    assert!(!layout.can_spawn_chunks(&WorldPos::new(i64::MAX, 0, 0), &config(1, 1)));
    // Chunk 21_262_213 is the last that fits on an axis.
    let edge = WorldPos::new(21_262_211 * 101, 0, 0);
    assert!(layout.can_spawn_chunks(&edge, &config(2, 1)));
    assert!(!layout.can_spawn_chunks(&edge, &config(3, 1)));
    assert!(!layout.can_spawn_chunks(&WorldPos::new(0, 0, 0), &config(i32::MAX, 1)));
}

#[test]
fn distances_are_taken_to_the_nearest_fresh_site() {
    let layout = CubicVoxelLayout::default();
    let config = config(1, 1000);
    let mut world = ChunkWorld::new();
    let mut near = ChunkSpawner::default();
    spawn_chunks(&mut world, &layout, &config, &mut near, &WorldPos::new(0, 0, 0));
    let far = ChunkSpawner { last_loaded_chunk: Some(ChunkId::new(5, 0)), fresh: true };
    let stale = ChunkSpawner { last_loaded_chunk: Some(ChunkId::new(-1, 0)), fresh: false };
    let mut sites = vec![far, stale, near];
    assert!(has_fresh(&sites));
    assert_eq!(nearest_fresh_site(&layout, &ChunkId::new(4, 0), &sites), 101 * 101);
    calc_chunk_distances(&mut world, &layout, &mut sites);
    for chunk in world.chunks() {
        let dx = chunk.id.x() as i64 * 101;
        let dz = chunk.id.y() as i64 * 101;
        assert_eq!(chunk.distance_squared_to_nearest_spawner, (dx * dx + dz * dz) as u128);
        assert_eq!(chunk.stage, ChunkStage::VoxelsPending);
    }
    assert_eq!(
        sites,
        vec![
            ChunkSpawner { last_loaded_chunk: Some(ChunkId::new(5, 0)), fresh: false },
            stale,
            ChunkSpawner { last_loaded_chunk: Some(ChunkId::new(0, 0)), fresh: false },
        ]
    );
}

#[test]
fn without_a_fresh_site_distances_stay() {
    let layout = CubicVoxelLayout::default();
    let config = config(1, 1000);
    let mut world = ChunkWorld::new();
    let mut site = ChunkSpawner::default();
    spawn_chunks(&mut world, &layout, &config, &mut site, &WorldPos::new(303, 0, 0));
    let mut sites = vec![site];
    calc_chunk_distances(&mut world, &layout, &mut sites);
    let measured: Vec<Chunk> = world.chunks().clone();
    let mut moved = vec![ChunkSpawner { last_loaded_chunk: Some(ChunkId::new(0, 0)), fresh: false }];
    assert!(!has_fresh(&moved));
    calc_chunk_distances(&mut world, &layout, &mut moved);
    assert_eq!(world.chunks(), &measured);
}

#[test]
fn without_a_chunk_sites_stay_fresh() {
    let layout = CubicVoxelLayout::default();
    let mut world = ChunkWorld::new();
    let mut sites = vec![ChunkSpawner { last_loaded_chunk: Some(ChunkId::new(0, 0)), fresh: true }];
    calc_chunk_distances(&mut world, &layout, &mut sites);
    assert!(sites[0].fresh);
}

#[test]
fn a_chunk_beyond_the_despawn_distance_is_removed_and_can_be_spawned_again() {
    let layout = CubicVoxelLayout::default();
    let config = config(1, 150);
    let mut world = ChunkWorld::new();
    let mut site = ChunkSpawner::default();
    spawn_chunks(&mut world, &layout, &config, &mut site, &WorldPos::new(0, 0, 0));
    // The site moves two chunks over: the column at x = -1 is 303 units away.
    let mut sites = vec![ChunkSpawner { last_loaded_chunk: Some(ChunkId::new(2, 0)), fresh: true }];
    calc_chunk_distances(&mut world, &layout, &mut sites);
    let removed = despawn_chunks(&mut world, &config);
    // 101 and 143 units are within 150; 202 and more are beyond.
    assert_eq!(
        sorted(removed.clone()),
        vec![
            ChunkId::new(-1, -1),
            ChunkId::new(-1, 0),
            ChunkId::new(-1, 1),
            ChunkId::new(0, -1),
            ChunkId::new(0, 0),
            ChunkId::new(0, 1)
        ]
    );
    assert_eq!(
        sorted(ids(&world)),
        vec![ChunkId::new(1, -1), ChunkId::new(1, 0), ChunkId::new(1, 1)]
    );
    for chunk in removed.iter() {
        assert!(!world.is_loaded(chunk));
    }
    assert!(despawn_chunks(&mut world, &config).is_empty());
    assert!(world.try_spawn(&ChunkId::new(0, 0)));
    assert!(!world.try_spawn(&ChunkId::new(0, 0)));
    assert!(!world.try_spawn(&ChunkId::new(1, 0)));
}

#[test]
fn despawn_keeps_a_chunk_at_exactly_the_distance() {
    let layout = CubicVoxelLayout::default();
    let config = config(0, 101);
    let mut world = ChunkWorld::new();
    let mut site = ChunkSpawner::default();
    spawn_chunks(&mut world, &layout, &config, &mut site, &WorldPos::new(0, 0, 0));
    let mut sites = vec![ChunkSpawner { last_loaded_chunk: Some(ChunkId::new(0, 1)), fresh: true }];
    calc_chunk_distances(&mut world, &layout, &mut sites);
    assert_eq!(world.chunks()[0].distance_squared_to_nearest_spawner, 10201);
    assert!(despawn_chunks(&mut world, &config).is_empty());
    assert_eq!(despawn_chunks(&mut world, &StreamingConfig { spawn_ring_radius: 0, despawn_distance: 100 }), vec![ChunkId::new(0, 0)]);
    assert!(world.chunks().is_empty());
}

#[test]
fn despawn_distance_may_be_as_large_as_it_gets() {
    let mut world = ChunkWorld::new();
    assert!(world.try_spawn(&ChunkId::new(0, 0)));
    assert!(despawn_chunks(&mut world, &config(0, u64::MAX)).is_empty());
    assert_eq!(world.chunks().len(), 1);
}

#[test]
fn a_chunk_goes_through_its_stages_in_order() {
    let mut world = ChunkWorld::new();
    let chunk = ChunkId::new(2, 2);
    let other = ChunkId::new(3, 3);
    assert!(world.try_spawn(&chunk));
    assert!(world.try_spawn(&other));
    assert!(build_chunk_mesh(&mut world).is_empty());
    assert!(!attach_chunk_mesh(&mut world, &chunk, true));
    assert!(!load_voxels(&mut world, &chunk, false));
    assert_eq!(world.chunks()[0].stage, ChunkStage::VoxelsPending);
    assert!(load_voxels(&mut world, &chunk, true));
    assert!(!load_voxels(&mut world, &chunk, true));
    assert_eq!(world.chunks()[0].stage, ChunkStage::VoxelsReady);
    assert_eq!(world.chunks()[1].stage, ChunkStage::VoxelsPending);
    assert_eq!(build_chunk_mesh(&mut world), vec![chunk]);
    assert!(build_chunk_mesh(&mut world).is_empty());
    assert_eq!(world.chunks()[0].stage, ChunkStage::MeshPending);
    assert!(!attach_chunk_mesh(&mut world, &chunk, false));
    assert!(attach_chunk_mesh(&mut world, &chunk, true));
    assert!(!attach_chunk_mesh(&mut world, &chunk, true));
    assert_eq!(world.chunks()[0].stage, ChunkStage::MeshReady);
    assert_eq!(world.chunks()[1].stage, ChunkStage::VoxelsPending);
}

#[test]
fn a_result_for_a_chunk_that_is_gone_changes_nothing() {
    let mut world = ChunkWorld::new();
    assert!(world.try_spawn(&ChunkId::new(1, 1)));
    assert!(!load_voxels(&mut world, &ChunkId::new(9, 9), true));
    assert!(!attach_chunk_mesh(&mut world, &ChunkId::new(9, 9), true));
    assert!(!world.apply_event(&ChunkId::new(9, 9), ChunkEvent::MeshRequested));
    assert_eq!(world.chunks().len(), 1);
    assert_eq!(world.chunks()[0].stage, ChunkStage::VoxelsPending);
}

#[test]
fn stages_advance_only_on_their_own_event() {
    let stages = [
        ChunkStage::Spawned,
        ChunkStage::VoxelsPending,
        ChunkStage::VoxelsReady,
        ChunkStage::MeshPending,
        ChunkStage::MeshReady,
    ];
    let events = [ChunkEvent::VoxelsLoaded, ChunkEvent::MeshRequested, ChunkEvent::MeshBuilt];
    assert_eq!(ChunkStage::VoxelsPending.advance(ChunkEvent::VoxelsLoaded), ChunkStage::VoxelsReady);
    assert_eq!(ChunkStage::VoxelsReady.advance(ChunkEvent::MeshRequested), ChunkStage::MeshPending);
    assert_eq!(ChunkStage::MeshPending.advance(ChunkEvent::MeshBuilt), ChunkStage::MeshReady);
    let mut moved = 0;
    for stage in stages {
        for event in events {
            if stage.advance(event) != stage {
                moved += 1;
            }
        }
    }
    assert_eq!(moved, 3);
}

#[test]
fn the_default_configuration_is_accepted() {
    let layout = CubicVoxelLayout::default();
    assert_eq!(StreamingConfig::default().check(&layout), Ok(()));
}

#[test]
fn the_despawn_distance_must_exceed_the_spawn_footprint() {
    let layout = CubicVoxelLayout::default();
    assert_eq!(config(-1, 1000).check(&layout), Err(ConfigError::NegativeSpawnRingRadius));
    assert_eq!(config(-1, 0).check(&layout), Err(ConfigError::NegativeSpawnRingRadius));
    assert_eq!(config(4, 0).check(&layout), Err(ConfigError::ZeroDespawnDistance));
    assert_eq!(config(0, 1).check(&layout), Ok(()));
    // Four rings of chunks 101 units wide: the corner is 404 * sqrt(2) = 571.3 units away.
    assert_eq!(config(4, 571).check(&layout), Err(ConfigError::DespawnWithinSpawnFootprint));
    assert_eq!(config(4, 572).check(&layout), Ok(()));
    // One ring: the corner is sqrt(20402) = 142.8 units away.
    assert_eq!(config(1, 142).check(&layout), Err(ConfigError::DespawnWithinSpawnFootprint));
    assert_eq!(config(1, 143).check(&layout), Ok(()));
}

#[test]
fn the_footprint_may_be_beyond_every_distance() {
    let wide = match CubicVoxelLayout::new(ChunkId::new(0, 0), 0x7fff_ffff, 18917, 1) {
        Ok(layout) => layout,
        Err(error) => panic!("layout rejected: {:?}", error),
    };
    assert_eq!(
        config(i32::MAX, u64::MAX).check(&wide),
        Err(ConfigError::DespawnWithinSpawnFootprint)
    );
    assert_eq!(config(0, u64::MAX).check(&wide), Ok(()));
}

#[test]
fn an_accepted_configuration_keeps_what_it_spawns() {
    let layout = CubicVoxelLayout::default();
    let config = config(2, 286);
    assert_eq!(config.check(&layout), Ok(()));
    let mut world = ChunkWorld::new();
    let mut site = ChunkSpawner::default();
    spawn_chunks(&mut world, &layout, &config, &mut site, &WorldPos::new(-500, 0, 700));
    let mut sites = vec![site];
    calc_chunk_distances(&mut world, &layout, &mut sites);
    assert!(despawn_chunks(&mut world, &config).is_empty());
    assert_eq!(world.chunks().len(), 25);
}

#[test]
fn a_frame_takes_its_steps_in_order() {
    let layout = CubicVoxelLayout::default();
    let config = config(1, 150);
    let mut world = ChunkWorld::new();
    let mut sites = vec![ChunkSpawner::default()];

    let positions = vec![WorldPos::new(0, 0, 0)];
    assert!(can_run_frame(&layout, &config, &sites, &positions));
    let orders = run_frame(&mut world, &layout, &config, &mut sites, &positions, &vec![], &vec![]);
    assert_eq!(orders.spawned.len(), 9);
    assert!(orders.meshes.is_empty());
    assert!(orders.despawned.is_empty());
    assert_eq!(sites, vec![ChunkSpawner { last_loaded_chunk: Some(ChunkId::new(0, 0)), fresh: false }]);
    assert_eq!(world.chunks()[1].id, ChunkId::new(1, -1));
    assert_eq!(world.chunks()[1].distance_squared_to_nearest_spawner, 20402);

    // The site moves two chunks over while two generators finish.
    let positions = vec![WorldPos::new(202, 0, 0)];
    let loaded = vec![ChunkId::new(1, 0), ChunkId::new(0, 0)];
    let orders = run_frame(&mut world, &layout, &config, &mut sites, &positions, &loaded, &vec![]);
    let spawned: Vec<ChunkId> = orders.spawned.iter().map(|order| order.chunk).collect();
    assert_eq!(
        spawned,
        vec![
            ChunkId::new(2, 0),
            ChunkId::new(3, -1),
            ChunkId::new(3, 1),
            ChunkId::new(3, 0),
            ChunkId::new(2, 1),
            ChunkId::new(2, -1)
        ]
    );
    assert_eq!(orders.meshes, vec![ChunkId::new(0, 0), ChunkId::new(1, 0)]);
    assert_eq!(
        orders.despawned,
        vec![
            ChunkId::new(0, 0),
            ChunkId::new(-1, 1),
            ChunkId::new(-1, -1),
            ChunkId::new(0, 1),
            ChunkId::new(-1, 0),
            ChunkId::new(0, -1)
        ]
    );
    assert_eq!(world.chunks().len(), 9);
    assert_eq!(
        world.chunks()[2],
        Chunk {
            id: ChunkId::new(1, 0),
            distance_squared_to_nearest_spawner: 10201,
            stage: ChunkStage::MeshPending,
        }
    );
    assert_eq!(world.chunks()[0].stage, ChunkStage::VoxelsPending);

    // The mesher finishes; a result for a chunk that is gone is dropped.
    let built = vec![ChunkId::new(0, 0), ChunkId::new(1, 0)];
    let orders = run_frame(&mut world, &layout, &config, &mut sites, &positions, &vec![], &built);
    assert!(orders.spawned.is_empty() && orders.meshes.is_empty() && orders.despawned.is_empty());
    assert_eq!(world.chunks()[2].stage, ChunkStage::MeshReady);
    assert_eq!(world.chunks().len(), 9);
}

#[test]
fn a_frame_serves_every_site() {
    let layout = CubicVoxelLayout::default();
    let config = config(1, 1000);
    let mut world = ChunkWorld::new();
    let mut sites = vec![ChunkSpawner::default(), ChunkSpawner::default()];
    let positions = vec![WorldPos::new(0, 0, 0), WorldPos::new(101, 0, 0)];
    let orders = run_frame(&mut world, &layout, &config, &mut sites, &positions, &vec![], &vec![]);
    assert_eq!(orders.spawned.len(), 12);
    assert_eq!(world.chunks().len(), 12);
    for chunk in world.chunks() {
        let expected: u128 = if (0..=1).contains(&chunk.id.x()) {
            (chunk.id.y() as i64 * 101).pow(2) as u128
        } else {
            10201 + (chunk.id.y() as i64 * 101).pow(2) as u128
        };
        assert_eq!(chunk.distance_squared_to_nearest_spawner, expected);
    }
    assert!(sites.iter().all(|site| !site.fresh));
}

#[test]
fn a_frame_needs_a_position_for_every_site() {
    let layout = CubicVoxelLayout::default();
    let config = config(1, 1000);
    let here = vec![WorldPos::new(0, 0, 0)];
    assert!(!can_run_frame(&layout, &config, &vec![], &here));
    assert!(can_run_frame(&layout, &config, &vec![], &vec![]));
    assert!(!can_run_frame(
        &layout,
        &config,
        &vec![ChunkSpawner { last_loaded_chunk: None, fresh: true }],
        &here
    ));
    assert!(can_run_frame(
        &layout,
        &config,
        &vec![ChunkSpawner { last_loaded_chunk: None, fresh: false }],
        &here
    ));
    assert!(!can_run_frame(
        &layout,
        &config,
        &vec![ChunkSpawner { last_loaded_chunk: Some(ChunkId::new(i32::MAX, 0)), fresh: true }],
        &here
    ));
    assert!(!can_run_frame(
        &layout,
        &config,
        &vec![ChunkSpawner::default()],
        &vec![WorldPos::new(i64::MIN, 0, 0)]
    ));
    assert!(fresh_sites_are_placed(&layout, &vec![ChunkSpawner::default()]));
}
