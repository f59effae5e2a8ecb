//! One frame of streaming. The steps come in a fixed order: chunks are spawned
//! around every site, then distances are refreshed, then finished voxels are
//! attached, meshes are asked for, finished meshes are attached, and at last
//! what is too far away is despawned. So a chunk gets its distance before it
//! can be considered for despawning, and its mesh is never asked for before
//! its voxels are attached.

use vstd::prelude::*;
use crate::ids::ChunkId;
use crate::layout::{CubicVoxelLayout, WorldPos};
use crate::model::LayoutModel;
use crate::spawn::{after_spawning, can_spawn, lemma_covered_between, ordered_chunks, orders_placed,
    site_after_spawning, spawn_chunks};
use crate::streaming::despawn::{despawn_chunks, lemma_filtered_from, near_enough, too_far};
use crate::streaming::distances::{after_measuring, any_fresh, calc_chunk_distances,
    fresh_sites_are_placed, fresh_sites_placed, measured};
use crate::streaming::stages::{after_mesh_requests, attach_chunk_mesh, awaits_mesh,
    build_chunk_mesh, load_voxels};
use crate::streaming::{Chunk, ChunkEvent, ChunkSpawner, ChunkWorld, SpawnOrder, StreamingConfig,
    after_event, all_covered, chunk_ids};

verus! {

/// The chunks that exist after the spawn step for the first `n` of `sites`,
/// taken in order.
pub open spec fn after_spawn_step(
    m: LayoutModel,
    rings: int,
    chunks: Seq<Chunk>,
    sites: Seq<ChunkSpawner>,
    positions: Seq<WorldPos>,
    n: int,
) -> Seq<Chunk>
    decreases n,
{
    if n <= 0 {
        chunks
    } else {
        after_spawning(
            m,
            rings,
            after_spawn_step(m, rings, chunks, sites, positions, n - 1),
            sites[n - 1],
            positions[n - 1]@,
        )
    }
}

/// The sites after the spawn step.
pub open spec fn sites_after_spawn_step(
    m: LayoutModel,
    sites: Seq<ChunkSpawner>,
    positions: Seq<WorldPos>,
) -> Seq<ChunkSpawner> {
    Seq::new(sites.len(), |j: int| site_after_spawning(m, sites[j], positions[j]@))
}

/// `chunks` after `event` has happened to each of `ids`, in order.
pub open spec fn after_events(chunks: Seq<Chunk>, ids: Seq<ChunkId>, event: ChunkEvent) -> Seq<
    Chunk,
>
    decreases ids.len(),
{
    if ids.len() == 0 {
        chunks
    } else {
        after_event(after_events(chunks, ids.drop_last(), event), ids.last(), event)
    }
}

/// What one frame sees and takes in.
pub ghost struct FrameInput {
    /// The chunks that exist when the frame begins.
    pub chunks: Seq<Chunk>,
    /// The sites, as the last frame left them.
    pub sites: Seq<ChunkSpawner>,
    /// Where each site is now.
    pub positions: Seq<WorldPos>,
    /// The chunks whose generator has finished since the last frame.
    pub voxels_loaded: Seq<ChunkId>,
    /// The chunks whose mesher has finished since the last frame.
    pub meshes_built: Seq<ChunkId>,
}

/// The chunks and sites after each step of one frame.
pub ghost struct FrameModel {
    pub spawned: Seq<Chunk>,
    pub moved_sites: Seq<ChunkSpawner>,
    pub measured: Seq<Chunk>,
    pub settled_sites: Seq<ChunkSpawner>,
    pub loaded: Seq<Chunk>,
    pub requested: Seq<Chunk>,
    pub built: Seq<Chunk>,
    pub kept: Seq<Chunk>,
}

/// One frame, step by step.
pub open spec fn frame_model(m: LayoutModel, config: StreamingConfig, input: FrameInput) -> FrameModel {
    let spawned = after_spawn_step(
        m,
        config.spawn_ring_radius as int,
        input.chunks,
        input.sites,
        input.positions,
        input.sites.len() as int,
    );
    let moved_sites = sites_after_spawn_step(m, input.sites, input.positions);
    let measured = measured(m, spawned, moved_sites);
    let settled_sites = if any_fresh(moved_sites) {
        after_measuring(moved_sites, spawned.len())
    } else {
        moved_sites
    };
    let loaded = after_events(measured, input.voxels_loaded, ChunkEvent::VoxelsLoaded);
    let requested = after_mesh_requests(loaded);
    let built = after_events(requested, input.meshes_built, ChunkEvent::MeshBuilt);
    let kept = built.filter(near_enough(config.despawn_distance));
    FrameModel { spawned, moved_sites, measured, settled_sites, loaded, requested, built, kept }
}

/// Whether a frame can be run: there is a position for every site, chunks can
/// be spawned around every position, and every site that is still fresh from
/// the last frame has a chunk that the layout covers.
pub open spec fn frame_ready(m: LayoutModel, config: StreamingConfig, input: FrameInput) -> bool {
    &&& input.positions.len() == input.sites.len()
    &&& forall|j: int|
        0 <= j < input.positions.len() ==> can_spawn(
            m,
            (#[trigger] input.positions[j])@,
            config.spawn_ring_radius as int,
        )
    &&& fresh_sites_placed(m, input.sites)
}

/// What a frame asks of the program around it.
pub struct FrameOrders {
    /// The chunks that were spawned: a generator is to be started for each.
    pub spawned: Vec<SpawnOrder>,
    /// The chunks whose voxels are attached: a mesher is to be started for each.
    pub meshes: Vec<ChunkId>,
    /// The chunks that were despawned: each is to be taken out of the scene.
    pub despawned: Vec<ChunkId>,
}

/// Chunks that keep their identifiers stay covered.
pub proof fn lemma_same_ids_covered(m: LayoutModel, before: Seq<Chunk>, after: Seq<Chunk>)
    requires
        all_covered(m, before),
        after.len() == before.len(),
        forall|i: int| 0 <= i < before.len() ==> after[i].id == before[i].id,
    ensures
        all_covered(m, after),
{
    assert forall|i: int| 0 <= i < after.len() implies m.covers((#[trigger] after[i]).id@) by {
        assert(m.covers(before[i].id@));
    }
}

/// A site that has been through the spawn step has a chunk that the layout
/// covers, if it is fresh.
pub proof fn lemma_moved_site_placed(
    m: LayoutModel,
    rings: int,
    site: ChunkSpawner,
    position: WorldPos,
)
    requires
        m.valid(),
        can_spawn(m, position@, rings),
        site.fresh ==> site.last_loaded_chunk is Some && m.covers(site.last_loaded_chunk->0@),
    ensures
        ({
            let now = site_after_spawning(m, site, position@);
            now.fresh ==> now.last_loaded_chunk is Some && m.covers(now.last_loaded_chunk->0@)
        }),
{
    let center = m.space_to_chunk(position@);
    let reach = if rings < 0 { 0 } else { rings };
    lemma_covered_between(
        m,
        center.shifted(-reach, -reach),
        center.shifted(reach, reach),
        center,
    );
    assert(center.id()@ == center);
}

/// Whether a frame can be run for `sites` at `positions`.
pub fn can_run_frame(
    layout: &CubicVoxelLayout,
    config: &StreamingConfig,
    sites: &Vec<ChunkSpawner>,
    positions: &Vec<WorldPos>,
) -> (ready: bool)
    requires
        layout.wf(),
    ensures
        ready == (positions@.len() == sites@.len() && fresh_sites_placed(layout@, sites@)
            && forall|j: int|
            0 <= j < positions@.len() ==> can_spawn(
                layout@,
                (#[trigger] positions@[j])@,
                config.spawn_ring_radius as int,
            )),
{
    if positions.len() != sites.len() {
        return false;
    }
    if !fresh_sites_are_placed(layout, sites) {
        return false;
    }
    let mut j: usize = 0;
    while j < positions.len()
        invariant
            layout.wf(),
            j <= positions@.len(),
            forall|k: int|
                0 <= k < j ==> can_spawn(
                    layout@,
                    (#[trigger] positions@[k])@,
                    config.spawn_ring_radius as int,
                ),
        decreases positions@.len() - j,
    {
        if !layout.can_spawn_chunks(&positions[j], config) {
            return false;
        }
        j = j + 1;
    }
    true
}

/// Runs one frame: spawns around every site, refreshes distances, takes the
/// finished voxels and meshes, asks for meshes, and despawns what is too far.
pub fn run_frame(
    world: &mut ChunkWorld,
    layout: &CubicVoxelLayout,
    config: &StreamingConfig,
    sites: &mut Vec<ChunkSpawner>,
    positions: &Vec<WorldPos>,
    voxels_loaded: &Vec<ChunkId>,
    meshes_built: &Vec<ChunkId>,
) -> (orders: FrameOrders)
    requires
        old(world).wf(),
        old(world).within(layout@),
        layout.wf(),
        frame_ready(
            layout@,
            *config,
            (FrameInput {
                chunks: old(world)@,
                sites: old(sites)@,
                positions: positions@,
                voxels_loaded: voxels_loaded@,
                meshes_built: meshes_built@,
            }),
        ),
    ensures
        final(world).wf(),
        final(world).within(layout@),
        ({
            let frame = frame_model(
                layout@,
                *config,
                (FrameInput {
                    chunks: old(world)@,
                    sites: old(sites)@,
                    positions: positions@,
                    voxels_loaded: voxels_loaded@,
                    meshes_built: meshes_built@,
                }),
            );
            &&& final(world)@ == frame.kept
            &&& final(sites)@ == frame.settled_sites
            &&& old(world)@ + ordered_chunks(orders.spawned@) == frame.spawned
            &&& orders_placed(layout@, orders.spawned@)
            &&& orders.meshes@ == chunk_ids(frame.loaded.filter(awaits_mesh()))
            &&& orders.despawned@ == chunk_ids(
                frame.built.filter(too_far(config.despawn_distance)),
            )
        }),
{
    let ghost m = layout@;
    let ghost rings = config.spawn_ring_radius as int;
    let ghost began = world@;
    let ghost asked = sites@;
    proof {
        layout.lemma_wf();
        assert(began + ordered_chunks(Seq::<SpawnOrder>::empty()) =~= began);
    }
    let mut spawned: Vec<SpawnOrder> = Vec::new();
    let mut j: usize = 0;
    while j < sites.len()
        invariant
            layout.wf(),
            m == layout@,
            m.valid(),
            rings == config.spawn_ring_radius as int,
            positions@.len() == asked.len(),
            sites@.len() == asked.len(),
            forall|k: int|
                0 <= k < positions@.len() ==> can_spawn(m, (#[trigger] positions@[k])@, rings),
            fresh_sites_placed(m, asked),
            j <= asked.len(),
            world.wf(),
            world.within(m),
            world@ == after_spawn_step(m, rings, began, asked, positions@, j as int),
            forall|k: int|
                0 <= k < j ==> (#[trigger] sites@[k]) == site_after_spawning(
                    m,
                    asked[k],
                    positions@[k]@,
                ),
            forall|k: int| j <= k < asked.len() ==> sites@[k] == asked[k],
            began + ordered_chunks(spawned@) == world@,
            orders_placed(m, spawned@),
        decreases asked.len() - j,
    {
        let mut site = sites[j];
        let ghost spawned_before = spawned@;
        assert(can_spawn(m, positions@[j as int]@, rings));
        let mut fresh_orders = spawn_chunks(world, layout, config, &mut site, &positions[j]);
        sites.set(j, site);
        let ghost added = fresh_orders@;
        spawned.append(&mut fresh_orders);
        proof {
            assert(ordered_chunks(spawned@) =~= ordered_chunks(spawned_before) + ordered_chunks(
                added,
            ));
            assert(began + ordered_chunks(spawned@) =~= world@);
            assert forall|k: int| 0 <= k < spawned@.len() implies {
                &&& (#[trigger] spawned@[k]).position@ == m.chunk_to_space(spawned@[k].chunk@)
                &&& spawned@[k].origin@ == m.origin_voxel(spawned@[k].chunk@)
            } by {
                if k < spawned_before.len() {
                    assert(spawned@[k] == spawned_before[k]);
                } else {
                    assert(spawned@[k] == added[k - spawned_before.len()]);
                }
            }
        }
        j = j + 1;
    }
    proof {
        assert(sites@ =~= sites_after_spawn_step(m, asked, positions@));
        assert forall|k: int| 0 <= k < sites@.len() && (#[trigger] sites@[k]).fresh implies sites@[k].last_loaded_chunk is Some
            && m.covers(sites@[k].last_loaded_chunk->0@) by {
            assert(can_spawn(m, positions@[k]@, rings));
            lemma_moved_site_placed(m, rings, asked[k], positions@[k]);
        }
    }
    calc_chunk_distances(world, layout, sites);
    let ghost measured_chunks = world@;
    let mut t: usize = 0;
    while t < voxels_loaded.len()
        invariant
            t <= voxels_loaded@.len(),
            world.wf(),
            world.within(m),
            world@ == after_events(
                measured_chunks,
                voxels_loaded@.take(t as int),
                ChunkEvent::VoxelsLoaded,
            ),
        decreases voxels_loaded@.len() - t,
    {
        let ghost before = world@;
        load_voxels(world, &voxels_loaded[t], true);
        proof {
            assert(voxels_loaded@.take(t + 1).drop_last() =~= voxels_loaded@.take(t as int));
            lemma_same_ids_covered(m, before, world@);
        }
        t = t + 1;
    }
    proof {
        assert(voxels_loaded@.take(voxels_loaded@.len() as int) =~= voxels_loaded@);
    }
    let ghost loaded_chunks = world@;
    let meshes = build_chunk_mesh(world);
    proof {
        lemma_same_ids_covered(m, loaded_chunks, world@);
    }
    let ghost requested_chunks = world@;
    let mut t: usize = 0;
    while t < meshes_built.len()
        invariant
            t <= meshes_built@.len(),
            world.wf(),
            world.within(m),
            world@ == after_events(
                requested_chunks,
                meshes_built@.take(t as int),
                ChunkEvent::MeshBuilt,
            ),
        decreases meshes_built@.len() - t,
    {
        let ghost before = world@;
        attach_chunk_mesh(world, &meshes_built[t], true);
        proof {
            assert(meshes_built@.take(t + 1).drop_last() =~= meshes_built@.take(t as int));
            lemma_same_ids_covered(m, before, world@);
        }
        t = t + 1;
    }
    proof {
        assert(meshes_built@.take(meshes_built@.len() as int) =~= meshes_built@);
    }
    let ghost built_chunks = world@;
    let despawned = despawn_chunks(world, config);
    proof {
        assert forall|i: int| 0 <= i < world@.len() implies m.covers((#[trigger] world@[i]).id@) by {
            let k = lemma_filtered_from(built_chunks, near_enough(config.despawn_distance), i);
            assert(m.covers(built_chunks[k].id@));
        }
    }
    FrameOrders { spawned, meshes, despawned }
}

} // verus!
