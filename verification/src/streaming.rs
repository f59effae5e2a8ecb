//! The chunks that exist and the stages of their lives. The steps that a frame
//! takes on them stand in `spawn` and in the modules below.

use vstd::prelude::*;
use crate::ids::{ChunkId, VoxelId};
use crate::layout::WorldPos;
use crate::model::LayoutModel;
use crate::tracker::ChunkTracker;

pub mod config;
pub mod despawn;
pub mod distances;
pub mod frame;
pub mod stages;

verus! {

/// A site around which chunks are kept loaded.
#[derive(Clone, Copy, PartialEq, Eq, Structural, Debug)]
pub struct ChunkSpawner {
    /// The chunk that the site was in when chunks were last spawned around it.
    pub last_loaded_chunk: Option<ChunkId>,
    /// Whether the site has changed chunk since distances were last computed.
    pub fresh: bool,
}

impl Default for ChunkSpawner {
    fn default() -> (site: Self)
        ensures
            site.last_loaded_chunk is None,
            !site.fresh,
    {
        ChunkSpawner { last_loaded_chunk: None, fresh: false }
    }
}

/// How far a chunk has come on its way to being drawn.
#[derive(Clone, Copy, PartialEq, Eq, Structural, Debug)]
pub enum ChunkStage {
    /// The chunk exists; nothing has been asked of the generator yet.
    Spawned,
    /// The generator is at work on the chunk's voxels.
    VoxelsPending,
    /// The chunk's voxels are attached; no mesh has been asked for.
    VoxelsReady,
    /// The mesher is at work on the chunk's voxels.
    MeshPending,
    /// The chunk's mesh is attached.
    MeshReady,
}

/// One chunk of the world.
#[derive(Clone, Copy, PartialEq, Eq, Structural, Debug)]
pub struct Chunk {
    pub id: ChunkId,
    /// The square of the distance, in world units, from the chunk's center to
    /// the center of the nearest site's chunk.
    pub distance_squared_to_nearest_spawner: u128,
    pub stage: ChunkStage,
}

impl Default for Chunk {
    fn default() -> (chunk: Self)
        ensures
            chunk == (Chunk {
                id: ChunkId(0, 0),
                distance_squared_to_nearest_spawner: 0,
                stage: ChunkStage::Spawned,
            }),
    {
        Chunk {
            id: ChunkId(0, 0),
            distance_squared_to_nearest_spawner: 0,
            stage: ChunkStage::Spawned,
        }
    }
}

/// What the streaming steps are tuned by.
#[derive(Clone, Copy, PartialEq, Eq, Structural, Debug)]
pub struct StreamingConfig {
    /// How many rings of neighbors are loaded around a site's chunk.
    pub spawn_ring_radius: i32,
    /// The distance, in world units, beyond which a chunk is despawned.
    pub despawn_distance: u64,
}

impl Default for StreamingConfig {
    fn default() -> (config: Self)
        ensures
            config == (StreamingConfig { spawn_ring_radius: 4, despawn_distance: 1000 }),
    {
        StreamingConfig { spawn_ring_radius: 4, despawn_distance: 1000 }
    }
}

/// What is to be started for a chunk that has just been spawned.
#[derive(Clone, Copy, PartialEq, Eq, Structural, Debug)]
pub struct SpawnOrder {
    pub chunk: ChunkId,
    /// The world position of the chunk's center.
    pub position: WorldPos,
    /// The voxel at which the chunk's voxel buffer starts.
    pub origin: VoxelId,
}

/// The identifiers of `chunks`, in order.
pub open spec fn chunk_ids(chunks: Seq<Chunk>) -> Seq<ChunkId> {
    Seq::new(chunks.len(), |i: int| chunks[i].id)
}

/// The chunk as it is when it has just been spawned: the generator is at work
/// on it, and its distance is still to be computed.
pub open spec fn spawned_chunk(id: ChunkId) -> Chunk {
    Chunk { id, distance_squared_to_nearest_spawner: 0, stage: ChunkStage::VoxelsPending }
}

/// Whether the layout `m` covers every one of `chunks`.
pub open spec fn all_covered(m: LayoutModel, chunks: Seq<Chunk>) -> bool {
    forall|i: int| 0 <= i < chunks.len() ==> m.covers((#[trigger] chunks[i]).id@)
}

/// The chunks that exist, each registered with the tracker.
pub struct ChunkWorld {
    tracker: ChunkTracker,
    chunks: Vec<Chunk>,
}

impl View for ChunkWorld {
    type V = Seq<Chunk>;

    closed spec fn view(&self) -> Seq<Chunk> {
        self.chunks@
    }
}

impl ChunkWorld {
    /// The chunks that the tracker has registered.
    pub closed spec fn loaded(&self) -> Set<ChunkId> {
        self.tracker@
    }

    /// The invariant of every world: no two chunks have the same identifier,
    /// and the tracker has registered exactly the chunks that exist.
    pub closed spec fn wf(&self) -> bool {
        &&& forall|i: int, j: int|
            0 <= i < self.chunks@.len() && 0 <= j < self.chunks@.len() && i != j
                ==> self.chunks@[i].id != self.chunks@[j].id
        &&& forall|id: ChunkId| #[trigger]
            self.tracker@.contains(id) <==> exists|i: int|
                0 <= i < self.chunks@.len() && self.chunks@[i].id == id
    }

    /// What the invariant says, for callers.
    pub proof fn lemma_wf(&self)
        requires
            self.wf(),
        ensures
            chunk_ids(self@).no_duplicates(),
            forall|id: ChunkId| #[trigger] self.loaded().contains(id) <==> chunk_ids(self@).contains(id),
            self.loaded() == chunk_ids(self@).to_set(),
    {
        let ids = chunk_ids(self@);
        assert forall|id: ChunkId| #[trigger] self.loaded().contains(id) <==> ids.contains(id) by {
            if self.loaded().contains(id) {
                let i = choose|i: int| 0 <= i < self.chunks@.len() && self.chunks@[i].id == id;
                assert(ids[i] == id);
            }
            if ids.contains(id) {
                let i = choose|i: int| 0 <= i < ids.len() && ids[i] == id;
                assert(self.chunks@[i].id == id);
            }
        }
        assert(self.loaded() =~= ids.to_set());
    }

    /// Whether every chunk that exists is covered by the layout `m`.
    pub open spec fn within(&self, m: LayoutModel) -> bool {
        all_covered(m, self@)
    }

    /// A world without chunks.
    pub fn new() -> (world: Self)
        ensures
            world.wf(),
            world@ == Seq::<Chunk>::empty(),
            world.loaded() == Set::<ChunkId>::empty(),
    {
        ChunkWorld { tracker: ChunkTracker::new(), chunks: Vec::new() }
    }

    /// The chunks that exist, oldest first.
    pub fn chunks(&self) -> (chunks: &Vec<Chunk>)
        ensures
            chunks@ == self@,
    {
        &self.chunks
    }

    /// Whether `chunk` exists.
    pub fn is_loaded(&self, chunk: &ChunkId) -> (loaded: bool)
        ensures
            loaded == self.loaded().contains(*chunk),
    {
        self.tracker.is_loaded(chunk)
    }

    /// Brings `chunk` into existence, unless it exists already.
    pub fn try_spawn(&mut self, chunk: &ChunkId) -> (spawned: bool)
        requires
            old(self).wf(),
        ensures
            final(self).wf(),
            spawned == !old(self).loaded().contains(*chunk),
            final(self).loaded() == old(self).loaded().insert(*chunk),
            final(self)@ == if spawned {
                old(self)@.push(spawned_chunk(*chunk))
            } else {
                old(self)@
            },
    {
        if self.tracker.try_spawn(chunk) {
            self.chunks.push(
                Chunk {
                    id: *chunk,
                    distance_squared_to_nearest_spawner: 0,
                    stage: ChunkStage::VoxelsPending,
                },
            );
            proof {
                let before = old(self).chunks@;
                let after = self.chunks@;
                assert forall|id: ChunkId| #[trigger]
                    self.tracker@.contains(id) <==> exists|i: int|
                        0 <= i < after.len() && after[i].id == id by {
                    if self.tracker@.contains(id) {
                        if id == *chunk {
                            assert(after[before.len() as int].id == id);
                        } else {
                            assert(old(self).tracker@.contains(id));
                            let i = choose|i: int| 0 <= i < before.len() && before[i].id == id;
                            assert(after[i].id == id);
                        }
                    }
                    if exists|i: int| 0 <= i < after.len() && after[i].id == id {
                        let i = choose|i: int| 0 <= i < after.len() && after[i].id == id;
                        if i < before.len() {
                            assert(before[i].id == id);
                            assert(old(self).tracker@.contains(id));
                        }
                    }
                }
                assert forall|i: int, j: int|
                    0 <= i < after.len() && 0 <= j < after.len() && i != j implies after[i].id
                    != after[j].id by {
                    if i == before.len() {
                        assert(before[j].id == after[j].id);
                        assert(old(self).tracker@.contains(before[j].id));
                    } else if j == before.len() {
                        assert(before[i].id == after[i].id);
                        assert(old(self).tracker@.contains(before[i].id));
                    } else {
                        assert(before[i].id == after[i].id);
                        assert(before[j].id == after[j].id);
                    }
                }
            }
            true
        } else {
            false
        }
    }
}

impl Default for ChunkWorld {
    fn default() -> (world: Self)
        ensures
            world.wf(),
            world@ == Seq::<Chunk>::empty(),
    {
        ChunkWorld::new()
    }
}

/// What can happen to a chunk on its way to being drawn.
#[derive(Clone, Copy, PartialEq, Eq, Structural, Debug)]
pub enum ChunkEvent {
    /// The generator has finished, and the voxels are attached.
    VoxelsLoaded,
    /// The mesher is started on the attached voxels.
    MeshRequested,
    /// The mesher has finished, and the mesh is attached.
    MeshBuilt,
}

impl ChunkStage {
    /// The place of the stage in a chunk's life.
    pub open spec fn rank(self) -> int {
        match self {
            ChunkStage::Spawned => 0,
            ChunkStage::VoxelsPending => 1,
            ChunkStage::VoxelsReady => 2,
            ChunkStage::MeshPending => 3,
            ChunkStage::MeshReady => 4,
        }
    }

    /// Whether `event` moves a chunk on from this stage.
    pub open spec fn takes(self, event: ChunkEvent) -> bool {
        match (self, event) {
            (ChunkStage::VoxelsPending, ChunkEvent::VoxelsLoaded) => true,
            (ChunkStage::VoxelsReady, ChunkEvent::MeshRequested) => true,
            (ChunkStage::MeshPending, ChunkEvent::MeshBuilt) => true,
            _ => false,
        }
    }

    /// The stage after `event`: the next one where the stage takes the event,
    /// the same one where it does not.
    pub open spec fn after(self, event: ChunkEvent) -> ChunkStage {
        match (self, event) {
            (ChunkStage::VoxelsPending, ChunkEvent::VoxelsLoaded) => ChunkStage::VoxelsReady,
            (ChunkStage::VoxelsReady, ChunkEvent::MeshRequested) => ChunkStage::MeshPending,
            (ChunkStage::MeshPending, ChunkEvent::MeshBuilt) => ChunkStage::MeshReady,
            _ => self,
        }
    }

    /// The stage after `event`.
    pub fn advance(self, event: ChunkEvent) -> (next: ChunkStage)
        ensures
            next == self.after(event),
    {
        match (self, event) {
            (ChunkStage::VoxelsPending, ChunkEvent::VoxelsLoaded) => ChunkStage::VoxelsReady,
            (ChunkStage::VoxelsReady, ChunkEvent::MeshRequested) => ChunkStage::MeshPending,
            (ChunkStage::MeshPending, ChunkEvent::MeshBuilt) => ChunkStage::MeshReady,
            _ => self,
        }
    }

    /// A chunk moves through its stages one at a time and never back, and its
    /// mesh is asked for only once its voxels are attached.
    pub proof fn lemma_one_stage_at_a_time(self, event: ChunkEvent)
        ensures
            self.after(event).rank() == self.rank() + if self.takes(event) { 1int } else { 0int },
            self.after(event) == ChunkStage::MeshPending && self != ChunkStage::MeshPending
                ==> self == ChunkStage::VoxelsReady,
    {
    }
}

impl Chunk {
    /// The chunk after `event`.
    pub open spec fn after(self, event: ChunkEvent) -> Chunk {
        Chunk { stage: self.stage.after(event), ..self }
    }
}

/// `chunks` after `event` has happened to the chunk `id`, if it is among them.
pub open spec fn after_event(chunks: Seq<Chunk>, id: ChunkId, event: ChunkEvent) -> Seq<Chunk> {
    Seq::new(
        chunks.len(),
        |i: int| if chunks[i].id == id { chunks[i].after(event) } else { chunks[i] },
    )
}

/// Whether `event` moves the chunk `id` among `chunks` on.
pub open spec fn event_taken(chunks: Seq<Chunk>, id: ChunkId, event: ChunkEvent) -> bool {
    exists|i: int| 0 <= i < chunks.len() && chunks[i].id == id && chunks[i].stage.takes(event)
}

impl ChunkWorld {
    /// Lets `event` happen to the chunk `id`, and says whether that moved the
    /// chunk on. An event for a chunk that no longer exists changes nothing.
    pub fn apply_event(&mut self, id: &ChunkId, event: ChunkEvent) -> (taken: bool)
        requires
            old(self).wf(),
        ensures
            final(self).wf(),
            final(self).loaded() == old(self).loaded(),
            final(self)@ == after_event(old(self)@, *id, event),
            taken == event_taken(old(self)@, *id, event),
    {
        let mut i: usize = 0;
        while i < self.chunks.len()
            invariant
                i <= self.chunks@.len(),
                self.chunks@ == old(self).chunks@,
                self.tracker == old(self).tracker,
                old(self).wf(),
                forall|k: int| 0 <= k < i ==> self.chunks@[k].id != *id,
            decreases self.chunks@.len() - i,
        {
            let chunk = self.chunks[i];
            if chunk.id == *id {
                let next = chunk.stage.advance(event);
                let taken = next != chunk.stage;
                self.chunks.set(
                    i,
                    Chunk {
                        id: chunk.id,
                        distance_squared_to_nearest_spawner: chunk.distance_squared_to_nearest_spawner,
                        stage: next,
                    },
                );
                proof {
                    let before = old(self).chunks@;
                    assert(self.chunks@ =~= after_event(before, *id, event));
                    assert(forall|k: int|
                        0 <= k < before.len() ==> self.chunks@[k].id == before[k].id);
                    assert forall|c: ChunkId| #[trigger]
                        self.tracker@.contains(c) <==> exists|k: int|
                            0 <= k < self.chunks@.len() && self.chunks@[k].id == c by {
                        if self.tracker@.contains(c) {
                            let k = choose|k: int| 0 <= k < before.len() && before[k].id == c;
                            assert(self.chunks@[k].id == c);
                        }
                        if exists|k: int| 0 <= k < self.chunks@.len() && self.chunks@[k].id == c {
                            let k = choose|k: int|
                                0 <= k < self.chunks@.len() && self.chunks@[k].id == c;
                            assert(before[k].id == c);
                        }
                    }
                    if taken {
                        assert(before[i as int].stage.takes(event));
                    }
                    if event_taken(before, *id, event) {
                        let k = choose|k: int|
                            0 <= k < before.len() && before[k].id == *id && before[k].stage.takes(
                                event,
                            );
                        assert(k == i);
                    }
                }
                return taken;
            }
            i = i + 1;
        }
        proof {
            assert(self.chunks@ =~= after_event(old(self)@, *id, event));
        }
        false
    }
}

} // verus!
