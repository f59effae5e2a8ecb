//! The steps that move chunks on when the generator or the mesher has
//! finished, and that start the mesher.

use vstd::prelude::*;
use crate::ids::ChunkId;
use crate::streaming::{Chunk, ChunkEvent, ChunkStage, ChunkWorld, after_event, chunk_ids, event_taken};

verus! {

/// Whether a chunk waits for its mesh to be asked for.
pub open spec fn awaits_mesh() -> spec_fn(Chunk) -> bool {
    |chunk: Chunk| chunk.stage == ChunkStage::VoxelsReady
}

/// `chunks` after the mesher has been started for every chunk whose voxels
/// are attached.
pub open spec fn after_mesh_requests(chunks: Seq<Chunk>) -> Seq<Chunk> {
    Seq::new(chunks.len(), |i: int| chunks[i].after(ChunkEvent::MeshRequested))
}

/// Takes what polling the generator of `chunk` gave. Where it has finished
/// and the chunk waits for its voxels, the voxels are attached: the answer is
/// true. In every other case nothing changes.
pub fn load_voxels(world: &mut ChunkWorld, chunk: &ChunkId, complete: bool) -> (attached: bool)
    requires
        old(world).wf(),
    ensures
        final(world).wf(),
        final(world).loaded() == old(world).loaded(),
        final(world)@ == if complete {
            after_event(old(world)@, *chunk, ChunkEvent::VoxelsLoaded)
        } else {
            old(world)@
        },
        attached == (complete && event_taken(old(world)@, *chunk, ChunkEvent::VoxelsLoaded)),
{
    if complete {
        world.apply_event(chunk, ChunkEvent::VoxelsLoaded)
    } else {
        false
    }
}

/// Takes what polling the mesher of `chunk` gave. Where it has finished and
/// the chunk waits for its mesh, the mesh is attached: the answer is true. In
/// every other case nothing changes.
pub fn attach_chunk_mesh(world: &mut ChunkWorld, chunk: &ChunkId, complete: bool) -> (attached:
    bool)
    requires
        old(world).wf(),
    ensures
        final(world).wf(),
        final(world).loaded() == old(world).loaded(),
        final(world)@ == if complete {
            after_event(old(world)@, *chunk, ChunkEvent::MeshBuilt)
        } else {
            old(world)@
        },
        attached == (complete && event_taken(old(world)@, *chunk, ChunkEvent::MeshBuilt)),
{
    if complete {
        world.apply_event(chunk, ChunkEvent::MeshBuilt)
    } else {
        false
    }
}

impl ChunkWorld {
    /// Starts the mesher for every chunk whose voxels are attached and that
    /// has neither a mesh nor a mesher at work, and names those chunks.
    pub fn request_meshes(&mut self) -> (started: Vec<ChunkId>)
        requires
            old(self).wf(),
        ensures
            final(self).wf(),
            final(self).loaded() == old(self).loaded(),
            final(self)@ == after_mesh_requests(old(self)@),
            started@ == chunk_ids(old(self)@.filter(awaits_mesh())),
    {
        let ghost before = self.chunks@;
        let mut started: Vec<ChunkId> = Vec::new();
        let mut i: usize = 0;
        proof {
            assert(before.take(0).filter(awaits_mesh()) =~= Seq::<Chunk>::empty()) by {
                assert(before.take(0) =~= Seq::<Chunk>::empty());
                reveal(Seq::filter);
            }
        }
        while i < self.chunks.len()
            invariant
                before == old(self).chunks@,
                self.tracker == old(self).tracker,
                self.chunks@.len() == before.len(),
                i <= before.len(),
                forall|k: int|
                    0 <= k < i ==> self.chunks@[k] == before[k].after(ChunkEvent::MeshRequested),
                forall|k: int| i <= k < before.len() ==> self.chunks@[k] == before[k],
                started@ == chunk_ids(before.take(i as int).filter(awaits_mesh())),
            decreases before.len() - i,
        {
            let chunk = self.chunks[i];
            let ghost started_before = started@;
            proof {
                assert(before.take(i + 1) =~= before.take(i as int).push(chunk));
                before.take(i as int).lemma_filter_push(chunk, awaits_mesh());
            }
            match chunk.stage {
                ChunkStage::VoxelsReady => {
                    self.chunks.set(
                        i,
                        Chunk {
                            id: chunk.id,
                            distance_squared_to_nearest_spawner: chunk.distance_squared_to_nearest_spawner,
                            stage: ChunkStage::MeshPending,
                        },
                    );
                    started.push(chunk.id);
                    proof {
                        assert(awaits_mesh()(chunk));
                        assert(started@ =~= chunk_ids(
                            before.take(i as int).filter(awaits_mesh()).push(chunk),
                        ));
                    }
                },
                _ => {
                    proof {
                        assert(!awaits_mesh()(chunk));
                    }
                },
            }
            i = i + 1;
        }
        proof {
            assert(before.take(before.len() as int) =~= before);
            assert(self.chunks@ =~= after_mesh_requests(before));
            assert(forall|k: int| 0 <= k < before.len() ==> self.chunks@[k].id == before[k].id);
            assert forall|c: ChunkId| #[trigger]
                self.tracker@.contains(c) <==> exists|k: int|
                    0 <= k < self.chunks@.len() && self.chunks@[k].id == c by {
                if self.tracker@.contains(c) {
                    let k = choose|k: int| 0 <= k < before.len() && before[k].id == c;
                    assert(self.chunks@[k].id == c);
                }
                if exists|k: int| 0 <= k < self.chunks@.len() && self.chunks@[k].id == c {
                    let k = choose|k: int| 0 <= k < self.chunks@.len() && self.chunks@[k].id == c;
                    assert(before[k].id == c);
                }
            }
        }
        started
    }
}

/// Starts the mesher for every chunk whose voxels are attached and that has
/// neither a mesh nor a mesher at work, and names those chunks.
pub fn build_chunk_mesh(world: &mut ChunkWorld) -> (started: Vec<ChunkId>)
    requires
        old(world).wf(),
    ensures
        final(world).wf(),
        final(world).loaded() == old(world).loaded(),
        final(world)@ == after_mesh_requests(old(world)@),
        started@ == chunk_ids(old(world)@.filter(awaits_mesh())),
{
    world.request_meshes()
}

} // verus!
