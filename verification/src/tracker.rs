//! The registry of chunks that are spawned, loading or loaded.

use vstd::prelude::*;
use std::collections::HashSet;
use crate::ids::ChunkId;

verus! {

/// The key under which a chunk is registered: both coordinates, shifted to be
/// non-negative, side by side in one integer.
pub open spec fn chunk_key(chunk: ChunkId) -> int {
    (chunk.0 + 0x8000_0000) * 0x1_0000_0000 + (chunk.1 + 0x8000_0000)
}

/// Two chunks with the same key are the same chunk.
pub proof fn lemma_chunk_key_injective(a: ChunkId, b: ChunkId)
    requires
        chunk_key(a) == chunk_key(b),
    ensures
        a == b,
{
}

/// The set of chunks that currently have an owner.
pub struct ChunkTracker {
    loaded_chunks: HashSet<u64>,
}

impl View for ChunkTracker {
    type V = Set<ChunkId>;

    closed spec fn view(&self) -> Set<ChunkId> {
        Set::new(|chunk: ChunkId| self.loaded_chunks@.contains(chunk_key(chunk) as u64))
    }
}

impl ChunkTracker {
    /// A tracker in which no chunk is registered.
    pub fn new() -> (tracker: Self)
        ensures
            tracker@ == Set::<ChunkId>::empty(),
    {
        let tracker = Self { loaded_chunks: HashSet::new() };
        proof {
            assert(tracker@ =~= Set::<ChunkId>::empty());
        }
        tracker
    }

    fn key(chunk: &ChunkId) -> (key: u64)
        ensures
            key == chunk_key(*chunk),
    {
        let x: u64 = (chunk.0 as i64 + 0x8000_0000) as u64;
        let y: u64 = (chunk.1 as i64 + 0x8000_0000) as u64;
        x * 0x1_0000_0000 + y
    }

    /// Whether `chunk` is registered.
    pub fn is_loaded(&self, chunk: &ChunkId) -> (loaded: bool)
        ensures
            loaded == self@.contains(*chunk),
    {
        let key = Self::key(chunk);
        self.loaded_chunks.contains(&key)
    }

    /// Registers `chunk` and returns true, unless it is registered already:
    /// then nothing changes and the answer is false.
    pub fn try_spawn(&mut self, chunk: &ChunkId) -> (spawned: bool)
        ensures
            spawned == TrackerStep::Spawn(*chunk).answer(old(self)@),
            final(self)@ == TrackerStep::Spawn(*chunk).apply(old(self)@),
    {
        let key = Self::key(chunk);
        if !self.loaded_chunks.contains(&key) {
            self.loaded_chunks.insert(key);
            proof {
                assert forall|other: ChunkId| #[trigger]
                    self@.contains(other) == old(self)@.insert(*chunk).contains(other) by {
                    if chunk_key(other) == chunk_key(*chunk) {
                        lemma_chunk_key_injective(other, *chunk);
                    }
                }
                assert(self@ =~= old(self)@.insert(*chunk));
            }
            true
        } else {
            proof {
                assert(self@ =~= old(self)@.insert(*chunk));
            }
            false
        }
    }

    /// Removes `chunk` from the registry and returns true, unless it is not
    /// registered: then nothing changes and the answer is false.
    pub fn try_despawn(&mut self, chunk: &ChunkId) -> (despawned: bool)
        ensures
            despawned == TrackerStep::Despawn(*chunk).answer(old(self)@),
            final(self)@ == TrackerStep::Despawn(*chunk).apply(old(self)@),
    {
        let key = Self::key(chunk);
        let removed = self.loaded_chunks.remove(&key);
        proof {
            assert forall|other: ChunkId| #[trigger]
                self@.contains(other) == old(self)@.remove(*chunk).contains(other) by {
                if chunk_key(other) == chunk_key(*chunk) {
                    lemma_chunk_key_injective(other, *chunk);
                }
            }
            assert(self@ =~= old(self)@.remove(*chunk));
        }
        removed
    }
}

impl Default for ChunkTracker {
    fn default() -> (tracker: Self)
        ensures
            tracker@ == Set::<ChunkId>::empty(),
    {
        Self::new()
    }
}

/// One call on a tracker.
pub ghost enum TrackerStep {
    Spawn(ChunkId),
    Despawn(ChunkId),
}

impl TrackerStep {
    /// What the call answers when `loaded` is registered.
    pub open spec fn answer(self, loaded: Set<ChunkId>) -> bool {
        match self {
            TrackerStep::Spawn(chunk) => !loaded.contains(chunk),
            TrackerStep::Despawn(chunk) => loaded.contains(chunk),
        }
    }

    /// What is registered after the call, when `loaded` was before it.
    pub open spec fn apply(self, loaded: Set<ChunkId>) -> Set<ChunkId> {
        match self {
            TrackerStep::Spawn(chunk) => loaded.insert(chunk),
            TrackerStep::Despawn(chunk) => loaded.remove(chunk),
        }
    }
}

/// What is registered after the calls `steps`, in order, when `loaded` was
/// registered before them.
pub open spec fn run(loaded: Set<ChunkId>, steps: Seq<TrackerStep>) -> Set<ChunkId>
    decreases steps.len(),
{
    if steps.len() == 0 {
        loaded
    } else {
        steps.last().apply(run(loaded, steps.drop_last()))
    }
}

/// Once a chunk has been asked for, every further `try_spawn` of it answers
/// false, whatever is done to other chunks, until it is despawned.
pub proof fn lemma_spawn_at_most_once(
    loaded: Set<ChunkId>,
    chunk: ChunkId,
    steps: Seq<TrackerStep>,
)
    requires
        forall|i: int| 0 <= i < steps.len() ==> steps[i] != TrackerStep::Despawn(chunk),
    ensures
        run(TrackerStep::Spawn(chunk).apply(loaded), steps).contains(chunk),
        !TrackerStep::Spawn(chunk).answer(run(TrackerStep::Spawn(chunk).apply(loaded), steps)),
    decreases steps.len(),
{
    if steps.len() > 0 {
        lemma_spawn_at_most_once(loaded, chunk, steps.drop_last());
    }
}

/// Once a chunk has been despawned, the next `try_spawn` of it answers true,
/// whatever was done to other chunks in between.
pub proof fn lemma_spawn_after_despawn(
    loaded: Set<ChunkId>,
    chunk: ChunkId,
    steps: Seq<TrackerStep>,
)
    requires
        forall|i: int| 0 <= i < steps.len() ==> steps[i] != TrackerStep::Spawn(chunk),
    ensures
        !run(TrackerStep::Despawn(chunk).apply(loaded), steps).contains(chunk),
        TrackerStep::Spawn(chunk).answer(run(TrackerStep::Despawn(chunk).apply(loaded), steps)),
    decreases steps.len(),
{
    if steps.len() > 0 {
        lemma_spawn_after_despawn(loaded, chunk, steps.drop_last());
    }
}

/// A `try_despawn` answers true exactly when the chunk's last `try_spawn` has
/// not been undone: a second despawn in a row answers false.
pub proof fn lemma_despawn_at_most_once(
    loaded: Set<ChunkId>,
    chunk: ChunkId,
    steps: Seq<TrackerStep>,
)
    requires
        forall|i: int| 0 <= i < steps.len() ==> steps[i] != TrackerStep::Spawn(chunk),
    ensures
        !TrackerStep::Despawn(chunk).answer(run(TrackerStep::Despawn(chunk).apply(loaded), steps)),
{
    lemma_spawn_after_despawn(loaded, chunk, steps);
}

} // verus!
