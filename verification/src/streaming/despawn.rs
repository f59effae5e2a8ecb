//! The despawn step: chunks that are too far from every site cease to exist.

use vstd::prelude::*;
use crate::ids::ChunkId;
use crate::streaming::{Chunk, ChunkWorld, StreamingConfig, chunk_ids};

verus! {

/// Whether `chunk` is farther than `despawn_distance` world units from the
/// nearest site.
pub open spec fn beyond(chunk: Chunk, despawn_distance: u64) -> bool {
    chunk.distance_squared_to_nearest_spawner > despawn_distance * despawn_distance
}

/// The test for a chunk that is too far away.
pub open spec fn too_far(despawn_distance: u64) -> spec_fn(Chunk) -> bool {
    |chunk: Chunk| beyond(chunk, despawn_distance)
}

/// The test for a chunk that is near enough.
pub open spec fn near_enough(despawn_distance: u64) -> spec_fn(Chunk) -> bool {
    |chunk: Chunk| !beyond(chunk, despawn_distance)
}

/// Whether no two of `chunks` have the same identifier.
pub open spec fn distinct_ids(chunks: Seq<Chunk>) -> bool {
    forall|i: int, j: int|
        0 <= i < chunks.len() && 0 <= j < chunks.len() && i != j ==> chunks[i].id != chunks[j].id
}

/// What passes a test is among what was tested.
pub proof fn lemma_filtered_from(chunks: Seq<Chunk>, test: spec_fn(Chunk) -> bool, i: int) -> (k:
    int)
    requires
        0 <= i < chunks.filter(test).len(),
    ensures
        0 <= k < chunks.len(),
        chunks[k] == chunks.filter(test)[i],
        test(chunks[k]),
    decreases chunks.len(),
{
    reveal(Seq::filter);
    if test(chunks.last()) && i == chunks.drop_last().filter(test).len() {
        chunks.len() - 1
    } else {
        lemma_filtered_from(chunks.drop_last(), test, i)
    }
}

/// What passes a test, among chunks that passed it, stands in the result.
pub proof fn lemma_filtered_into(chunks: Seq<Chunk>, test: spec_fn(Chunk) -> bool, k: int) -> (i:
    int)
    requires
        0 <= k < chunks.len(),
        test(chunks[k]),
    ensures
        0 <= i < chunks.filter(test).len(),
        chunks.filter(test)[i] == chunks[k],
    decreases chunks.len(),
{
    reveal(Seq::filter);
    if k == chunks.len() - 1 {
        chunks.drop_last().filter(test).len() as int
    } else {
        lemma_filtered_into(chunks.drop_last(), test, k)
    }
}

/// Chunks with different identifiers keep different identifiers when some of
/// them are taken away.
pub proof fn lemma_filter_keeps_distinct(chunks: Seq<Chunk>, test: spec_fn(Chunk) -> bool)
    requires
        distinct_ids(chunks),
    ensures
        distinct_ids(chunks.filter(test)),
    decreases chunks.len(),
{
    reveal(Seq::filter);
    if chunks.len() > 0 {
        let rest = chunks.drop_last();
        lemma_filter_keeps_distinct(rest, test);
        let kept = chunks.filter(test);
        let inner = rest.filter(test);
        assert forall|i: int, j: int|
            0 <= i < kept.len() && 0 <= j < kept.len() && i != j implies kept[i].id != kept[j].id by {
            if i < inner.len() && j < inner.len() {
            } else if i < inner.len() {
                let k = lemma_filtered_from(rest, test, i);
                assert(chunks[k].id != chunks[chunks.len() - 1].id);
            } else {
                let k = lemma_filtered_from(rest, test, j);
                assert(chunks[k].id != chunks[chunks.len() - 1].id);
            }
        }
    }
}

impl ChunkWorld {
    /// Takes out of existence every chunk that is farther than
    /// `despawn_distance` from the nearest site, and names those chunks.
    pub fn despawn_beyond(&mut self, despawn_distance: u64) -> (removed: Vec<ChunkId>)
        requires
            old(self).wf(),
        ensures
            final(self).wf(),
            final(self)@ == old(self)@.filter(near_enough(despawn_distance)),
            removed@ == chunk_ids(old(self)@.filter(too_far(despawn_distance))),
            forall|id: ChunkId| #[trigger]
                final(self).loaded().contains(id) <==> old(self).loaded().contains(id)
                    && !removed@.contains(id),
    {
        let ghost before = self.chunks@;
        let ghost registered = self.tracker@;
        let ghost far = too_far(despawn_distance);
        let ghost near = near_enough(despawn_distance);
        proof {
            assert(despawn_distance * despawn_distance <= 0xffff_ffff_ffff_ffff
                * 0xffff_ffff_ffff_ffff) by (nonlinear_arith)
                requires
                    0 <= despawn_distance <= 0xffff_ffff_ffff_ffff,
            ;
        }
        let limit: u128 = (despawn_distance as u128) * (despawn_distance as u128);
        let mut kept: Vec<Chunk> = Vec::new();
        let mut removed: Vec<ChunkId> = Vec::new();
        let mut i: usize = 0;
        proof {
            assert(before.take(0) =~= Seq::<Chunk>::empty());
            reveal(Seq::filter);
            assert(before.take(0).filter(far) =~= Seq::<Chunk>::empty());
            assert(before.take(0).filter(near) =~= Seq::<Chunk>::empty());
        }
        while i < self.chunks.len()
            invariant
                old(self).wf(),
                before == old(self).chunks@,
                registered == old(self).tracker@,
                self.chunks@ == before,
                far == too_far(despawn_distance),
                near == near_enough(despawn_distance),
                limit == despawn_distance * despawn_distance,
                i <= before.len(),
                kept@ == before.take(i as int).filter(near),
                removed@ == chunk_ids(before.take(i as int).filter(far)),
                forall|id: ChunkId| #[trigger]
                    self.tracker@.contains(id) <==> registered.contains(id) && !(exists|k: int|
                        0 <= k < i && before[k].id == id && beyond(before[k], despawn_distance)),
            decreases before.len() - i,
        {
            let chunk = self.chunks[i];
            proof {
                assert(before.take(i + 1) =~= before.take(i as int).push(chunk));
                before.take(i as int).lemma_filter_push(chunk, far);
                before.take(i as int).lemma_filter_push(chunk, near);
                assert(registered.contains(chunk.id));
            }
            let mut gone = false;
            if chunk.distance_squared_to_nearest_spawner > limit {
                gone = self.tracker.try_despawn(&chunk.id);
                assert(gone);
            }
            if gone {
                removed.push(chunk.id);
                proof {
                    assert(far(chunk));
                    assert(!near(chunk));
                    assert(removed@ =~= chunk_ids(before.take(i as int).filter(far).push(chunk)));
                }
            } else {
                kept.push(chunk);
                proof {
                    assert(!far(chunk));
                    assert(near(chunk));
                }
            }
            proof {
                assert forall|id: ChunkId| #[trigger]
                    self.tracker@.contains(id) <==> registered.contains(id) && !(exists|k: int|
                        0 <= k < i + 1 && before[k].id == id && beyond(
                            before[k],
                            despawn_distance,
                        )) by {
                    if id == chunk.id {
                        assert(before[i as int].id == id);
                    }
                }
            }
            i = i + 1;
        }
        self.chunks = kept;
        proof {
            assert(before.take(before.len() as int) =~= before);
            let now = self.chunks@;
            let taken = before.filter(far);
            lemma_filter_keeps_distinct(before, near);
            assert forall|id: ChunkId| #[trigger]
                self.tracker@.contains(id) <==> exists|x: int|
                    0 <= x < now.len() && now[x].id == id by {
                if self.tracker@.contains(id) {
                    let k = choose|k: int| 0 <= k < before.len() && before[k].id == id;
                    assert(!beyond(before[k], despawn_distance));
                    assert(near(before[k]));
                    let x = lemma_filtered_into(before, near, k);
                    assert(now[x].id == id);
                }
                if exists|x: int| 0 <= x < now.len() && now[x].id == id {
                    let x = choose|x: int| 0 <= x < now.len() && now[x].id == id;
                    let k = lemma_filtered_from(before, near, x);
                    assert(before[k].id == id);
                    assert(registered.contains(id));
                    assert(near(before[k]));
                    assert forall|k2: int|
                        0 <= k2 < before.len() && before[k2].id == id implies !beyond(
                        before[k2],
                        despawn_distance,
                    ) by {
                        assert(k2 == k);
                    }
                }
            }
            assert forall|id: ChunkId| #[trigger]
                self.tracker@.contains(id) <==> registered.contains(id) && !removed@.contains(
                    id,
                ) by {
                if removed@.contains(id) {
                    let x = choose|x: int| 0 <= x < removed@.len() && removed@[x] == id;
                    let k = lemma_filtered_from(before, far, x);
                    assert(far(before[k]));
                    assert(before[k].id == id && beyond(before[k], despawn_distance));
                }
                if exists|k: int|
                    0 <= k < before.len() && before[k].id == id && beyond(
                        before[k],
                        despawn_distance,
                    ) {
                    let k = choose|k: int|
                        0 <= k < before.len() && before[k].id == id && beyond(
                            before[k],
                            despawn_distance,
                        );
                    assert(far(before[k]));
                    let x = lemma_filtered_into(before, far, k);
                    assert(removed@[x] == id);
                }
            }
        }
        removed
    }
}

/// Takes out of existence every chunk that is farther than the configured
/// distance from the nearest site, and names those chunks.
pub fn despawn_chunks(world: &mut ChunkWorld, config: &StreamingConfig) -> (removed: Vec<ChunkId>)
    requires
        old(world).wf(),
    ensures
        final(world).wf(),
        final(world)@ == old(world)@.filter(near_enough(config.despawn_distance)),
        removed@ == chunk_ids(old(world)@.filter(too_far(config.despawn_distance))),
        forall|id: ChunkId| #[trigger]
            final(world).loaded().contains(id) <==> old(world).loaded().contains(id)
                && !removed@.contains(id),
{
    world.despawn_beyond(config.despawn_distance)
}

} // verus!
