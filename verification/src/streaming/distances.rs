//! The distance step: after a site has changed chunk, every chunk learns how
//! far it is from the nearest such site.

use vstd::prelude::*;
use crate::ids::ChunkId;
use crate::layout::CubicVoxelLayout;
use crate::model::LayoutModel;
use crate::streaming::{Chunk, ChunkSpawner, ChunkWorld};

verus! {

/// Whether one of `sites` is fresh.
pub open spec fn any_fresh(sites: Seq<ChunkSpawner>) -> bool {
    exists|j: int| 0 <= j < sites.len() && (#[trigger] sites[j]).fresh
}

/// Whether every fresh site among `sites` has a chunk, and one that the layout
/// `m` covers.
pub open spec fn fresh_sites_placed(m: LayoutModel, sites: Seq<ChunkSpawner>) -> bool {
    forall|j: int|
        0 <= j < sites.len() && (#[trigger] sites[j]).fresh ==> sites[j].last_loaded_chunk is Some
            && m.covers(sites[j].last_loaded_chunk->0@)
}

/// Whether `distance` is the squared distance from `chunk` to the nearest
/// fresh site among `sites`: one fresh site is that far, and none is nearer.
pub open spec fn is_nearest(
    m: LayoutModel,
    chunk: ChunkId,
    sites: Seq<ChunkSpawner>,
    distance: int,
) -> bool {
    &&& exists|j: int|
        0 <= j < sites.len() && (#[trigger] sites[j]).fresh && distance == m.chunk_distance_squared(
            chunk@,
            sites[j].last_loaded_chunk->0@,
        )
    &&& forall|j: int|
        0 <= j < sites.len() && (#[trigger] sites[j]).fresh ==> distance
            <= m.chunk_distance_squared(chunk@, sites[j].last_loaded_chunk->0@)
}

/// The squared distance from `chunk` to the nearest fresh site among `sites`,
/// found site by site; zero without a fresh site.
pub open spec fn nearest_distance(m: LayoutModel, chunk: ChunkId, sites: Seq<ChunkSpawner>) -> int
    decreases sites.len(),
{
    if sites.len() == 0 {
        0
    } else {
        let rest = sites.drop_last();
        let last = sites.last();
        let so_far = nearest_distance(m, chunk, rest);
        if !last.fresh {
            so_far
        } else {
            let distance = m.chunk_distance_squared(chunk@, last.last_loaded_chunk->0@);
            if any_fresh(rest) && so_far <= distance {
                so_far
            } else {
                distance
            }
        }
    }
}

/// With a fresh site among `sites`, `nearest_distance` is the distance to the
/// nearest of them: one fresh site is that far, and none is nearer.
pub proof fn lemma_nearest_distance(m: LayoutModel, chunk: ChunkId, sites: Seq<ChunkSpawner>)
    requires
        any_fresh(sites),
    ensures
        is_nearest(m, chunk, sites, nearest_distance(m, chunk, sites)),
    decreases sites.len(),
{
    let rest = sites.drop_last();
    let last = sites.last();
    let n = sites.len() - 1;
    let best = nearest_distance(m, chunk, sites);
    assert(forall|j: int| 0 <= j < n ==> rest[j] == sites[j]);
    if any_fresh(rest) {
        lemma_nearest_distance(m, chunk, rest);
        let w = choose|w: int|
            0 <= w < rest.len() && (#[trigger] rest[w]).fresh && nearest_distance(m, chunk, rest)
                == m.chunk_distance_squared(chunk@, rest[w].last_loaded_chunk->0@);
        assert(sites[w].fresh);
    }
    if last.fresh {
        assert(sites[n].fresh);
    }
    assert forall|j: int| 0 <= j < sites.len() && (#[trigger] sites[j]).fresh implies best
        <= m.chunk_distance_squared(chunk@, sites[j].last_loaded_chunk->0@) by {
        if j < n {
            assert(rest[j].fresh);
        }
    }
    if !last.fresh {
        let j = choose|j: int| 0 <= j < sites.len() && (#[trigger] sites[j]).fresh;
        assert(rest[j].fresh);
    }
}

/// The distance to the nearest fresh site is one number: whatever is as far
/// as one fresh site and no farther than any is `nearest_distance`.
pub proof fn lemma_nearest_is_unique(
    m: LayoutModel,
    chunk: ChunkId,
    sites: Seq<ChunkSpawner>,
    distance: int,
)
    requires
        is_nearest(m, chunk, sites, distance),
    ensures
        distance == nearest_distance(m, chunk, sites),
{
    let j = choose|j: int|
        0 <= j < sites.len() && (#[trigger] sites[j]).fresh && distance
            == m.chunk_distance_squared(chunk@, sites[j].last_loaded_chunk->0@);
    assert(sites[j].fresh);
    lemma_nearest_distance(m, chunk, sites);
    let best = nearest_distance(m, chunk, sites);
    let k = choose|k: int|
        0 <= k < sites.len() && (#[trigger] sites[k]).fresh && best == m.chunk_distance_squared(
            chunk@,
            sites[k].last_loaded_chunk->0@,
        );
    assert(sites[k].fresh);
}

/// `chunk` with the squared distance to the nearest fresh site of `sites`.
pub open spec fn measured_chunk(m: LayoutModel, chunk: Chunk, sites: Seq<ChunkSpawner>) -> Chunk {
    Chunk {
        distance_squared_to_nearest_spawner: nearest_distance(m, chunk.id, sites) as u128,
        ..chunk
    }
}

/// `chunks`, each with the squared distance to the nearest fresh site of
/// `sites`; unchanged without a fresh site.
pub open spec fn measured(m: LayoutModel, chunks: Seq<Chunk>, sites: Seq<ChunkSpawner>) -> Seq<Chunk> {
    if any_fresh(sites) {
        Seq::new(chunks.len(), |i: int| measured_chunk(m, chunks[i], sites))
    } else {
        chunks
    }
}

/// `sites` after a distance step over `count` chunks: with a chunk to
/// measure, no site is fresh any more.
pub open spec fn after_measuring(sites: Seq<ChunkSpawner>, count: nat) -> Seq<ChunkSpawner> {
    Seq::new(
        sites.len(),
        |j: int|
            ChunkSpawner {
                last_loaded_chunk: sites[j].last_loaded_chunk,
                fresh: sites[j].fresh && count == 0,
            },
    )
}

/// Whether `distance` is the squared distance from `chunk` to the nearest
/// fresh site among the first `n` of `sites`; without a fresh site among them
/// there is no such distance.
spec fn nearest_so_far(
    m: LayoutModel,
    chunk: ChunkId,
    sites: Seq<ChunkSpawner>,
    n: int,
    distance: Option<u128>,
) -> bool {
    match distance {
        None => forall|j: int| 0 <= j < n ==> !(#[trigger] sites[j]).fresh,
        Some(d) => is_nearest(m, chunk, sites.take(n), d as int),
    }
}

/// Whether one of `sites` is fresh.
pub fn has_fresh(sites: &Vec<ChunkSpawner>) -> (fresh: bool)
    ensures
        fresh == any_fresh(sites@),
{
    let mut j: usize = 0;
    while j < sites.len()
        invariant
            j <= sites@.len(),
            forall|k: int| 0 <= k < j ==> !(#[trigger] sites@[k]).fresh,
        decreases sites@.len() - j,
    {
        if sites[j].fresh {
            return true;
        }
        j = j + 1;
    }
    false
}

/// Whether every fresh site among `sites` has a chunk that `layout` covers.
pub fn fresh_sites_are_placed(layout: &CubicVoxelLayout, sites: &Vec<ChunkSpawner>) -> (placed:
    bool)
    requires
        layout.wf(),
    ensures
        placed == fresh_sites_placed(layout@, sites@),
{
    let mut j: usize = 0;
    while j < sites.len()
        invariant
            layout.wf(),
            j <= sites@.len(),
            forall|k: int|
                0 <= k < j && (#[trigger] sites@[k]).fresh ==> sites@[k].last_loaded_chunk is Some
                    && layout@.covers(sites@[k].last_loaded_chunk->0@),
        decreases sites@.len() - j,
    {
        let site = sites[j];
        if site.fresh {
            match site.last_loaded_chunk {
                Some(chunk) => {
                    if !layout.covers(&chunk) {
                        assert(sites@[j as int].fresh);
                        return false;
                    }
                },
                None => {
                    assert(sites@[j as int].fresh);
                    return false;
                },
            }
        }
        j = j + 1;
    }
    true
}

/// The squared distance from `chunk` to the nearest fresh site of `sites`.
pub fn nearest_fresh_site(
    layout: &CubicVoxelLayout,
    chunk: &ChunkId,
    sites: &Vec<ChunkSpawner>,
) -> (distance: u128)
    requires
        layout.wf(),
        layout@.covers(chunk@),
        any_fresh(sites@),
        fresh_sites_placed(layout@, sites@),
    ensures
        distance == nearest_distance(layout@, *chunk, sites@),
{
    let ghost m = layout@;
    let mut nearest: Option<u128> = None;
    let mut j: usize = 0;
    while j < sites.len()
        invariant
            layout.wf(),
            m == layout@,
            m.covers(chunk@),
            fresh_sites_placed(m, sites@),
            j <= sites@.len(),
            nearest_so_far(m, *chunk, sites@, j as int, nearest),
        decreases sites@.len() - j,
    {
        let site = sites[j];
        let ghost seen = sites@.take(j as int);
        let ghost grown = sites@.take(j + 1);
        proof {
            assert(forall|k: int| 0 <= k < j ==> grown[k] == seen[k]);
            assert(grown[j as int] == site);
        }
        if site.fresh {
            match site.last_loaded_chunk {
                Some(target) => {
                    let distance = layout.get_chunk_distance_squared(chunk, &target);
                    match nearest {
                        Some(best) => {
                            if distance < best {
                                proof {
                                    assert(grown[j as int].fresh);
                                    assert forall|k: int|
                                        0 <= k < grown.len() && (#[trigger] grown[k]).fresh implies distance
                                        <= m.chunk_distance_squared(
                                        chunk@,
                                        grown[k].last_loaded_chunk->0@,
                                    ) by {
                                        if k < j {
                                            assert(seen[k].fresh);
                                        }
                                    }
                                }
                                nearest = Some(distance);
                            } else {
                                proof {
                                    let w = choose|w: int|
                                        0 <= w < seen.len() && (#[trigger] seen[w]).fresh && best
                                            == m.chunk_distance_squared(
                                            chunk@,
                                            seen[w].last_loaded_chunk->0@,
                                        );
                                    assert(grown[w].fresh);
                                    assert forall|k: int|
                                        0 <= k < grown.len() && (#[trigger] grown[k]).fresh implies best
                                        <= m.chunk_distance_squared(
                                        chunk@,
                                        grown[k].last_loaded_chunk->0@,
                                    ) by {
                                        if k < j {
                                            assert(seen[k].fresh);
                                        }
                                    }
                                }
                            }
                        },
                        None => {
                            proof {
                                assert(grown[j as int].fresh);
                                assert forall|k: int|
                                    0 <= k < grown.len() && (#[trigger] grown[k]).fresh implies distance
                                    <= m.chunk_distance_squared(
                                    chunk@,
                                    grown[k].last_loaded_chunk->0@,
                                ) by {
                                    if k < j {
                                        assert(sites@[k] == grown[k]);
                                    }
                                }
                            }
                            nearest = Some(distance);
                        },
                    }
                },
                None => {},
            }
        } else {
            proof {
                match nearest {
                    Some(best) => {
                        let w = choose|w: int|
                            0 <= w < seen.len() && (#[trigger] seen[w]).fresh && best
                                == m.chunk_distance_squared(chunk@, seen[w].last_loaded_chunk->0@);
                        assert(grown[w].fresh);
                        assert forall|k: int|
                            0 <= k < grown.len() && (#[trigger] grown[k]).fresh implies best
                            <= m.chunk_distance_squared(chunk@, grown[k].last_loaded_chunk->0@) by {
                            assert(k < j);
                            assert(seen[k].fresh);
                        }
                    },
                    None => {},
                }
            }
        }
        j = j + 1;
    }
    proof {
        assert(sites@.take(sites@.len() as int) =~= sites@);
        if nearest is Some {
            lemma_nearest_is_unique(m, *chunk, sites@, nearest->0 as int);
        }
    }
    nearest.unwrap()
}

impl ChunkWorld {
    /// Gives every chunk the squared distance to the nearest fresh site.
    pub fn measure(&mut self, layout: &CubicVoxelLayout, sites: &Vec<ChunkSpawner>)
        requires
            old(self).wf(),
            old(self).within(layout@),
            layout.wf(),
            any_fresh(sites@),
            fresh_sites_placed(layout@, sites@),
        ensures
            final(self).wf(),
            final(self).within(layout@),
            final(self).loaded() == old(self).loaded(),
            final(self)@ == measured(layout@, old(self)@, sites@),
    {
        let ghost before = self.chunks@;
        let ghost m = layout@;
        let mut i: usize = 0;
        while i < self.chunks.len()
            invariant
                before == old(self).chunks@,
                self.tracker == old(self).tracker,
                old(self).wf(),
                old(self).within(m),
                layout.wf(),
                m == layout@,
                any_fresh(sites@),
                fresh_sites_placed(m, sites@),
                self.chunks@.len() == before.len(),
                i <= before.len(),
                forall|k: int| i <= k < before.len() ==> self.chunks@[k] == before[k],
                forall|k: int|
                    0 <= k < i ==> (#[trigger] self.chunks@[k]) == measured_chunk(
                        m,
                        before[k],
                        sites@,
                    ),
            decreases before.len() - i,
        {
            let chunk = self.chunks[i];
            assert(chunk == old(self)@[i as int]);
            assert(m.covers(chunk.id@));
            let nearest = nearest_fresh_site(layout, &chunk.id, sites);
            self.chunks.set(
                i,
                Chunk { id: chunk.id, distance_squared_to_nearest_spawner: nearest, stage: chunk.stage },
            );
            i = i + 1;
        }
        proof {
            assert(self.chunks@ =~= measured(m, before, sites@));
            assert(forall|k: int| 0 <= k < before.len() ==> self.chunks@[k].id == before[k].id);
            assert forall|c: ChunkId| #[trigger]
                self.tracker@.contains(c) <==> exists|k: int|
                    0 <= k < self.chunks@.len() && self.chunks@[k].id == c by {
                if self.tracker@.contains(c) {
                    let k = choose|k: int| 0 <= k < before.len() && before[k].id == c;
                    assert(self.chunks@[k].id == c);
                }
                if exists|k: int| 0 <= k < self.chunks@.len() && self.chunks@[k].id == c {
                    let k = choose|k: int| 0 <= k < self.chunks@.len() && self.chunks@[k].id == c;
                    assert(before[k].id == c);
                }
            }
            assert forall|k: int| 0 <= k < self@.len() implies m.covers((#[trigger] self@[k]).id@) by {
                assert(self@[k].id == before[k].id);
                assert(m.covers(old(self)@[k].id@));
            }
        }
    }
}

/// Computes, once a site has changed chunk, the distance of every chunk to the
/// nearest fresh site, and takes the freshness from the sites. Without a
/// fresh site nothing changes; without a chunk the sites stay fresh.
pub fn calc_chunk_distances(
    world: &mut ChunkWorld,
    layout: &CubicVoxelLayout,
    sites: &mut Vec<ChunkSpawner>,
)
    requires
        old(world).wf(),
        old(world).within(layout@),
        layout.wf(),
        fresh_sites_placed(layout@, old(sites)@),
    ensures
        final(world).wf(),
        final(world).within(layout@),
        final(world).loaded() == old(world).loaded(),
        final(world)@ == measured(layout@, old(world)@, old(sites)@),
        final(sites)@ == if any_fresh(old(sites)@) {
            after_measuring(old(sites)@, old(world)@.len())
        } else {
            old(sites)@
        },
{
    let ghost asked = sites@;
    if !has_fresh(sites) {
        return ;
    }
    world.measure(layout, sites);
    let ghost count = old(world)@.len();
    if world.chunks().len() > 0 {
        let mut j: usize = 0;
        while j < sites.len()
            invariant
                sites@.len() == asked.len(),
                j <= asked.len(),
                forall|k: int|
                    0 <= k < j ==> (#[trigger] sites@[k]) == (ChunkSpawner {
                        last_loaded_chunk: asked[k].last_loaded_chunk,
                        fresh: false,
                    }),
                forall|k: int| j <= k < asked.len() ==> sites@[k] == asked[k],
            decreases asked.len() - j,
        {
            let site = sites[j];
            sites.set(j, ChunkSpawner { last_loaded_chunk: site.last_loaded_chunk, fresh: false });
            j = j + 1;
        }
    }
    proof {
        assert(sites@ =~= after_measuring(asked, count));
    }
}

} // verus!
