//! The spawn step: when a site has changed chunk, every chunk around it that
//! does not exist yet is brought into existence.

use vstd::prelude::*;
use crate::ids::{ChunkId, ChunkPoint, chunk_points};
use crate::layout::{CubicVoxelLayout, WorldPos};
use crate::model::{LayoutModel, SpacePoint};
use crate::neighbor_laws::{lemma_neighbor_distance, lemma_neighbors_distinct};
use crate::neighbors::neighbors;
use crate::streaming::{Chunk, ChunkSpawner, ChunkWorld, SpawnOrder, StreamingConfig, chunk_ids,
    spawned_chunk};

verus! {

/// The chunks that a site in `center` asks for: its own chunk, then the
/// chunks of `rings` rings around it, nearest ring first.
pub open spec fn spawn_candidates(center: ChunkPoint, rings: int) -> Seq<ChunkPoint> {
    seq![center] + neighbors(center, rings)
}

/// Whether the layout `m` covers every chunk within `rings` rings of `center`:
/// it does when it covers the two far corners of that square.
pub open spec fn spawn_area_covered(m: LayoutModel, center: ChunkPoint, rings: int) -> bool {
    let reach = if rings < 0 { 0 } else { rings };
    &&& center.shifted(-reach, -reach).representable()
    &&& center.shifted(reach, reach).representable()
    &&& m.covers(center.shifted(-reach, -reach))
    &&& m.covers(center.shifted(reach, reach))
}

/// Whether chunks can be spawned around a site at `position`: the site's voxel
/// and every chunk that it asks for are within the machine's limits.
pub open spec fn can_spawn(m: LayoutModel, position: SpacePoint, rings: int) -> bool {
    &&& m.space_to_voxel(position).representable()
    &&& spawn_area_covered(m, m.space_to_chunk(position), rings)
}

/// The test for a chunk that is not among `loaded`.
pub open spec fn missing_from(loaded: Set<ChunkId>) -> spec_fn(ChunkPoint) -> bool {
    |chunk: ChunkPoint| !loaded.contains(chunk.id())
}

/// The chunks that come into existence around a site in `center`, when
/// `chunks` exist: those of its candidates that are not among them.
pub open spec fn spawned_around(chunks: Seq<Chunk>, center: ChunkPoint, rings: int) -> Seq<Chunk> {
    let missing = spawn_candidates(center, rings).filter(
        missing_from(chunk_ids(chunks).to_set()),
    );
    Seq::new(missing.len(), |i: int| spawned_chunk(missing[i].id()))
}

/// Whether a site is in another chunk than the one it was last loaded in.
pub open spec fn has_moved(m: LayoutModel, site: ChunkSpawner, position: SpacePoint) -> bool {
    site.last_loaded_chunk != Some(m.space_to_chunk(position).id())
}

/// The chunks that exist after the spawn step for one site at `position`.
pub open spec fn after_spawning(
    m: LayoutModel,
    rings: int,
    chunks: Seq<Chunk>,
    site: ChunkSpawner,
    position: SpacePoint,
) -> Seq<Chunk> {
    if has_moved(m, site, position) {
        chunks + spawned_around(chunks, m.space_to_chunk(position), rings)
    } else {
        chunks
    }
}

/// The site after the spawn step: fresh in its new chunk, if it has moved.
pub open spec fn site_after_spawning(
    m: LayoutModel,
    site: ChunkSpawner,
    position: SpacePoint,
) -> ChunkSpawner {
    if has_moved(m, site, position) {
        ChunkSpawner { last_loaded_chunk: Some(m.space_to_chunk(position).id()), fresh: true }
    } else {
        site
    }
}

/// The chunks that `orders` are for, in order.
pub open spec fn order_points(orders: Seq<SpawnOrder>) -> Seq<ChunkPoint> {
    Seq::new(orders.len(), |i: int| orders[i].chunk@)
}

/// The chunks that `orders` bring into existence, in order.
pub open spec fn ordered_chunks(orders: Seq<SpawnOrder>) -> Seq<Chunk> {
    Seq::new(orders.len(), |i: int| spawned_chunk(orders[i].chunk))
}

/// Whether each of `orders` places its chunk as the layout `m` does.
pub open spec fn orders_placed(m: LayoutModel, orders: Seq<SpawnOrder>) -> bool {
    forall|i: int|
        0 <= i < orders.len() ==> {
            &&& (#[trigger] orders[i]).position@ == m.chunk_to_space(orders[i].chunk@)
            &&& orders[i].origin@ == m.origin_voxel(orders[i].chunk@)
        }
}

/// A layout that covers two chunks covers every chunk between them.
pub proof fn lemma_covered_between(m: LayoutModel, low: ChunkPoint, high: ChunkPoint, chunk: ChunkPoint)
    requires
        m.valid(),
        m.covers(low),
        m.covers(high),
        low.x <= chunk.x <= high.x,
        low.y <= chunk.y <= high.y,
    ensures
        m.covers(chunk),
{
    let full = m.full_length();
    assert(low.x * full <= chunk.x * full <= high.x * full && low.y * full <= chunk.y * full
        <= high.y * full) by (nonlinear_arith)
        requires
            full >= 1,
            low.x <= chunk.x <= high.x,
            low.y <= chunk.y <= high.y,
    ;
}

/// The candidates of a site are all different, and all within `rings` rings
/// of the site's chunk.
pub proof fn lemma_candidates(center: ChunkPoint, rings: int, i: int, j: int)
    requires
        0 <= i < spawn_candidates(center, rings).len(),
        0 <= j < spawn_candidates(center, rings).len(),
    ensures
        spawn_candidates(center, rings)[i].chebyshev(center) <= if rings < 0 {
            0
        } else {
            rings
        },
        i != j ==> spawn_candidates(center, rings)[i] != spawn_candidates(center, rings)[j],
{
    let all = spawn_candidates(center, rings);
    if i >= 1 {
        lemma_neighbor_distance(center, rings, i - 1);
    }
    if j >= 1 {
        lemma_neighbor_distance(center, rings, j - 1);
    }
    if i >= 1 && j >= 1 && all[i] == all[j] {
        lemma_neighbors_distinct(center, rings, i - 1, j - 1);
    }
}

impl CubicVoxelLayout {
    /// Whether chunks can be spawned around a site at `position`.
    pub fn can_spawn_chunks(&self, position: &WorldPos, config: &StreamingConfig) -> (possible: bool)
        requires
            self.wf(),
        ensures
            possible == can_spawn(self@, position@, config.spawn_ring_radius as int),
    {
        let voxel = match self.try_space_to_voxel(position) {
            Some(voxel) => voxel,
            None => {
                return false;
            },
        };
        let center = self.voxel_to_chunk(&voxel);
        let reach: i64 = if config.spawn_ring_radius < 0 {
            0
        } else {
            config.spawn_ring_radius as i64
        };
        let low_x: i64 = center.x() as i64 - reach;
        let low_y: i64 = center.y() as i64 - reach;
        let high_x: i64 = center.x() as i64 + reach;
        let high_y: i64 = center.y() as i64 + reach;
        if low_x < -0x8000_0000 || low_y < -0x8000_0000 || high_x > 0x7fff_ffff || high_y
            > 0x7fff_ffff {
            return false;
        }
        let low = ChunkId::new(low_x as i32, low_y as i32);
        let high = ChunkId::new(high_x as i32, high_y as i32);
        self.covers(&low) && self.covers(&high)
    }
}

/// Spawns chunks around a site at `position`. A site that is still in the
/// chunk it was last loaded in asks for nothing. Otherwise every chunk among
/// the site's own and its rings of neighbors that does not exist yet comes
/// into existence, an order is returned for each, and the site is marked as
/// fresh in its new chunk.
pub fn spawn_chunks(
    world: &mut ChunkWorld,
    layout: &CubicVoxelLayout,
    config: &StreamingConfig,
    site: &mut ChunkSpawner,
    position: &WorldPos,
) -> (orders: Vec<SpawnOrder>)
    requires
        old(world).wf(),
        old(world).within(layout@),
        layout.wf(),
        can_spawn(layout@, position@, config.spawn_ring_radius as int),
    ensures
        final(world).wf(),
        final(world).within(layout@),
        final(world)@ == after_spawning(
            layout@,
            config.spawn_ring_radius as int,
            old(world)@,
            *old(site),
            position@,
        ),
        *final(site) == site_after_spawning(layout@, *old(site), position@),
        final(world)@ == old(world)@ + ordered_chunks(orders@),
        orders_placed(layout@, orders@),
        ({
            let current = layout@.space_to_chunk(position@);
            let candidates = spawn_candidates(current, config.spawn_ring_radius as int);
            if old(site).last_loaded_chunk == Some(current.id()) {
                &&& orders@.len() == 0
                &&& final(world)@ == old(world)@
                &&& final(world).loaded() == old(world).loaded()
                &&& *final(site) == *old(site)
            } else {
                &&& *final(site) == (ChunkSpawner {
                    last_loaded_chunk: Some(current.id()),
                    fresh: true,
                })
                &&& order_points(orders@) == candidates.filter(missing_from(old(world).loaded()))
                &&& orders_placed(layout@, orders@)
                &&& final(world)@ == old(world)@ + ordered_chunks(orders@)
                &&& forall|id: ChunkId| #[trigger]
                    final(world).loaded().contains(id) <==> old(world).loaded().contains(id)
                        || candidates.contains(id@)
            }
        }),
{
    let ghost m = layout@;
    let ghost rings = config.spawn_ring_radius as int;
    let ghost reach = if rings < 0 { 0 } else { rings };
    let ghost center = m.space_to_chunk(position@);
    let ghost candidates = spawn_candidates(center, rings);
    let ghost before = old(world).loaded();
    let ghost test = missing_from(before);
    proof {
        layout.lemma_wf();
        world.lemma_wf();
    }
    let current_chunk = layout.space_to_chunk(position);
    assert(current_chunk@.id() == current_chunk);
    let mut orders: Vec<SpawnOrder> = Vec::new();
    if let Some(last_loaded) = site.last_loaded_chunk {
        if last_loaded == current_chunk {
            proof {
                assert(world@ =~= old(world)@ + ordered_chunks(orders@));
            }
            return orders;
        }
    }
    let mut asked: Vec<ChunkId> = layout.get_chunk_neighbors(&current_chunk, config.spawn_ring_radius);
    asked.insert(0, current_chunk);
    proof {
        assert(chunk_points(asked@) =~= candidates);
        assert(candidates.take(0).filter(test) =~= Seq::<ChunkPoint>::empty()) by {
            assert(candidates.take(0) =~= Seq::<ChunkPoint>::empty());
            reveal(Seq::filter);
        }
        assert(order_points(orders@) =~= Seq::<ChunkPoint>::empty());
        assert(world@ =~= old(world)@ + ordered_chunks(orders@));
    }
    let mut i: usize = 0;
    while i < asked.len()
        invariant
            layout.wf(),
            m == layout@,
            m.valid(),
            rings == config.spawn_ring_radius as int,
            reach == if rings < 0 { 0 } else { rings },
            center == m.space_to_chunk(position@),
            candidates == spawn_candidates(center, rings),
            spawn_area_covered(m, center, rings),
            before == old(world).loaded(),
            test == missing_from(before),
            chunk_points(asked@) == candidates,
            i <= asked@.len(),
            world.wf(),
            world.within(m),
            order_points(orders@) == candidates.take(i as int).filter(test),
            orders_placed(m, orders@),
            world@ == old(world)@ + ordered_chunks(orders@),
            forall|id: ChunkId| #[trigger]
                world.loaded().contains(id) <==> before.contains(id) || exists|k: int|
                    0 <= k < i && asked@[k] == id,
        decreases asked@.len() - i,
    {
        let chunk = asked[i];
        let ghost world_before = *world;
        let ghost orders_before = orders@;
        proof {
            assert(chunk@ == candidates[i as int]);
            assert(chunk@.id() == chunk);
            lemma_candidates(center, rings, i as int, i as int);
            lemma_covered_between(
                m,
                center.shifted(-reach, -reach),
                center.shifted(reach, reach),
                chunk@,
            );
            assert forall|k: int| 0 <= k < i implies asked@[k] != chunk by {
                lemma_candidates(center, rings, k, i as int);
                assert(asked@[k]@ == candidates[k]);
            }
            assert(candidates.take(i + 1) =~= candidates.take(i as int).push(chunk@));
            candidates.take(i as int).lemma_filter_push(chunk@, test);
        }
        if world.try_spawn(&chunk) {
            let position = layout.chunk_to_space(&chunk);
            let origin = layout.get_origin(&chunk);
            orders.push(SpawnOrder { chunk, position, origin });
            proof {
                assert(test(chunk@));
                assert(order_points(orders@) =~= order_points(orders_before).push(chunk@));
                assert(ordered_chunks(orders@) =~= ordered_chunks(orders_before).push(
                    spawned_chunk(chunk),
                ));
                assert(world@ =~= old(world)@ + ordered_chunks(orders@));
                assert forall|k: int| 0 <= k < world@.len() implies m.covers(
                    (#[trigger] world@[k]).id@,
                ) by {
                    if k < world_before@.len() {
                        assert(world@[k] == world_before@[k]);
                    }
                }
            }
        } else {
            proof {
                assert(!test(chunk@));
            }
        }
        proof {
            assert forall|id: ChunkId| #[trigger]
                world.loaded().contains(id) <==> before.contains(id) || exists|k: int|
                    0 <= k < i + 1 && asked@[k] == id by {
                if id == chunk {
                    assert(asked@[i as int] == id);
                }
            }
        }
        i = i + 1;
    }
    site.fresh = true;
    site.last_loaded_chunk = Some(current_chunk);
    proof {
        assert(candidates.take(candidates.len() as int) =~= candidates);
        let missing = candidates.filter(test);
        assert(ordered_chunks(orders@) =~= spawned_around(old(world)@, center, rings)) by {
            assert forall|k: int| 0 <= k < orders@.len() implies spawned_chunk(orders@[k].chunk)
                == spawned_chunk(missing[k].id()) by {
                assert(order_points(orders@)[k] == orders@[k].chunk@);
                assert(orders@[k].chunk@.id() == orders@[k].chunk);
            }
        }
        assert forall|id: ChunkId| #[trigger]
            world.loaded().contains(id) <==> before.contains(id) || candidates.contains(id@) by {
            if exists|k: int| 0 <= k < asked@.len() && asked@[k] == id {
                let k = choose|k: int| 0 <= k < asked@.len() && asked@[k] == id;
                assert(candidates[k] == id@);
            }
            if candidates.contains(id@) {
                let k = choose|k: int| 0 <= k < candidates.len() && candidates[k] == id@;
                assert(asked@[k]@ == id@);
                assert(asked@[k] == id);
            }
        }
    }
    orders
}

} // verus!
