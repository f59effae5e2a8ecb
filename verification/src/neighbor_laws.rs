//! What holds of every neighborhood: its size, its extent, that no chunk is
//! named twice, and that being a neighbor is mutual.

use vstd::prelude::*;
use crate::ids::ChunkPoint;
use crate::neighbors::{neighbors, ring_member, ring_prefix};

verus! {

/// The number of chunks within `distance` rings of a chunk, itself excluded.
pub open spec fn neighbor_count(distance: int) -> int {
    if distance <= 0 {
        0
    } else {
        (2 * distance + 1) * (2 * distance + 1) - 1
    }
}

/// A neighborhood of `distance` rings holds `(2 * distance + 1)^2 - 1` chunks.
pub proof fn lemma_neighbor_count(center: ChunkPoint, distance: int)
    ensures
        neighbors(center, distance).len() == neighbor_count(distance),
    decreases distance,
{
    if distance > 0 {
        lemma_neighbor_count(center, distance - 1);
        assert(ring_prefix(center, distance, 8 * distance).len() == 8 * distance);
        assert(neighbor_count(distance) == neighbor_count(distance - 1) + 8 * distance)
            by (nonlinear_arith)
            requires
                distance >= 1,
                neighbor_count(distance) == (2 * distance + 1) * (2 * distance + 1) - 1,
                neighbor_count(distance - 1) == if distance - 1 <= 0 {
                    0
                } else {
                    (2 * (distance - 1) + 1) * (2 * (distance - 1) + 1) - 1
                },
        ;
    }
}

/// What stands at `index` of a neighborhood: an entry of the next smaller
/// neighborhood, or a member of the outermost ring.
pub proof fn lemma_neighbor_at(center: ChunkPoint, distance: int, index: int)
    requires
        distance >= 1,
        0 <= index < neighbor_count(distance),
    ensures
        index < neighbor_count(distance - 1) ==> neighbors(center, distance)[index] == neighbors(
            center,
            distance - 1,
        )[index],
        index >= neighbor_count(distance - 1) ==> neighbors(center, distance)[index]
            == ring_member(center, distance, index - neighbor_count(distance - 1)),
        neighbor_count(distance) == neighbor_count(distance - 1) + 8 * distance,
{
    lemma_neighbor_count(center, distance);
    lemma_neighbor_count(center, distance - 1);
    assert(ring_prefix(center, distance, 8 * distance).len() == 8 * distance);
}

/// Every member of ring `ring` is at Chebyshev distance `ring` from the center.
pub proof fn lemma_ring_member_distance(center: ChunkPoint, ring: int, index: int)
    requires
        ring >= 1,
        0 <= index < 8 * ring,
    ensures
        ring_member(center, ring, index).chebyshev(center) == ring,
{
}

/// Two places of one ring hold two different chunks.
pub proof fn lemma_ring_injective(center: ChunkPoint, ring: int, i: int, j: int)
    requires
        ring >= 1,
        0 <= i < 8 * ring,
        0 <= j < 8 * ring,
        ring_member(center, ring, i) == ring_member(center, ring, j),
    ensures
        i == j,
{
}

/// The place in ring `ring` of the chunk at offset `(dx, dy)` from the center.
pub open spec fn ring_index(ring: int, dx: int, dy: int) -> int {
    if dx == ring && dy < ring {
        4 * (dy + ring)
    } else if dy == ring && dx > -ring {
        4 * (ring - dx) + 1
    } else if dx == -ring && dy > -ring {
        4 * (ring - dy) + 2
    } else {
        4 * (dx + ring) + 3
    }
}

/// Every chunk at Chebyshev distance `ring` from the center is a member of
/// ring `ring`, at the place that `ring_index` gives.
pub proof fn lemma_ring_complete(center: ChunkPoint, ring: int, chunk: ChunkPoint)
    requires
        ring >= 1,
        chunk.chebyshev(center) == ring,
    ensures
        0 <= ring_index(ring, chunk.x - center.x, chunk.y - center.y) < 8 * ring,
        ring_member(center, ring, ring_index(ring, chunk.x - center.x, chunk.y - center.y))
            == chunk,
{
}

/// Every entry of a neighborhood is between one and `distance` rings away
/// from the center.
pub proof fn lemma_neighbor_distance(center: ChunkPoint, distance: int, index: int)
    requires
        0 <= index < neighbors(center, distance).len(),
    ensures
        1 <= neighbors(center, distance)[index].chebyshev(center) <= distance,
    decreases distance,
{
    lemma_neighbor_count(center, distance);
    if distance >= 1 {
        lemma_neighbor_at(center, distance, index);
        lemma_neighbor_count(center, distance - 1);
        if index < neighbor_count(distance - 1) {
            lemma_neighbor_distance(center, distance - 1, index);
        } else {
            lemma_ring_member_distance(center, distance, index - neighbor_count(distance - 1));
        }
    }
}

/// A neighborhood holds exactly the chunks between one and `distance` rings
/// away from the center.
pub proof fn lemma_neighbors_are_the_rings(center: ChunkPoint, distance: int, chunk: ChunkPoint)
    ensures
        neighbors(center, distance).contains(chunk) <==> 1 <= chunk.chebyshev(center) <= distance,
    decreases distance,
{
    let all = neighbors(center, distance);
    lemma_neighbor_count(center, distance);
    if all.contains(chunk) {
        let index = choose|index: int| 0 <= index < all.len() && all[index] == chunk;
        lemma_neighbor_distance(center, distance, index);
    }
    if 1 <= chunk.chebyshev(center) <= distance {
        lemma_neighbor_count(center, distance - 1);
        if chunk.chebyshev(center) == distance {
            lemma_ring_complete(center, distance, chunk);
            let place = ring_index(distance, chunk.x - center.x, chunk.y - center.y);
            lemma_neighbor_at(center, distance, neighbor_count(distance - 1) + place);
            assert(all[neighbor_count(distance - 1) + place] == chunk);
        } else {
            lemma_neighbors_are_the_rings(center, distance - 1, chunk);
            let inner = neighbors(center, distance - 1);
            let index = choose|index: int| 0 <= index < inner.len() && inner[index] == chunk;
            lemma_neighbor_at(center, distance, index);
            assert(all[index] == chunk);
        }
    }
}

/// No chunk stands twice in a neighborhood.
pub proof fn lemma_neighbors_distinct(center: ChunkPoint, distance: int, i: int, j: int)
    requires
        0 <= i < neighbors(center, distance).len(),
        0 <= j < neighbors(center, distance).len(),
        neighbors(center, distance)[i] == neighbors(center, distance)[j],
    ensures
        i == j,
    decreases distance,
{
    lemma_neighbor_count(center, distance);
    if distance >= 1 {
        lemma_neighbor_count(center, distance - 1);
        lemma_neighbor_at(center, distance, i);
        lemma_neighbor_at(center, distance, j);
        let inner = neighbor_count(distance - 1);
        if i < inner && j < inner {
            lemma_neighbors_distinct(center, distance - 1, i, j);
        } else if i >= inner && j >= inner {
            lemma_ring_injective(center, distance, i - inner, j - inner);
        } else if i < inner {
            lemma_neighbor_distance(center, distance - 1, i);
            lemma_ring_member_distance(center, distance, j - inner);
        } else {
            lemma_neighbor_distance(center, distance - 1, j);
            lemma_ring_member_distance(center, distance, i - inner);
        }
    }
}

/// A neighborhood names no chunk twice.
pub proof fn lemma_neighbors_no_duplicates(center: ChunkPoint, distance: int)
    ensures
        neighbors(center, distance).no_duplicates(),
{
    let all = neighbors(center, distance);
    assert forall|i: int, j: int| 0 <= i < all.len() && 0 <= j < all.len() && i != j implies all[i]
        != all[j] by {
        if all[i] == all[j] {
            lemma_neighbors_distinct(center, distance, i, j);
        }
    }
}

/// The Chebyshev distance does not depend on the direction.
pub proof fn lemma_chebyshev_symmetric(a: ChunkPoint, b: ChunkPoint)
    ensures
        a.chebyshev(b) == b.chebyshev(a),
{
}

/// Being a neighbor is mutual: each chunk of a neighborhood has the center in
/// its own neighborhood of the same number of rings.
pub proof fn lemma_neighbors_mutual(center: ChunkPoint, distance: int, chunk: ChunkPoint)
    requires
        neighbors(center, distance).contains(chunk),
    ensures
        chunk.chebyshev(center) <= distance,
        neighbors(chunk, distance).contains(center),
{
    lemma_neighbors_are_the_rings(center, distance, chunk);
    lemma_chebyshev_symmetric(center, chunk);
    lemma_neighbors_are_the_rings(chunk, distance, center);
}

} // verus!
