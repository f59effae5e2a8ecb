//! Ring-by-ring enumeration of the chunks around a chunk.
//!
//! Ring `r` around a chunk is the set of chunks at Chebyshev distance exactly
//! `r`. One edge of the ring, of `2r` chunks, is generated and turned by one,
//! two, three and four quarter turns, which yields the `8r` chunks of the ring.

use vstd::prelude::*;
use crate::ids::{ChunkId, ChunkPoint, chunk_points};
use crate::layout::CubicVoxelLayout;

verus! {

/// The offset of the `step`-th chunk of the generating edge of ring `ring`,
/// after `turn + 1` quarter turns.
pub open spec fn ring_offset(ring: int, step: int, turn: int) -> (int, int) {
    let ex = -ring + step;
    let ey = -ring;
    if turn == 0 {
        (-ey, ex)
    } else if turn == 1 {
        (-ex, -ey)
    } else if turn == 2 {
        (ey, -ex)
    } else {
        (ex, ey)
    }
}

/// The `index`-th chunk of ring `ring` around `center`: the four turns of one
/// step of the edge stand together.
pub open spec fn ring_member(center: ChunkPoint, ring: int, index: int) -> ChunkPoint {
    let offset = ring_offset(ring, index / 4, index % 4);
    center.shifted(offset.0, offset.1)
}

/// The first `count` chunks of ring `ring` around `center`.
pub open spec fn ring_prefix(center: ChunkPoint, ring: int, count: int) -> Seq<ChunkPoint> {
    Seq::new(count as nat, |index: int| ring_member(center, ring, index))
}

/// The chunks of rings `1` to `distance` around `center`, ring by ring.
pub open spec fn neighbors(center: ChunkPoint, distance: int) -> Seq<ChunkPoint>
    decreases distance,
{
    if distance <= 0 {
        Seq::empty()
    } else {
        neighbors(center, distance - 1) + ring_prefix(center, distance, 8 * distance)
    }
}

/// Whether a chunk and all its neighbors up to `distance` rings away have
/// coordinates that fit a chunk identifier.
pub open spec fn neighborhood_representable(center: ChunkPoint, distance: int) -> bool {
    distance >= 1 ==> center.shifted(-distance, -distance).representable() && center.shifted(
        distance,
        distance,
    ).representable()
}

impl CubicVoxelLayout {
    /// All chunks within `distance` rings of `chunk`, itself excluded, ring by
    /// ring and nearest ring first. A `distance` below one gives no chunk.
    pub fn get_chunk_neighbors(&self, chunk: &ChunkId, distance: i32) -> (result: Vec<ChunkId>)
        requires
            neighborhood_representable(chunk@, distance as int),
        ensures
            chunk_points(result@) == neighbors(chunk@, distance as int),
    {
        let ghost c = chunk@;
        let mut result: Vec<ChunkId> = Vec::new();
        let last: i64 = distance as i64;
        let mut ring: i64 = 1;
        proof {
            assert(neighbors(c, 0) =~= Seq::<ChunkPoint>::empty());
            assert(chunk_points(result@) =~= neighbors(c, 0));
            assert(distance < 1 ==> neighbors(c, distance as int) =~= Seq::<ChunkPoint>::empty());
        }
        while ring <= last
            invariant
                c == chunk@,
                last == distance,
                neighborhood_representable(c, distance as int),
                1 <= ring,
                ring <= last + 1 || last < 1,
                chunk_points(result@) == neighbors(c, if last < 1 { last as int } else { ring - 1 }),
            decreases last + 1 - ring,
        {
            let mut step: i64 = 0;
            proof {
                assert(chunk_points(result@) =~= neighbors(c, ring - 1) + ring_prefix(
                    c,
                    ring as int,
                    0,
                ));
            }
            while step < 2 * ring
                invariant
                    c == chunk@,
                    last == distance,
                    neighborhood_representable(c, distance as int),
                    1 <= ring <= last,
                    0 <= step <= 2 * ring,
                    chunk_points(result@) == neighbors(c, ring - 1) + ring_prefix(
                        c,
                        ring as int,
                        4 * step,
                    ),
                decreases 2 * ring - step,
            {
                let ex: i64 = -ring + step;
                let ey: i64 = -ring;
                let ghost before = chunk_points(result@);
                result.push(*chunk + ChunkId::new((-ey) as i32, ex as i32));
                result.push(*chunk + ChunkId::new((-ex) as i32, (-ey) as i32));
                result.push(*chunk + ChunkId::new(ey as i32, (-ex) as i32));
                result.push(*chunk + ChunkId::new(ex as i32, ey as i32));
                proof {
                    let grown = neighbors(c, ring - 1) + ring_prefix(c, ring as int, 4 * (step + 1));
                    let base = neighbors(c, ring - 1).len() as int;
                    assert(ring_prefix(c, ring as int, 4 * step).len() == 4 * step);
                    assert(ring_prefix(c, ring as int, 4 * (step + 1)).len() == 4 * step + 4);
                    assert(before.len() == base + 4 * step);
                    assert(chunk_points(result@).len() == grown.len());
                    assert forall|k: int| 0 <= k < grown.len() implies chunk_points(result@)[k]
                        == grown[k] by {
                        if k < before.len() {
                            assert(chunk_points(result@)[k] == before[k]);
                        } else {
                            let j = k - base;
                            assert(4 * step <= j < 4 * step + 4);
                            assert(j / 4 == step);
                            assert(grown[k] == ring_member(c, ring as int, j));
                        }
                    }
                    assert(chunk_points(result@) =~= grown);
                }
                step = step + 1;
            }
            proof {
                assert(4 * (2 * ring) == 8 * ring);
            }
            ring = ring + 1;
        }
        result
    }
}

} // verus!
