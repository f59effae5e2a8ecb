//! What a streaming configuration must satisfy: the despawn distance has to
//! exceed the farthest chunk that a site spawns, or chunks at the edge would
//! be spawned and despawned in turn.

use vstd::prelude::*;
use crate::ids::ChunkPoint;
use crate::layout::CubicVoxelLayout;
use crate::model::LayoutModel;
use crate::streaming::StreamingConfig;

verus! {

/// Why a streaming configuration is not accepted.
#[derive(Clone, Copy, PartialEq, Eq, Structural, Debug)]
pub enum ConfigError {
    /// The number of rings to spawn is negative.
    NegativeSpawnRingRadius,
    /// The despawn distance is zero.
    ZeroDespawnDistance,
    /// The despawn distance does not exceed the distance to the farthest
    /// chunk that a site spawns.
    DespawnWithinSpawnFootprint,
}

/// The square of the distance, in world units, from the center of a site's
/// chunk to the center of the farthest chunk that it spawns: the corner of
/// the outermost ring.
pub open spec fn spawn_footprint_squared(m: LayoutModel, rings: int) -> int {
    2 * ((rings * m.chunk_side_length()) * (rings * m.chunk_side_length()))
}

/// What `StreamingConfig::check` answers: the first failed condition in a
/// fixed order, or nothing when all hold.
pub open spec fn config_rejection(m: LayoutModel, config: StreamingConfig) -> Option<ConfigError> {
    if config.spawn_ring_radius < 0 {
        Some(ConfigError::NegativeSpawnRingRadius)
    } else if config.despawn_distance == 0 {
        Some(ConfigError::ZeroDespawnDistance)
    } else if config.despawn_distance * config.despawn_distance <= spawn_footprint_squared(
        m,
        config.spawn_ring_radius as int,
    ) {
        Some(ConfigError::DespawnWithinSpawnFootprint)
    } else {
        None
    }
}

/// No chunk within `rings` rings of a chunk is farther from it than the
/// spawn footprint.
pub proof fn lemma_spawned_within_footprint(
    m: LayoutModel,
    rings: int,
    center: ChunkPoint,
    chunk: ChunkPoint,
)
    requires
        m.valid(),
        rings >= 0,
        chunk.chebyshev(center) <= rings,
    ensures
        m.chunk_distance_squared(chunk, center) <= spawn_footprint_squared(m, rings),
{
    let full = m.full_length();
    let side = m.voxel_side_length;
    let edge = m.chunk_side_length();
    let o = m.origin;
    let dx = chunk.x - center.x;
    let dy = chunk.y - center.y;
    let p = m.chunk_to_space(chunk);
    let q = m.chunk_to_space(center);
    assert(p.x - q.x == dx * edge && p.z - q.z == dy * edge && p.y - q.y == 0) by (nonlinear_arith)
        requires
            p.x == (chunk.x * full - o.x * full) * side,
            q.x == (center.x * full - o.x * full) * side,
            p.z == (chunk.y * full - o.y * full) * side,
            q.z == (center.y * full - o.y * full) * side,
            p.y == (0 - 0) * side,
            q.y == (0 - 0) * side,
            dx == chunk.x - center.x,
            dy == chunk.y - center.y,
            edge == full * side,
    ;
    let reach = rings * edge;
    assert((dx * edge) * (dx * edge) <= reach * reach && (dy * edge) * (dy * edge) <= reach
        * reach) by (nonlinear_arith)
        requires
            -rings <= dx <= rings,
            -rings <= dy <= rings,
            edge >= 0,
            reach == rings * edge,
    ;
    assert((p.y - q.y) * (p.y - q.y) == 0) by (nonlinear_arith)
        requires
            p.y - q.y == 0,
    ;
}

/// With an accepted configuration, no chunk within the spawn rings of a site
/// is beyond the despawn distance of that site: what a site spawns is not
/// despawned while the site stays.
pub proof fn lemma_accepted_config_keeps_spawned(
    m: LayoutModel,
    config: StreamingConfig,
    center: ChunkPoint,
    chunk: ChunkPoint,
)
    requires
        m.valid(),
        config_rejection(m, config) is None,
        chunk.chebyshev(center) <= config.spawn_ring_radius,
    ensures
        m.chunk_distance_squared(chunk, center) < config.despawn_distance
            * config.despawn_distance,
{
    lemma_spawned_within_footprint(m, config.spawn_ring_radius as int, center, chunk);
}

impl StreamingConfig {
    /// Says whether the configuration can be used with `layout`, and if not,
    /// why.
    pub fn check(&self, layout: &CubicVoxelLayout) -> (result: Result<(), ConfigError>)
        requires
            layout.wf(),
        ensures
            result == match config_rejection(layout@, *self) {
                None => Ok::<(), ConfigError>(()),
                Some(error) => Err(error),
            },
    {
        if self.spawn_ring_radius < 0 {
            return Err(ConfigError::NegativeSpawnRingRadius);
        }
        if self.despawn_distance == 0 {
            return Err(ConfigError::ZeroDespawnDistance);
        }
        let edge: u64 = layout.chunk_side_length();
        proof {
            layout.lemma_wf();
            assert(layout@.chunk_side_length() <= 65533 * 0x7fff_ffff) by (nonlinear_arith)
                requires
                    layout@.chunk_side_length() == layout@.full_length()
                        * layout@.voxel_side_length,
                    0 <= layout@.full_length() <= 65533,
                    0 <= layout@.voxel_side_length <= 0x7fff_ffff,
            ;
            assert(self.spawn_ring_radius * edge <= 0x7fff_ffff * (65533 * 0x7fff_ffff))
                by (nonlinear_arith)
                requires
                    0 <= self.spawn_ring_radius <= 0x7fff_ffff,
                    0 <= edge <= 65533 * 0x7fff_ffff,
            ;
            assert(self.despawn_distance * self.despawn_distance <= 0xffff_ffff_ffff_ffff
                * 0xffff_ffff_ffff_ffff) by (nonlinear_arith)
                requires
                    0 <= self.despawn_distance <= 0xffff_ffff_ffff_ffff,
            ;
        }
        let reach: u128 = (self.spawn_ring_radius as u128) * (edge as u128);
        let limit: u128 = (self.despawn_distance as u128) * (self.despawn_distance as u128);
        let within = match reach.checked_mul(reach) {
            Some(square) => match square.checked_mul(2) {
                Some(footprint) => limit <= footprint,
                None => true,
            },
            None => true,
        };
        proof {
            let footprint = spawn_footprint_squared(layout@, self.spawn_ring_radius as int);
            assert(footprint == 2 * (reach * reach));
            assert(reach * reach >= 0) by (nonlinear_arith);
        }
        if within {
            Err(ConfigError::DespawnWithinSpawnFootprint)
        } else {
            Ok(())
        }
    }
}

} // verus!
