//! The affine mapping between tile-grid indices and world coordinates.
//!
//! A grid is anchored by an integer `origin`: tile `(origin.x, origin.y)`
//! sits at world `(0, 0)`, and each axis scales by the (positive) tile
//! width or height. Continuous tile coordinates are fixed-point values
//! like world coordinates: `SCALE` units make one tile.

use vstd::prelude::*;

use crate::fixed::{div_t, mul_div_spec, round_i, sat_i32, SCALE};

verus! {

/// Coordinates handed to the mapping functions stay within this many
/// fixed-point units (a million world units): a machine limit that keeps
/// every intermediate product inside an `i64`.
pub const MAX_COORD: i64 = 1_000_000_000_000;

/// Tile sizes stay within this many fixed-point units.
pub const MAX_TILE_SIZE: i64 = 1_000_000_000_000;

/// Grids have at most this many rows and columns, and origins this
/// magnitude.
pub const MAX_GRID_DIM: i64 = 1_000_000;

/// A continuous tile coordinate mapped to world space:
/// `(t - origin * SCALE) * tile_size / SCALE`.
pub open spec fn tile_to_world_coord(t: int, origin: int, tile_size: int) -> int {
    mul_div_spec(t - origin * SCALE, tile_size, SCALE as int)
}

/// A world coordinate mapped to a continuous tile coordinate:
/// `w * SCALE / tile_size + origin * SCALE`.
pub open spec fn world_to_tile_coord(w: int, origin: int, tile_size: int) -> int {
    mul_div_spec(w, SCALE as int, tile_size) + origin * SCALE
}

/// Half of a rectangle extent, in continuous tile units.
pub open spec fn half_extent_tiles(extent: int, tile_size: int) -> int {
    mul_div_spec(div_t(extent, 2), SCALE as int, tile_size)
}

/// The nearest tile index of a continuous tile coordinate, saturated to
/// the i32 range.
pub open spec fn nearest_tile(t: int) -> int {
    sat_i32(round_i(t))
}

/// The inclusive tile-index window covered by a rectangle along one axis:
/// the rounded lower and upper bounds around the center's tile coordinate.
/// Rounding (ties away from zero) rather than floor/ceil is deliberate:
/// it yields a symmetric, slightly shrunk overlap window.
pub open spec fn segment_bounds(center_w: int, extent: int, origin: int, tile_size: int) -> (
    int,
    int,
) {
    let c = world_to_tile_coord(center_w, origin, tile_size);
    let h = half_extent_tiles(extent, tile_size);
    (nearest_tile(c - h), nearest_tile(c + h))
}

/// The tile-to-world and world-to-tile mappings invert each other: a
/// world coordinate that the tile size divides evenly (once scaled)
/// maps into tile space and back to exactly itself, for any origin.
/// On a coordinate the tile size does not divide, truncation loses the
/// sub-tile remainder and the round trip lands on the nearest exactly
/// representable coordinate instead.
pub proof fn lemma_world_round_trip(w: int, origin: int, tile_size: int)
    requires
        1 <= tile_size <= MAX_TILE_SIZE,
        crate::fixed::abs_i(w) <= MAX_COORD,
        (w * SCALE) % tile_size == 0,
    ensures
        tile_to_world_coord(world_to_tile_coord(w, origin, tile_size), origin, tile_size) == w,
{
    let q = div_t(w * SCALE, tile_size);
    crate::fixed::lemma_div_t_mul_exact(w * SCALE, tile_size);
    assert(q * tile_size == w * SCALE);
    assert(world_to_tile_coord(w, origin, tile_size) == q + origin * SCALE);
    assert((q + origin * SCALE - origin * SCALE) * tile_size == w * SCALE) by (nonlinear_arith)
        requires
            q * tile_size == w * SCALE,
    ;
    crate::fixed::lemma_div_t_exact(w, SCALE as int);
}

/// The inclusive tile-index footprint of a rectangle on a grid.
#[derive(Clone, Copy, PartialEq, Eq, Structural, Debug)]
pub struct TilemapSegment {
    pub left_bound: i32,
    pub right_bound: i32,
    pub bottom_bound: i32,
    pub top_bound: i32,
}

} // verus!
