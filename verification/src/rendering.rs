//! The render-side tile grid: sprite-shape codes on the same bottom-up
//! storage and affine mapping as the collision grid.
//!
//! Drawing itself (sprite sheets, screen projection) is I/O and lives
//! with the caller; the library owns only the tile-code data.

use vstd::prelude::*;

use crate::fixed::abs_i;
use crate::geometry::TilePoint;
use crate::tilemap::{MAX_GRID_DIM, MAX_TILE_SIZE};

verus! {

/// A dense grid of sprite-shape codes (0 = empty), stored bottom-up,
/// with the same anchoring as a collision grid.
pub struct TilemapRenderer {
    pub tile_width: i64,
    pub tile_height: i64,
    pub tiles: Vec<Vec<u32>>,
    pub origin: TilePoint,
}

impl TilemapRenderer {
    /// Positive, bounded tile sizes; bounded grid dimensions and origin.
    pub open spec fn wf(&self) -> bool {
        &&& 1 <= self.tile_width <= MAX_TILE_SIZE
        &&& 1 <= self.tile_height <= MAX_TILE_SIZE
        &&& self.tiles@.len() <= MAX_GRID_DIM
        &&& forall|i: int|
            0 <= i < self.tiles@.len() ==> (#[trigger] self.tiles@[i])@.len() <= MAX_GRID_DIM
        &&& abs_i(self.origin.x as int) <= MAX_GRID_DIM
        &&& abs_i(self.origin.y as int) <= MAX_GRID_DIM
    }

    /// Build a render grid from a template given top-down: the rows are
    /// reversed into the grid's bottom-up storage.
    pub fn from_components(
        template: &Vec<Vec<u32>>,
        tile_width: i64,
        tile_height: i64,
        origin: TilePoint,
    ) -> (r: TilemapRenderer)
        requires
            1 <= tile_width <= MAX_TILE_SIZE,
            1 <= tile_height <= MAX_TILE_SIZE,
            template@.len() <= MAX_GRID_DIM,
            forall|i: int|
                0 <= i < template@.len() ==> (#[trigger] template@[i])@.len() <= MAX_GRID_DIM,
            abs_i(origin.x as int) <= MAX_GRID_DIM,
            abs_i(origin.y as int) <= MAX_GRID_DIM,
        ensures
            r.wf(),
            r.tile_width == tile_width,
            r.tile_height == tile_height,
            r.origin == origin,
            r.tiles@.len() == template@.len(),
            forall|i: int|
                0 <= i < template@.len() ==> (#[trigger] r.tiles@[i])@ == template@[template@.len()
                    - 1 - i]@,
    {
        let mut tiles: Vec<Vec<u32>> = Vec::new();
        let mut i: usize = template.len();
        while i > 0
            invariant
                i <= template@.len(),
                tiles@.len() == template@.len() - i,
                forall|k: int|
                    0 <= k < tiles@.len() ==> (#[trigger] tiles@[k])@ == template@[template@.len()
                        - 1 - k]@,
            decreases i,
        {
            i = i - 1;
            let mut row: Vec<u32> = Vec::new();
            let mut j: usize = 0;
            while j < template[i].len()
                invariant
                    i < template@.len(),
                    j <= template@[i as int]@.len(),
                    row@ == template@[i as int]@.subrange(0, j as int),
                decreases template@[i as int]@.len() - j,
            {
                row.push(template[i][j]);
                j = j + 1;
                proof {
                    assert(row@ =~= template@[i as int]@.subrange(0, j as int));
                }
            }
            proof {
                assert(row@ =~= template@[i as int]@);
            }
            tiles.push(row);
        }
        TilemapRenderer { tile_width, tile_height, tiles, origin }
    }

    /// The stored code rows (bottom-up).
    pub fn tiles(&self) -> (r: &Vec<Vec<u32>>)
        ensures
            r == &self.tiles,
    {
        &self.tiles
    }

    pub fn origin(&self) -> (r: TilePoint)
        ensures
            r == self.origin,
    {
        self.origin
    }

    pub fn tile_width(&self) -> (r: i64)
        ensures
            r == self.tile_width,
    {
        self.tile_width
    }

    pub fn tile_height(&self) -> (r: i64)
        ensures
            r == self.tile_height,
    {
        self.tile_height
    }
}

} // verus!
