//! Tile-grid collision queries and dynamic-body penetration resolution.

use vstd::prelude::*;

use crate::fixed::{
    abs_i, abs_i64, div_t, lemma_div_t_bound, lemma_div_t_exact, lemma_mul_div_fits, mul_div,
    mul_div_spec, round_to_index, SCALE,
};
use crate::geometry::{Rect, TilePoint, Vec2};
use crate::physics::PhysicsPoint;
use crate::tilemap::{
    half_extent_tiles, nearest_tile, tile_to_world_coord, world_to_tile_coord, TilemapSegment,
    MAX_COORD, MAX_GRID_DIM, MAX_TILE_SIZE,
};

verus! {

/// Some run in the list covers column `cc`.
pub open spec fn run_covers(runs: Seq<(int, int)>, cc: int) -> bool {
    exists|k: int| 0 <= k < runs.len() && (#[trigger] runs[k]).0 <= cc <= runs[k].1
}

/// Some row-tagged run in the list sits on row `r` and covers column
/// `c`.
pub open spec fn tagged_run_covers(runs: Seq<(int, int, int)>, c: int, r: int) -> bool {
    exists|k: int|
        0 <= k < runs.len() && (#[trigger] runs[k]).2 == r && runs[k].0 <= c <= runs[k].1
}

/// A dense occupancy grid with an affine tile-to-world mapping. Rows are
/// stored bottom-up: row index increases upward in world space.
pub struct TilemapCollider {
    pub tile_width: i64,
    pub tile_height: i64,
    pub tiles: Vec<Vec<bool>>,
    pub origin: TilePoint,
}

impl TilemapCollider {
    /// Positive, bounded tile sizes; bounded grid dimensions and origin
    /// (machine limits that keep the mapping arithmetic inside `i64`).
    pub open spec fn wf(&self) -> bool {
        &&& 1 <= self.tile_width <= MAX_TILE_SIZE
        &&& 1 <= self.tile_height <= MAX_TILE_SIZE
        &&& self.tiles@.len() <= MAX_GRID_DIM
        &&& forall|i: int|
            0 <= i < self.tiles@.len() ==> (#[trigger] self.tiles@[i])@.len() <= MAX_GRID_DIM
        &&& abs_i(self.origin.x as int) <= MAX_GRID_DIM
        &&& abs_i(self.origin.y as int) <= MAX_GRID_DIM
    }

    /// Tile `(c, r)` exists in the grid and is occupied.
    pub open spec fn occupied(&self, c: int, r: int) -> bool {
        &&& 0 <= r < self.tiles@.len()
        &&& 0 <= c < self.tiles@[r]@.len()
        &&& self.tiles@[r]@[c]
    }

    /// `rect` is the world rectangle of tile `(c, r)`.
    pub open spec fn is_tile_rect(&self, rect: Rect, c: int, r: int) -> bool {
        &&& rect.x == (c - self.origin.x) * self.tile_width
        &&& rect.y == (r - self.origin.y) * self.tile_height
        &&& rect.w == self.tile_width
        &&& rect.h == self.tile_height
    }

    /// Build a collider from a template given top-down: the rows are
    /// reversed into the grid's bottom-up storage.
    pub fn from_components(
        template: &Vec<Vec<bool>>,
        tile_width: i64,
        tile_height: i64,
        origin: TilePoint,
    ) -> (r: TilemapCollider)
        requires
            1 <= tile_width <= MAX_TILE_SIZE,
            1 <= tile_height <= MAX_TILE_SIZE,
            template@.len() <= MAX_GRID_DIM,
            forall|i: int|
                0 <= i < template@.len() ==> (#[trigger] template@[i])@.len() <= MAX_GRID_DIM,
            abs_i(origin.x as int) <= MAX_GRID_DIM,
            abs_i(origin.y as int) <= MAX_GRID_DIM,
        ensures
            r.wf(),
            r.tile_width == tile_width,
            r.tile_height == tile_height,
            r.origin == origin,
            r.tiles@.len() == template@.len(),
            forall|i: int|
                0 <= i < template@.len() ==> (#[trigger] r.tiles@[i])@ == template@[template@.len()
                    - 1 - i]@,
    {
        let mut tiles: Vec<Vec<bool>> = Vec::new();
        let mut i: usize = template.len();
        while i > 0
            invariant
                i <= template@.len(),
                tiles@.len() == template@.len() - i,
                forall|k: int|
                    0 <= k < tiles@.len() ==> (#[trigger] tiles@[k])@ == template@[template@.len()
                        - 1 - k]@,
            decreases i,
        {
            i = i - 1;
            let mut row: Vec<bool> = Vec::new();
            let mut j: usize = 0;
            while j < template[i].len()
                invariant
                    i < template@.len(),
                    j <= template@[i as int]@.len(),
                    row@ == template@[i as int]@.subrange(0, j as int),
                decreases template@[i as int]@.len() - j,
            {
                row.push(template[i][j]);
                j = j + 1;
                proof {
                    assert(row@ =~= template@[i as int]@.subrange(0, j as int));
                }
            }
            proof {
                assert(row@ =~= template@[i as int]@);
            }
            tiles.push(row);
        }
        TilemapCollider { tile_width, tile_height, tiles, origin }
    }

    /// Build a collider with unit tiles anchored at the zero origin.
    pub fn from_template(template: &Vec<Vec<bool>>) -> (r: TilemapCollider)
        requires
            template@.len() <= MAX_GRID_DIM,
            forall|i: int|
                0 <= i < template@.len() ==> (#[trigger] template@[i])@.len() <= MAX_GRID_DIM,
        ensures
            r.wf(),
            r.tile_width == SCALE,
            r.tile_height == SCALE,
            r.origin == (TilePoint { x: 0, y: 0 }),
            r.tiles@.len() == template@.len(),
            forall|i: int|
                0 <= i < template@.len() ==> (#[trigger] r.tiles@[i])@ == template@[template@.len()
                    - 1 - i]@,
    {
        TilemapCollider::from_components(template, SCALE, SCALE, TilePoint { x: 0, y: 0 })
    }

    /// Build a collider from a render grid: a tile collides exactly
    /// where the render grid holds a nonzero sprite code. Rows are
    /// copied as stored (both grids are bottom-up).
    pub fn from_renderer(tilemap: &crate::rendering::TilemapRenderer) -> (r: TilemapCollider)
        requires
            tilemap.wf(),
        ensures
            r.wf(),
            r.tile_width == tilemap.tile_width,
            r.tile_height == tilemap.tile_height,
            r.origin == tilemap.origin,
            r.tiles@.len() == tilemap.tiles@.len(),
            forall|i: int|
                0 <= i < tilemap.tiles@.len() ==> (#[trigger] r.tiles@[i])@.len()
                    == tilemap.tiles@[i]@.len(),
            forall|i: int, j: int|
                0 <= i < tilemap.tiles@.len() && 0 <= j < tilemap.tiles@[i]@.len()
                    ==> (#[trigger] r.tiles@[i]@[j]) == (tilemap.tiles@[i]@[j] != 0),
    {
        let mut tiles: Vec<Vec<bool>> = Vec::new();
        let mut i: usize = 0;
        while i < tilemap.tiles.len()
            invariant
                tilemap.wf(),
                i <= tilemap.tiles@.len(),
                tiles@.len() == i,
                forall|k: int|
                    0 <= k < i ==> (#[trigger] tiles@[k])@.len() == tilemap.tiles@[k]@.len(),
                forall|k: int, j: int|
                    0 <= k < i && 0 <= j < tilemap.tiles@[k]@.len() ==> (#[trigger] tiles@[k]@[j])
                        == (tilemap.tiles@[k]@[j] != 0),
            decreases tilemap.tiles@.len() - i,
        {
            let mut row: Vec<bool> = Vec::new();
            let mut j: usize = 0;
            while j < tilemap.tiles[i].len()
                invariant
                    i < tilemap.tiles@.len(),
                    j <= tilemap.tiles@[i as int]@.len(),
                    row@.len() == j,
                    forall|t: int|
                        0 <= t < j ==> (#[trigger] row@[t]) == (tilemap.tiles@[i as int]@[t] != 0),
                decreases tilemap.tiles@[i as int]@.len() - j,
            {
                row.push(tilemap.tiles[i][j] != 0);
                j = j + 1;
            }
            tiles.push(row);
            i = i + 1;
        }
        TilemapCollider {
            tile_width: tilemap.tile_width,
            tile_height: tilemap.tile_height,
            tiles,
            origin: tilemap.origin,
        }
    }

    /// Re-anchor the grid.
    pub fn set_origin(&mut self, origin: TilePoint)
        ensures
            *final(self) == (TilemapCollider { origin, ..*old(self) }),
    {
        self.origin = origin;
    }

    pub fn origin(&self) -> (r: TilePoint)
        ensures
            r == self.origin,
    {
        self.origin
    }

    pub fn tile_width(&self) -> (r: i64)
        ensures
            r == self.tile_width,
    {
        self.tile_width
    }

    pub fn tile_height(&self) -> (r: i64)
        ensures
            r == self.tile_height,
    {
        self.tile_height
    }

    /// The stored occupancy rows (bottom-up).
    pub fn tiles_ref(&self) -> (r: &Vec<Vec<bool>>)
        ensures
            r == &self.tiles,
    {
        &self.tiles
    }

    /// Map a continuous tile coordinate to world space.
    pub fn tilemap_to_world(&self, point: Vec2) -> (r: Vec2)
        requires
            self.wf(),
            abs_i(point.x as int) <= MAX_COORD,
            abs_i(point.y as int) <= MAX_COORD,
        ensures
            r.x == tile_to_world_coord(point.x as int, self.origin.x as int, self.tile_width as int),
            r.y == tile_to_world_coord(
                point.y as int,
                self.origin.y as int,
                self.tile_height as int,
            ),
    {
        let ox: i64 = (self.origin.x as i64) * SCALE;
        let oy: i64 = (self.origin.y as i64) * SCALE;
        proof {
            lemma_mul_div_fits(
                point.x - ox,
                self.tile_width as int,
                SCALE as int,
                2 * MAX_COORD as int,
                MAX_TILE_SIZE as int,
            );
            lemma_mul_div_fits(
                point.y - oy,
                self.tile_height as int,
                SCALE as int,
                2 * MAX_COORD as int,
                MAX_TILE_SIZE as int,
            );
        }
        Vec2 {
            x: mul_div(point.x - ox, self.tile_width, SCALE),
            y: mul_div(point.y - oy, self.tile_height, SCALE),
        }
    }

    /// Map a world point to a continuous tile coordinate.
    pub fn world_to_tilemap(&self, point: Vec2) -> (r: Vec2)
        requires
            self.wf(),
            abs_i(point.x as int) <= MAX_COORD,
            abs_i(point.y as int) <= MAX_COORD,
        ensures
            r.x == world_to_tile_coord(point.x as int, self.origin.x as int, self.tile_width as int),
            r.y == world_to_tile_coord(
                point.y as int,
                self.origin.y as int,
                self.tile_height as int,
            ),
    {
        proof {
            lemma_mul_div_fits(
                point.x as int,
                SCALE as int,
                self.tile_width as int,
                MAX_COORD as int,
                SCALE as int,
            );
            lemma_mul_div_fits(
                point.y as int,
                SCALE as int,
                self.tile_height as int,
                MAX_COORD as int,
                SCALE as int,
            );
        }
        Vec2 {
            x: mul_div(point.x, SCALE, self.tile_width) + (self.origin.x as i64) * SCALE,
            y: mul_div(point.y, SCALE, self.tile_height) + (self.origin.y as i64) * SCALE,
        }
    }

    /// The inclusive tile-index window a rectangle covers: round the
    /// center's tile coordinate minus/plus the half extent on each axis
    /// (ties away from zero).
    pub fn rect_overlap(&self, rect: Rect) -> (seg: TilemapSegment)
        requires
            self.wf(),
            abs_i(rect.x as int) <= MAX_COORD,
            abs_i(rect.y as int) <= MAX_COORD,
            abs_i(rect.w as int) <= MAX_COORD,
            abs_i(rect.h as int) <= MAX_COORD,
        ensures
            ({
                let c = world_to_tile_coord(rect.x as int, self.origin.x as int, self.tile_width as int);
                let h = half_extent_tiles(rect.w as int, self.tile_width as int);
                seg.left_bound == nearest_tile(c - h) && seg.right_bound == nearest_tile(c + h)
            }),
            ({
                let c = world_to_tile_coord(rect.y as int, self.origin.y as int, self.tile_height as int);
                let h = half_extent_tiles(rect.h as int, self.tile_height as int);
                seg.bottom_bound == nearest_tile(c - h) && seg.top_bound == nearest_tile(c + h)
            }),
    {
        proof {
            lemma_mul_div_fits(
                rect.x as int,
                SCALE as int,
                self.tile_width as int,
                MAX_COORD as int,
                SCALE as int,
            );
            lemma_mul_div_fits(
                rect.y as int,
                SCALE as int,
                self.tile_height as int,
                MAX_COORD as int,
                SCALE as int,
            );
            lemma_div_t_bound(rect.w as int, 2);
            lemma_div_t_bound(rect.h as int, 2);
            lemma_mul_div_fits(
                div_t(rect.w as int, 2),
                SCALE as int,
                self.tile_width as int,
                MAX_COORD as int,
                SCALE as int,
            );
            lemma_mul_div_fits(
                div_t(rect.h as int, 2),
                SCALE as int,
                self.tile_height as int,
                MAX_COORD as int,
                SCALE as int,
            );
        }
        let local_x: i64 = mul_div(rect.x, SCALE, self.tile_width) + (self.origin.x as i64) * SCALE;
        let local_y: i64 = mul_div(rect.y, SCALE, self.tile_height) + (self.origin.y as i64)
            * SCALE;
        let half_local_w: i64 = mul_div(mul_div(rect.w, 1, 2), SCALE, self.tile_width);
        let half_local_h: i64 = mul_div(mul_div(rect.h, 1, 2), SCALE, self.tile_height);

        TilemapSegment {
            left_bound: round_to_index(local_x - half_local_w),
            right_bound: round_to_index(local_x + half_local_w),
            bottom_bound: round_to_index(local_y - half_local_h),
            top_bound: round_to_index(local_y + half_local_h),
        }
    }

    /// The nearest tile index of a world point (ties away from zero).
    pub fn point_overlap(&self, point: Vec2) -> (r: TilePoint)
        requires
            self.wf(),
            abs_i(point.x as int) <= MAX_COORD,
            abs_i(point.y as int) <= MAX_COORD,
        ensures
            r.x as int == nearest_tile(
                world_to_tile_coord(point.x as int, self.origin.x as int, self.tile_width as int),
            ),
            r.y as int == nearest_tile(
                world_to_tile_coord(point.y as int, self.origin.y as int, self.tile_height as int),
            ),
    {
        let tilemap_point = self.world_to_tilemap(point);
        TilePoint { x: round_to_index(tilemap_point.x), y: round_to_index(tilemap_point.y) }
    }

    /// The world rectangle of one tile.
    pub fn tile_to_world(&self, point: TilePoint) -> (r: Rect)
        requires
            self.wf(),
            abs_i(point.x as int) <= MAX_GRID_DIM,
            abs_i(point.y as int) <= MAX_GRID_DIM,
        ensures
            self.is_tile_rect(r, point.x as int, point.y as int),
    {
        proof {
            lemma_tile_world_exact(
                point.x as int,
                self.origin.x as int,
                self.tile_width as int,
            );
            lemma_tile_world_exact(
                point.y as int,
                self.origin.y as int,
                self.tile_height as int,
            );
        }
        let tx: i64 = (point.x as i64) * SCALE;
        let ty: i64 = (point.y as i64) * SCALE;
        let x = mul_div(tx - (self.origin.x as i64) * SCALE, self.tile_width, SCALE);
        let y = mul_div(ty - (self.origin.y as i64) * SCALE, self.tile_height, SCALE);
        Rect { x, y, w: self.tile_width, h: self.tile_height }
    }

    /// The world rectangle spanned by an inclusive tile-index segment.
    pub fn segment_to_world(&self, segment: &TilemapSegment) -> (r: Rect)
        requires
            self.wf(),
            abs_i(segment.left_bound as int) <= MAX_GRID_DIM,
            abs_i(segment.right_bound as int) <= MAX_GRID_DIM,
            abs_i(segment.bottom_bound as int) <= MAX_GRID_DIM,
            abs_i(segment.top_bound as int) <= MAX_GRID_DIM,
        ensures
            r.x == tile_to_world_coord(
                (segment.left_bound + segment.right_bound) * (SCALE as int / 2),
                self.origin.x as int,
                self.tile_width as int,
            ),
            r.y == tile_to_world_coord(
                (segment.bottom_bound + segment.top_bound) * (SCALE as int / 2),
                self.origin.y as int,
                self.tile_height as int,
            ),
            r.w == self.tile_width * (segment.right_bound - segment.left_bound + 1),
            r.h == self.tile_height * (segment.top_bound - segment.bottom_bound + 1),
    {
        let tmid_x: i64 = ((segment.left_bound as i64) + (segment.right_bound as i64)) * (SCALE
            / 2);
        let tmid_y: i64 = ((segment.bottom_bound as i64) + (segment.top_bound as i64)) * (SCALE
            / 2);
        proof {
            lemma_mul_div_fits(
                tmid_x - self.origin.x as int * SCALE,
                self.tile_width as int,
                SCALE as int,
                2 * MAX_COORD as int,
                MAX_TILE_SIZE as int,
            );
            lemma_mul_div_fits(
                tmid_y - self.origin.y as int * SCALE,
                self.tile_height as int,
                SCALE as int,
                2 * MAX_COORD as int,
                MAX_TILE_SIZE as int,
            );
            lemma_div_t_one(
                self.tile_width as int * (segment.right_bound - segment.left_bound + 1),
            );
            lemma_div_t_one(
                self.tile_height as int * (segment.top_bound - segment.bottom_bound + 1),
            );
            lemma_mul_div_fits(
                self.tile_width as int,
                segment.right_bound - segment.left_bound + 1,
                1,
                MAX_TILE_SIZE as int,
                2 * MAX_GRID_DIM + 1,
            );
            lemma_mul_div_fits(
                self.tile_height as int,
                segment.top_bound - segment.bottom_bound + 1,
                1,
                MAX_TILE_SIZE as int,
                2 * MAX_GRID_DIM + 1,
            );
        }
        let x = mul_div(tmid_x - (self.origin.x as i64) * SCALE, self.tile_width, SCALE);
        let y = mul_div(tmid_y - (self.origin.y as i64) * SCALE, self.tile_height, SCALE);
        let w = mul_div(
            self.tile_width,
            (segment.right_bound as i64) - (segment.left_bound as i64) + 1,
            1,
        );
        let h = mul_div(
            self.tile_height,
            (segment.top_bound as i64) - (segment.bottom_bound as i64) + 1,
            1,
        );
        Rect { x, y, w, h }
    }

    /// The tile nearest to the world point `(px, py)` is occupied.
    pub open spec fn point_hits(&self, px: int, py: int) -> bool {
        self.occupied(
            nearest_tile(world_to_tile_coord(px, self.origin.x as int, self.tile_width as int)),
            nearest_tile(world_to_tile_coord(py, self.origin.y as int, self.tile_height as int)),
        )
    }

    /// Whether the tile nearest to a world point is occupied; points
    /// rounding outside the grid (or to negative indices) are free.
    pub fn check_collision(&self, point: Vec2) -> (r: bool)
        requires
            self.wf(),
            abs_i(point.x as int) <= MAX_COORD,
            abs_i(point.y as int) <= MAX_COORD,
        ensures
            r == self.point_hits(point.x as int, point.y as int),
    {
        let tile = self.point_overlap(point);
        if tile.x < 0 || tile.y < 0 {
            return false;
        }
        let row = tile.y as usize;
        if row < self.tiles.len() {
            let col = tile.x as usize;
            if col < self.tiles[row].len() {
                return self.tiles[row][col];
            }
        }
        false
    }

    /// The tile-index window (left, right, bottom, top) of a rectangle,
    /// as computed by [`TilemapCollider::rect_overlap`].
    pub open spec fn overlap_seg(&self, rect: Rect) -> (int, int, int, int) {
        let cx = world_to_tile_coord(rect.x as int, self.origin.x as int, self.tile_width as int);
        let hx = half_extent_tiles(rect.w as int, self.tile_width as int);
        let cy = world_to_tile_coord(rect.y as int, self.origin.y as int, self.tile_height as int);
        let hy = half_extent_tiles(rect.h as int, self.tile_height as int);
        (nearest_tile(cx - hx), nearest_tile(cx + hx), nearest_tile(cy - hy), nearest_tile(cy + hy))
    }

    /// The occupied cells covered by a rectangle's tile-index window:
    /// what [`TilemapCollider::get_collision_tiles`] returns, as cells.
    pub open spec fn tiles_of(&self, rect: Rect) -> Seq<(int, int)> {
        let seg = self.overlap_seg(rect);
        self.cells_in(seg.2, seg.3, seg.0, seg.1)
    }

    /// The occupied cells `(column, row)` of row `r` between columns
    /// `c_lo` and `c_hi` (inclusive), in ascending column order.
    pub open spec fn row_cells(&self, r: int, c_lo: int, c_hi: int) -> Seq<(int, int)>
        decreases c_hi - c_lo + 1,
    {
        if c_hi < c_lo {
            Seq::empty()
        } else {
            self.row_cells(r, c_lo, c_hi - 1) + if self.occupied(c_hi, r) {
                seq![(c_hi, r)]
            } else {
                Seq::empty()
            }
        }
    }

    /// The occupied cells of rows `r_lo..=r_hi` within columns
    /// `c_lo..=c_hi`, row by row from the bottom.
    pub open spec fn cells_in(&self, r_lo: int, r_hi: int, c_lo: int, c_hi: int) -> Seq<
        (int, int),
    >
        decreases r_hi - r_lo + 1,
    {
        if r_hi < r_lo {
            Seq::empty()
        } else {
            self.cells_in(r_lo, r_hi - 1, c_lo, c_hi) + self.row_cells(r_hi, c_lo, c_hi)
        }
    }

    /// A row's cell list holds a cell exactly when it is an occupied
    /// tile of that row inside the scanned column window.
    proof fn lemma_row_cells_contains(&self, r: int, c_lo: int, c_hi: int, c: int, rr: int)
        ensures
            self.row_cells(r, c_lo, c_hi).contains((c, rr)) <==> (rr == r && c_lo <= c <= c_hi
                && self.occupied(c, r)),
        decreases c_hi - c_lo + 1,
    {
        if c_hi < c_lo {
        } else {
            self.lemma_row_cells_contains(r, c_lo, c_hi - 1, c, rr);
            let prefix = self.row_cells(r, c_lo, c_hi - 1);
            let last = if self.occupied(c_hi, r) {
                seq![(c_hi, r)]
            } else {
                Seq::<(int, int)>::empty()
            };
            assert(self.row_cells(r, c_lo, c_hi) == prefix + last);
            if rr == r && c_lo <= c <= c_hi && self.occupied(c, r) {
                if c < c_hi {
                    let i = choose|i: int| 0 <= i < prefix.len() && prefix[i] == (c, rr);
                    assert((prefix + last)[i] == (c, rr));
                } else {
                    assert(last[0] == (c, rr));
                    assert((prefix + last)[prefix.len() as int] == (c, rr));
                }
            }
            if (prefix + last).contains((c, rr)) {
                let i = choose|i: int| 0 <= i < (prefix + last).len() && (prefix + last)[i] == (
                c,
                rr,
                );
                if i < prefix.len() {
                    assert(prefix[i] == (c, rr));
                } else {
                    assert(last[i - prefix.len()] == (c, rr));
                }
            }
        }
    }

    /// The window query's cell list holds a cell exactly when it is an
    /// occupied tile inside the window: nothing is missed and nothing
    /// extra is reported.
    pub proof fn lemma_cells_in_exactly_occupied(
        &self,
        r_lo: int,
        r_hi: int,
        c_lo: int,
        c_hi: int,
        c: int,
        r: int,
    )
        ensures
            self.cells_in(r_lo, r_hi, c_lo, c_hi).contains((c, r)) <==> (r_lo <= r <= r_hi && c_lo
                <= c <= c_hi && self.occupied(c, r)),
        decreases r_hi - r_lo + 1,
    {
        if r_hi < r_lo {
        } else {
            self.lemma_cells_in_exactly_occupied(r_lo, r_hi - 1, c_lo, c_hi, c, r);
            self.lemma_row_cells_contains(r_hi, c_lo, c_hi, c, r);
            let prefix = self.cells_in(r_lo, r_hi - 1, c_lo, c_hi);
            let last = self.row_cells(r_hi, c_lo, c_hi);
            assert(self.cells_in(r_lo, r_hi, c_lo, c_hi) == prefix + last);
            if r_lo <= r <= r_hi && c_lo <= c <= c_hi && self.occupied(c, r) {
                if r < r_hi {
                    let i = choose|i: int| 0 <= i < prefix.len() && prefix[i] == (c, r);
                    assert((prefix + last)[i] == (c, r));
                } else {
                    let i = choose|i: int| 0 <= i < last.len() && last[i] == (c, r);
                    assert((prefix + last)[prefix.len() + i] == (c, r));
                }
            }
            if (prefix + last).contains((c, r)) {
                let i = choose|i: int| 0 <= i < (prefix + last).len() && (prefix + last)[i] == (
                c,
                r,
                );
                if i < prefix.len() {
                    assert(prefix[i] == (c, r));
                } else {
                    assert(last[i - prefix.len()] == (c, r));
                }
            }
        }
    }

    /// The tile query returns exactly the occupied tiles inside the
    /// rectangle's window: nothing is missed and nothing extra appears.
    pub proof fn lemma_tiles_of_exactly_occupied(&self, rect: Rect, c: int, r: int)
        ensures
            self.tiles_of(rect).contains((c, r)) <==> ({
                let seg = self.overlap_seg(rect);
                seg.2 <= r <= seg.3 && seg.0 <= c <= seg.1 && self.occupied(c, r)
            }),
    {
        let seg = self.overlap_seg(rect);
        self.lemma_cells_in_exactly_occupied(seg.2, seg.3, seg.0, seg.1, c, r);
    }

    /// A row outside the grid holds no occupied cells.
    proof fn lemma_row_cells_empty(&self, r: int, c_lo: int, c_hi: int)
        requires
            !(0 <= r < self.tiles@.len()),
        ensures
            self.row_cells(r, c_lo, c_hi) == Seq::<(int, int)>::empty(),
        decreases c_hi - c_lo + 1,
    {
        if c_hi >= c_lo {
            self.lemma_row_cells_empty(r, c_lo, c_hi - 1);
        }
        assert(self.row_cells(r, c_lo, c_hi) =~= Seq::<(int, int)>::empty());
    }

    /// The world rectangle of every occupied tile inside the rectangle's
    /// tile-index window (clamped to the grid), bottom row first, left to
    /// right within a row.
    pub fn get_collision_tiles(&self, rect: Rect) -> (result: Vec<Rect>)
        requires
            self.wf(),
            abs_i(rect.x as int) <= MAX_COORD,
            abs_i(rect.y as int) <= MAX_COORD,
            abs_i(rect.w as int) <= MAX_COORD,
            abs_i(rect.h as int) <= MAX_COORD,
        ensures
            ({
                let cells = self.tiles_of(rect);
                &&& result@.len() == cells.len()
                &&& forall|k: int|
                    0 <= k < cells.len() ==> self.is_tile_rect(
                        #[trigger] result@[k],
                        cells[k].0,
                        cells[k].1,
                    )
            }),
    {
        let seg = self.rect_overlap(rect);
        let left: i64 = seg.left_bound as i64;
        let right: i64 = seg.right_bound as i64;
        let bottom: i64 = seg.bottom_bound as i64;
        let top: i64 = seg.top_bound as i64;

        let mut result: Vec<Rect> = Vec::new();
        let mut row: i64 = bottom;
        while row <= top
            invariant
                self.wf(),
                i32::MIN <= left <= i32::MAX,
                i32::MIN <= right <= i32::MAX,
                i32::MIN <= bottom <= i32::MAX,
                i32::MIN <= top <= i32::MAX,
                bottom <= row <= top + 1 || (top < bottom && row == bottom),
                result@.len() == self.cells_in(bottom as int, row - 1, left as int, right as int).len(),
                forall|k: int|
                    0 <= k < result@.len() ==> self.is_tile_rect(
                        #[trigger] result@[k],
                        self.cells_in(bottom as int, row - 1, left as int, right as int)[k].0,
                        self.cells_in(bottom as int, row - 1, left as int, right as int)[k].1,
                    ),
            decreases top - row + 1,
        {
            if row >= 0 && (row as usize) < self.tiles.len() {
                let mut col: i64 = left;
                while col <= right
                    invariant
                        self.wf(),
                        0 <= row < self.tiles@.len(),
                        i32::MIN <= left <= i32::MAX,
                        i32::MIN <= right <= i32::MAX,
                        i32::MIN <= bottom <= i32::MAX,
                        i32::MIN <= top <= i32::MAX,
                        bottom <= row <= top,
                        left <= col <= right + 1 || (right < left && col == left),
                        ({
                            let done = self.cells_in(
                                bottom as int,
                                row - 1,
                                left as int,
                                right as int,
                            ) + self.row_cells(row as int, left as int, col - 1);
                            &&& result@.len() == done.len()
                            &&& forall|k: int|
                                0 <= k < done.len() ==> self.is_tile_rect(
                                    #[trigger] result@[k],
                                    done[k].0,
                                    done[k].1,
                                )
                        }),
                    decreases right - col + 1,
                {
                    if col >= 0 {
                        let row_len: usize = self.tiles[row as usize].len();
                        proof {
                            assert(self.tiles@[row as int]@.len() <= MAX_GRID_DIM);
                        }
                        if col < row_len as i64 && self.tiles[row as usize][col as usize] {
                            let tile_rect = self.tile_to_world(
                                TilePoint { x: col as i32, y: row as i32 },
                            );
                            result.push(tile_rect);
                        }
                    }
                    col = col + 1;
                }
                proof {
                    assert(self.cells_in(bottom as int, row as int, left as int, right as int)
                        =~= self.cells_in(bottom as int, row - 1, left as int, right as int)
                        + self.row_cells(row as int, left as int, right as int));
                }
            } else {
                proof {
                    self.lemma_row_cells_empty(row as int, left as int, right as int);
                    assert(self.cells_in(bottom as int, row as int, left as int, right as int)
                        =~= self.cells_in(bottom as int, row - 1, left as int, right as int));
                }
            }
            row = row + 1;
        }
        result
    }

    /// The maximal runs of occupied tiles in row `r`, scanning columns
    /// `c` through `c_hi` with `cur` the run currently open (its first
    /// and last column). Negative columns are skipped; a run closes at
    /// the first empty or out-of-grid tile. Runs come out in ascending
    /// column order as inclusive `(first, last)` column pairs.
    pub open spec fn row_runs(&self, r: int, c: int, c_hi: int, cur: Option<(int, int)>) -> Seq<
        (int, int),
    >
        decreases c_hi - c + 1,
    {
        if c > c_hi {
            match cur {
                Option::None => Seq::empty(),
                Option::Some(run) => seq![run],
            }
        } else if c < 0 {
            self.row_runs(r, c + 1, c_hi, cur)
        } else if self.occupied(c, r) {
            let start = match cur {
                Option::None => c,
                Option::Some(run) => run.0,
            };
            self.row_runs(r, c + 1, c_hi, Option::Some((start, c)))
        } else {
            (match cur {
                Option::None => Seq::<(int, int)>::empty(),
                Option::Some(run) => seq![run],
            }) + self.row_runs(r, c + 1, c_hi, Option::None)
        }
    }

    /// A row outside the grid yields no runs.
    proof fn lemma_row_runs_empty(&self, r: int, c: int, c_hi: int)
        requires
            !(0 <= r < self.tiles@.len()),
        ensures
            self.row_runs(r, c, c_hi, Option::None) == Seq::<(int, int)>::empty(),
        decreases c_hi - c + 1,
    {
        if c <= c_hi {
            self.lemma_row_runs_empty(r, c + 1, c_hi);
        }
        assert(self.row_runs(r, c, c_hi, Option::None) =~= Seq::<(int, int)>::empty());
    }

    /// `rect` is the world rectangle of the run `(first, last)` of row `r`.
    pub open spec fn is_run_rect(&self, rect: Rect, run: (int, int), r: int) -> bool {
        &&& rect.x == tile_to_world_coord(
            (run.0 + run.1) * (SCALE as int / 2),
            self.origin.x as int,
            self.tile_width as int,
        )
        &&& rect.y == tile_to_world_coord(
            (r + r) * (SCALE as int / 2),
            self.origin.y as int,
            self.tile_height as int,
        )
        &&& rect.w == self.tile_width * (run.1 - run.0 + 1)
        &&& rect.h == self.tile_height
    }

    /// One world rectangle per maximal run of occupied tiles in row
    /// `row` between `left_bound` and `right_bound` (inclusive).
    fn get_row_rects(&self, row: i64, left_bound: i64, right_bound: i64) -> (result: Vec<Rect>)
        requires
            self.wf(),
            i32::MIN <= left_bound <= i32::MAX,
            i32::MIN <= right_bound <= i32::MAX,
        ensures
            ({
                let runs = self.row_runs(
                    row as int,
                    left_bound as int,
                    right_bound as int,
                    Option::None,
                );
                &&& result@.len() == runs.len()
                &&& forall|k: int|
                    0 <= k < runs.len() ==> self.is_run_rect(
                        #[trigger] result@[k],
                        runs[k],
                        row as int,
                    )
                &&& forall|k: int|
                    0 <= k < runs.len() ==> 0 <= (#[trigger] runs[k]).0 <= runs[k].1
                        < self.tiles@[row as int]@.len() && 0 <= row < self.tiles@.len()
            }),
    {
        let mut result: Vec<Rect> = Vec::new();
        if row < 0 || row >= self.tiles.len() as i64 {
            proof {
                self.lemma_row_runs_empty(row as int, left_bound as int, right_bound as int);
            }
            return result;
        }
        let ghost all_runs = self.row_runs(
            row as int,
            left_bound as int,
            right_bound as int,
            Option::None,
        );
        let ghost done: Seq<(int, int)> = Seq::empty();
        let mut current: Option<(i64, i64)> = None;
        let mut col: i64 = left_bound;
        proof {
            assert(done + all_runs =~= all_runs);
        }
        while col <= right_bound
            invariant
                self.wf(),
                0 <= row < self.tiles@.len(),
                left_bound <= col <= right_bound + 1 || (right_bound < left_bound && col
                    == left_bound),
                i32::MIN <= left_bound <= i32::MAX,
                i32::MIN <= right_bound <= i32::MAX,
                all_runs == self.row_runs(
                    row as int,
                    left_bound as int,
                    right_bound as int,
                    Option::None,
                ),
                all_runs == done + self.row_runs(
                    row as int,
                    col as int,
                    right_bound as int,
                    match current {
                        Option::None => Option::None,
                        Option::Some(p) => Option::Some((p.0 as int, p.1 as int)),
                    },
                ),
                match current {
                    Option::None => true,
                    Option::Some(p) => 0 <= p.0 <= p.1 < self.tiles@[row as int]@.len() && p.1
                        < col,
                },
                result@.len() == done.len(),
                forall|k: int|
                    0 <= k < done.len() ==> self.is_run_rect(
                        #[trigger] result@[k],
                        done[k],
                        row as int,
                    ),
                forall|k: int|
                    0 <= k < done.len() ==> 0 <= (#[trigger] done[k]).0 <= done[k].1
                        < self.tiles@[row as int]@.len(),
            decreases right_bound - col + 1,
        {
            if col >= 0 {
                let row_len: usize = self.tiles[row as usize].len();
                proof {
                    assert(self.tiles@[row as int]@.len() <= MAX_GRID_DIM);
                }
                let tile: bool = col < row_len as i64 && self.tiles[row as usize][col as usize];
                if tile {
                    current = match current {
                        None => Some((col, col)),
                        Some(p) => Some((p.0, col)),
                    };
                } else {
                    if let Some(p) = current {
                        let rect = self.segment_to_world(
                            &TilemapSegment {
                                left_bound: p.0 as i32,
                                right_bound: p.1 as i32,
                                bottom_bound: row as i32,
                                top_bound: row as i32,
                            },
                        );
                        proof {
                            assert(self.tile_height as int * (row - row + 1) == self.tile_height as int)
                    by (nonlinear_arith);
                            assert(self.is_run_rect(rect, (p.0 as int, p.1 as int), row as int));
                        }
                        result.push(rect);
                        proof {
                            let rest = self.row_runs(
                                row as int,
                                col + 1,
                                right_bound as int,
                                Option::None,
                            );
                            assert(done + (seq![(p.0 as int, p.1 as int)] + rest) =~= (done + seq![
                                (p.0 as int, p.1 as int),
                            ]) + rest);
                            done = done + seq![(p.0 as int, p.1 as int)];
                        }
                    } else {
                        proof {
                            let rest = self.row_runs(
                                row as int,
                                col + 1,
                                right_bound as int,
                                Option::None,
                            );
                            assert(Seq::<(int, int)>::empty() + rest =~= rest);
                        }
                    }
                    current = None;
                }
            }
            col = col + 1;
        }
        if let Some(p) = current {
            let rect = self.segment_to_world(
                &TilemapSegment {
                    left_bound: p.0 as i32,
                    right_bound: p.1 as i32,
                    bottom_bound: row as i32,
                    top_bound: row as i32,
                },
            );
            proof {
                assert(self.tile_height as int * (row - row + 1) == self.tile_height as int)
                    by (nonlinear_arith);
                assert(self.is_run_rect(rect, (p.0 as int, p.1 as int), row as int));
            }
            result.push(rect);
            proof {
                done = done + seq![(p.0 as int, p.1 as int)];
            }
        }
        proof {
            assert(all_runs =~= done);
        }
        result
    }

    /// The runs of rows `r_lo..=r_hi` within columns `c_lo..=c_hi`,
    /// tagged with their row: `(first, last, row)`.
    pub open spec fn rows_runs(&self, r_lo: int, r_hi: int, c_lo: int, c_hi: int) -> Seq<
        (int, int, int),
    >
        decreases r_hi - r_lo + 1,
    {
        if r_hi < r_lo {
            Seq::empty()
        } else {
            self.rows_runs(r_lo, r_hi - 1, c_lo, c_hi) + self.row_runs(
                r_hi,
                c_lo,
                c_hi,
                Option::None,
            ).map_values(|run: (int, int)| (run.0, run.1, r_hi))
        }
    }

    /// The row-tagged runs covered by a rectangle's tile-index window:
    /// what [`TilemapCollider::get_collision_lines`] returns, as runs.
    pub open spec fn lines_of(&self, rect: Rect) -> Seq<(int, int, int)> {
        let seg = self.overlap_seg(rect);
        self.rows_runs(seg.2, seg.3, seg.0, seg.1)
    }

    /// A stretch of columns with no occupied tile yields no runs.
    proof fn lemma_row_no_occupied(&self, r: int, c: int, c_hi: int)
        requires
            forall|cc: int| c <= cc <= c_hi ==> !(#[trigger] self.occupied(cc, r)),
        ensures
            self.row_runs(r, c, c_hi, Option::None) == Seq::<(int, int)>::empty(),
        decreases c_hi - c + 1,
    {
        if c <= c_hi {
            self.lemma_row_no_occupied(r, c + 1, c_hi);
        }
        assert(self.row_runs(r, c, c_hi, Option::None) =~= Seq::<(int, int)>::empty());
    }

    /// Scanning a window whose occupied tiles form the single block
    /// `[a, b]` yields exactly that one run, whatever phase the scan is
    /// in: before the block with no run open, inside it with the run
    /// open from `a`, or just past it with the full run open.
    proof fn lemma_row_single_block_from(
        &self,
        r: int,
        c: int,
        c_hi: int,
        a: int,
        b: int,
        cur: Option<(int, int)>,
    )
        requires
            0 <= a <= b <= c_hi,
            forall|cc: int| a <= cc <= b ==> #[trigger] self.occupied(cc, r),
            forall|cc: int|
                c <= cc <= c_hi && !(a <= cc <= b) ==> !(#[trigger] self.occupied(cc, r)),
            (c <= a && cur == Option::<(int, int)>::None) || (a < c <= b && cur == Option::Some(
                (a, c - 1),
            )) || (c == b + 1 && cur == Option::Some((a, b))),
        ensures
            self.row_runs(r, c, c_hi, cur) == seq![(a, b)],
        decreases c_hi - c + 1,
    {
        if c <= a {
            if c < 0 {
                self.lemma_row_single_block_from(r, c + 1, c_hi, a, b, cur);
            } else if c < a {
                self.lemma_row_single_block_from(r, c + 1, c_hi, a, b, Option::None);
                assert(Seq::<(int, int)>::empty() + self.row_runs(r, c + 1, c_hi, Option::None)
                    =~= self.row_runs(r, c + 1, c_hi, Option::None));
            } else {
                self.lemma_row_single_block_from(r, c + 1, c_hi, a, b, Option::Some((a, c)));
            }
        } else if c <= b {
            self.lemma_row_single_block_from(r, c + 1, c_hi, a, b, Option::Some((a, c)));
        } else {
            if c > c_hi {
                assert(self.row_runs(r, c, c_hi, cur) =~= seq![(a, b)]);
            } else {
                assert(!self.occupied(c, r));
                self.lemma_row_no_occupied(r, c + 1, c_hi);
                assert(seq![(a, b)] + Seq::<(int, int)>::empty() =~= seq![(a, b)]);
            }
        }
    }

    /// Every run the scan emits covers occupied tiles only, provided
    /// the run currently open does (and ends just left of the scan).
    proof fn lemma_row_runs_occupied_from(
        &self,
        r: int,
        c: int,
        c_hi: int,
        cur: Option<(int, int)>,
    )
        requires
            match cur {
                Option::None => true,
                Option::Some(run) => 0 <= run.0 <= run.1 && run.1 == c - 1 && forall|cc: int|
                    run.0 <= cc <= run.1 ==> #[trigger] self.occupied(cc, r),
            },
            c < 0 ==> cur == Option::<(int, int)>::None,
        ensures
            forall|k: int|
                0 <= k < self.row_runs(r, c, c_hi, cur).len() ==> {
                    let run = #[trigger] self.row_runs(r, c, c_hi, cur)[k];
                    0 <= run.0 <= run.1 && forall|cc: int|
                        run.0 <= cc <= run.1 ==> #[trigger] self.occupied(cc, r)
                },
        decreases c_hi - c + 1,
    {
        if c > c_hi {
            match cur {
                Option::None => {},
                Option::Some(run) => {
                    assert(self.row_runs(r, c, c_hi, cur) == seq![run]);
                    assert(self.row_runs(r, c, c_hi, cur)[0] == run);
                },
            }
        } else if c < 0 {
            self.lemma_row_runs_occupied_from(r, c + 1, c_hi, cur);
            assert(self.row_runs(r, c, c_hi, cur) == self.row_runs(r, c + 1, c_hi, cur));
        } else if self.occupied(c, r) {
            let start = match cur {
                Option::None => c,
                Option::Some(run) => run.0,
            };
            assert forall|cc: int| start <= cc <= c implies #[trigger] self.occupied(cc, r) by {}
            self.lemma_row_runs_occupied_from(r, c + 1, c_hi, Option::Some((start, c)));
            assert(self.row_runs(r, c, c_hi, cur) == self.row_runs(
                r,
                c + 1,
                c_hi,
                Option::Some((start, c)),
            ));
        } else {
            self.lemma_row_runs_occupied_from(r, c + 1, c_hi, Option::None);
            let front = match cur {
                Option::None => Seq::<(int, int)>::empty(),
                Option::Some(run) => seq![run],
            };
            let rest = self.row_runs(r, c + 1, c_hi, Option::None);
            assert(self.row_runs(r, c, c_hi, cur) == front + rest);
            assert forall|k: int| 0 <= k < (front + rest).len() implies {
                let run = #[trigger] (front + rest)[k];
                0 <= run.0 <= run.1 && forall|cc: int|
                    run.0 <= cc <= run.1 ==> #[trigger] self.occupied(cc, r)
            } by {
                if k >= front.len() {
                    assert((front + rest)[k] == rest[k - front.len()]);
                }
            }
        }
    }

    /// Every merged line of a window query covers occupied tiles only:
    /// a reported wall never spans an open tile.
    pub proof fn lemma_lines_cover_occupied(&self, rect: Rect)
        ensures
            forall|k: int|
                0 <= k < self.lines_of(rect).len() ==> {
                    let run = #[trigger] self.lines_of(rect)[k];
                    0 <= run.0 <= run.1 && forall|cc: int|
                        run.0 <= cc <= run.1 ==> #[trigger] self.occupied(cc, run.2)
                },
    {
        let seg = self.overlap_seg(rect);
        self.lemma_rows_runs_occupied(seg.2, seg.3, seg.0, seg.1);
    }

    /// [`TilemapCollider::lemma_row_runs_occupied_from`], row by row.
    proof fn lemma_rows_runs_occupied(&self, r_lo: int, r_hi: int, c_lo: int, c_hi: int)
        ensures
            forall|k: int|
                0 <= k < self.rows_runs(r_lo, r_hi, c_lo, c_hi).len() ==> {
                    let run = #[trigger] self.rows_runs(r_lo, r_hi, c_lo, c_hi)[k];
                    0 <= run.0 <= run.1 && forall|cc: int|
                        run.0 <= cc <= run.1 ==> #[trigger] self.occupied(cc, run.2)
                },
        decreases r_hi - r_lo + 1,
    {
        if r_hi < r_lo {
        } else {
            self.lemma_rows_runs_occupied(r_lo, r_hi - 1, c_lo, c_hi);
            self.lemma_row_runs_occupied_from(r_hi, c_lo, c_hi, Option::None);
            let prefix = self.rows_runs(r_lo, r_hi - 1, c_lo, c_hi);
            let row = self.row_runs(r_hi, c_lo, c_hi, Option::None);
            let tagged = row.map_values(|run: (int, int)| (run.0, run.1, r_hi));
            assert(self.rows_runs(r_lo, r_hi, c_lo, c_hi) == prefix + tagged);
            assert forall|k: int| 0 <= k < (prefix + tagged).len() implies {
                let run = #[trigger] (prefix + tagged)[k];
                0 <= run.0 <= run.1 && forall|cc: int|
                    run.0 <= cc <= run.1 ==> #[trigger] self.occupied(cc, run.2)
            } by {
                if k < prefix.len() {
                    assert((prefix + tagged)[k] == prefix[k]);
                } else {
                    assert((prefix + tagged)[k] == tagged[k - prefix.len()]);
                    assert(tagged[k - prefix.len()] == ((
                    row[k - prefix.len()].0,
                    row[k - prefix.len()].1,
                    r_hi,
                    )));
                }
            }
        }
    }

    /// Every occupied tile the scan still faces (and every tile of the
    /// run currently open) ends up covered by some emitted run.
    proof fn lemma_row_runs_complete_from(
        &self,
        r: int,
        c: int,
        c_hi: int,
        cur: Option<(int, int)>,
    )
        requires
            match cur {
                Option::None => true,
                Option::Some(run) => run.0 <= run.1 && run.1 == c - 1,
            },
            c < 0 ==> cur == Option::<(int, int)>::None,
        ensures
            forall|cc: int|
                c <= cc <= c_hi && self.occupied(cc, r) ==> #[trigger] run_covers(
                    self.row_runs(r, c, c_hi, cur),
                    cc,
                ),
            match cur {
                Option::None => true,
                Option::Some(run) => forall|cc: int|
                    run.0 <= cc <= run.1 ==> #[trigger] run_covers(
                        self.row_runs(r, c, c_hi, cur),
                        cc,
                    ),
            },
        decreases c_hi - c + 1,
    {
        let runs = self.row_runs(r, c, c_hi, cur);
        if c > c_hi {
            match cur {
                Option::None => {},
                Option::Some(run) => {
                    assert(runs == seq![run]);
                    assert forall|cc: int| run.0 <= cc <= run.1 implies #[trigger] run_covers(
                        runs,
                        cc,
                    ) by {
                        assert(runs[0] == run);
                    }
                },
            }
        } else if c < 0 {
            self.lemma_row_runs_complete_from(r, c + 1, c_hi, cur);
            assert(runs == self.row_runs(r, c + 1, c_hi, cur));
        } else if self.occupied(c, r) {
            let start = match cur {
                Option::None => c,
                Option::Some(run) => run.0,
            };
            self.lemma_row_runs_complete_from(r, c + 1, c_hi, Option::Some((start, c)));
            assert(runs == self.row_runs(r, c + 1, c_hi, Option::Some((start, c))));
        } else {
            self.lemma_row_runs_complete_from(r, c + 1, c_hi, Option::None);
            let front = match cur {
                Option::None => Seq::<(int, int)>::empty(),
                Option::Some(run) => seq![run],
            };
            let rest = self.row_runs(r, c + 1, c_hi, Option::None);
            assert(runs == front + rest);
            assert forall|cc: int|
                (c <= cc <= c_hi && self.occupied(cc, r)) || (match cur {
                    Option::None => false,
                    Option::Some(run) => run.0 <= cc <= run.1,
                }) implies #[trigger] run_covers(runs, cc) by {
                if c <= cc <= c_hi && self.occupied(cc, r) {
                    assert(run_covers(rest, cc));
                    let k = choose|k: int|
                        0 <= k < rest.len() && (#[trigger] rest[k]).0 <= cc <= rest[k].1;
                    assert(runs[front.len() + k] == rest[k]);
                } else {
                    match cur {
                        Option::None => {},
                        Option::Some(run) => {
                            assert(runs[0] == run);
                        },
                    }
                }
            }
        }
    }

    /// Row by row: every occupied tile inside the window is covered by
    /// some emitted run of its row.
    proof fn lemma_rows_runs_complete(&self, r_lo: int, r_hi: int, c_lo: int, c_hi: int)
        ensures
            forall|c: int, r: int|
                r_lo <= r <= r_hi && c_lo <= c <= c_hi && self.occupied(c, r)
                    ==> #[trigger] tagged_run_covers(
                    self.rows_runs(r_lo, r_hi, c_lo, c_hi),
                    c,
                    r,
                ),
        decreases r_hi - r_lo + 1,
    {
        if r_hi < r_lo {
        } else {
            self.lemma_rows_runs_complete(r_lo, r_hi - 1, c_lo, c_hi);
            self.lemma_row_runs_complete_from(r_hi, c_lo, c_hi, Option::None);
            let prefix = self.rows_runs(r_lo, r_hi - 1, c_lo, c_hi);
            let row = self.row_runs(r_hi, c_lo, c_hi, Option::None);
            let tagged = row.map_values(|run: (int, int)| (run.0, run.1, r_hi));
            assert(self.rows_runs(r_lo, r_hi, c_lo, c_hi) == prefix + tagged);
            assert forall|c: int, r: int|
                r_lo <= r <= r_hi && c_lo <= c <= c_hi && self.occupied(c, r)
                    implies #[trigger] tagged_run_covers(prefix + tagged, c, r) by {
                if r < r_hi {
                    assert(tagged_run_covers(prefix, c, r));
                    let k = choose|k: int|
                        0 <= k < prefix.len() && (#[trigger] prefix[k]).2 == r && prefix[k].0 <= c
                            <= prefix[k].1;
                    assert((prefix + tagged)[k] == prefix[k]);
                } else {
                    assert(run_covers(row, c));
                    let k = choose|k: int|
                        0 <= k < row.len() && (#[trigger] row[k]).0 <= c <= row[k].1;
                    assert(tagged[k] == ((row[k].0, row[k].1, r_hi)));
                    assert((prefix + tagged)[prefix.len() + k] == tagged[k]);
                }
            }
        }
    }

    /// Every occupied tile inside a window query's tile-index window is
    /// covered by one of the merged lines: together with
    /// [`TilemapCollider::lemma_lines_cover_occupied`], the lines cover
    /// exactly the cells that the tile query reports.
    pub proof fn lemma_lines_cover_all_occupied(&self, rect: Rect, c: int, r: int)
        ensures
            ({
                let seg = self.overlap_seg(rect);
                (seg.2 <= r <= seg.3 && seg.0 <= c <= seg.1 && self.occupied(c, r))
                    ==> tagged_run_covers(self.lines_of(rect), c, r)
            }),
    {
        let seg = self.overlap_seg(rect);
        self.lemma_rows_runs_complete(seg.2, seg.3, seg.0, seg.1);
    }

    /// Contiguous occupied tiles merge: when the occupied tiles of row
    /// `r` within the scanned window form one contiguous block, the row
    /// contributes a single wide run spanning the whole block, never
    /// several rectangles.
    pub proof fn lemma_contiguous_run_merges(&self, r: int, lo: int, hi: int, a: int, b: int)
        requires
            lo <= a,
            0 <= a <= b <= hi,
            forall|cc: int| a <= cc <= b ==> #[trigger] self.occupied(cc, r),
            forall|cc: int|
                lo <= cc <= hi && !(a <= cc <= b) ==> !(#[trigger] self.occupied(cc, r)),
        ensures
            self.row_runs(r, lo, hi, Option::None) == seq![(a, b)],
    {
        self.lemma_row_single_block_from(r, lo, hi, a, b, Option::None);
    }

    /// Per row of the rectangle's tile-index window, the maximal runs of
    /// occupied tiles merged into single wide world rectangles, bottom
    /// row first.
    pub fn get_collision_lines(&self, rect: Rect) -> (result: Vec<Rect>)
        requires
            self.wf(),
            abs_i(rect.x as int) <= MAX_COORD,
            abs_i(rect.y as int) <= MAX_COORD,
            abs_i(rect.w as int) <= MAX_COORD,
            abs_i(rect.h as int) <= MAX_COORD,
        ensures
            ({
                let runs = self.lines_of(rect);
                &&& result@.len() == runs.len()
                &&& forall|k: int|
                    0 <= k < runs.len() ==> self.is_run_rect(
                        #[trigger] result@[k],
                        (runs[k].0, runs[k].1),
                        runs[k].2,
                    )
                &&& forall|k: int|
                    0 <= k < runs.len() ==> 0 <= (#[trigger] runs[k]).0 <= runs[k].1
                        < self.tiles@[runs[k].2]@.len() && 0 <= runs[k].2 < self.tiles@.len()
            }),
    {
        let seg = self.rect_overlap(rect);
        let left: i64 = seg.left_bound as i64;
        let right: i64 = seg.right_bound as i64;
        let bottom: i64 = seg.bottom_bound as i64;
        let top: i64 = seg.top_bound as i64;

        let mut result: Vec<Rect> = Vec::new();
        let mut row: i64 = bottom;
        while row <= top
            invariant
                self.wf(),
                i32::MIN <= left <= i32::MAX,
                i32::MIN <= right <= i32::MAX,
                i32::MIN <= bottom <= i32::MAX,
                i32::MIN <= top <= i32::MAX,
                bottom <= row <= top + 1 || (top < bottom && row == bottom),
                result@.len() == self.rows_runs(bottom as int, row - 1, left as int, right as int).len(),
                forall|k: int|
                    0 <= k < result@.len() ==> self.is_run_rect(
                        #[trigger] result@[k],
                        (
                            self.rows_runs(bottom as int, row - 1, left as int, right as int)[k].0,
                            self.rows_runs(bottom as int, row - 1, left as int, right as int)[k].1,
                        ),
                        self.rows_runs(bottom as int, row - 1, left as int, right as int)[k].2,
                    ),
                forall|k: int|
                    0 <= k < result@.len() ==> 0 <= (#[trigger] self.rows_runs(
                        bottom as int,
                        row - 1,
                        left as int,
                        right as int,
                    )[k]).0 <= self.rows_runs(bottom as int, row - 1, left as int, right as int)[k].1
                        < self.tiles@[self.rows_runs(
                        bottom as int,
                        row - 1,
                        left as int,
                        right as int,
                    )[k].2]@.len() && 0 <= self.rows_runs(
                        bottom as int,
                        row - 1,
                        left as int,
                        right as int,
                    )[k].2 < self.tiles@.len(),
            decreases top - row + 1,
        {
            let mut row_result = self.get_row_rects(row, left, right);
            result.append(&mut row_result);
            row = row + 1;
        }
        result
    }
}

/// Overlaps smaller than this many fixed-point units count as a
/// near-miss, not a collision.
pub const TRIGGER_MAGNITUDE: i64 = 10;

/// An obstacle rectangle that penetration resolution accepts: bounded
/// center coordinates and bounded nonnegative extents.
pub open spec fn obstacle_in_range(r: Rect) -> bool {
    &&& abs_i(r.x as int) <= MAX_COORD / 2
    &&& abs_i(r.y as int) <= MAX_COORD / 2
    &&& 0 <= r.w <= MAX_COORD / 2
    &&& 0 <= r.h <= MAX_COORD / 2
}

/// The overlap depth of two extents along one axis: half the summed
/// extents minus the distance between the centers.
pub open spec fn overlap_mag(center_a: int, extent_a: int, center_b: int, extent_b: int) -> int {
    div_t(extent_a + extent_b, 2) - abs_i(center_a - center_b)
}

/// The position and velocity `(px, py, vx, vy)` of a dynamic body of
/// extent `w`×`h` after resolving one obstacle: the axis with the
/// smaller overlap separates; if its overlap exceeds the trigger
/// threshold, that axis's velocity is zeroed and the body is pushed to
/// the nearest non-overlapping position on the side it already leans to.
pub open spec fn resolve_step(
    px: int,
    py: int,
    vx: int,
    vy: int,
    w: int,
    h: int,
    ob: Rect,
) -> (int, int, int, int) {
    let mx = overlap_mag(px, w, ob.x as int, ob.w as int);
    let my = overlap_mag(py, h, ob.y as int, ob.h as int);
    if mx < my {
        if mx > TRIGGER_MAGNITUDE {
            (
                if px > ob.x {
                    ob.x + div_t(ob.w as int, 2) + div_t(w, 2)
                } else {
                    ob.x - div_t(ob.w as int, 2) - div_t(w, 2)
                },
                py,
                0,
                vy,
            )
        } else {
            (px, py, vx, vy)
        }
    } else {
        if my > TRIGGER_MAGNITUDE {
            (
                px,
                if py > ob.y {
                    ob.y + div_t(ob.h as int, 2) + div_t(h, 2)
                } else {
                    ob.y - div_t(ob.h as int, 2) - div_t(h, 2)
                },
                vx,
                0,
            )
        } else {
            (px, py, vx, vy)
        }
    }
}

/// The state after resolving the first `n` obstacles of `walls` in order.
pub open spec fn resolve_fold(
    px: int,
    py: int,
    vx: int,
    vy: int,
    w: int,
    h: int,
    walls: Seq<Rect>,
    n: int,
) -> (int, int, int, int)
    decreases n,
{
    if n <= 0 {
        (px, py, vx, vy)
    } else {
        let prev = resolve_fold(px, py, vx, vy, w, h, walls, n - 1);
        resolve_step(prev.0, prev.1, prev.2, prev.3, w, h, walls[n - 1])
    }
}

/// Resolving obstacles keeps the position within `cap` whenever the
/// starting position is and every obstacle's push target is: a pushed
/// coordinate is at most the obstacle's center plus both half extents.
pub proof fn lemma_resolve_fold_bound(
    px: int,
    py: int,
    vx: int,
    vy: int,
    w: int,
    h: int,
    walls: Seq<Rect>,
    n: int,
    wall_cap: int,
    cap: int,
)
    requires
        0 <= n <= walls.len(),
        abs_i(px) <= cap,
        abs_i(py) <= cap,
        0 <= w,
        0 <= h,
        0 <= wall_cap,
        wall_cap + wall_cap + w <= cap,
        wall_cap + wall_cap + h <= cap,
        forall|i: int|
            0 <= i < walls.len() ==> {
                let wall = #[trigger] walls[i];
                abs_i(wall.x as int) <= wall_cap && abs_i(wall.y as int) <= wall_cap && 0 <= wall.w
                    <= wall_cap && 0 <= wall.h <= wall_cap
            },
    ensures
        ({
            let folded = resolve_fold(px, py, vx, vy, w, h, walls, n);
            &&& abs_i(folded.0) <= cap
            &&& abs_i(folded.1) <= cap
            &&& abs_i(folded.2) <= abs_i(vx)
            &&& abs_i(folded.3) <= abs_i(vy)
        }),
    decreases n,
{
    if n > 0 {
        lemma_resolve_fold_bound(px, py, vx, vy, w, h, walls, n - 1, wall_cap, cap);
        let prev = resolve_fold(px, py, vx, vy, w, h, walls, n - 1);
        let ob = walls[n - 1];
        lemma_div_t_bound(ob.w as int, 2);
        lemma_div_t_bound(ob.h as int, 2);
        lemma_div_t_bound(w, 2);
        lemma_div_t_bound(h, 2);
    }
}

/// A point mass carrying a fixed axis-aligned rectangle, centered at its
/// position; the extent never changes after construction.
pub struct DynamicCollider {
    pub body: PhysicsPoint,
    pub width: i64,
    pub height: i64,
}

impl DynamicCollider {
    /// A body at rest filling `rect`, with the given mass.
    pub fn from_rect(rect: Rect, mass: i64) -> (r: DynamicCollider)
        ensures
            r.body.position.x == rect.x && r.body.position.y == rect.y,
            r.body.velocity.x == 0 && r.body.velocity.y == 0,
            r.body.acceleration.x == 0 && r.body.acceleration.y == 0,
            r.body.force.x == 0 && r.body.force.y == 0,
            r.body.mass == mass,
            r.width == rect.w,
            r.height == rect.h,
    {
        DynamicCollider {
            body: PhysicsPoint::new(rect.point(), mass),
            width: rect.w,
            height: rect.h,
        }
    }

    /// The body's current world rectangle.
    pub fn rect(&self) -> (r: Rect)
        ensures
            r == (Rect {
                x: self.body.position.x,
                y: self.body.position.y,
                w: self.width,
                h: self.height,
            }),
    {
        Rect { x: self.body.position.x, y: self.body.position.y, w: self.width, h: self.height }
    }

    pub fn width(&self) -> (r: i64)
        ensures
            r == self.width,
    {
        self.width
    }

    pub fn height(&self) -> (r: i64)
        ensures
            r == self.height,
    {
        self.height
    }

    pub fn mass(&self) -> (r: i64)
        ensures
            r == self.body.mass,
    {
        self.body.mass()
    }

    pub fn force(&self) -> (r: Vec2)
        ensures
            r == self.body.force,
    {
        self.body.force()
    }

    pub fn acceleration(&self) -> (r: Vec2)
        ensures
            r == self.body.acceleration,
    {
        self.body.acceleration()
    }

    pub fn velocity(&self) -> (r: Vec2)
        ensures
            r == self.body.velocity,
    {
        self.body.velocity()
    }

    pub fn position(&self) -> (r: Vec2)
        ensures
            r == self.body.position,
    {
        self.body.position()
    }

    pub fn velocity_mut(&mut self) -> (r: &mut Vec2)
        ensures
            *r == old(self).body.velocity,
            *final(self) == (DynamicCollider {
                body: (PhysicsPoint { velocity: *final(r), ..old(self).body }),
                ..*old(self)
            }),
    {
        &mut self.body.velocity
    }

    pub fn position_mut(&mut self) -> (r: &mut Vec2)
        ensures
            *r == old(self).body.position,
            *final(self) == (DynamicCollider {
                body: (PhysicsPoint { position: *final(r), ..old(self).body }),
                ..*old(self)
            }),
    {
        &mut self.body.position
    }

    /// Replace the body's net force and recompute its acceleration.
    pub fn set_force(&mut self, force: Vec2)
        requires
            old(self).body.mass >= 1,
            i64::MIN <= crate::physics::accel_of(force.x as int, old(self).body.mass as int)
                <= i64::MAX,
            i64::MIN <= crate::physics::accel_of(force.y as int, old(self).body.mass as int)
                <= i64::MAX,
        ensures
            final(self).body.force == force,
            final(self).body.acceleration.x == crate::physics::accel_of(
                force.x as int,
                old(self).body.mass as int,
            ),
            final(self).body.acceleration.y == crate::physics::accel_of(
                force.y as int,
                old(self).body.mass as int,
            ),
            final(self).body.position == old(self).body.position,
            final(self).body.velocity == old(self).body.velocity,
            final(self).body.mass == old(self).body.mass,
            final(self).width == old(self).width,
            final(self).height == old(self).height,
    {
        self.body.set_force(force);
    }

    /// Replace the body's velocity.
    pub fn set_velocity(&mut self, velocity: Vec2)
        ensures
            *final(self) == (DynamicCollider {
                body: (PhysicsPoint { velocity, ..old(self).body }),
                ..*old(self)
            }),
    {
        self.body.set_velocity(velocity);
    }

    /// Replace the body's position.
    pub fn set_position(&mut self, position: Vec2)
        ensures
            *final(self) == (DynamicCollider {
                body: (PhysicsPoint { position, ..old(self).body }),
                ..*old(self)
            }),
    {
        self.body.set_position(position);
    }

    /// One integration step of the body (see [`PhysicsPoint::update`]).
    pub fn update(&mut self, dt: i64)
        requires
            dt >= 0,
            old(self).body.mass >= 1,
            crate::physics::update_fits(old(self).body, dt as int),
        ensures
            final(self).width == old(self).width,
            final(self).height == old(self).height,
            final(self).body.mass == old(self).body.mass,
            final(self).body.force == old(self).body.force,
            final(self).body.acceleration.x == crate::physics::accel_of(
                old(self).body.force.x as int,
                old(self).body.mass as int,
            ),
            final(self).body.acceleration.y == crate::physics::accel_of(
                old(self).body.force.y as int,
                old(self).body.mass as int,
            ),
            final(self).body.velocity.x == old(self).body.velocity.x + crate::physics::dvel_of(
                final(self).body.acceleration.x as int,
                dt as int,
            ),
            final(self).body.velocity.y == old(self).body.velocity.y + crate::physics::dvel_of(
                final(self).body.acceleration.y as int,
                dt as int,
            ),
            final(self).body.position.x == old(self).body.position.x + crate::physics::drift_of(
                old(self).body.velocity.x as int,
                crate::physics::dvel_of(final(self).body.acceleration.x as int, dt as int),
                dt as int,
            ),
            final(self).body.position.y == old(self).body.position.y + crate::physics::drift_of(
                old(self).body.velocity.y as int,
                crate::physics::dvel_of(final(self).body.acceleration.x as int, dt as int),
                dt as int,
            ),
    {
        self.body.update(dt);
    }

    /// Push the body out of one overlapping obstacle (minimum-translation
    /// heuristic; see [`resolve_step`]).
    pub fn resolve_collision(&mut self, rect: &Rect)
        requires
            abs_i(old(self).body.position.x as int) <= MAX_COORD,
            abs_i(old(self).body.position.y as int) <= MAX_COORD,
            0 <= old(self).width <= MAX_COORD / 2,
            0 <= old(self).height <= MAX_COORD / 2,
            obstacle_in_range(*rect),
        ensures
            ({
                let stepped = resolve_step(
                    old(self).body.position.x as int,
                    old(self).body.position.y as int,
                    old(self).body.velocity.x as int,
                    old(self).body.velocity.y as int,
                    old(self).width as int,
                    old(self).height as int,
                    *rect,
                );
                &&& final(self).body.position.x == stepped.0
                &&& final(self).body.position.y == stepped.1
                &&& final(self).body.velocity.x == stepped.2
                &&& final(self).body.velocity.y == stepped.3
            }),
            final(self).body.acceleration == old(self).body.acceleration,
            final(self).body.force == old(self).body.force,
            final(self).body.mass == old(self).body.mass,
            final(self).width == old(self).width,
            final(self).height == old(self).height,
            abs_i(final(self).body.position.x as int) <= MAX_COORD,
            abs_i(final(self).body.position.y as int) <= MAX_COORD,
    {
        proof {
            lemma_div_t_bound(rect.w + old(self).width, 2);
            lemma_div_t_bound(rect.h + old(self).height, 2);
            lemma_div_t_bound(rect.w as int, 2);
            lemma_div_t_bound(rect.h as int, 2);
            lemma_div_t_bound(old(self).width as int, 2);
            lemma_div_t_bound(old(self).height as int, 2);
        }
        let collision_magnitude_x = mul_div(rect.w + self.width, 1, 2) - abs_i64(
            self.body.position.x - rect.x,
        );
        let collision_magnitude_y = mul_div(rect.h + self.height, 1, 2) - abs_i64(
            self.body.position.y - rect.y,
        );

        if collision_magnitude_x < collision_magnitude_y {
            if collision_magnitude_x > TRIGGER_MAGNITUDE {
                self.body.velocity = Vec2 { x: 0, y: self.body.velocity.y };
                let push = mul_div(rect.w, 1, 2) + mul_div(self.width, 1, 2);
                if self.body.position.x > rect.x {
                    self.body.position = Vec2 { x: rect.x + push, y: self.body.position.y };
                } else {
                    self.body.position = Vec2 { x: rect.x - push, y: self.body.position.y };
                }
            }
        } else {
            if collision_magnitude_y > TRIGGER_MAGNITUDE {
                self.body.velocity = Vec2 { x: self.body.velocity.x, y: 0 };
                let push = mul_div(rect.h, 1, 2) + mul_div(self.height, 1, 2);
                if self.body.position.y > rect.y {
                    self.body.position = Vec2 { x: self.body.position.x, y: rect.y + push };
                } else {
                    self.body.position = Vec2 { x: self.body.position.x, y: rect.y - push };
                }
            }
        }
    }

    /// Resolve against a list of obstacles, one at a time in order (the
    /// corrections are order-dependent for simultaneous contacts).
    pub fn resolve_collisions(&mut self, walls: &Vec<Rect>)
        requires
            abs_i(old(self).body.position.x as int) <= MAX_COORD,
            abs_i(old(self).body.position.y as int) <= MAX_COORD,
            0 <= old(self).width <= MAX_COORD / 2,
            0 <= old(self).height <= MAX_COORD / 2,
            forall|i: int| 0 <= i < walls@.len() ==> obstacle_in_range(#[trigger] walls@[i]),
        ensures
            ({
                let folded = resolve_fold(
                    old(self).body.position.x as int,
                    old(self).body.position.y as int,
                    old(self).body.velocity.x as int,
                    old(self).body.velocity.y as int,
                    old(self).width as int,
                    old(self).height as int,
                    walls@,
                    walls@.len() as int,
                );
                &&& final(self).body.position.x == folded.0
                &&& final(self).body.position.y == folded.1
                &&& final(self).body.velocity.x == folded.2
                &&& final(self).body.velocity.y == folded.3
            }),
            final(self).body.acceleration == old(self).body.acceleration,
            final(self).body.force == old(self).body.force,
            final(self).body.mass == old(self).body.mass,
            final(self).width == old(self).width,
            final(self).height == old(self).height,
            abs_i(final(self).body.position.x as int) <= MAX_COORD,
            abs_i(final(self).body.position.y as int) <= MAX_COORD,
    {
        let mut i: usize = 0;
        while i < walls.len()
            invariant
                i <= walls@.len(),
                0 <= self.width <= MAX_COORD / 2,
                0 <= self.height <= MAX_COORD / 2,
                abs_i(self.body.position.x as int) <= MAX_COORD,
                abs_i(self.body.position.y as int) <= MAX_COORD,
                self.width == old(self).width,
                self.height == old(self).height,
                self.body.acceleration == old(self).body.acceleration,
                self.body.force == old(self).body.force,
                self.body.mass == old(self).body.mass,
                forall|k: int| 0 <= k < walls@.len() ==> obstacle_in_range(#[trigger] walls@[k]),
                ({
                    let folded = resolve_fold(
                        old(self).body.position.x as int,
                        old(self).body.position.y as int,
                        old(self).body.velocity.x as int,
                        old(self).body.velocity.y as int,
                        old(self).width as int,
                        old(self).height as int,
                        walls@,
                        i as int,
                    );
                    &&& self.body.position.x == folded.0
                    &&& self.body.position.y == folded.1
                    &&& self.body.velocity.x == folded.2
                    &&& self.body.velocity.y == folded.3
                }),
            decreases walls@.len() - i,
        {
            let wall = walls[i];
            self.resolve_collision(&wall);
            i = i + 1;
        }
    }
}

/// For an integer tile index `c`, mapping `c * SCALE` to world space is
/// exact: it equals `(c - origin) * tile_size`, and that product stays
/// within `i64` for bounded indices and origins.
proof fn lemma_tile_world_exact(c: int, origin: int, tile_size: int)
    requires
        1 <= tile_size <= MAX_TILE_SIZE,
        abs_i(c) <= MAX_GRID_DIM,
        abs_i(origin) <= MAX_GRID_DIM,
    ensures
        tile_to_world_coord(c * SCALE, origin, tile_size) == (c - origin) * tile_size,
        abs_i((c - origin) * tile_size) <= 2 * MAX_GRID_DIM * MAX_TILE_SIZE,
{
    assert((c * SCALE - origin * SCALE) * tile_size == ((c - origin) * tile_size) * SCALE)
        by (nonlinear_arith);
    lemma_div_t_exact((c - origin) * tile_size, SCALE as int);
    assert(abs_i((c - origin) * tile_size) <= 2 * MAX_GRID_DIM * MAX_TILE_SIZE)
        by (nonlinear_arith)
        requires
            1 <= tile_size <= MAX_TILE_SIZE,
            abs_i(c) <= MAX_GRID_DIM,
            abs_i(origin) <= MAX_GRID_DIM,
    ;
}

/// Truncating division by one is the identity.
proof fn lemma_div_t_one(a: int)
    by (nonlinear_arith)
    ensures
        div_t(a, 1) == a,
{
}

} // verus!
