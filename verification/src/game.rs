//! The procedural cave generator, the streaming three-fragment cave, and
//! the per-tick platformer simulation.

use vstd::prelude::*;

use std::collections::HashMap;

use rand::Rng;

use crate::collision::{resolve_fold, DynamicCollider, TilemapCollider};
use crate::fixed::{abs_i, div_t, lemma_div_t_bound, lemma_mul_div_fits, mul_div_spec, SCALE};
use crate::geometry::{Rect, TilePoint, Vec2};
use crate::animation::{Rule, StateMachine, VelocityCondition};
use crate::movement::{clamp_speed, decay_applies, decayed, probe_coord, MovementController};
use crate::physics::{accel_of, drift_of, dvel_of};
use crate::rendering::TilemapRenderer;

verus! {

broadcast use vstd::std_specs::hash::group_hash_axioms;

// Tile-shape codes: which of a wall tile's four axis-neighbors are open
// selects the sprite it renders as (no effect on collision).
pub const E: u32 = 0;

pub const N: u32 = 1;

pub const UDLR: u32 = 2;

pub const UD: u32 = 3;

pub const LR: u32 = 4;

pub const ULR: u32 = 5;

pub const DLR: u32 = 6;

pub const UDL: u32 = 7;

pub const UDR: u32 = 8;

pub const UR: u32 = 9;

pub const UL: u32 = 10;

pub const DR: u32 = 11;

pub const DL: u32 = 12;

pub const D: u32 = 13;

pub const R: u32 = 14;

pub const L: u32 = 15;

pub const U: u32 = 16;

/// The sprite-shape code of a wall tile, keyed by which of its four
/// neighbors are open: (below, above, left, right) in the generator's
/// top-down orientation.
pub open spec fn spec_tile_code(below: bool, above: bool, left: bool, right: bool) -> u32 {
    match (below, above, left, right) {
        (false, false, false, false) => N,
        (false, false, false, true) => R,
        (false, false, true, false) => L,
        (false, false, true, true) => LR,
        (false, true, false, false) => D,
        (false, true, false, true) => DR,
        (false, true, true, false) => DL,
        (false, true, true, true) => DLR,
        (true, false, false, false) => U,
        (true, false, false, true) => UR,
        (true, false, true, false) => UL,
        (true, false, true, true) => ULR,
        (true, true, false, false) => UD,
        (true, true, false, true) => UDR,
        (true, true, true, false) => UDL,
        (true, true, true, true) => UDLR,
    }
}

/// Decide [`spec_tile_code`].
pub fn tile_code(below: bool, above: bool, left: bool, right: bool) -> (r: u32)
    ensures
        r == spec_tile_code(below, above, left, right),
        1 <= r <= 16,
{
    match (below, above, left, right) {
        (false, false, false, false) => N,
        (false, false, false, true) => R,
        (false, false, true, false) => L,
        (false, false, true, true) => LR,
        (false, true, false, false) => D,
        (false, true, false, true) => DR,
        (false, true, true, false) => DL,
        (false, true, true, true) => DLR,
        (true, false, false, false) => U,
        (true, false, false, true) => UR,
        (true, false, true, false) => UL,
        (true, false, true, true) => ULR,
        (true, true, false, false) => UD,
        (true, true, false, true) => UDR,
        (true, true, true, false) => UDL,
        (true, true, true, true) => UDLR,
    }
}

/// The neighbor-openness to sprite-shape lookup as a hash map, keyed by
/// the `(below, above, left, right)` openness tuple. The view is pinned
/// only under vstd's key-model hypothesis for tuple keys; the verified
/// generator classifies through [`tile_code`] instead.
pub fn tile_hashmap() -> (m: HashMap<(bool, bool, bool, bool), u32>)
    ensures
        vstd::std_specs::hash::obeys_key_model::<(bool, bool, bool, bool)>() ==> forall|
            below: bool,
            above: bool,
            left: bool,
            right: bool,
        |
            m@.contains_key((below, above, left, right)) && m@[(below, above, left, right)]
                == spec_tile_code(below, above, left, right),
{
    let mut map: HashMap<(bool, bool, bool, bool), u32> = HashMap::new();
    map.insert((false, false, false, false), N);
    map.insert((false, false, false, true), R);
    map.insert((false, false, true, false), L);
    map.insert((false, false, true, true), LR);
    map.insert((false, true, false, false), D);
    map.insert((false, true, false, true), DR);
    map.insert((false, true, true, false), DL);
    map.insert((false, true, true, true), DLR);
    map.insert((true, false, false, false), U);
    map.insert((true, false, false, true), UR);
    map.insert((true, false, true, false), UL);
    map.insert((true, false, true, true), ULR);
    map.insert((true, true, false, false), UD);
    map.insert((true, true, false, true), UDR);
    map.insert((true, true, true, false), UDL);
    map.insert((true, true, true, true), UDLR);
    map
}

/// `value` forced into `[min, max]` (callers keep `min <= max`).
pub open spec fn spec_clamp(value: int, min: int, max: int) -> int {
    if value < min {
        min
    } else if value > max {
        max
    } else {
        value
    }
}

/// Decide [`spec_clamp`].
pub fn clamp(value: i32, min: i32, max: i32) -> (r: i32)
    ensures
        r as int == spec_clamp(value as int, min as int, max as int),
{
    if value < min {
        min
    } else if value > max {
        max
    } else {
        value
    }
}

/// Relies on `rand::thread_rng` and `rand::Rng::gen_range` over an
/// inclusive (nonempty) integer range: the drawn value lies within the
/// range. Nothing further is assumed of the draw.
#[verifier::external_body]
fn random_in_range(low: i32, high: i32) -> (r: i32)
    requires
        low <= high,
    ensures
        low <= r <= high,
{
    rand::thread_rng().gen_range(low..=high)
}

/// In a grid of `height` stored (bottom-up) rows, stored row `i` is a
/// wall for a column whose corridor spans generator rows
/// `[floor, ceiling]` (generator rows count top-down).
pub open spec fn wall_outside(i: int, floor: int, ceiling: int, height: int) -> bool {
    height - 1 - i < floor || height - 1 - i > ceiling
}

/// Column `c` of a stored grid has at least one open (zero) tile.
pub open spec fn column_has_opening(grid: Seq<Vec<u32>>, c: int) -> bool {
    exists|i: int| 0 <= i < grid.len() && #[trigger] grid[i]@[c] == 0
}

/// Column `c` of a stored grid is fully open.
pub open spec fn column_all_open(grid: Seq<Vec<u32>>, c: int) -> bool {
    forall|i: int| 0 <= i < grid.len() ==> #[trigger] grid[i]@[c] == 0
}

/// Column `c` of a grid is open exactly on rows `[lo, hi]` and walls
/// everywhere else (the band stated directly in the grid's own row
/// order).
pub open spec fn column_open_band(grid: Seq<Vec<u32>>, c: int, lo: int, hi: int) -> bool {
    forall|i: int| 0 <= i < grid.len() ==> ((#[trigger] grid[i]@[c] != 0) <==> !(lo <= i <= hi))
}

/// Column `c` of a stored grid is walls exactly outside the corridor
/// rows `[floor, ceiling]`.
pub open spec fn column_is_corridor(
    grid: Seq<Vec<u32>>,
    c: int,
    floor: int,
    ceiling: int,
    height: int,
) -> bool {
    forall|i: int|
        0 <= i < height ==> ((#[trigger] grid[i]@[c] != 0) <==> wall_outside(
            i,
            floor,
            ceiling,
            height,
        ))
}

/// Generate one cave occupancy-and-shape grid of `width`×`height` tiles,
/// returned bottom-up (row index increases upward in world space).
///
/// A corridor is carved by a bounded random walk of per-column floor and
/// ceiling indices, clamped into `[0, limits.0]` and
/// `[limits.1, height-1]`; every tile outside `[floor, ceiling]` becomes
/// a wall. A column whose walk reaches the grid edge is left fully open
/// rather than sealed. The first and last columns use the fixed `start`
/// and `end` bounds. Finally every wall tile gets the sprite-shape code
/// of its four-neighbor openness pattern ([`spec_tile_code`]); codes do
/// not affect which tiles are walls.
///
/// The contract pins the first and last columns exactly, guarantees that
/// no column seals the corridor, and ties every wall tile's code to its
/// neighbors; which interior tiles are walls depends on the random walk.
pub fn generate_ground_template(
    width: u32,
    height: u32,
    start: (u32, u32),
    end: (u32, u32),
    limits: (u32, u32),
    step: u32,
) -> (result: Vec<Vec<u32>>)
    requires
        2 <= width <= 1_000_000,
        1 <= height <= 1_000_000,
        start.0 <= start.1 < height,
        end.0 <= end.1 < height,
        limits.0 <= limits.1 < height,
        step <= 100_000,
    ensures
        result@.len() == height,
        forall|i: int| 0 <= i < height ==> (#[trigger] result@[i])@.len() == width,
        forall|i: int|
            0 <= i < height ==> ((#[trigger] result@[i]@[0] != 0) <==> wall_outside(
                i,
                start.0 as int,
                start.1 as int,
                height as int,
            )),
        forall|i: int|
            0 <= i < height ==> ((#[trigger] result@[i]@[width - 1] != 0) <==> wall_outside(
                i,
                end.0 as int,
                end.1 as int,
                height as int,
            )),
        forall|c: int| 0 <= c < width ==> #[trigger] column_has_opening(result@, c),
        forall|c: int|
            1 <= c < width - 1 ==> #[trigger] column_all_open(result@, c) || exists|f: int, cl: int|
                1 <= f <= limits.0 && limits.1 <= cl <= height - 2 && #[trigger] column_is_corridor(
                    result@,
                    c,
                    f,
                    cl,
                    height as int,
                ),
        forall|i: int, c: int|
            0 <= i < height && 0 <= c < width && #[trigger] result@[i]@[c] != 0 ==> result@[i]@[c]
                == spec_tile_code(
                i >= 1 && result@[i - 1]@[c] == 0,
                i + 1 < height && result@[i + 1]@[c] == 0,
                c >= 1 && result@[i]@[c - 1] == 0,
                c + 1 < width && result@[i]@[c + 1] == 0,
            ),
{
    let wcount: usize = width as usize;
    let hcount: usize = height as usize;

    // Random-walk pass: per-column corridor bounds, in generator
    // (top-down) row indices; a column is "open" when the walk reached a
    // grid edge there and no walls are placed at all.
    let mut floors: Vec<i32> = Vec::new();
    let mut ceils: Vec<i32> = Vec::new();
    let mut open_col: Vec<bool> = Vec::new();
    floors.push(start.0 as i32);
    ceils.push(start.1 as i32);
    open_col.push(false);

    let mut floor: i32 = start.0 as i32;
    let mut ciel: i32 = start.1 as i32;
    let step_i: i32 = step as i32;
    let mut c: usize = 1;
    while c + 1 < wcount
        invariant
            2 <= wcount <= 1_000_000,
            1 <= hcount <= 1_000_000,
            height == hcount,
            width == wcount,
            start.0 <= start.1 < height,
            limits.0 <= limits.1 < height,
            0 <= step_i <= 100_000,
            1 <= c <= wcount - 1,
            floors@.len() == c,
            ceils@.len() == c,
            open_col@.len() == c,
            floors@[0] == start.0 as i32,
            ceils@[0] == start.1 as i32,
            open_col@[0] == false,
            0 <= floor < height,
            0 <= ciel < height,
            forall|k: int|
                1 <= k < c && !(#[trigger] open_col@[k]) ==> 1 <= floors@[k] <= limits.0
                    && limits.1 <= ceils@[k] <= height - 2,
        decreases wcount - 1 - c,
    {
        let d1 = random_in_range(0, 2 * step_i);
        floor = clamp(floor + d1 - step_i, 0, limits.0 as i32);
        let d2 = random_in_range(0, 2 * step_i);
        ciel = clamp(ciel + d2 - step_i, limits.1 as i32, (height as i32) - 1);
        open_col.push(floor == 0 || ciel == (height as i32) - 1);
        floors.push(floor);
        ceils.push(ciel);
        c = c + 1;
    }
    floors.push(end.0 as i32);
    ceils.push(end.1 as i32);
    open_col.push(false);

    // Occupancy pass: stored bottom-up.
    let mut base: Vec<Vec<bool>> = Vec::new();
    let mut i: usize = 0;
    while i < hcount
        invariant
            2 <= wcount <= 1_000_000,
            1 <= hcount <= 1_000_000,
            height == hcount,
            width == wcount,
            floors@.len() == wcount,
            ceils@.len() == wcount,
            open_col@.len() == wcount,
            i <= hcount,
            base@.len() == i,
            forall|ii: int| 0 <= ii < i ==> (#[trigger] base@[ii])@.len() == wcount,
            forall|ii: int, cc: int|
                0 <= ii < i && 0 <= cc < wcount ==> (#[trigger] base@[ii]@[cc]) == (!open_col@[cc]
                    && wall_outside(ii, floors@[cc] as int, ceils@[cc] as int, height as int)),
        decreases hcount - i,
    {
        let g: i32 = (height as i32) - 1 - (i as i32);
        let mut brow: Vec<bool> = Vec::new();
        let mut cc: usize = 0;
        while cc < wcount
            invariant
                floors@.len() == wcount,
                ceils@.len() == wcount,
                open_col@.len() == wcount,
                i < hcount,
                height == hcount,
                g == height - 1 - i,
                cc <= wcount,
                brow@.len() == cc,
                forall|t: int|
                    0 <= t < cc ==> (#[trigger] brow@[t]) == (!open_col@[t] && wall_outside(
                        i as int,
                        floors@[t] as int,
                        ceils@[t] as int,
                        height as int,
                    )),
            decreases wcount - cc,
        {
            let wall = !open_col[cc] && (g < floors[cc] || g > ceils[cc]);
            brow.push(wall);
            cc = cc + 1;
        }
        base.push(brow);
        i = i + 1;
    }

    // Classification pass: every wall tile gets the code of its
    // four-neighbor openness pattern; open tiles stay zero.
    let mut result: Vec<Vec<u32>> = Vec::new();
    let mut i2: usize = 0;
    while i2 < hcount
        invariant
            2 <= wcount <= 1_000_000,
            1 <= hcount <= 1_000_000,
            height == hcount,
            width == wcount,
            base@.len() == hcount,
            forall|ii: int| 0 <= ii < hcount ==> (#[trigger] base@[ii])@.len() == wcount,
            i2 <= hcount,
            result@.len() == i2,
            forall|ii: int| 0 <= ii < i2 ==> (#[trigger] result@[ii])@.len() == wcount,
            forall|ii: int, cc: int|
                0 <= ii < i2 && 0 <= cc < wcount ==> ((#[trigger] result@[ii]@[cc] == 0)
                    <==> !base@[ii]@[cc]),
            forall|ii: int, cc: int|
                0 <= ii < i2 && 0 <= cc < wcount && base@[ii]@[cc]
                    ==> #[trigger] result@[ii]@[cc] == spec_tile_code(
                    ii >= 1 && !base@[ii - 1]@[cc],
                    ii + 1 < hcount && !base@[ii + 1]@[cc],
                    cc >= 1 && !base@[ii]@[cc - 1],
                    cc + 1 < wcount && !base@[ii]@[cc + 1],
                ),
        decreases hcount - i2,
    {
        let mut crow: Vec<u32> = Vec::new();
        let mut cc: usize = 0;
        while cc < wcount
            invariant
                2 <= wcount <= 1_000_000,
                1 <= hcount <= 1_000_000,
                base@.len() == hcount,
                forall|ii: int| 0 <= ii < hcount ==> (#[trigger] base@[ii])@.len() == wcount,
                i2 < hcount,
                cc <= wcount,
                crow@.len() == cc,
                forall|t: int|
                    0 <= t < cc ==> ((#[trigger] crow@[t] == 0) <==> !base@[i2 as int]@[t]),
                forall|t: int|
                    0 <= t < cc && base@[i2 as int]@[t] ==> #[trigger] crow@[t] == spec_tile_code(
                        i2 >= 1 && !base@[i2 - 1]@[t],
                        i2 + 1 < hcount && !base@[i2 + 1]@[t],
                        t >= 1 && !base@[i2 as int]@[t - 1],
                        t + 1 < wcount && !base@[i2 as int]@[t + 1],
                    ),
            decreases wcount - cc,
        {
            if !base[i2][cc] {
                crow.push(E);
            } else {
                let below = i2 >= 1 && !base[i2 - 1][cc];
                let above = i2 + 1 < hcount && !base[i2 + 1][cc];
                let left = cc >= 1 && !base[i2][cc - 1];
                let right = cc + 1 < wcount && !base[i2][cc + 1];
                crow.push(tile_code(below, above, left, right));
            }
            cc = cc + 1;
        }
        result.push(crow);
        i2 = i2 + 1;
    }

    proof {
        // interior columns are fully open or carve one corridor within
        // the clamp limits
        assert forall|c0: int| 1 <= c0 < width - 1 implies #[trigger] column_all_open(result@, c0)
            || exists|f: int, cl: int|
            1 <= f <= limits.0 && limits.1 <= cl <= height - 2 && #[trigger] column_is_corridor(
                result@,
                c0,
                f,
                cl,
                height as int,
            ) by {
            if open_col@[c0] {
                assert(column_all_open(result@, c0));
            } else {
                let f = floors@[c0] as int;
                let cl = ceils@[c0] as int;
                assert(column_is_corridor(result@, c0, f, cl, height as int));
            }
        }
        // every column keeps at least one open tile
        assert forall|c0: int| 0 <= c0 < width implies #[trigger] column_has_opening(
            result@,
            c0,
        ) by {
            if open_col@[c0] {
                assert(result@[0]@[c0] == 0);
            } else {
                let f = floors@[c0] as int;
                let cl = ceils@[c0] as int;
                assert(f <= cl);
                let i0 = height - 1 - f;
                assert(0 <= i0 < height);
                assert(!wall_outside(i0, f, cl, height as int));
                assert(result@[i0]@[c0] == 0);
            }
        }
    }
    result
}

// Cave parameters.
pub const TEMPLATE_WIDTH: u32 = 31;

pub const TEMPLATE_HEIGHT: u32 = 15;

pub const FLOOR_LIMIT: u32 = 7;

pub const CEILING_LIMIT: u32 = 8;

pub const CONNECTION_FLOOR: u32 = 5;

pub const CONNECTION_CEILING: u32 = 10;

pub const WALK_STEP: u32 = 2;

pub const TILE_WIDTH: i64 = crate::fixed::SCALE;

pub const TILE_HEIGHT: i64 = crate::fixed::SCALE;

/// The world width of one fragment: `TEMPLATE_WIDTH * TILE_WIDTH`.
pub const FRAGMENT_SPAN: i64 = 31 * crate::fixed::SCALE;

/// Fragment indices the stream may reach (a machine limit keeping all
/// fragment world coordinates comfortably inside the mapping bounds).
pub const INDEX_LIMIT: i32 = 11_000;

/// Values the stream's current fragment index may take.
pub const CURRENT_LIMIT: i32 = 10_000;

/// Every wall rectangle a live fragment can produce stays within this
/// many fixed-point units.
pub const CAVE_WALL_CAP: i64 = 400_000_000_000;

// Player parameters.
pub const SPAWN_X: i64 = 0;

pub const SPAWN_Y: i64 = 500_000;

pub const PLAYER_MASS: i64 = 3_000_000;

pub const PLAYER_WIDTH: i64 = 1_000_000;

pub const PLAYER_HEIGHT: i64 = 1_000_000;

/// The collider is slightly narrower than the sprite: `0.98` world units.
pub const COLLIDER_WIDTH: i64 = 980_000;

pub const MOVE_FORCE: i64 = 172_800_000;

pub const JUMP_IMPULSE: i64 = 21_600_000;

pub const MAX_SPEED: i64 = 11_520_000;

pub const MOVE_SPEED_DECAY: i64 = 129_600_000;

pub const GRAVITY_ACCELERATION: i64 = 72_000_000;

/// Half the vertical extent of the visible world; the player wraps
/// vertically at `±(DISTANCE + 0.5)`.
pub const DISTANCE: i64 = 7_000_000;

/// Positions a tick accepts (a machine limit; the cave stream cannot
/// even reach this far before its own index limit).
pub const POS_LIMIT: i64 = 800_000_000_000;

/// Velocities a tick accepts.
pub const VEL_LIMIT: i64 = 10_000_000_000;

/// Time slices a tick accepts: at most ten seconds.
pub const DT_LIMIT: i64 = 10_000_000;

/// One generated cave window: a render grid and the matching collision
/// grid, anchored by its fragment index along the scroll axis.
pub struct CaveFragment {
    pub index: i32,
    pub renderer: TilemapRenderer,
    pub collider: TilemapCollider,
}

/// A fragment is internally consistent and actually carved: both grids
/// are `TEMPLATE_WIDTH`×`TEMPLATE_HEIGHT` with unit tiles, anchored at
/// the origin its index dictates; the collider collides exactly on
/// nonzero render codes; the entry and exit columns are walls exactly
/// outside the fixed connection rows; every interior column is fully
/// open (a breached walk) or walls exactly outside one corridor within
/// the clamp limits — so no column seals the cave; and every wall tile
/// carries the sprite code of its four-neighbor openness pattern.
///
/// The predicate is opaque: most cave operations carry it atomically,
/// and only the fragment generator and the wall-geometry lemmas look
/// inside.
#[verifier::opaque]
pub open spec fn fragment_wf(frag: CaveFragment) -> bool {
    &&& -INDEX_LIMIT <= frag.index <= INDEX_LIMIT
    &&& frag.renderer.wf()
    &&& frag.collider.wf()
    &&& frag.renderer.tile_width == TILE_WIDTH
    &&& frag.renderer.tile_height == TILE_HEIGHT
    &&& frag.renderer.origin.x as int == 15 - frag.index * 31
    &&& frag.renderer.origin.y == 7
    &&& frag.renderer.tiles@.len() == TEMPLATE_HEIGHT
    &&& forall|i: int|
        0 <= i < TEMPLATE_HEIGHT ==> (#[trigger] frag.renderer.tiles@[i])@.len() == TEMPLATE_WIDTH
    &&& frag.collider.tile_width == TILE_WIDTH
    &&& frag.collider.tile_height == TILE_HEIGHT
    &&& frag.collider.origin == frag.renderer.origin
    &&& frag.collider.tiles@.len() == TEMPLATE_HEIGHT
    &&& forall|i: int|
        0 <= i < TEMPLATE_HEIGHT ==> (#[trigger] frag.collider.tiles@[i])@.len() == TEMPLATE_WIDTH
    &&& forall|i: int, j: int|
        0 <= i < TEMPLATE_HEIGHT && 0 <= j < TEMPLATE_WIDTH ==> (#[trigger] frag.collider.tiles@[i]@[j])
            == (frag.renderer.tiles@[i]@[j] != 0)
    &&& forall|c: int|
        0 <= c < TEMPLATE_WIDTH ==> #[trigger] column_has_opening(frag.renderer.tiles@, c)
    &&& column_open_band(
        frag.renderer.tiles@,
        0,
        CONNECTION_FLOOR as int,
        CONNECTION_CEILING as int,
    )
    &&& column_open_band(
        frag.renderer.tiles@,
        TEMPLATE_WIDTH - 1,
        CONNECTION_FLOOR as int,
        CONNECTION_CEILING as int,
    )
    &&& forall|c: int|
        1 <= c < TEMPLATE_WIDTH - 1 ==> #[trigger] column_all_open(frag.renderer.tiles@, c)
            || exists|f: int, cl: int|
            1 <= f <= FLOOR_LIMIT && CEILING_LIMIT <= cl <= TEMPLATE_HEIGHT - 2
                && #[trigger] column_open_band(frag.renderer.tiles@, c, f, cl)
    &&& forall|i: int, j: int|
        0 <= i < TEMPLATE_HEIGHT && 0 <= j < TEMPLATE_WIDTH && #[trigger] frag.renderer.tiles@[i]@[j]
            != 0 ==> frag.renderer.tiles@[i]@[j] == spec_tile_code(
            i + 1 < TEMPLATE_HEIGHT && frag.renderer.tiles@[i + 1]@[j] == 0,
            i >= 1 && frag.renderer.tiles@[i - 1]@[j] == 0,
            j >= 1 && frag.renderer.tiles@[i]@[j - 1] == 0,
            j + 1 < TEMPLATE_WIDTH && frag.renderer.tiles@[i]@[j + 1] == 0,
        )
}

/// Generate the fragment at `index`: a fresh cave grid, anchored so
/// that consecutive indices occupy disjoint, adjacent tile ranges along
/// the scroll axis.
pub fn generate_fragment(index: i32) -> (frag: CaveFragment)
    requires
        -INDEX_LIMIT <= index <= INDEX_LIMIT,
    ensures
        fragment_wf(frag),
        frag.index == index,
{
    let template = generate_ground_template(
        TEMPLATE_WIDTH,
        TEMPLATE_HEIGHT,
        (CONNECTION_FLOOR, CONNECTION_CEILING),
        (CONNECTION_FLOOR, CONNECTION_CEILING),
        (FLOOR_LIMIT, CEILING_LIMIT),
        WALK_STEP,
    );
    let origin = TilePoint {
        x: (TEMPLATE_WIDTH as i32) / 2 - index * (TEMPLATE_WIDTH as i32),
        y: (TEMPLATE_HEIGHT as i32) / 2,
    };
    let renderer = TilemapRenderer::from_components(&template, TILE_WIDTH, TILE_HEIGHT, origin);
    let collider = TilemapCollider::from_renderer(&renderer);
    let frag = CaveFragment { index, renderer, collider };
    proof {
        reveal(fragment_wf);
        // the renderer stores the template's rows reversed; transport
        // the generator's per-column guarantees through that reversal
        let h = TEMPLATE_HEIGHT as int;
        let w = TEMPLATE_WIDTH as int;

        assert forall|c: int| 0 <= c < TEMPLATE_WIDTH implies #[trigger] column_has_opening(
            frag.renderer.tiles@,
            c,
        ) by {
            assert(column_has_opening(template@, c));
            let i0 = choose|i: int| 0 <= i < template@.len() && #[trigger] template@[i]@[c] == 0;
            assert(frag.renderer.tiles@[template@.len() - 1 - i0]@ == template@[i0]@);
            assert(frag.renderer.tiles@[template@.len() - 1 - i0]@[c] == 0);
        }

        // entry and exit columns: walls exactly outside the fixed
        // connection rows (the reversal turns the generator's
        // bottom-up statement back into plain row order)
        assert forall|i: int| 0 <= i < h implies ((#[trigger] frag.renderer.tiles@[i]@[0] != 0)
            <==> !(CONNECTION_FLOOR <= i <= CONNECTION_CEILING)) by {
            assert(frag.renderer.tiles@[i]@ == template@[h - 1 - i]@);
            assert((template@[h - 1 - i]@[0] != 0) <==> wall_outside(
                h - 1 - i,
                CONNECTION_FLOOR as int,
                CONNECTION_CEILING as int,
                h,
            ));
        }
        assert(column_open_band(
            frag.renderer.tiles@,
            0,
            CONNECTION_FLOOR as int,
            CONNECTION_CEILING as int,
        ));
        assert forall|i: int| 0 <= i < h implies ((#[trigger] frag.renderer.tiles@[i]@[w - 1]
            != 0) <==> !(CONNECTION_FLOOR <= i <= CONNECTION_CEILING)) by {
            assert(frag.renderer.tiles@[i]@ == template@[h - 1 - i]@);
            assert((template@[h - 1 - i]@[w - 1] != 0) <==> wall_outside(
                h - 1 - i,
                CONNECTION_FLOOR as int,
                CONNECTION_CEILING as int,
                h,
            ));
        }
        assert(column_open_band(
            frag.renderer.tiles@,
            w - 1,
            CONNECTION_FLOOR as int,
            CONNECTION_CEILING as int,
        ));

        // interior columns: fully open, or one corridor within the
        // clamp limits
        assert forall|c: int| 1 <= c < TEMPLATE_WIDTH - 1 implies #[trigger] column_all_open(
            frag.renderer.tiles@,
            c,
        ) || exists|f: int, cl: int|
            1 <= f <= FLOOR_LIMIT && CEILING_LIMIT <= cl <= TEMPLATE_HEIGHT - 2
                && #[trigger] column_open_band(frag.renderer.tiles@, c, f, cl) by {
            if column_all_open(template@, c) {
                assert forall|i: int| 0 <= i < h implies #[trigger] frag.renderer.tiles@[i]@[c]
                    == 0 by {
                    assert(frag.renderer.tiles@[i]@ == template@[h - 1 - i]@);
                    assert(template@[h - 1 - i]@[c] == 0);
                }
                assert(column_all_open(frag.renderer.tiles@, c));
            } else {
                let (f, cl) = choose|f: int, cl: int|
                    1 <= f <= FLOOR_LIMIT && CEILING_LIMIT <= cl <= h - 2
                        && #[trigger] column_is_corridor(template@, c, f, cl, h);
                assert forall|i: int| 0 <= i < h implies ((#[trigger] frag.renderer.tiles@[i]@[c]
                    != 0) <==> !(f <= i <= cl)) by {
                    assert(frag.renderer.tiles@[i]@ == template@[h - 1 - i]@);
                    assert((template@[h - 1 - i]@[c] != 0) <==> wall_outside(h - 1 - i, f, cl, h));
                }
                assert(column_open_band(frag.renderer.tiles@, c, f, cl));
            }
        }

        // wall codes: the generator ties each wall to its neighbors in
        // its own row order; reversing the rows swaps the two vertical
        // neighbor arguments back
        assert forall|i: int, j: int|
            0 <= i < h && 0 <= j < w && #[trigger] frag.renderer.tiles@[i]@[j]
                != 0 implies frag.renderer.tiles@[i]@[j] == spec_tile_code(
            i + 1 < h && frag.renderer.tiles@[i + 1]@[j] == 0,
            i >= 1 && frag.renderer.tiles@[i - 1]@[j] == 0,
            j >= 1 && frag.renderer.tiles@[i]@[j - 1] == 0,
            j + 1 < w && frag.renderer.tiles@[i]@[j + 1] == 0,
        ) by {
            assert(frag.renderer.tiles@[i]@ == template@[h - 1 - i]@);
            if i >= 1 {
                assert(frag.renderer.tiles@[i - 1]@ == template@[h - i]@);
            }
            if i + 1 < h {
                assert(frag.renderer.tiles@[i + 1]@ == template@[h - 2 - i]@);
            }
            assert(template@[h - 1 - i]@[j] != 0);
            assert(template@[h - 1 - i]@[j] == spec_tile_code(
                h - 1 - i >= 1 && template@[h - 2 - i]@[j] == 0,
                h - i < h && template@[h - i]@[j] == 0,
                j >= 1 && template@[h - 1 - i]@[j - 1] == 0,
                j + 1 < w && template@[h - 1 - i]@[j + 1] == 0,
            ));
        }
    }
    frag
}

/// The world x-range spanned by the three live fragments when the
/// middle one has index `c`: three fragment spans centered on it.
pub open spec fn cave_bounds(c: int) -> (int, int) {
    ((2 * c - 3) * (FRAGMENT_SPAN as int / 2), (2 * c + 3) * (FRAGMENT_SPAN as int / 2))
}

/// `walls` is exactly the concatenation of the three fragments' merged
/// collision lines for `rect`, in stream order.
pub open spec fn cave_lines_match(cave: TilemapCave, rect: Rect, walls: Seq<Rect>) -> bool {
    let l0 = cave.fragments@[0].collider.lines_of(rect);
    let l1 = cave.fragments@[1].collider.lines_of(rect);
    let l2 = cave.fragments@[2].collider.lines_of(rect);
    &&& walls.len() == l0.len() + l1.len() + l2.len()
    &&& forall|k: int|
        0 <= k < l0.len() ==> cave.fragments@[0].collider.is_run_rect(
            #[trigger] walls[k],
            (l0[k].0, l0[k].1),
            l0[k].2,
        )
    &&& forall|k: int|
        l0.len() <= k < l0.len() + l1.len() ==> cave.fragments@[1].collider.is_run_rect(
            #[trigger] walls[k],
            (l1[k - l0.len()].0, l1[k - l0.len()].1),
            l1[k - l0.len()].2,
        )
    &&& forall|k: int|
        l0.len() + l1.len() <= k < walls.len() ==> cave.fragments@[2].collider.is_run_rect(
            #[trigger] walls[k],
            (l2[k - l0.len() - l1.len()].0, l2[k - l0.len() - l1.len()].1),
            l2[k - l0.len() - l1.len()].2,
        )
}

/// Some fragment of the cave has an occupied tile nearest to `(px, py)`.
pub open spec fn cave_point_hits(cave: TilemapCave, px: int, py: int) -> bool {
    ||| cave.fragments@[0].collider.point_hits(px, py)
    ||| cave.fragments@[1].collider.point_hits(px, py)
    ||| cave.fragments@[2].collider.point_hits(px, py)
}

/// A sliding window of exactly three consecutive cave fragments,
/// centered on `current_fragment`.
pub struct TilemapCave {
    pub current_fragment: i32,
    pub fragments: Vec<CaveFragment>,
}

impl TilemapCave {
    /// Exactly three live fragments with consecutive indices, the
    /// middle one equal to `current_fragment`, each internally
    /// consistent.
    pub open spec fn wf(&self) -> bool {
        &&& -CURRENT_LIMIT <= self.current_fragment <= CURRENT_LIMIT
        &&& self.fragments@.len() == 3
        &&& forall|k: int|
            0 <= k < 3 ==> (#[trigger] self.fragments@[k]).index == self.current_fragment - 1 + k
        &&& forall|k: int| 0 <= k < 3 ==> fragment_wf(#[trigger] self.fragments@[k])
    }

    /// A fresh stream: fragments -1, 0, 1 with the current index 0.
    pub fn new() -> (r: TilemapCave)
        ensures
            r.wf(),
            r.current_fragment == 0,
    {
        let mut fragments: Vec<CaveFragment> = Vec::new();
        fragments.push(generate_fragment(-1));
        fragments.push(generate_fragment(0));
        fragments.push(generate_fragment(1));
        TilemapCave { current_fragment: 0, fragments }
    }

    /// The world x-range of the three live fragments.
    pub fn bounds(&self) -> (r: (i64, i64))
        requires
            self.wf(),
        ensures
            r.0 == cave_bounds(self.current_fragment as int).0,
            r.1 == cave_bounds(self.current_fragment as int).1,
    {
        let c: i64 = self.current_fragment as i64;
        ((2 * c - 3) * (FRAGMENT_SPAN / 2), (2 * c + 3) * (FRAGMENT_SPAN / 2))
    }

    /// The merged collision lines of all three fragments for `rect`
    /// (fragments occupy disjoint tile ranges, so no deduplication is
    /// needed), each wall within the obstacle range that penetration
    /// resolution accepts.
    pub fn get_collisions(&self, rect: Rect) -> (result: Vec<Rect>)
        requires
            self.wf(),
            abs_i(rect.x as int) <= crate::tilemap::MAX_COORD,
            abs_i(rect.y as int) <= crate::tilemap::MAX_COORD,
            abs_i(rect.w as int) <= crate::tilemap::MAX_COORD,
            abs_i(rect.h as int) <= crate::tilemap::MAX_COORD,
        ensures
            cave_lines_match(*self, rect, result@),
            forall|k: int|
                0 <= k < result@.len() ==> crate::collision::obstacle_in_range(
                    #[trigger] result@[k],
                ) && cave_wall_bounded(result@[k]),
    {
        proof {
            reveal(fragment_wf);
        }
        let mut result = self.fragments[0].collider.get_collision_lines(rect);
        let mut r1 = self.fragments[1].collider.get_collision_lines(rect);
        let mut r2 = self.fragments[2].collider.get_collision_lines(rect);
        proof {
            lemma_fragment_lines_in_range(self.fragments@[0], result@, rect);
            lemma_fragment_lines_in_range(self.fragments@[1], r1@, rect);
            lemma_fragment_lines_in_range(self.fragments@[2], r2@, rect);
        }
        result.append(&mut r1);
        result.append(&mut r2);
        result
    }

    /// Whether any fragment has an occupied tile nearest to the point.
    pub fn check_collision(&self, point: Vec2) -> (r: bool)
        requires
            self.wf(),
            abs_i(point.x as int) <= crate::tilemap::MAX_COORD,
            abs_i(point.y as int) <= crate::tilemap::MAX_COORD,
        ensures
            r == cave_point_hits(*self, point.x as int, point.y as int),
    {
        proof {
            reveal(fragment_wf);
        }
        if self.fragments[0].collider.check_collision(point) {
            return true;
        }
        if self.fragments[1].collider.check_collision(point) {
            return true;
        }
        self.fragments[2].collider.check_collision(point)
    }

    /// Advance the window one fragment to the right: drop the leftmost
    /// fragment, shift, and generate a fresh fragment at the new right
    /// edge. The indices stay three consecutive integers centered on
    /// the incremented current index, and the bounds move right by
    /// exactly one fragment span.
    pub fn push_right(&mut self)
        requires
            old(self).wf(),
            old(self).current_fragment < CURRENT_LIMIT,
        ensures
            final(self).wf(),
            final(self).current_fragment == old(self).current_fragment + 1,
            final(self).fragments@[0] == old(self).fragments@[1],
            final(self).fragments@[1] == old(self).fragments@[2],
            final(self).fragments@[2].index == old(self).current_fragment + 2,
            cave_bounds(final(self).current_fragment as int).0 == cave_bounds(
                old(self).current_fragment as int,
            ).0 + FRAGMENT_SPAN,
            cave_bounds(final(self).current_fragment as int).1 == cave_bounds(
                old(self).current_fragment as int,
            ).1 + FRAGMENT_SPAN,
    {
        self.current_fragment = self.current_fragment + 1;
        let new_fragment = generate_fragment(self.current_fragment + 1);
        self.fragments.remove(0);
        self.fragments.push(new_fragment);
    }

    /// Advance the window one fragment to the left (the mirror of
    /// [`TilemapCave::push_right`]).
    pub fn push_left(&mut self)
        requires
            old(self).wf(),
            old(self).current_fragment > -CURRENT_LIMIT,
        ensures
            final(self).wf(),
            final(self).current_fragment == old(self).current_fragment - 1,
            final(self).fragments@[1] == old(self).fragments@[0],
            final(self).fragments@[2] == old(self).fragments@[1],
            final(self).fragments@[0].index == old(self).current_fragment - 2,
            cave_bounds(final(self).current_fragment as int).0 == cave_bounds(
                old(self).current_fragment as int,
            ).0 - FRAGMENT_SPAN,
            cave_bounds(final(self).current_fragment as int).1 == cave_bounds(
                old(self).current_fragment as int,
            ).1 - FRAGMENT_SPAN,
    {
        self.current_fragment = self.current_fragment - 1;
        let new_fragment = generate_fragment(self.current_fragment - 1);
        let _ = self.fragments.pop();
        self.fragments.insert(0, new_fragment);
    }
}

/// The controller state after the input-force, integration, clamp and
/// decay phases of one tick, as `(x, y, vx, vy)`, before collision
/// resolution; `drive` is the horizontal force the tick's input chose.
pub open spec fn stepped_player(ctrl: MovementController, drive: int, dt: int) -> (
    int,
    int,
    int,
    int,
) {
    let m = ctrl.body.body.mass as int;
    let g_force = mul_div_spec(ctrl.gravity_acceleration as int, m, SCALE as int);
    let ax = accel_of(drive, m);
    let ay = accel_of(-g_force, m);
    let dvx = dvel_of(ax, dt);
    let vx1 = ctrl.body.body.velocity.x + dvx;
    let vy1 = ctrl.body.body.velocity.y + dvel_of(ay, dt);
    let vx2 = clamp_speed(vx1, ctrl.max_speed as int);
    let vx3 = if decay_applies(drive, vx2) {
        decayed(vx2, ctrl.move_speed_decay as int, dt)
    } else {
        vx2
    };
    let px1 = ctrl.body.body.position.x + drift_of(ctrl.body.body.velocity.x as int, dvx, dt);
    let py1 = ctrl.body.body.position.y + drift_of(ctrl.body.body.velocity.y as int, dvx, dt);
    (px1, py1, vx3, vy1)
}

/// Which way the cave shifts when the player sits at `px` within the
/// window `[lo, hi]`: past three quarters shifts right, short of one
/// quarter shifts left.
pub open spec fn shift_of(px: int, lo: int, hi: int) -> int {
    if 4 * (px - lo) > 3 * (hi - lo) {
        1
    } else if 4 * (px - lo) < hi - lo {
        -1
    } else {
        0
    }
}

/// Some ground probe of the body centered at `(px, py)` with extent
/// `w`×`h` touches an occupied cave tile.
pub open spec fn probes_hit(
    cave: TilemapCave,
    offsets: Seq<Vec2>,
    px: int,
    py: int,
    w: int,
    h: int,
) -> bool {
    exists|k: int|
        0 <= k < offsets.len() && #[trigger] cave_point_hits(
            cave,
            probe_coord(px, offsets[k].x as int, w),
            probe_coord(py, offsets[k].y as int, h),
        )
}

/// The platformer simulation: a movement controller driven through a
/// streaming cave, one tick at a time. Input sampling, the camera,
/// sound and drawing live with the caller; the tick takes the held
/// directions and the elapsed seconds and produces the next physical
/// state.
pub struct EzPlatform {
    pub controller: MovementController,
    pub cave: TilemapCave,
    pub can_jump: bool,
    pub orientation: i8,
}

impl EzPlatform {
    /// The configuration the simulation was built with, unchanged, and
    /// a well-formed cave.
    pub open spec fn wf(&self) -> bool {
        &&& self.cave.wf()
        &&& self.controller.body.body.mass == PLAYER_MASS
        &&& self.controller.body.width == COLLIDER_WIDTH
        &&& self.controller.body.height == PLAYER_HEIGHT
        &&& self.controller.move_force == MOVE_FORCE
        &&& self.controller.jump_impulse == JUMP_IMPULSE
        &&& self.controller.max_speed == MAX_SPEED
        &&& self.controller.move_speed_decay == MOVE_SPEED_DECAY
        &&& self.controller.gravity_acceleration == GRAVITY_ACCELERATION
        &&& (self.controller.horizontal_force == 0 || self.controller.horizontal_force
            == MOVE_FORCE || self.controller.horizontal_force == -MOVE_FORCE)
        &&& self.controller.ground_check_offsets@.len() == 3
        &&& self.controller.ground_check_offsets@[0] == (Vec2 { x: -980_000i64, y: -1_200_000i64 })
        &&& self.controller.ground_check_offsets@[1] == (Vec2 { x: 0i64, y: -1_200_000i64 })
        &&& self.controller.ground_check_offsets@[2] == (Vec2 { x: 980_000i64, y: -1_200_000i64 })
        &&& (self.orientation == 1 || self.orientation == -1)
    }

    /// A fresh game: the player at the spawn point at rest, facing
    /// right, over a fresh cave stream.
    pub fn new() -> (r: EzPlatform)
        ensures
            r.wf(),
            r.cave.current_fragment == 0,
            r.controller.body.body.position == (Vec2 { x: SPAWN_X, y: SPAWN_Y }),
            r.controller.body.body.velocity == (Vec2 { x: 0, y: 0 }),
            r.controller.horizontal_force == 0,
            r.can_jump == false,
            r.orientation == 1,
    {
        let body = DynamicCollider::from_rect(
            Rect { x: SPAWN_X, y: SPAWN_Y, w: COLLIDER_WIDTH, h: PLAYER_HEIGHT },
            PLAYER_MASS,
        );
        let mut offsets: Vec<Vec2> = Vec::new();
        offsets.push(Vec2 { x: -980_000, y: -1_200_000 });
        offsets.push(Vec2 { x: 0, y: -1_200_000 });
        offsets.push(Vec2 { x: 980_000, y: -1_200_000 });
        let controller = MovementController::from_components(
            body,
            MOVE_FORCE,
            JUMP_IMPULSE,
            MAX_SPEED,
            MOVE_SPEED_DECAY,
            GRAVITY_ACCELERATION,
            offsets,
        );
        let cave = TilemapCave::new();
        EzPlatform { controller, cave, can_jump: false, orientation: 1 }
    }

    /// Handle a jump key press: jump only when the last tick saw ground
    /// contact, consuming that contact. Reports whether the jump
    /// happened (the caller may play a sound on it).
    pub fn jump_pressed(&mut self) -> (jumped: bool)
        ensures
            jumped == old(self).can_jump,
            final(self).can_jump == false,
            final(self).cave == old(self).cave,
            final(self).orientation == old(self).orientation,
            jumped ==> final(self).controller.body.body.velocity.x == old(
                self,
            ).controller.body.body.velocity.x && final(self).controller.body.body.velocity.y == old(
                self,
            ).controller.jump_impulse && final(self).controller.body.body.position == old(
                self,
            ).controller.body.body.position,
            !jumped ==> final(self).controller == old(self).controller,
            final(self).wf() == old(self).wf(),
    {
        if self.can_jump {
            self.controller.jump();
            self.can_jump = false;
            true
        } else {
            self.can_jump = false;
            false
        }
    }

    /// One simulation tick: turn the held directions into the drive
    /// force, integrate and clamp through the controller, shift the
    /// cave stream when the player leaves the middle half of its
    /// bounds, resolve penetration against the merged cave walls in
    /// order, re-check ground contact with the probe points, and wrap
    /// vertically at the world bound (the wrap tests reuse the rect
    /// sampled before resolution, not the resolved one).
    #[verifier::rlimit(100)]
    #[verifier::spinoff_prover]
    pub fn update(&mut self, dt: i64, left_pressed: bool, right_pressed: bool)
        requires
            old(self).wf(),
            0 <= dt <= DT_LIMIT,
            abs_i(old(self).controller.body.body.position.x as int) <= POS_LIMIT,
            abs_i(old(self).controller.body.body.position.y as int) <= POS_LIMIT,
            abs_i(old(self).controller.body.body.velocity.x as int) <= VEL_LIMIT,
            abs_i(old(self).controller.body.body.velocity.y as int) <= VEL_LIMIT,
            -CURRENT_LIMIT < old(self).cave.current_fragment < CURRENT_LIMIT,
        ensures
            final(self).wf(),
            final(self).orientation == (if left_pressed {
                -1i8
            } else if right_pressed {
                1i8
            } else {
                old(self).orientation
            }),
            final(self).controller.horizontal_force as int == (if left_pressed {
                -(MOVE_FORCE as int)
            } else if right_pressed {
                MOVE_FORCE as int
            } else {
                0int
            }),
            abs_i(final(self).controller.body.body.position.x as int) <= 940_000_000_000,
            abs_i(final(self).controller.body.body.position.y as int) <= 940_000_000_000,
            abs_i(final(self).controller.body.body.velocity.x as int) <= VEL_LIMIT,
            abs_i(final(self).controller.body.body.velocity.y as int) <= abs_i(
                old(self).controller.body.body.velocity.y as int,
            ) + 720_000_000,
            ({
                let drive = if left_pressed {
                    -MOVE_FORCE as int
                } else if right_pressed {
                    MOVE_FORCE as int
                } else {
                    0int
                };
                let stepped = stepped_player(old(self).controller, drive, dt as int);
                let bounds = cave_bounds(old(self).cave.current_fragment as int);
                let shift = shift_of(stepped.0, bounds.0, bounds.1);
                &&& final(self).cave.current_fragment == old(self).cave.current_fragment + shift
                &&& (shift == 0 ==> final(self).cave == old(self).cave)
                &&& (shift == 1 ==> final(self).cave.fragments@[0] == old(self).cave.fragments@[1]
                    && final(self).cave.fragments@[1] == old(self).cave.fragments@[2])
                &&& (shift == -1 ==> final(self).cave.fragments@[1] == old(
                    self,
                ).cave.fragments@[0] && final(self).cave.fragments@[2] == old(
                    self,
                ).cave.fragments@[1])
                &&& exists|walls: Seq<Rect>|
                    #![trigger walls.len()]
                    {
                        let rect1 = (Rect {
                            x: stepped.0 as i64,
                            y: stepped.1 as i64,
                            w: COLLIDER_WIDTH,
                            h: PLAYER_HEIGHT,
                        });
                        let folded = resolve_fold(
                            stepped.0,
                            stepped.1,
                            stepped.2,
                            stepped.3,
                            COLLIDER_WIDTH as int,
                            PLAYER_HEIGHT as int,
                            walls,
                            walls.len() as int,
                        );
                        &&& cave_lines_match(final(self).cave, rect1, walls)
                        &&& final(self).controller.body.body.position.x == folded.0
                        &&& final(self).controller.body.body.velocity.x == folded.2
                        &&& final(self).controller.body.body.velocity.y == folded.3
                        &&& final(self).can_jump == probes_hit(
                            final(self).cave,
                            old(self).controller.ground_check_offsets@,
                            folded.0,
                            folded.1,
                            COLLIDER_WIDTH as int,
                            PLAYER_HEIGHT as int,
                        )
                        &&& final(self).controller.body.body.position.y == (if stepped.1 < -(
                        DISTANCE + 500_000) {
                            (DISTANCE + 500_000) as int
                        } else if stepped.1 > DISTANCE + 500_000 {
                            -(DISTANCE + 500_000) as int
                        } else {
                            folded.1
                        })
                    }
            }),
    {
        if left_pressed {
            self.controller.move_left();
            self.orientation = -1;
        } else if right_pressed {
            self.controller.move_right();
            self.orientation = 1;
        } else {
            self.controller.stop();
        }

        proof {
            lemma_tick_fits(self.controller, dt as int);
        }
        let ghost stepped = stepped_player(
            self.controller,
            self.controller.horizontal_force as int,
            dt as int,
        );
        self.controller.update(dt);
        proof {
            assert(self.controller.body.body.position.x as int == stepped.0);
            assert(self.controller.body.body.position.y as int == stepped.1);
            assert(self.controller.body.body.velocity.x as int == stepped.2);
            assert(self.controller.body.body.velocity.y as int == stepped.3);
            assert(abs_i(stepped.0) <= 920_000_000_000);
            assert(abs_i(stepped.1) <= 920_000_000_000);
        }

        let player_rect = self.controller.rect();

        let cave_bounds_v = self.cave.bounds();
        let num: i128 = (player_rect.x as i128) - (cave_bounds_v.0 as i128);
        let den: i128 = (cave_bounds_v.1 as i128) - (cave_bounds_v.0 as i128);
        if 4 * num > 3 * den {
            self.cave.push_right();
        } else if 4 * num < den {
            self.cave.push_left();
        }

        let collisions = self.cave.get_collisions(player_rect);
        proof {
            crate::collision::lemma_resolve_fold_bound(
                player_rect.x as int,
                player_rect.y as int,
                self.controller.body.body.velocity.x as int,
                self.controller.body.body.velocity.y as int,
                COLLIDER_WIDTH as int,
                PLAYER_HEIGHT as int,
                collisions@,
                collisions@.len() as int,
                CAVE_WALL_CAP as int,
                940_000_000_000,
            );
        }
        self.controller.body.resolve_collisions(&collisions);

        let points = self.controller.ground_check_points();
        let mut hit = false;
        let mut k: usize = 0;
        #[verifier::loop_isolation(false)]
        while k < points.len()
            invariant
                k <= points@.len(),
                hit == exists|j: int|
                    0 <= j < k && #[trigger] cave_point_hits(
                        self.cave,
                        points@[j].x as int,
                        points@[j].y as int,
                    ),
            decreases points@.len() - k,
        {
            let p = points[k];
            if self.cave.check_collision(p) {
                hit = true;
            }
            k = k + 1;
        }
        self.can_jump = hit;

        if player_rect.y < -(DISTANCE + 500_000) {
            let px = self.controller.body.body.position.x;
            self.controller.body.body.set_position(Vec2 { x: px, y: DISTANCE + 500_000 });
        }
        if player_rect.y > DISTANCE + 500_000 {
            let px = self.controller.body.body.position.x;
            self.controller.body.body.set_position(Vec2 { x: px, y: -(DISTANCE + 500_000) });
        }

        proof {
            let drive = if left_pressed {
                -MOVE_FORCE as int
            } else if right_pressed {
                MOVE_FORCE as int
            } else {
                0int
            };
            assert(stepped == stepped_player(old(self).controller, drive, dt as int));
            let rect1 = (Rect {
                x: stepped.0 as i64,
                y: stepped.1 as i64,
                w: COLLIDER_WIDTH,
                h: PLAYER_HEIGHT,
            });
            assert(rect1 == (Rect {
                x: player_rect.x,
                y: player_rect.y,
                w: COLLIDER_WIDTH,
                h: PLAYER_HEIGHT,
            }));
            assert(cave_lines_match(self.cave, rect1, collisions@));
            let walls = collisions@;
            let folded = resolve_fold(
                stepped.0,
                stepped.1,
                stepped.2,
                stepped.3,
                COLLIDER_WIDTH as int,
                PLAYER_HEIGHT as int,
                walls,
                walls.len() as int,
            );
            assert(self.controller.body.body.position.x == folded.0);
            assert(self.controller.body.body.velocity.x == folded.2);
            assert(self.controller.body.body.velocity.y == folded.3);
            let offs = old(self).controller.ground_check_offsets@;
            assert(self.can_jump == probes_hit(
                self.cave,
                offs,
                folded.0,
                folded.1,
                COLLIDER_WIDTH as int,
                PLAYER_HEIGHT as int,
            )) by {
                if self.can_jump {
                    let j = choose|j: int|
                        0 <= j < points@.len() && #[trigger] cave_point_hits(
                            self.cave,
                            points@[j].x as int,
                            points@[j].y as int,
                        );
                    assert(cave_point_hits(
                        self.cave,
                        probe_coord(folded.0, offs[j].x as int, COLLIDER_WIDTH as int),
                        probe_coord(folded.1, offs[j].y as int, PLAYER_HEIGHT as int),
                    ));
                }
                if probes_hit(
                    self.cave,
                    offs,
                    folded.0,
                    folded.1,
                    COLLIDER_WIDTH as int,
                    PLAYER_HEIGHT as int,
                ) {
                    let j = choose|j: int|
                        0 <= j < offs.len() && #[trigger] cave_point_hits(
                            self.cave,
                            probe_coord(folded.0, offs[j].x as int, COLLIDER_WIDTH as int),
                            probe_coord(folded.1, offs[j].y as int, PLAYER_HEIGHT as int),
                        );
                    assert(cave_point_hits(
                        self.cave,
                        points@[j].x as int,
                        points@[j].y as int,
                    ));
                }
            }
            assert(self.controller.body.body.position.y as int == (if stepped.1 < -(DISTANCE
                + 500_000) {
                (DISTANCE + 500_000) as int
            } else if stepped.1 > DISTANCE + 500_000 {
                -(DISTANCE + 500_000) as int
            } else {
                folded.1
            }));
            assert(collisions@.len() <= collisions@.len());
        }
    }
}

/// One tick of the configured player keeps every intermediate value of
/// the integration, clamp and decay phases inside an `i64`, and the
/// stepped state within fixed bounds.
proof fn lemma_tick_fits(ctrl: MovementController, dt: int)
    requires
        ctrl.body.body.mass == PLAYER_MASS,
        ctrl.max_speed == MAX_SPEED,
        ctrl.move_speed_decay == MOVE_SPEED_DECAY,
        ctrl.gravity_acceleration == GRAVITY_ACCELERATION,
        ctrl.horizontal_force == 0 || ctrl.horizontal_force == MOVE_FORCE
            || ctrl.horizontal_force == -MOVE_FORCE,
        0 <= dt <= DT_LIMIT,
        abs_i(ctrl.body.body.position.x as int) <= POS_LIMIT,
        abs_i(ctrl.body.body.position.y as int) <= POS_LIMIT,
        abs_i(ctrl.body.body.velocity.x as int) <= VEL_LIMIT,
        abs_i(ctrl.body.body.velocity.y as int) <= VEL_LIMIT,
    ensures
        ctrl.update_fits(dt),
        ({
            let s = stepped_player(ctrl, ctrl.horizontal_force as int, dt);
            &&& abs_i(s.0) <= 920_000_000_000
            &&& abs_i(s.1) <= 920_000_000_000
            &&& abs_i(s.2) <= VEL_LIMIT
            &&& abs_i(s.3) <= abs_i(ctrl.body.body.velocity.y as int) + 720_000_000
        }),
{
    let m = ctrl.body.body.mass as int;
    let g = ctrl.gravity_acceleration as int;
    let hf = ctrl.horizontal_force as int;
    let vx = ctrl.body.body.velocity.x as int;
    let vy = ctrl.body.body.velocity.y as int;

    lemma_mul_div_fits(g, m, SCALE as int, GRAVITY_ACCELERATION as int, PLAYER_MASS as int);
    let g_force = mul_div_spec(g, m, SCALE as int);
    assert(abs_i(g_force) <= 216_000_000);

    lemma_mul_div_fits(hf, SCALE as int, m, MOVE_FORCE as int, SCALE as int);
    let ax = accel_of(hf, m);
    assert(abs_i(ax) <= div_t(MOVE_FORCE as int * SCALE as int, m));
    assert(abs_i(ax) <= 57_600_000);

    lemma_mul_div_fits(-g_force, SCALE as int, m, 216_000_000, SCALE as int);
    let ay = accel_of(-g_force, m);
    assert(abs_i(ay) <= 72_000_000);

    lemma_mul_div_fits(ax, dt, SCALE as int, 57_600_000, DT_LIMIT as int);
    let dvx = dvel_of(ax, dt);
    assert(abs_i(dvx) <= 576_000_000);

    lemma_mul_div_fits(ay, dt, SCALE as int, 72_000_000, DT_LIMIT as int);
    let dvy = dvel_of(ay, dt);
    assert(abs_i(dvy) <= 720_000_000);

    lemma_mul_div_fits(vx, dt, SCALE as int, VEL_LIMIT as int, DT_LIMIT as int);
    lemma_mul_div_fits(vy, dt, SCALE as int, VEL_LIMIT as int, DT_LIMIT as int);
    lemma_mul_div_fits(dvx, dt, SCALE as int, 576_000_000, DT_LIMIT as int);
    crate::fixed::lemma_div_t_bound(mul_div_spec(dvx, dt, SCALE as int), 2);

    lemma_mul_div_fits(
        ctrl.move_speed_decay as int,
        dt,
        SCALE as int,
        MOVE_SPEED_DECAY as int,
        DT_LIMIT as int,
    );
}

/// Horizontal speeds above a tenth of the speed limit count as walking.
pub const WALK_SPEED_THRESHOLD: i64 = 1_152_000;

/// Vertical speeds beyond this (a thirty-fifth of the gravity constant)
/// count as jumping or falling.
pub const AIRBORNE_SPEED_THRESHOLD: i64 = 2_057_142;

/// The player's animation transition table over the monitored velocity:
/// state 0 idles, 1 walks, 2 jumps, 3 falls. Idle and walk switch on
/// the horizontal speed threshold and leave for jump or fall on the
/// vertical ones; jump hands over to fall at the apex, and fall returns
/// to idle on touchdown.
pub fn player_animation_rules() -> (r: StateMachine<VelocityCondition>)
    ensures
        r.current_state == 0,
        r.rules@.len() == 4,
        r.rules@[0]@ == seq![
            Rule { to: 1usize, trigger: VelocityCondition::SpeedAbove(WALK_SPEED_THRESHOLD) },
            Rule { to: 2usize, trigger: VelocityCondition::RisingFasterThan(AIRBORNE_SPEED_THRESHOLD) },
            Rule { to: 3usize, trigger: VelocityCondition::FallingFasterThan((-AIRBORNE_SPEED_THRESHOLD) as i64) },
        ],
        r.rules@[1]@ == seq![
            Rule { to: 0usize, trigger: VelocityCondition::SpeedBelow(WALK_SPEED_THRESHOLD) },
            Rule { to: 2usize, trigger: VelocityCondition::RisingFasterThan(AIRBORNE_SPEED_THRESHOLD) },
            Rule { to: 3usize, trigger: VelocityCondition::FallingFasterThan((-AIRBORNE_SPEED_THRESHOLD) as i64) },
        ],
        r.rules@[2]@ == seq![Rule { to: 3usize, trigger: VelocityCondition::NotRising }],
        r.rules@[3]@ == seq![Rule { to: 0usize, trigger: VelocityCondition::NotFalling }],
{
    let mut machine: StateMachine<VelocityCondition> = StateMachine::new(4);
    machine.add_rule(0, 1, VelocityCondition::SpeedAbove(WALK_SPEED_THRESHOLD));
    machine.add_rule(1, 0, VelocityCondition::SpeedBelow(WALK_SPEED_THRESHOLD));
    machine.add_rule(0, 2, VelocityCondition::RisingFasterThan(AIRBORNE_SPEED_THRESHOLD));
    machine.add_rule(1, 2, VelocityCondition::RisingFasterThan(AIRBORNE_SPEED_THRESHOLD));
    machine.add_rule(0, 3, VelocityCondition::FallingFasterThan(-AIRBORNE_SPEED_THRESHOLD));
    machine.add_rule(1, 3, VelocityCondition::FallingFasterThan(-AIRBORNE_SPEED_THRESHOLD));
    machine.add_rule(2, 3, VelocityCondition::NotRising);
    machine.add_rule(3, 0, VelocityCondition::NotFalling);
    proof {
        assert(machine.rules@[0]@ =~= seq![
            Rule { to: 1usize, trigger: VelocityCondition::SpeedAbove(WALK_SPEED_THRESHOLD) },
            Rule {
                to: 2usize,
                trigger: VelocityCondition::RisingFasterThan(AIRBORNE_SPEED_THRESHOLD),
            },
            Rule {
                to: 3usize,
                trigger: VelocityCondition::FallingFasterThan((-AIRBORNE_SPEED_THRESHOLD) as i64),
            },
        ]);
        assert(machine.rules@[1]@ =~= seq![
            Rule { to: 0usize, trigger: VelocityCondition::SpeedBelow(WALK_SPEED_THRESHOLD) },
            Rule {
                to: 2usize,
                trigger: VelocityCondition::RisingFasterThan(AIRBORNE_SPEED_THRESHOLD),
            },
            Rule {
                to: 3usize,
                trigger: VelocityCondition::FallingFasterThan((-AIRBORNE_SPEED_THRESHOLD) as i64),
            },
        ]);
        assert(machine.rules@[2]@ =~= seq![
            Rule { to: 3usize, trigger: VelocityCondition::NotRising },
        ]);
        assert(machine.rules@[3]@ =~= seq![
            Rule { to: 0usize, trigger: VelocityCondition::NotFalling },
        ]);
    }
    machine
}

/// A wall rectangle produced by a well-formed cave fragment: tightly
/// bounded coordinates and extents (well inside the obstacle range that
/// penetration resolution accepts).
pub open spec fn cave_wall_bounded(r: Rect) -> bool {
    &&& abs_i(r.x as int) <= CAVE_WALL_CAP
    &&& abs_i(r.y as int) <= CAVE_WALL_CAP
    &&& 0 <= r.w <= CAVE_WALL_CAP
    &&& 0 <= r.h <= CAVE_WALL_CAP
}

/// Every merged collision line of a well-formed fragment lies within
/// the obstacle range that penetration resolution accepts.
proof fn lemma_fragment_lines_in_range(frag: CaveFragment, walls: Seq<Rect>, rect: Rect)
    requires
        fragment_wf(frag),
        ({
            let runs = frag.collider.lines_of(rect);
            &&& walls.len() == runs.len()
            &&& forall|k: int|
                0 <= k < runs.len() ==> frag.collider.is_run_rect(
                    #[trigger] walls[k],
                    (runs[k].0, runs[k].1),
                    runs[k].2,
                )
            &&& forall|k: int|
                0 <= k < runs.len() ==> 0 <= (#[trigger] runs[k]).0 <= runs[k].1
                    < frag.collider.tiles@[runs[k].2]@.len() && 0 <= runs[k].2
                    < frag.collider.tiles@.len()
        }),
    ensures
        forall|k: int|
            0 <= k < walls.len() ==> cave_wall_bounded(#[trigger] walls[k])
                && crate::collision::obstacle_in_range(walls[k]),
{
    reveal(fragment_wf);
    let runs = frag.collider.lines_of(rect);
    assert forall|k: int| 0 <= k < walls.len() implies cave_wall_bounded(#[trigger] walls[k])
        && crate::collision::obstacle_in_range(walls[k]) by {
        let s = runs[k].0;
        let e = runs[k].1;
        let rr = runs[k].2;
        let ox = frag.collider.origin.x as int;
        let oy = frag.collider.origin.y as int;
        crate::fixed::lemma_div_t_exact(
            (s + e) * (crate::fixed::SCALE as int / 2) - ox * crate::fixed::SCALE,
            crate::fixed::SCALE as int,
        );
        crate::fixed::lemma_div_t_exact(
            (rr + rr) * (crate::fixed::SCALE as int / 2) - oy * crate::fixed::SCALE,
            crate::fixed::SCALE as int,
        );
        assert(walls[k].x == (s + e) * (crate::fixed::SCALE as int / 2) - ox
            * crate::fixed::SCALE);
        assert(walls[k].y == (rr + rr) * (crate::fixed::SCALE as int / 2) - oy
            * crate::fixed::SCALE);
    }
}

} // verus!
