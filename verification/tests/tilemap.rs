use ezplatform::collision::TilemapCollider;
use ezplatform::geometry::TilePoint;
use ezplatform::geometry::Vec2;
use ezplatform::tilemap::TilemapSegment;

/// A continuous value as fixed-point units (millionths of a world unit).
fn fx(v: f64) -> i64 {
    (v * 1_000_000.0).round() as i64
}

fn grid(x: i32, y: i32, tile_width: f64, tile_height: f64) -> TilemapCollider {
    TilemapCollider::from_components(
        &Vec::new(),
        fx(tile_width),
        fx(tile_height),
        TilePoint { x, y },
    )
}

fn point(x: f64, y: f64) -> Vec2 {
    Vec2 { x: fx(x), y: fx(y) }
}

fn rect(x: f64, y: f64, w: f64, h: f64) -> ezplatform::geometry::Rect {
    ezplatform::geometry::Rect { x: fx(x), y: fx(y), w: fx(w), h: fx(h) }
}

fn segment(left: i32, right: i32, bottom: i32, top: i32) -> TilemapSegment {
    TilemapSegment { left_bound: left, right_bound: right, bottom_bound: bottom, top_bound: top }
}

#[test]
fn test_tilemap_to_world_with_zero_origin() {
    let tilemap = grid(0, 0, 1.0, 1.0);

    assert_eq!(point(0.0, 0.0), tilemap.tilemap_to_world(point(0.0, 0.0)));
    assert_eq!(point(1.0, 1.0), tilemap.tilemap_to_world(point(1.0, 1.0)));
    assert_eq!(point(-2.0, -0.5), tilemap.tilemap_to_world(point(-2.0, -0.5)));

    let tilemap = grid(0, 0, 0.5, 2.0);

    assert_eq!(point(0.0, 0.0), tilemap.tilemap_to_world(point(0.0, 0.0)));
    assert_eq!(point(0.5, 2.0), tilemap.tilemap_to_world(point(1.0, 1.0)));
    assert_eq!(point(-1.0, -1.0), tilemap.tilemap_to_world(point(-2.0, -0.5)));
}

#[test]
fn test_tilemap_to_world_with_non_zero_origin() {
    let tilemap = grid(2, 4, 1.0, 1.0);

    assert_eq!(point(-2.0, -4.0), tilemap.tilemap_to_world(point(0.0, 0.0)));
    assert_eq!(point(-1.0, -3.0), tilemap.tilemap_to_world(point(1.0, 1.0)));
    assert_eq!(point(-4.0, -4.5), tilemap.tilemap_to_world(point(-2.0, -0.5)));

    let tilemap = grid(2, 4, 0.5, 2.0);

    assert_eq!(point(-1.0, -8.0), tilemap.tilemap_to_world(point(0.0, 0.0)));
    assert_eq!(point(-0.5, -6.0), tilemap.tilemap_to_world(point(1.0, 1.0)));
    assert_eq!(point(-2.0, -9.0), tilemap.tilemap_to_world(point(-2.0, -0.5)));

    let tilemap = grid(-2, 4, 1.0, 1.0);

    assert_eq!(point(2.0, -4.0), tilemap.tilemap_to_world(point(0.0, 0.0)));
    assert_eq!(point(3.0, -3.0), tilemap.tilemap_to_world(point(1.0, 1.0)));
    assert_eq!(point(0.0, -4.5), tilemap.tilemap_to_world(point(-2.0, -0.5)));
}

#[test]
fn test_world_to_tilemap_with_zero_origin() {
    let tilemap = grid(0, 0, 1.0, 1.0);

    assert_eq!(point(0.0, 0.0), tilemap.world_to_tilemap(point(0.0, 0.0)));
    assert_eq!(point(1.0, 1.0), tilemap.world_to_tilemap(point(1.0, 1.0)));
    assert_eq!(point(-2.0, -0.5), tilemap.world_to_tilemap(point(-2.0, -0.5)));

    let tilemap = grid(0, 0, 0.5, 2.0);

    assert_eq!(point(0.0, 0.0), tilemap.world_to_tilemap(point(0.0, 0.0)));
    assert_eq!(point(2.0, 0.5), tilemap.world_to_tilemap(point(1.0, 1.0)));
    assert_eq!(point(-4.0, -0.25), tilemap.world_to_tilemap(point(-2.0, -0.5)));
}

#[test]
fn test_world_to_tilemap_with_non_zero_origin() {
    let tilemap = grid(2, 4, 1.0, 1.0);

    assert_eq!(point(2.0, 4.0), tilemap.world_to_tilemap(point(0.0, 0.0)));
    assert_eq!(point(3.0, 5.0), tilemap.world_to_tilemap(point(1.0, 1.0)));
    assert_eq!(point(0.0, 3.5), tilemap.world_to_tilemap(point(-2.0, -0.5)));

    let tilemap = grid(2, 4, 0.5, 2.0);

    assert_eq!(point(2.0, 4.0), tilemap.world_to_tilemap(point(0.0, 0.0)));
    assert_eq!(point(4.0, 4.5), tilemap.world_to_tilemap(point(1.0, 1.0)));
    assert_eq!(point(-2.0, 3.75), tilemap.world_to_tilemap(point(-2.0, -0.5)));

    let tilemap = grid(-2, 4, 0.5, 2.0);

    assert_eq!(point(-2.0, 4.0), tilemap.world_to_tilemap(point(0.0, 0.0)));
    assert_eq!(point(0.0, 4.5), tilemap.world_to_tilemap(point(1.0, 1.0)));
    assert_eq!(point(-6.0, 3.75), tilemap.world_to_tilemap(point(-2.0, -0.5)));
}

#[test]
fn test_rect_overlap() {
    let tilemap = grid(0, 0, 1.0, 2.0);

    assert_eq!(segment(0, 0, 0, 0), tilemap.rect_overlap(rect(0.0, 0.0, 0.0, 0.0)));
    assert_eq!(segment(-1, 1, 0, 0), tilemap.rect_overlap(rect(0.0, 0.0, 1.5, 1.5)));
    assert_eq!(segment(-3, -1, -1, 1), tilemap.rect_overlap(rect(-2.0, 0.0, 1.5, 2.5)));

    let tilemap = grid(2, 4, 1.0, 2.0);

    assert_eq!(segment(2, 2, 4, 4), tilemap.rect_overlap(rect(0.0, 0.0, 0.0, 0.0)));
    assert_eq!(segment(1, 3, 4, 4), tilemap.rect_overlap(rect(0.0, 0.0, 1.5, 1.5)));
    assert_eq!(segment(-1, 1, 3, 5), tilemap.rect_overlap(rect(-2.0, 0.0, 1.5, 2.5)));
}

#[test]
fn test_point_overlap() {
    let tilemap = grid(0, 0, 1.0, 2.0);

    assert_eq!(TilePoint { x: 0, y: 0 }, tilemap.point_overlap(point(0.0, 0.0)));
    assert_eq!(TilePoint { x: 1, y: 1 }, tilemap.point_overlap(point(1.0, 1.5)));

    let tilemap = grid(2, 4, 1.0, 2.0);

    assert_eq!(TilePoint { x: 2, y: 4 }, tilemap.point_overlap(point(0.0, 0.0)));
    assert_eq!(TilePoint { x: 3, y: 5 }, tilemap.point_overlap(point(1.0, 1.5)));
}

#[test]
fn test_tile_to_world() {
    let tilemap = grid(0, 0, 1.0, 2.0);

    assert_eq!(rect(0.0, 0.0, 1.0, 2.0), tilemap.tile_to_world(TilePoint { x: 0, y: 0 }));
    assert_eq!(rect(1.0, -2.0, 1.0, 2.0), tilemap.tile_to_world(TilePoint { x: 1, y: -1 }));

    let tilemap = grid(2, 4, 1.0, 2.0);

    assert_eq!(rect(-2.0, -8.0, 1.0, 2.0), tilemap.tile_to_world(TilePoint { x: 0, y: 0 }));
    assert_eq!(rect(-1.0, -10.0, 1.0, 2.0), tilemap.tile_to_world(TilePoint { x: 1, y: -1 }));
}

#[test]
fn test_world_round_trip_is_exact_on_divisible_coordinates() {
    // tile sizes 0.5 and 2.0 divide these coordinates evenly, so the
    // world -> tile -> world round trip returns them exactly
    let tilemap = grid(2, 4, 0.5, 2.0);

    for p in [point(0.0, 0.0), point(1.0, 2.0), point(-2.5, -6.0)] {
        assert_eq!(p, tilemap.tilemap_to_world(tilemap.world_to_tilemap(p)));
    }

    // a tile size that does not divide the coordinate loses the
    // sub-tile remainder to truncation
    let coarse = grid(0, 0, 3.0e-6, 3.0e-6);
    let p = Vec2 { x: 1, y: 1 };
    let back = coarse.tilemap_to_world(coarse.world_to_tilemap(p));
    assert_eq!(Vec2 { x: 0, y: 0 }, back);
}

#[test]
fn test_segment_to_world() {
    let tilemap = grid(0, 0, 1.0, 2.0);

    assert_eq!(rect(0.0, 0.0, 1.0, 2.0), tilemap.segment_to_world(&segment(0, 0, 0, 0)));
    assert_eq!(rect(0.0, 0.0, 3.0, 6.0), tilemap.segment_to_world(&segment(-1, 1, -1, 1)));

    let tilemap = grid(2, 4, 1.0, 2.0);

    assert_eq!(rect(-2.0, -8.0, 1.0, 2.0), tilemap.segment_to_world(&segment(0, 0, 0, 0)));
    assert_eq!(rect(-2.0, -8.0, 3.0, 6.0), tilemap.segment_to_world(&segment(-1, 1, -1, 1)));
}
