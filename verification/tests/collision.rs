use ezplatform::collision::DynamicCollider;
use ezplatform::collision::TilemapCollider;
use ezplatform::geometry::Rect;
use ezplatform::geometry::Vec2;

/// A continuous value as fixed-point units (millionths of a world unit).
fn fx(v: f64) -> i64 {
    (v * 1_000_000.0).round() as i64
}

fn rect(x: f64, y: f64, w: f64, h: f64) -> Rect {
    Rect { x: fx(x), y: fx(y), w: fx(w), h: fx(h) }
}

fn point(x: f64, y: f64) -> Vec2 {
    Vec2 { x: fx(x), y: fx(y) }
}

fn sample_collider() -> TilemapCollider {
    TilemapCollider::from_template(&vec![
        vec![false, false, true],
        vec![false, true, true],
        vec![true, true, true],
    ])
}

#[test]
fn test_tilemap_collider_template_creation() {
    let collider = sample_collider();

    let expected = vec![
        vec![true, true, true],
        vec![false, true, true],
        vec![false, false, true],
    ];

    assert_eq!(expected, *collider.tiles_ref());
}

#[test]
fn test_tilemap_collider_get_collision_tiles() {
    let collider = sample_collider();

    let expected = vec![rect(0.0, 0.0, 1.0, 1.0)];
    assert_eq!(expected, collider.get_collision_tiles(rect(0.0, 0.0, 0.0, 0.0)));

    assert_eq!(3, collider.get_collision_tiles(rect(0.0, 0.0, 2.0, 2.0)).len());
    assert_eq!(6, collider.get_collision_tiles(rect(1.0, 1.0, 3.0, 3.0)).len());
    assert_eq!(2, collider.get_collision_tiles(rect(1.0, 1.0, 3.0, 0.5)).len());
    assert_eq!(0, collider.get_collision_tiles(rect(0.0, 1.0, 0.5, 0.5)).len());
    assert_eq!(0, collider.get_collision_tiles(rect(0.0, 2.0, 2.0, 0.5)).len());
    assert_eq!(0, collider.get_collision_tiles(rect(-1.0, 1.0, 0.5, 3.0)).len());
    assert_eq!(0, collider.get_collision_tiles(rect(3.0, 1.0, 0.5, 3.0)).len());
}

#[test]
fn test_tilemap_collider_get_collision_lines() {
    let collider = sample_collider();

    let expected = vec![rect(1.5, 1.0, 2.0, 1.0)];
    assert_eq!(expected, collider.get_collision_lines(rect(1.0, 1.0, 3.0, 0.5)));

    assert_eq!(2, collider.get_collision_lines(rect(0.0, 0.0, 2.0, 2.0)).len());
    assert_eq!(3, collider.get_collision_lines(rect(1.0, 1.0, 3.0, 3.0)).len());
    assert_eq!(0, collider.get_collision_lines(rect(0.0, 1.0, 0.5, 0.5)).len());
    assert_eq!(0, collider.get_collision_lines(rect(-1.0, 1.0, 0.5, 3.0)).len());
    assert_eq!(1, collider.get_collision_lines(rect(0.0, 1.0, 3.0, 0.5)).len());
    assert_eq!(2, collider.get_collision_lines(rect(0.0, 0.5, 3.0, 1.0)).len());
}

#[test]
fn test_tilemap_collider_check_collision() {
    let collider = sample_collider();

    assert!(collider.check_collision(point(0.0, 0.0)));
    assert!(collider.check_collision(point(1.0, 0.0)));
    assert!(collider.check_collision(point(1.0, 1.0)));
    assert!(!collider.check_collision(point(0.0, 1.0)));
    assert!(!collider.check_collision(point(-1.0, 0.0)));
    assert!(!collider.check_collision(point(3.0, 0.0)));
}

#[test]
fn test_new_dynamic_collider() {
    let collider = DynamicCollider::from_rect(rect(1.0, 1.0, 2.0, 3.0), fx(1.0));

    assert_eq!(point(1.0, 1.0), collider.position());
    assert_eq!(point(0.0, 0.0), collider.velocity());
    assert_eq!(point(0.0, 0.0), collider.acceleration());
    assert_eq!(point(0.0, 0.0), collider.force());
    assert_eq!(fx(1.0), collider.mass());
    assert_eq!(fx(2.0), collider.width());
    assert_eq!(fx(3.0), collider.height());
}

#[test]
fn test_dynamic_collider_resolve_collision_no_contact() {
    let initial_rect = rect(1.0, 1.0, 2.0, 3.0);
    let mut collider = DynamicCollider::from_rect(initial_rect, fx(1.0));

    collider.resolve_collision(&rect(-1.0, 1.0, 1.0, 1.0));
    assert_eq!(initial_rect, collider.rect());

    collider.resolve_collision(&rect(3.0, 1.0, 1.0, 1.0));
    assert_eq!(initial_rect, collider.rect());

    collider.resolve_collision(&rect(1.0, -1.0, 1.0, 1.0));
    assert_eq!(initial_rect, collider.rect());

    collider.resolve_collision(&rect(1.0, 3.0, 1.0, 1.0));
    assert_eq!(initial_rect, collider.rect());
}

#[test]
fn test_dynamic_collider_resolve_collision_with_contact() {
    let mut collider = DynamicCollider::from_rect(rect(1.0, 1.0, 2.0, 3.0), fx(1.0));

    collider.resolve_collision(&rect(0.0, 1.0, 1.0, 1.0));
    assert_eq!(rect(1.5, 1.0, 2.0, 3.0), collider.rect());

    collider.resolve_collision(&rect(2.0, 1.0, 1.0, 1.0));
    assert_eq!(rect(0.5, 1.0, 2.0, 3.0), collider.rect());

    collider.resolve_collision(&rect(0.0, 0.0, 1.0, 1.0));
    assert_eq!(rect(0.5, 2.0, 2.0, 3.0), collider.rect());

    collider.resolve_collision(&rect(0.0, 3.0, 1.0, 1.0));
    assert_eq!(rect(0.5, 1.0, 2.0, 3.0), collider.rect());
}

#[test]
fn test_resolve_collision_zeroes_velocity_on_contact() {
    let mut collider = DynamicCollider::from_rect(rect(1.0, 1.0, 2.0, 3.0), fx(1.0));
    collider.set_velocity(Vec2 { x: fx(3.0), y: fx(-2.0) });

    // X overlap (0.5) is smaller than Y overlap (2.0): resolve along X.
    collider.resolve_collision(&rect(0.0, 1.0, 1.0, 1.0));
    assert_eq!(0, collider.velocity().x);
    assert_eq!(fx(-2.0), collider.velocity().y);
    assert_eq!(fx(1.5), collider.position().x);
}

#[test]
fn test_resolve_collisions_in_order() {
    let mut collider = DynamicCollider::from_rect(rect(1.0, 1.0, 2.0, 3.0), fx(1.0));

    let walls = vec![rect(0.0, 1.0, 1.0, 1.0), rect(2.5, 1.0, 1.0, 1.0)];
    collider.resolve_collisions(&walls);

    // pushed right by the first wall, then left of the second
    assert_eq!(rect(1.0, 1.0, 2.0, 3.0), collider.rect());
}
