use ezplatform::geometry::Vec2;
use ezplatform::physics::PhysicsPoint;

/// A continuous value as fixed-point units (millionths of a world unit).
fn fx(v: f64) -> i64 {
    (v * 1_000_000.0).round() as i64
}

fn point(x: f64, y: f64) -> Vec2 {
    Vec2 { x: fx(x), y: fx(y) }
}

#[test]
fn test_new_physics_point() {
    let point_mass = PhysicsPoint::new(point(1.0, 1.0), fx(1.0));

    assert_eq!(point(1.0, 1.0), point_mass.position());
    assert_eq!(point(0.0, 0.0), point_mass.velocity());
    assert_eq!(point(0.0, 0.0), point_mass.acceleration());
    assert_eq!(point(0.0, 0.0), point_mass.force());
    assert_eq!(fx(1.0), point_mass.mass());
}

#[test]
fn test_translate() {
    let mut point_mass = PhysicsPoint::new(point(0.0, 0.0), fx(1.0));

    point_mass.translate(point(0.0, 0.0));
    assert_eq!(point(0.0, 0.0), point_mass.position());

    point_mass.translate(point(1.0, 0.0));
    assert_eq!(point(1.0, 0.0), point_mass.position());

    point_mass.translate(point(0.0, -2.0));
    assert_eq!(point(1.0, -2.0), point_mass.position());

    point_mass.translate(point(-1.0, 2.0));
    assert_eq!(point(0.0, 0.0), point_mass.position());
}

#[test]
fn test_apply_velocity() {
    let mut point_mass = PhysicsPoint::new(point(0.0, 0.0), fx(1.0));

    point_mass.apply_velocity(point(0.0, 0.0));
    assert_eq!(point(0.0, 0.0), point_mass.velocity());

    point_mass.apply_velocity(point(1.0, 0.0));
    assert_eq!(point(1.0, 0.0), point_mass.velocity());

    point_mass.apply_velocity(point(0.0, -2.0));
    assert_eq!(point(1.0, -2.0), point_mass.velocity());

    point_mass.apply_velocity(point(-1.0, 2.0));
    assert_eq!(point(0.0, 0.0), point_mass.velocity());
}

#[test]
fn test_apply_force() {
    let mut point_mass = PhysicsPoint::new(point(0.0, 0.0), fx(2.0));

    point_mass.apply_force(point(0.0, 0.0));
    assert_eq!(point(0.0, 0.0), point_mass.force());
    assert_eq!(point(0.0, 0.0), point_mass.acceleration());

    point_mass.apply_force(point(1.0, 0.0));
    assert_eq!(point(1.0, 0.0), point_mass.force());
    assert_eq!(point(0.5, 0.0), point_mass.acceleration());

    point_mass.apply_force(point(0.0, -2.0));
    assert_eq!(point(1.0, -2.0), point_mass.force());
    assert_eq!(point(0.5, -1.0), point_mass.acceleration());

    point_mass.apply_force(point(-1.0, 2.0));
    assert_eq!(point(0.0, 0.0), point_mass.force());
    assert_eq!(point(0.0, 0.0), point_mass.acceleration());
}

#[test]
fn test_still_object_update() {
    let mut point_mass = PhysicsPoint::new(point(0.0, 0.0), fx(1.0));

    point_mass.update(fx(1.0));
    assert_eq!(point(0.0, 0.0), point_mass.position());
    assert_eq!(point(0.0, 0.0), point_mass.velocity());
    assert_eq!(point(0.0, 0.0), point_mass.acceleration());
    assert_eq!(point(0.0, 0.0), point_mass.force());
    assert_eq!(fx(1.0), point_mass.mass());
}

#[test]
fn test_monotonous_movement_update() {
    let mut point_mass = PhysicsPoint::new(point(0.0, 0.0), fx(1.0));
    point_mass.set_velocity(point(1.0, 1.0));

    point_mass.update(fx(1.0));
    assert_eq!(point(1.0, 1.0), point_mass.position());

    point_mass.update(fx(0.5));
    assert_eq!(point(1.5, 1.5), point_mass.position());
}

#[test]
fn test_accelerating_movement_update() {
    let mut point_mass = PhysicsPoint::new(point(0.0, 0.0), fx(2.0));
    point_mass.set_force(point(1.0, 1.0));

    point_mass.update(fx(1.0));
    assert_eq!(point(0.5, 0.5), point_mass.velocity());
    assert_eq!(point(0.25, 0.25), point_mass.position());

    point_mass.update(fx(0.5));
    assert_eq!(point(0.75, 0.75), point_mass.velocity());
    assert_eq!(point(0.5625, 0.5625), point_mass.position());
}
