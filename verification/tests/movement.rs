use ezplatform::collision::DynamicCollider;
use ezplatform::geometry::Rect;
use ezplatform::geometry::Vec2;
use ezplatform::movement::MovementController;

/// A continuous value as fixed-point units (millionths of a world unit).
fn fx(v: f64) -> i64 {
    (v * 1_000_000.0).round() as i64
}

fn game_controller() -> MovementController {
    let body = DynamicCollider::from_rect(
        Rect { x: 0, y: 0, w: fx(0.98), h: fx(1.0) },
        fx(3.0),
    );
    let offsets = vec![
        Vec2 { x: fx(-0.98), y: fx(-1.2) },
        Vec2 { x: 0, y: fx(-1.2) },
        Vec2 { x: fx(0.98), y: fx(-1.2) },
    ];
    MovementController::from_components(
        body,
        fx(172.8),
        fx(21.6),
        fx(11.52),
        fx(129.6),
        fx(72.0),
        offsets,
    )
}

#[test]
fn test_move_left_right_stop() {
    let mut controller = game_controller();
    assert_eq!(0, controller.horizontal_force);

    controller.move_left();
    assert_eq!(fx(-172.8), controller.horizontal_force);

    controller.move_right();
    assert_eq!(fx(172.8), controller.horizontal_force);

    controller.stop();
    assert_eq!(0, controller.horizontal_force);
}

#[test]
fn test_jump_overwrites_vertical_velocity() {
    let mut controller = game_controller();
    controller.jump();
    assert_eq!(fx(21.6), controller.collider().velocity().y);
    assert_eq!(0, controller.collider().velocity().x);
}

#[test]
fn test_update_drives_clamps_and_integrates() {
    let mut controller = game_controller();
    controller.move_right();
    controller.update(fx(0.5));

    // acceleration 57.6 over half a second would reach 28.8, clamped to
    // the 11.52 speed limit; no decay while driving forward
    assert_eq!(fx(11.52), controller.collider().velocity().x);
    // gravity pulls at 72: half a second gives -36 vertically
    assert_eq!(fx(-36.0), controller.collider().velocity().y);
    // drift: old velocity zero, plus half the velocity delta's
    // contribution (28.8 * 0.5 / 2)
    assert_eq!(fx(7.2), controller.collider().position().x);
    // the vertical drift deliberately reuses the horizontal velocity
    // delta, so it matches the horizontal drift here
    assert_eq!(fx(7.2), controller.collider().position().y);
}

#[test]
fn test_update_decays_toward_zero_after_stop() {
    let mut controller = game_controller();
    controller.move_right();
    controller.update(fx(0.5));
    assert_eq!(fx(11.52), controller.collider().velocity().x);

    controller.stop();
    controller.update(fx(0.05));
    // decay of 129.6 * 0.05 = 6.48 against the 11.52 speed
    assert_eq!(fx(5.04), controller.collider().velocity().x);

    controller.update(fx(0.05));
    // another 6.48 overshoots zero (no snap above the 0.01 epsilon)
    assert_eq!(fx(-1.44), controller.collider().velocity().x);
}

#[test]
fn test_update_snaps_tiny_speed_to_zero() {
    let mut controller = game_controller();
    controller.collider_mut().set_velocity(Vec2 { x: fx(0.005), y: 0 });
    controller.update(fx(0.0));
    assert_eq!(0, controller.collider().velocity().x);
}

#[test]
fn test_ground_check_points_follow_the_rect() {
    let mut controller = game_controller();
    controller.collider_mut().set_position(Vec2 { x: 0, y: fx(0.5) });

    let points = controller.ground_check_points();
    assert_eq!(3, points.len());
    // x offset: (-0.98 / 2) * 0.98 = -0.4802; y offset: (-1.2 / 2) * 1.0 = -0.6
    assert_eq!(Vec2 { x: fx(-0.4802), y: fx(-0.1) }, points[0]);
    assert_eq!(Vec2 { x: 0, y: fx(-0.1) }, points[1]);
    assert_eq!(Vec2 { x: fx(0.4802), y: fx(-0.1) }, points[2]);
}
