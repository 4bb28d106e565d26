use ezplatform::collision::TilemapCollider;
use ezplatform::game::clamp;
use ezplatform::game::player_animation_rules;
use ezplatform::game::generate_ground_template;
use ezplatform::game::tile_code;
use ezplatform::game::tile_hashmap;
use ezplatform::game::EzPlatform;
use ezplatform::game::TilemapCave;
use ezplatform::geometry::Vec2;

/// A continuous value as fixed-point units (millionths of a world unit).
fn fx(v: f64) -> i64 {
    (v * 1_000_000.0).round() as i64
}

#[test]
fn test_clamp() {
    assert_eq!(3, clamp(5, 0, 3));
    assert_eq!(0, clamp(-1, 0, 3));
    assert_eq!(2, clamp(2, 0, 3));
    assert_eq!(-4, clamp(-7, -4, 4));
}

#[test]
fn test_tile_code_values() {
    assert_eq!(1, tile_code(false, false, false, false));
    assert_eq!(2, tile_code(true, true, true, true));
    assert_eq!(16, tile_code(true, false, false, false));
    assert_eq!(13, tile_code(false, true, false, false));
    assert_eq!(15, tile_code(false, false, true, false));
    assert_eq!(14, tile_code(false, false, false, true));
}

#[test]
fn test_tile_hashmap_matches_tile_code() {
    let map = tile_hashmap();
    assert_eq!(16, map.len());
    for below in [false, true] {
        for above in [false, true] {
            for left in [false, true] {
                for right in [false, true] {
                    assert_eq!(
                        Some(&tile_code(below, above, left, right)),
                        map.get(&(below, above, left, right))
                    );
                }
            }
        }
    }
}

#[test]
fn test_generated_template_shape_and_entry_column() {
    for _ in 0..10 {
        let grid = generate_ground_template(31, 15, (5, 10), (5, 10), (7, 8), 2);
        assert_eq!(15, grid.len());
        for row in grid.iter() {
            assert_eq!(31, row.len());
        }
        // the first and last columns match the fixed start/end bounds:
        // stored row i is a wall exactly when it lies outside the
        // corridor rows [5, 10] (stored bottom-up: wall iff i < 4 or i > 9)
        for i in 0..15 {
            assert_eq!(grid[i][0] != 0, i < 4 || i > 9);
            assert_eq!(grid[i][30] != 0, i < 4 || i > 9);
        }
    }
}

#[test]
fn test_generated_template_never_seals_a_column() {
    for _ in 0..20 {
        let grid = generate_ground_template(31, 15, (5, 10), (5, 10), (7, 8), 2);
        for c in 0..31 {
            assert!(grid.iter().any(|row| row[c] == 0));
        }
    }
}

#[test]
fn test_generated_template_codes_match_neighbors() {
    let grid = generate_ground_template(31, 15, (5, 10), (5, 10), (7, 8), 2);
    for i in 0..15usize {
        for c in 0..31usize {
            let code = grid[i][c];
            assert!(code <= 16);
            if code != 0 {
                let below = i >= 1 && grid[i - 1][c] == 0;
                let above = i + 1 < 15 && grid[i + 1][c] == 0;
                let left = c >= 1 && grid[i][c - 1] == 0;
                let right = c + 1 < 31 && grid[i][c + 1] == 0;
                assert_eq!(code, tile_code(below, above, left, right));
            }
        }
    }
}

#[test]
fn test_cave_stream_starts_centered() {
    let cave = TilemapCave::new();
    assert_eq!(0, cave.current_fragment);
    assert_eq!(3, cave.fragments.len());
    assert_eq!(-1, cave.fragments[0].index);
    assert_eq!(0, cave.fragments[1].index);
    assert_eq!(1, cave.fragments[2].index);
    assert_eq!((fx(-46.5), fx(46.5)), cave.bounds());
}

#[test]
fn test_cave_push_right_shifts_window_by_one_span() {
    let mut cave = TilemapCave::new();
    let before = cave.bounds();

    cave.push_right();

    assert_eq!(1, cave.current_fragment);
    assert_eq!(3, cave.fragments.len());
    assert_eq!(0, cave.fragments[0].index);
    assert_eq!(1, cave.fragments[1].index);
    assert_eq!(2, cave.fragments[2].index);

    let after = cave.bounds();
    assert_eq!(before.0 + fx(31.0), after.0);
    assert_eq!(before.1 + fx(31.0), after.1);
}

#[test]
fn test_cave_push_left_shifts_window_back() {
    let mut cave = TilemapCave::new();
    cave.push_left();

    assert_eq!(-1, cave.current_fragment);
    assert_eq!(-2, cave.fragments[0].index);
    assert_eq!(-1, cave.fragments[1].index);
    assert_eq!(0, cave.fragments[2].index);
    assert_eq!((fx(-77.5), fx(15.5)), cave.bounds());
}

#[test]
fn test_cave_fragments_carry_entry_and_exit_walls() {
    let cave = TilemapCave::new();
    for frag in &cave.fragments {
        let tiles = frag.renderer.tiles();
        assert_eq!(15, tiles.len());

        // entry and exit columns: walls exactly outside the fixed
        // connection rows [5, 10]
        for i in 0..15 {
            assert_eq!(tiles[i][0] != 0, !(5 <= i && i <= 10));
            assert_eq!(tiles[i][30] != 0, !(5 <= i && i <= 10));
        }

        // interior columns: fully open, or walls exactly outside one
        // corridor within the clamp limits
        for c in 1..30 {
            let open_rows: Vec<usize> = (0..15).filter(|&i| tiles[i][c] == 0).collect();
            assert!(!open_rows.is_empty());
            if open_rows.len() < 15 {
                let f = open_rows[0];
                let cl = open_rows[open_rows.len() - 1];
                assert!(1 <= f && f <= 7);
                assert!(8 <= cl && cl <= 13);
                for i in 0..15 {
                    assert_eq!(tiles[i][c] == 0, f <= i && i <= cl);
                }
            }
        }
    }
}

#[test]
fn test_cave_collisions_come_from_all_fragments() {
    let cave = TilemapCave::new();
    // a rect spanning the full window: every wall line of every
    // fragment is reported, and each fragment has walls
    let everything = ezplatform::geometry::Rect {
        x: 0,
        y: 0,
        w: fx(3.0 * 31.0),
        h: fx(15.0),
    };
    let walls = cave.get_collisions(everything);
    assert!(walls.len() > 0);
}

#[test]
fn test_platform_starts_at_spawn() {
    let game = EzPlatform::new();
    assert_eq!(Vec2 { x: 0, y: fx(0.5) }, game.controller.collider().position());
    assert_eq!(Vec2 { x: 0, y: 0 }, game.controller.collider().velocity());
    assert_eq!(1, game.orientation);
    assert!(!game.can_jump);
}

#[test]
fn test_platform_jump_needs_ground_contact() {
    let mut game = EzPlatform::new();
    assert!(!game.jump_pressed());
    assert_eq!(0, game.controller.collider().velocity().y);
}

#[test]
fn test_platform_tick_applies_input_and_gravity() {
    let mut game = EzPlatform::new();

    game.update(fx(0.1), false, false);
    // no drive: the horizontal velocity stays exactly zero; gravity
    // pulls down unless a wall contact zeroed the fall
    assert_eq!(0, game.controller.collider().velocity().x);
    let vy = game.controller.collider().velocity().y;
    assert!(vy == 0 || vy == fx(-7.2));
    assert_eq!(0, game.controller.horizontal_force);

    game.update(fx(0.01), true, false);
    assert_eq!(-1, game.orientation);
    assert_eq!(fx(-172.8), game.controller.horizontal_force);

    game.update(fx(0.01), false, true);
    assert_eq!(1, game.orientation);
    assert_eq!(fx(172.8), game.controller.horizontal_force);
}

#[test]
fn test_collider_from_renderer_matches_codes() {
    let template = generate_ground_template(31, 15, (5, 10), (5, 10), (7, 8), 2);
    let renderer = ezplatform::rendering::TilemapRenderer::from_components(
        &template,
        fx(1.0),
        fx(1.0),
        ezplatform::geometry::TilePoint { x: 15, y: 7 },
    );
    let collider = TilemapCollider::from_renderer(&renderer);
    assert_eq!(renderer.tiles().len(), collider.tiles_ref().len());
    for (crow, rrow) in collider.tiles_ref().iter().zip(renderer.tiles().iter()) {
        assert_eq!(crow.len(), rrow.len());
        for (occupied, code) in crow.iter().zip(rrow.iter()) {
            assert_eq!(*occupied, *code != 0);
        }
    }
}

#[test]
fn test_player_animation_rules_walk_jump_fall() {
    let mut machine = player_animation_rules();
    assert_eq!(0, machine.state());

    // walking speed: idle hands over to walk
    machine.update_full(Vec2 { x: fx(2.0), y: 0 });
    assert_eq!(1, machine.state());

    // a strong upward velocity: walk hands over to jump
    machine.update_full(Vec2 { x: fx(2.0), y: fx(5.0) });
    assert_eq!(2, machine.state());

    // at the apex the jump falls, and a grounded velocity returns to idle
    machine.update_full(Vec2 { x: 0, y: 0 });
    assert_eq!(0, machine.state());

    // a strong downward velocity: idle hands over to fall
    machine.update_once(Vec2 { x: 0, y: fx(-5.0) });
    assert_eq!(3, machine.state());
}
