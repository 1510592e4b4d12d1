use color_battle::arena::{App, RELOAD_SHOTS};
use color_battle::bullet::{Bullet, BULLET_RADIUS};
use color_battle::cannon::{Cannon, CANNON_SPEED, FRAME_DELAY};
use color_battle::geometry::{
    calc_logical_index, calc_physical_index, check_circle_boundary_collisions, is_on_grid, Config,
    Headings, Rect, UNIT,
};
use color_battle::grid::Grid;
use color_battle::plinko::{Plinko, PlinkoEvent, BOUNDARY_WIDTH, MIN_WELL_WIDTH, PIN_COUNT};
use color_battle::puck::{Puck, PUCK_RADIUS};

fn headings() -> Headings {
    let mut steps = Vec::new();
    for a in 0..3600 {
        let r = (a as f64 / 10.0).to_radians();
        steps.push(((r.cos() * 1000.0).round() as i64, (r.sin() * 1000.0).round() as i64));
    }
    Headings::new(steps).unwrap()
}

fn small_config() -> Config {
    Config { cell_width: 10, half_edges: 2, border: 20, side_width: 300 }
}

fn game_config() -> Config {
    Config { cell_width: 14, half_edges: 32, border: 20, side_width: 300 }
}

#[test]
fn grid_starts_in_quadrants() {
    let cfg = small_config();
    let g = Grid::new(&cfg);
    assert_eq!(g.cells.len(), 16);
    for x in 0..4i64 {
        for y in 0..4i64 {
            let expected = match (x < 2, y < 2) {
                (true, true) => 1,
                (false, true) => 2,
                (true, false) => 3,
                (false, false) => 4,
            };
            assert_eq!(g.cells[calc_logical_index(x, y, 2)], expected);
        }
    }
}

#[test]
fn grid_of_game_size_has_every_tag() {
    let cfg = game_config();
    let g = Grid::new(&cfg);
    assert_eq!(g.cells.len(), 64 * 64);
    assert!(g.cells.iter().all(|&c| (1..=4).contains(&c)));
    for tag in 1..=4u8 {
        assert_eq!(g.cells.iter().filter(|&&c| c == tag).count(), 32 * 32);
    }
}

#[test]
fn capture_twice_by_same_player() {
    let cfg = small_config();
    let mut g = Grid::new(&cfg);
    assert!(g.check_collision(35 * UNIT, 5 * UNIT, 1));
    assert!(!g.check_collision(35 * UNIT, 5 * UNIT, 1));
    assert_eq!(g.cells[calc_logical_index(3, 0, 2)], 1);
}

#[test]
fn capture_by_two_players_in_turn() {
    let cfg = small_config();
    let mut g = Grid::new(&cfg);
    assert!(g.check_collision(5 * UNIT, 35 * UNIT, 2));
    assert!(g.check_collision(5 * UNIT, 35 * UNIT, 4));
    assert_eq!(g.cells[calc_logical_index(0, 3, 2)], 4);
}

#[test]
fn capture_corner_cell_scenario() {
    let cfg = small_config();
    let mut g = Grid::new(&cfg);
    let before = g.cells.clone();
    assert!(g.check_collision(0, 0, 2));
    assert_eq!(g.cells[0], 2);
    for i in 1..16 {
        assert_eq!(g.cells[i], before[i]);
    }
    assert!(!g.check_collision(0, 0, 2));
    assert_eq!(g.cells[0], 2);
}

#[test]
fn logical_index_uses_x_as_row() {
    assert_eq!(calc_logical_index(3, 1, 2), 13);
    assert_eq!(calc_logical_index(0, 3, 2), 3);
    assert_eq!(calc_logical_index(63, 63, 32), 4095);
}

#[test]
fn physical_index_divides_by_cell_width() {
    let cfg = small_config();
    assert_eq!(calc_physical_index(25 * UNIT, 5 * UNIT, &cfg), 8);
    assert_eq!(calc_physical_index(39 * UNIT, 39 * UNIT, &cfg), 15);
    assert!(is_on_grid(0, 40 * UNIT - 1, &cfg));
    assert!(!is_on_grid(-UNIT / 2, 0, &cfg));
    assert!(!is_on_grid(0, -1, &cfg));
    assert!(!is_on_grid(-10 * UNIT, 0, &cfg));
    assert!(!is_on_grid(40 * UNIT, 0, &cfg));
    assert!(!is_on_grid(5 * UNIT, 40 * UNIT, &cfg));
}

#[test]
fn config_gives_window_and_field() {
    let cfg = game_config();
    assert_eq!(cfg.field_size(), 896);
    assert_eq!(cfg.get_width(), 896 + 80 + 600);
    assert_eq!(cfg.get_height(), 896 + 40);
    let r = cfg.field_rect();
    assert_eq!((r.x, r.y, r.w, r.h), (340 * UNIT, 20 * UNIT, 896 * UNIT, 896 * UNIT));
}

#[test]
fn headings_table_is_checked() {
    assert!(Headings::new(vec![(0, 0); 10]).is_none());
    let mut steps = vec![(1000, 0); 3600];
    assert!(Headings::new(steps.clone()).is_some());
    steps[7] = (1001, 0);
    assert!(Headings::new(steps).is_none());
}

#[test]
fn bullet_bounces_off_left_wall() {
    let h = headings();
    let field = Rect { x: 100 * UNIT, y: 100 * UNIT, w: 400 * UNIT, h: 400 * UNIT };
    let mut b = Bullet::new(1, 100 * UNIT, 300 * UNIT, 1500);
    b.step(field, &h);
    assert!(b.position.0 < 100 * UNIT);
    assert_eq!(b.angle, 300);
    assert_eq!(b.position.1, 300 * UNIT + 500 * 1000);
}

#[test]
fn bullet_bounces_off_top_wall() {
    let h = headings();
    let field = Rect { x: 100 * UNIT, y: 100 * UNIT, w: 400 * UNIT, h: 400 * UNIT };
    let mut b = Bullet::new(1, 300 * UNIT, 100 * UNIT, 2700);
    b.step(field, &h);
    assert_eq!(b.position, (300 * UNIT, 99 * UNIT));
    assert_eq!(b.angle, 900);
}

#[test]
fn bullet_bounces_in_corner_on_both_axes() {
    let h = headings();
    let field = Rect { x: 0, y: 0, w: 400 * UNIT, h: 400 * UNIT };
    let mut b = Bullet::new(1, 0, 0, 2250);
    b.step(field, &h);
    assert!(b.position.0 < 0 && b.position.1 < 0);
    assert_eq!(b.angle, 450);
}

#[test]
fn bullet_inside_field_keeps_heading() {
    let h = headings();
    let field = Rect { x: 0, y: 0, w: 400 * UNIT, h: 400 * UNIT };
    let mut b = Bullet::new(3, 200 * UNIT, 200 * UNIT, 0);
    b.step(field, &h);
    assert_eq!(b.position, (201 * UNIT, 200 * UNIT));
    assert_eq!(b.angle, 0);
    let mut dead = Bullet::new(3, 200 * UNIT, 200 * UNIT, 0);
    dead.is_alive = false;
    dead.step(field, &h);
    assert_eq!(dead.position, (200 * UNIT, 200 * UNIT));
}

#[test]
fn circle_boundary_rules() {
    let b = Rect { x: 0, y: 0, w: 100, h: 100 };
    assert_eq!(check_circle_boundary_collisions(true, b, (5, 50), 10, 300), 1500);
    assert_eq!(check_circle_boundary_collisions(true, b, (50, 95), 10, 900), 2700);
    assert_eq!(check_circle_boundary_collisions(true, b, (50, 50), 10, 900), 900);
    assert_eq!(check_circle_boundary_collisions(false, b, (5, 50), 10, 300), 300);
    assert_eq!(check_circle_boundary_collisions(false, b, (-1, 101), 10, 300), 2100);
}

#[test]
fn cannon_sweep_scenario() {
    let mut c = Cannon::with_sweep(1, 0, 0, 0, 900, 4, 0);
    let mut bounced = false;
    for _ in 0..225 {
        c.turn();
        assert!(c.current_angle >= 0 && c.current_angle <= 900);
        if c.barrel_move < 0 {
            bounced = true;
        }
    }
    assert!(bounced);
    assert_eq!(c.current_angle, 900);
    assert_eq!(c.barrel_move, -4);
}

#[test]
fn cannon_sweep_stays_in_range() {
    let cfg = game_config();
    let mut c = Cannon::in_corner(3, true, false, &cfg, 3000).unwrap();
    assert_eq!((c.min_angle, c.max_angle), (2550, 3750));
    for _ in 0..5000 {
        let before = c.barrel_move;
        c.turn();
        assert!(c.min_angle <= c.current_angle && c.current_angle <= c.max_angle);
        let touched = (before > 0 && c.current_angle == c.max_angle)
            || (before < 0 && c.current_angle == c.min_angle);
        assert_eq!(c.barrel_move != before, touched);
    }
}

#[test]
fn cannon_in_corner_checks_start() {
    let cfg = game_config();
    assert!(Cannon::in_corner(1, true, true, &cfg, -151).is_none());
    assert!(Cannon::in_corner(1, true, true, &cfg, 1051).is_none());
    let c = Cannon::in_corner(2, false, true, &cfg, 1350).unwrap();
    assert_eq!(c.x, (340 + 896 - 30) * UNIT);
    assert_eq!(c.y, (20 + 30) * UNIT);
    assert_eq!(c.speed, CANNON_SPEED);
}

#[test]
fn random_cannon_aims_within_sweep() {
    let cfg = game_config();
    for _ in 0..50 {
        let c = Cannon::new(4, false, false, &cfg);
        assert_eq!((c.min_angle, c.max_angle), (1650, 2850));
        assert!(c.min_angle <= c.current_angle && c.current_angle < c.max_angle);
    }
}

#[test]
fn cannon_fires_after_cooldown() {
    let mut c = Cannon::with_sweep(2, 7 * UNIT, 9 * UNIT, -100, 100, 3, -20);
    assert!(c.shoot().is_none());
    c.load(2);
    let mut shots = Vec::new();
    for tick in 0..20 {
        if let Some(b) = c.shoot() {
            shots.push((tick, b));
        }
    }
    assert_eq!(shots.len(), 2);
    assert_eq!(shots[0].0, FRAME_DELAY as usize);
    assert_eq!(shots[1].0, 2 * FRAME_DELAY as usize + 1);
    let b = &shots[0].1;
    assert_eq!((b.cannon_id, b.position, b.angle), (2, (7 * UNIT, 9 * UNIT), 3580));
    assert_eq!(c.loaded_shots, 0);
}

#[test]
fn dead_cannon_ignores_load_and_turn() {
    let mut c = Cannon::with_sweep(1, 0, 0, 0, 900, 4, 10);
    c.is_alive = false;
    c.load(5);
    c.turn();
    assert_eq!(c.loaded_shots, 0);
    assert_eq!(c.current_angle, 10);
    assert!(c.shoot().is_none());
}

#[test]
fn load_saturates() {
    let mut c = Cannon::with_sweep(1, 0, 0, 0, 900, 4, 10);
    c.load(u64::MAX);
    c.load(3);
    assert_eq!(c.loaded_shots, u64::MAX);
}

#[test]
fn bullet_kills_enemy_cannon_only() {
    let mut c = Cannon::with_sweep(1, 100 * UNIT, 100 * UNIT, 0, 900, 4, 10);
    let mut own = Bullet::new(1, 100 * UNIT, 100 * UNIT, 0);
    c.check_collision(&mut own);
    assert!(c.is_alive && own.is_alive);
    let mut far = Bullet::new(2, 125 * UNIT, 100 * UNIT, 0);
    c.check_collision(&mut far);
    assert!(c.is_alive && far.is_alive);
    let mut near = Bullet::new(2, 100 * UNIT + 20 * UNIT + BULLET_RADIUS - 1, 100 * UNIT, 0);
    c.check_collision(&mut near);
    assert!(!c.is_alive && !near.is_alive);
}

#[test]
fn puck_touches_rectangles() {
    let p = Puck::new_active((0, 0), 900);
    let r = PUCK_RADIUS;
    assert!(p.collides_with(Rect { x: r, y: -5, w: 10, h: 10 }));
    assert!(!p.collides_with(Rect { x: r + 1, y: -5, w: 10, h: 10 }));
    assert!(p.collides_with(Rect { x: -5, y: -5, w: 10, h: 10 }));
    assert!(p.collides_with(Rect { x: 3 * r / 5, y: 4 * r / 5, w: 10, h: 10 }));
    assert!(!p.collides_with(Rect { x: 3 * r / 5 + 1, y: 4 * r / 5 + 1, w: 10, h: 10 }));
}

#[test]
fn pins_never_move() {
    let h = headings();
    let mut pin = Puck::new_fixed((5 * UNIT, 5 * UNIT));
    pin.step(Rect { x: 0, y: 0, w: 10 * UNIT, h: 10 * UNIT }, &h);
    assert_eq!(pin.position, (5 * UNIT, 5 * UNIT));
    assert_eq!(pin.speed, -1);
}

#[test]
fn active_puck_bounces_then_moves() {
    let h = headings();
    let bounds = Rect { x: 0, y: 0, w: 100 * UNIT, h: 100 * UNIT };
    let mut p = Puck::new_active((10 * UNIT, 50 * UNIT), 1800);
    p.step(bounds, &h);
    assert_eq!(p.angle, 0);
    assert_eq!(p.position, (10 * UNIT + 600_000, 50 * UNIT));
}

#[test]
fn board_layout() {
    let cfg = game_config();
    let p = Plinko::new(1, (20 * UNIT, 20 * UNIT), &cfg);
    assert_eq!(p.pins.len(), PIN_COUNT);
    assert_eq!(p.pins[0].position, (30 * UNIT, (20 + 89 - 18) * UNIT));
    assert_eq!(p.pins[4].position, (30 * UNIT + 93 * UNIT / 2, (20 + 178 - 18) * UNIT));
    assert_eq!(p.well_x, (20 + 10 + 100) * UNIT);
    assert_eq!(p.shot_count, 1);
    let fire = p.get_fire_rect();
    assert_eq!((fire.x, fire.w, fire.h), (20 * UNIT, 110 * UNIT, 10 * UNIT));
    let multi = p.get_multi_rect();
    assert_eq!((multi.x, multi.w), (p.well_x, 190 * UNIT));
}

fn drop_in(p: &mut Plinko, x: i64) {
    let y = p.position.1 + p.height - 15 * UNIT;
    p.pucks.push(Puck::new_active((x, y), 900));
}

#[test]
fn multiplier_doubles_until_fire() {
    let h = headings();
    let cfg = game_config();
    let mut p = Plinko::new(3, (20 * UNIT, 20 * UNIT), &cfg);
    for n in 1..=5u32 {
        let x = p.well_x + 50 * UNIT;
        drop_in(&mut p, x);
        let events = p.update_with(0, 0, 900, &h);
        assert!(events.is_empty());
        assert_eq!(p.shot_count, 1u64 << n);
        assert!(p.pucks.is_empty());
    }
    assert_eq!(p.well_x, 130 * UNIT + 5 * 150_000);
    assert_eq!(p.get_multi_rect().w, 190 * UNIT - 5 * 150_000);
    let x = p.position.0 + 20 * UNIT;
    drop_in(&mut p, x);
    let events = p.update_with(0, 0, 900, &h);
    assert_eq!(events, vec![PlinkoEvent::new(3, 32)]);
    assert_eq!(p.shot_count, 1);
}

#[test]
fn divider_stops_at_minimum() {
    let h = headings();
    let cfg = game_config();
    let mut p = Plinko::new(1, (0, 0), &cfg);
    let limit = 300 * UNIT - BOUNDARY_WIDTH - MIN_WELL_WIDTH;
    p.well_x = limit - 100_000;
    let x = p.well_x + 50 * UNIT;
    drop_in(&mut p, x);
    p.update_with(0, 0, 900, &h);
    assert_eq!(p.well_x, limit);
    assert_eq!(p.get_multi_rect().w, BOUNDARY_WIDTH + MIN_WELL_WIDTH);
}

#[test]
fn board_spawns_on_schedule() {
    let h = headings();
    let cfg = game_config();
    let mut p = Plinko::new(2, (0, 0), &cfg);
    p.update_with(1, 7 * UNIT, 450, &h);
    assert_eq!(p.pucks.len(), 1);
    assert_eq!(p.pucks[0].angle, 450);
    p.update_with(1, 0, 450, &h);
    assert_eq!(p.pucks.len(), 1);
    p.update_with(80_000_000, 0, 450, &h);
    assert_eq!(p.pucks.len(), 2);
    assert_eq!(p.time, 80_000_002);
}

#[test]
fn random_spawn_stays_in_range() {
    let h = headings();
    let cfg = game_config();
    let mut p = Plinko::new(2, (0, 0), &cfg);
    p.update(1, &h);
    assert_eq!(p.pucks.len(), 1);
    let q = p.pucks[0];
    assert!(q.angle >= 100 && q.angle < 1700);
    assert!(q.position.0 >= PUCK_RADIUS + BOUNDARY_WIDTH - UNIT);
    assert!(q.position.0 < 300 * UNIT - PUCK_RADIUS - BOUNDARY_WIDTH + 1_000_000);
}

#[test]
fn dead_board_stands_still() {
    let h = headings();
    let cfg = game_config();
    let mut p = Plinko::new(2, (0, 0), &cfg);
    p.is_alive = false;
    let events = p.update_with(100, 0, 450, &h);
    assert!(events.is_empty());
    assert_eq!(p.time, 0);
    assert!(p.pucks.is_empty());
}

#[test]
fn arena_reload_key_fires_a_bullet() {
    let cfg = game_config();
    let mut app = App::new(&cfg, headings());
    assert_eq!(app.get_width(), 1576);
    assert_eq!(app.get_height(), 936);
    app.handle_button(9);
    assert!(app.cannons.iter().all(|c| c.loaded_shots == 0));
    app.handle_button(2);
    assert_eq!(app.cannons[1].loaded_shots, RELOAD_SHOTS);
    for _ in 0..FRAME_DELAY {
        app.update(0);
        assert!(app.bullets.is_empty());
    }
    app.update(0);
    assert_eq!(app.bullets.len(), 1);
    assert_eq!(app.bullets[0].cannon_id, 2);
    assert_eq!(app.cannons[1].loaded_shots, 0);
}

#[test]
fn arena_bullet_captures_enemy_cell() {
    let cfg = game_config();
    let mut app = App::new(&cfg, headings());
    let origin = (app.field_rect.x, app.field_rect.y);
    app.bullets.push(Bullet::new(4, origin.0 + 50 * UNIT, origin.1 + 200 * UNIT, 0));
    app.update(0);
    assert!(app.bullets.is_empty());
    let cell = calc_physical_index(51 * UNIT, 200 * UNIT, &cfg);
    assert_eq!(app.grid.cells[cell], 4);
}

#[test]
fn arena_bullet_passes_own_cells() {
    let cfg = game_config();
    let mut app = App::new(&cfg, headings());
    let origin = (app.field_rect.x, app.field_rect.y);
    app.bullets.push(Bullet::new(1, origin.0 + 200 * UNIT, origin.1 + 200 * UNIT, 0));
    app.update(0);
    assert_eq!(app.bullets.len(), 1);
    assert_eq!(app.bullets[0].position.0, origin.0 + 201 * UNIT);
}

#[test]
fn arena_bullet_kills_cannon_and_board() {
    let cfg = game_config();
    let mut app = App::new(&cfg, headings());
    let target = (app.cannons[3].x, app.cannons[3].y);
    let cell = calc_physical_index(target.0 - app.field_rect.x, target.1 - app.field_rect.y, &cfg);
    app.grid.cells[cell] = 1;
    app.bullets.push(Bullet::new(1, target.0 - UNIT, target.1, 0));
    app.update(0);
    assert!(!app.cannons[3].is_alive);
    assert!(!app.boards[3].is_alive);
    assert!(app.bullets.is_empty());
    assert!(app.cannons[0].is_alive && app.boards[0].is_alive);
}

#[test]
fn arena_applies_board_events() {
    let cfg = game_config();
    let mut app = App::new(&cfg, headings());
    app.apply_events(&vec![PlinkoEvent::new(3, 8), PlinkoEvent::new(3, 2), PlinkoEvent::new(9, 5)]);
    assert_eq!(app.cannons[2].loaded_shots, 10);
    assert_eq!(app.cannons[0].loaded_shots, 0);
}

#[test]
fn puck_bounces_off_divider_by_centre() {
    let divider = Rect { x: 100 * UNIT, y: 100 * UNIT, w: 20 * UNIT, h: 20 * UNIT };
    let mut p = Puck::new_active((95 * UNIT, 110 * UNIT), 300);
    p.bounce(divider);
    assert_eq!(p.angle, 1500);
    let mut q = Puck::new_active((110 * UNIT, 125 * UNIT), 300);
    q.bounce(divider);
    assert_eq!(q.angle, 3300);
    let mut inside = Puck::new_active((110 * UNIT, 110 * UNIT), 300);
    inside.bounce(divider);
    assert_eq!(inside.angle, 300);
}

#[test]
fn divider_sits_on_the_well_boundary() {
    let cfg = game_config();
    let p = Plinko::new(4, (0, 0), &cfg);
    let d = p.get_divider_rect();
    assert_eq!((d.x, d.y, d.w, d.h), (p.well_x - 10 * UNIT, (448 - 30) * UNIT, 20 * UNIT, 20 * UNIT));
    let inner = p.interior();
    assert_eq!((inner.x, inner.y, inner.w, inner.h), (10 * UNIT, 10 * UNIT, 280 * UNIT, 428 * UNIT));
}

#[test]
fn arena_bullet_outside_field_captures_nothing() {
    let cfg = game_config();
    let mut app = App::new(&cfg, headings());
    let before = app.grid.cells.clone();
    let origin = (app.field_rect.x, app.field_rect.y);
    app.bullets.push(Bullet::new(4, origin.0 - 3 * UNIT, origin.1 + 200 * UNIT, 0));
    app.update(0);
    assert_eq!(app.grid.cells, before);
    assert_eq!(app.bullets.len(), 1);
    assert_eq!(app.bullets[0].position.0, origin.0 - 2 * UNIT);
}

#[test]
fn arena_capturing_bullet_still_kills_cannon_in_reach() {
    let cfg = game_config();
    let mut app = App::new(&cfg, headings());
    let target = (app.cannons[3].x, app.cannons[3].y);
    let cell = calc_physical_index(target.0 - app.field_rect.x, target.1 - app.field_rect.y, &cfg);
    assert_eq!(app.grid.cells[cell], 4);
    app.bullets.push(Bullet::new(1, target.0 - UNIT, target.1, 0));
    app.update(0);
    assert_eq!(app.grid.cells[cell], 1);
    assert!(!app.cannons[3].is_alive);
    assert!(!app.boards[3].is_alive);
    assert!(app.bullets.is_empty());
}
