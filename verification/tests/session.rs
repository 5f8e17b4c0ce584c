use space_invaders::entities::Player;
use space_invaders::game::{Direction, Game};
use space_invaders::geometry::Location;

#[test]
fn new_layout_default() {
    let g = Game::new(800, 600);
    assert_eq!(g.player_location(), Location { x: 350, y: 500 });
    assert_eq!(g.move_count(), 0);
    assert_eq!(g.laser_count(), 0);
    assert_eq!(g.row_count(), 3);
    for r in 0..3 {
        assert_eq!(g.row_len(r), 10);
    }
    // Hardest row on top, one step of health less per row below.
    assert_eq!(g.enemy_at(0, 0).health, 3);
    assert_eq!(g.enemy_at(1, 0).health, 2);
    assert_eq!(g.enemy_at(2, 0).health, 1);
    for r in 0..3 {
        for c in 0..10 {
            let e = g.enemy_at(r, c);
            assert_eq!(e.location.x, c as i32 * 70);
            assert_eq!(e.location.y, r as i32 * 70);
        }
    }
}

#[test]
fn fire_one_laser_no_tick() {
    // width 800, height 600: one fired laser sits at the player's top
    // centre, 50 px above, before any tick.
    let mut g = Game::new(800, 600);
    g.fire_laser();
    assert_eq!(g.laser_count(), 1);
    assert_eq!(g.laser_at(0).location, Location { x: 350 + 50, y: 500 - 50 });
    assert_eq!(g.player_location(), Location { x: 350, y: 500 });
}

#[test]
fn player_clamps_at_left_boundary() {
    let mut g = Game::new(800, 600);
    for _ in 0..40 {
        g.move_player(Direction::Left);
    }
    assert_eq!(g.player_location().x, 0);
    g.move_player(Direction::Left);
    assert_eq!(g.player_location().x, 0);
    g.move_player(Direction::Right);
    assert_eq!(g.player_location().x, 10);
}

#[test]
fn player_clamps_at_right_boundary() {
    let mut g = Game::new(800, 600);
    for _ in 0..40 {
        g.move_player(Direction::Right);
    }
    assert_eq!(g.player_location().x, 700);
    g.move_player(Direction::Right);
    assert_eq!(g.player_location().x, 700);
    g.move_player(Direction::Left);
    assert_eq!(g.player_location().x, 690);
}

#[test]
fn player_single_steps() {
    let mut g = Game::new(800, 600);
    g.move_player(Direction::Left);
    assert_eq!(g.player_location().x, 340);
    g.move_player(Direction::Right);
    assert_eq!(g.player_location().x, 350);
}

#[test]
fn formation_first_period() {
    // Nine rightward shifts, then one drop: net +90 in x, +10 in y.
    let mut g = Game::new(800, 600);
    for step in 1..=9 {
        g.move_enemies();
        assert_eq!(g.move_count(), step);
        let e = g.enemy_at(0, 0);
        assert_eq!(e.location, Location { x: 10 * step, y: 0 });
    }
    g.move_enemies();
    let e = g.enemy_at(0, 0);
    assert_eq!(e.location, Location { x: 90, y: 10 });
    // Every enemy moved by the same displacement, health untouched.
    for r in 0..3 {
        for c in 0..10 {
            let e = g.enemy_at(r, c);
            assert_eq!(e.location.x, c as i32 * 70 + 90);
            assert_eq!(e.location.y, r as i32 * 70 + 10);
        }
    }
    assert_eq!(g.enemy_at(0, 0).health, 3);
}

#[test]
fn formation_second_period_reverses() {
    let mut g = Game::new(800, 600);
    for _ in 0..10 {
        g.move_enemies();
    }
    // Second period: nine leftward shifts, then one drop.
    for _ in 0..10 {
        g.move_enemies();
    }
    let e = g.enemy_at(0, 0);
    assert_eq!(e.location, Location { x: 0, y: 20 });
}

#[test]
fn laser_expires_out_the_top() {
    // No enemies on the field: a fired laser exits the top after
    // ceil(height / 20) ticks.
    let mut g = Game {
        enemies: vec![],
        player: Player { location: Location { x: 350, y: 500 } },
        lasers: vec![],
        moves: 0,
        width: 800,
    };
    g.fire_laser();
    assert_eq!(g.laser_count(), 1);
    for _ in 0..30 {
        g.next_tick();
    }
    assert_eq!(g.laser_count(), 0);
}

#[test]
fn laser_expiry_is_exact() {
    // Fired at y = 450, a laser stays until y sinks below -32: alive
    // at y = -30 after 24 ticks, gone on the 25th.
    let mut g = Game {
        enemies: vec![],
        player: Player { location: Location { x: 350, y: 500 } },
        lasers: vec![],
        moves: 0,
        width: 800,
    };
    g.fire_laser();
    for _ in 0..24 {
        g.next_tick();
    }
    assert_eq!(g.laser_count(), 1);
    assert_eq!(g.laser_at(0).location.y, 450 - 24 * 20);
    g.next_tick();
    assert_eq!(g.laser_count(), 0);
}
