use space_invaders::entities::{Enemy, Laser, Player};
use space_invaders::game::Game;
use space_invaders::geometry::{contains, Location};

fn arena(enemies: Vec<Vec<Enemy>>, lasers: Vec<Laser>) -> Game {
    Game {
        enemies,
        player: Player { location: Location { x: 350, y: 500 } },
        lasers,
        moves: 0,
        width: 800,
    }
}

fn enemy(health: i32, x: i32, y: i32) -> Enemy {
    Enemy { health, location: Location { x, y } }
}

fn laser(x: i32, y: i32) -> Laser {
    Laser { location: Location { x, y } }
}

#[test]
fn easy_enemy_killed_same_tick() {
    // The laser advances to (110, 110), inside the box [100, 160] x
    // [100, 160] of a health-1 enemy: both are gone after one tick.
    let mut g = arena(vec![vec![enemy(1, 100, 100)]], vec![laser(110, 130)]);
    g.next_tick();
    assert_eq!(g.laser_count(), 0);
    assert_eq!(g.row_count(), 1);
    assert_eq!(g.row_len(0), 0);
}

#[test]
fn hard_enemy_survives_hit() {
    // A health-3 enemy takes the hit, loses one health and stays put;
    // the laser is consumed.
    let mut g = arena(vec![vec![enemy(3, 100, 100)]], vec![laser(110, 130)]);
    g.next_tick();
    assert_eq!(g.laser_count(), 0);
    assert_eq!(g.row_len(0), 1);
    let e = g.enemy_at(0, 0);
    assert_eq!(e.health, 2);
    assert_eq!(e.location, Location { x: 100, y: 100 });
}

#[test]
fn hard_enemy_dies_to_three_hits() {
    let mut g = arena(vec![vec![enemy(3, 100, 100)]], vec![]);
    for hit in 0..3 {
        g.lasers.push(laser(110, 130));
        g.next_tick();
        assert_eq!(g.laser_count(), 0);
        if hit < 2 {
            assert_eq!(g.row_len(0), 1);
            assert_eq!(g.enemy_at(0, 0).health, 2 - hit);
        }
    }
    assert_eq!(g.row_len(0), 0);
}

#[test]
fn row_reindexes_after_double_kill() {
    // Killing columns 0 and 2 of a three-enemy row in one tick leaves
    // exactly the old middle enemy, re-indexed to column 0.
    let row = vec![enemy(1, 0, 100), enemy(1, 70, 100), enemy(1, 140, 100)];
    let mut g = arena(vec![row], vec![laser(10, 130), laser(150, 130)]);
    g.next_tick();
    assert_eq!(g.laser_count(), 0);
    assert_eq!(g.row_len(0), 1);
    let survivor = g.enemy_at(0, 0);
    assert_eq!(survivor.location, Location { x: 70, y: 100 });
    assert_eq!(survivor.health, 1);
}

#[test]
fn killed_enemy_lets_later_lasers_pass() {
    // Two lasers over one health-1 enemy in the same tick: the first
    // kills it and is consumed, the second passes through unspent.
    let mut g = arena(
        vec![vec![enemy(1, 100, 100)]],
        vec![laser(110, 130), laser(120, 130)],
    );
    g.next_tick();
    assert_eq!(g.row_len(0), 0);
    assert_eq!(g.laser_count(), 1);
    assert_eq!(g.laser_at(0).location, Location { x: 120, y: 110 });
}

#[test]
fn surviving_enemy_takes_both_lasers() {
    // Two lasers over one health-3 enemy in the same tick: the enemy
    // is not yet killed after the first, so both register and are
    // consumed.
    let mut g = arena(
        vec![vec![enemy(3, 100, 100)]],
        vec![laser(110, 130), laser(120, 130)],
    );
    g.next_tick();
    assert_eq!(g.laser_count(), 0);
    assert_eq!(g.row_len(0), 1);
    assert_eq!(g.enemy_at(0, 0).health, 1);
}

#[test]
fn top_row_claims_hit_first() {
    // Two overlapping-free rows, a laser point inside the second row's
    // box only: row order decides nothing here, but the hit lands on
    // the right cell.
    let rows = vec![vec![enemy(3, 0, 0)], vec![enemy(1, 0, 70)]];
    let mut g = arena(rows, vec![laser(30, 120)]);
    g.next_tick();
    assert_eq!(g.enemy_at(0, 0).health, 3);
    assert_eq!(g.row_len(1), 0);
    assert_eq!(g.laser_count(), 0);
}

#[test]
fn laser_advances_when_nothing_is_hit() {
    let mut g = arena(vec![vec![enemy(1, 100, 100)]], vec![laser(500, 450)]);
    g.next_tick();
    assert_eq!(g.laser_count(), 1);
    assert_eq!(g.laser_at(0).location, Location { x: 500, y: 430 });
    assert_eq!(g.row_len(0), 1);
    assert_eq!(g.enemy_at(0, 0).health, 1);
}

#[test]
fn containment_is_closed_interval() {
    let tl = Location { x: 100, y: 100 };
    assert!(contains(tl, 60, 60, Location { x: 100, y: 100 }));
    assert!(contains(tl, 60, 60, Location { x: 160, y: 160 }));
    assert!(contains(tl, 60, 60, Location { x: 130, y: 145 }));
    assert!(!contains(tl, 60, 60, Location { x: 161, y: 130 }));
    assert!(!contains(tl, 60, 60, Location { x: 130, y: 99 }));
    assert!(!contains(tl, 60, 60, Location { x: 99, y: 130 }));
}
