//! The positioned entities of a session: enemies (with kind-derived
//! health), the player, and lasers.

use vstd::prelude::*;

use crate::constants::{ENEMY_SIZE, X_GAP_SIZE};
use crate::geometry::Location;

verus! {

/// The three enemy kinds, ordered hardest first. The kind fixes the
/// initial health of an enemy.
#[derive(Copy, Clone, PartialEq, Eq, Structural, Debug)]
pub enum EnemyKind {
    Hard,
    Medium,
    Easy,
}

/// Health an enemy of the given kind starts with.
pub open spec fn spec_initial_health(kind: EnemyKind) -> int {
    match kind {
        EnemyKind::Hard => 3,
        EnemyKind::Medium => 2,
        EnemyKind::Easy => 1,
    }
}

/// An enemy: its remaining health and the top-left corner of its
/// square bounding box. An enemy whose health sinks below 1 is dead
/// and is removed from its row within the same tick.
#[derive(Copy, Clone, PartialEq, Eq, Structural, Debug)]
pub struct Enemy {
    pub health: i32,
    pub location: Location,
}

/// A laser shot: a point that climbs on every tick. It is treated as
/// the single point at its location by the collision test.
#[derive(Copy, Clone, PartialEq, Eq, Structural, Debug)]
pub struct Laser {
    pub location: Location,
}

/// The player; only its x coordinate ever changes, clamped to the play
/// area.
#[derive(Copy, Clone, PartialEq, Eq, Structural, Debug)]
pub struct Player {
    pub location: Location,
}

impl Laser {
    /// A laser shot at the given point (its sprite is the embedding
    /// program's business).
    pub fn new(x: i32, y: i32) -> (l: Laser)
        ensures
            l.location == (Location { x, y }),
    {
        Laser { location: Location { x, y } }
    }
}

impl Player {
    /// The player at the given point (its sprite is the embedding
    /// program's business).
    pub fn new(x: i32, y: i32) -> (p: Player)
        ensures
            p.location == (Location { x, y }),
    {
        Player { location: Location { x, y } }
    }
}

impl Enemy {
    /// Health an enemy of the given kind starts with: Hard 3,
    /// Medium 2, Easy 1.
    pub fn initial_health(kind: EnemyKind) -> (h: i32)
        ensures
            h == spec_initial_health(kind),
    {
        match kind {
            EnemyKind::Hard => 3,
            EnemyKind::Medium => 2,
            EnemyKind::Easy => 1,
        }
    }

    /// Builds one enemy row of `count` enemies of one kind: all at
    /// height `y`, laid out left to right from x = 0 with one gap
    /// between neighbouring boxes.
    pub fn generate_row(count: i32, kind: EnemyKind, y: i32) -> (row: Vec<Enemy>)
        requires
            0 <= count,
            count * (ENEMY_SIZE + X_GAP_SIZE) <= i32::MAX,
        ensures
            row@.len() == count,
            forall|i: int|
                0 <= i < count ==> (#[trigger] row@[i]) == (Enemy {
                    health: spec_initial_health(kind) as i32,
                    location: Location { x: (i * (ENEMY_SIZE + X_GAP_SIZE)) as i32, y },
                }),
    {
        let mut enemies: Vec<Enemy> = Vec::new();
        let health = Enemy::initial_health(kind);
        let mut i: i32 = 0;
        while i < count
            invariant
                0 <= i <= count,
                count * (ENEMY_SIZE + X_GAP_SIZE) <= i32::MAX,
                health == spec_initial_health(kind),
                enemies@.len() == i,
                forall|j: int|
                    0 <= j < i ==> (#[trigger] enemies@[j]) == (Enemy {
                        health: spec_initial_health(kind) as i32,
                        location: Location { x: (j * (ENEMY_SIZE + X_GAP_SIZE)) as i32, y },
                    }),
            decreases count - i,
        {
            assert(i * (ENEMY_SIZE + X_GAP_SIZE) < count * (ENEMY_SIZE + X_GAP_SIZE)) by (nonlinear_arith)
                requires
                    0 <= i < count,
            ;
            assert(0 <= i * (ENEMY_SIZE + X_GAP_SIZE)) by (nonlinear_arith)
                requires
                    0 <= i,
            ;
            let enemy = Enemy {
                health,
                location: Location { x: i * (ENEMY_SIZE + X_GAP_SIZE), y },
            };
            enemies.push(enemy);
            i = i + 1;
        }
        enemies
    }
}

} // verus!
