//! The game session: one player, the enemy formation, the live
//! lasers, and the commands that drive them.

use vstd::prelude::*;

use crate::constants::{
    ENEMY_SIZE, LASER_ADVANCE_SIZE, LASER_HEIGHT, LASER_Y_OFFSET, MOVES_PER_ROW, MOVE_SIZE,
    PLAYER_SIZE, X_GAP_SIZE, Y_GAP_SIZE,
};
use crate::entities::{Enemy, EnemyKind, Laser, Player};
use crate::formation::{x_step, y_step};
use crate::geometry::Location;
use crate::tick::{
    advance_laser, damage_enemy, enemy_coords_bounded, filter_row_upto, find_hit, is_marked,
    laser_step, marks_set, remove_killed, rows_model, run_lasers, spec_tick,
};

verus! {

/// A horizontal direction for a player move.
#[derive(PartialEq, Eq, Structural, Debug)]
pub enum Direction {
    Left,
    Right,
}

/// Enemies per row of a fresh session with the given play-area width:
/// as many boxes-plus-gaps as fit beside the room one zig-zag leg
/// needs.
pub open spec fn spec_enemies_per_row(width: int) -> int {
    (width - (MOVES_PER_ROW * MOVE_SIZE) + X_GAP_SIZE) / ((X_GAP_SIZE + ENEMY_SIZE) as int)
}

/// Kind of the enemies of row `r`: the hardest on top.
pub open spec fn row_kind(r: int) -> EnemyKind {
    if r == 0 {
        EnemyKind::Hard
    } else if r == 1 {
        EnemyKind::Medium
    } else {
        EnemyKind::Easy
    }
}

/// One formation advance as a relation between session states: the
/// advance counter grows by one; player, lasers and width stay; and
/// every enemy of every row — health untouched — shifts by exactly
/// the displacement the formation schedule gives the new counter
/// value.
pub open spec fn formation_advanced(pre: Game, post: Game) -> bool {
    &&& post.moves == pre.moves + 1
    &&& post.player == pre.player
    &&& post.lasers == pre.lasers
    &&& post.width == pre.width
    &&& post.enemies@.len() == pre.enemies@.len()
    &&& forall|r: int|
        0 <= r < pre.enemies@.len() ==> (#[trigger] post.enemies@[r])@.len()
            == pre.enemies@[r]@.len()
    &&& forall|r: int, c: int|
        0 <= r < pre.enemies@.len() && 0 <= c < pre.enemies@[r]@.len() ==> {
            &&& (#[trigger] post.enemies@[r]@[c]).health == pre.enemies@[r]@[c].health
            &&& post.enemies@[r]@[c].location.x == pre.enemies@[r]@[c].location.x + x_step(
                pre.moves + 1,
            )
            &&& post.enemies@[r]@[c].location.y == pre.enemies@[r]@[c].location.y + y_step(
                pre.moves + 1,
            )
        }
}

/// One game session. The embedding program owns exactly one per game
/// and drives it through the command methods; it may read every field,
/// but only states satisfying [`Game::wf`] are meaningful, and every
/// command keeps them so.
pub struct Game {
    /// Enemy rows, top to bottom; within a row, left to right. Only
    /// removal ever changes a row's membership or order.
    pub enemies: Vec<Vec<Enemy>>,
    pub player: Player,
    /// Live lasers, in creation order.
    pub lasers: Vec<Laser>,
    /// Number of formation advances so far.
    pub moves: i32,
    /// Width of the play area.
    pub width: i32,
}

impl Game {
    /// The session invariant: the counter and the player sit in range,
    /// every live laser is at most one sprite above the play area, and
    /// every enemy still in the formation is alive.
    pub open spec fn wf(self) -> bool {
        &&& 0 <= self.moves
        &&& PLAYER_SIZE <= self.width
        &&& 0 <= self.player.location.x
        &&& self.player.location.x <= self.width - PLAYER_SIZE
        &&& LASER_Y_OFFSET - LASER_HEIGHT <= self.player.location.y
        &&& forall|i: int|
            0 <= i < self.lasers@.len() ==> -LASER_HEIGHT <= (
            #[trigger] self.lasers@[i]).location.y
        &&& forall|r: int, c: int|
            0 <= r < self.enemies@.len() && 0 <= c < self.enemies@[r]@.len() ==> 1 <= (
            #[trigger] self.enemies@[r]@[c]).health
    }

    /// A fresh session: the player centred on the bottom row, no
    /// lasers, and three full enemy rows — Hard, Medium, Easy from the
    /// top — laid out from the left edge.
    pub fn new(width: i32, height: i32) -> (game: Game)
        requires
            PLAYER_SIZE <= width,
            PLAYER_SIZE + LASER_Y_OFFSET - LASER_HEIGHT <= height,
        ensures
            game.wf(),
            game.width == width,
            game.moves == 0,
            game.lasers@.len() == 0,
            game.player.location.x == width / 2 - PLAYER_SIZE / 2,
            game.player.location.y == height - PLAYER_SIZE,
            game.enemies@.len() == 3,
            forall|r: int|
                0 <= r < 3 ==> (#[trigger] game.enemies@[r])@.len() == spec_enemies_per_row(
                    width as int,
                ),
            forall|r: int, c: int|
                0 <= r < 3 && 0 <= c < spec_enemies_per_row(width as int) ==> {
                    &&& (#[trigger] game.enemies@[r]@[c]).health == crate::entities::spec_initial_health(
                        row_kind(r),
                    )
                    &&& game.enemies@[r]@[c].location.x == c * (ENEMY_SIZE + X_GAP_SIZE)
                    &&& game.enemies@[r]@[c].location.y == r * (ENEMY_SIZE + Y_GAP_SIZE)
                },
    {
        let enemies_per_row = (width - (MOVES_PER_ROW * MOVE_SIZE) + X_GAP_SIZE) / (X_GAP_SIZE
            + ENEMY_SIZE);
        proof {
            vstd::arithmetic::div_mod::lemma_fundamental_div_mod(
                width - (MOVES_PER_ROW * MOVE_SIZE) + X_GAP_SIZE,
                (X_GAP_SIZE + ENEMY_SIZE) as int,
            );
            vstd::arithmetic::div_mod::lemma_fundamental_div_mod(width as int, 2);
        }
        // Midpoint of the bottom row.
        let player = Player::new(width / 2 - PLAYER_SIZE / 2, height - PLAYER_SIZE);
        let mut enemies: Vec<Vec<Enemy>> = Vec::new();
        enemies.push(Enemy::generate_row(enemies_per_row, EnemyKind::Hard, 0));
        enemies.push(Enemy::generate_row(enemies_per_row, EnemyKind::Medium, ENEMY_SIZE + Y_GAP_SIZE));
        enemies.push(
            Enemy::generate_row(enemies_per_row, EnemyKind::Easy, 2 * (ENEMY_SIZE + Y_GAP_SIZE)),
        );
        Game { enemies, player, lasers: Vec::new(), moves: 0, width }
    }

    /// One player step: left or right by one step size, clamped to the
    /// play area, the player never leaving `[0, width - PLAYER_SIZE]`.
    pub fn move_player(&mut self, direction: Direction)
        requires
            old(self).wf(),
        ensures
            final(self).wf(),
            final(self).enemies == old(self).enemies,
            final(self).lasers == old(self).lasers,
            final(self).moves == old(self).moves,
            final(self).width == old(self).width,
            final(self).player.location.y == old(self).player.location.y,
            0 <= final(self).player.location.x,
            final(self).player.location.x <= final(self).width - PLAYER_SIZE,
            final(self).player.location.x == (match direction {
                Direction::Left => if old(self).player.location.x - MOVE_SIZE < 0 {
                    0int
                } else {
                    old(self).player.location.x - MOVE_SIZE
                },
                Direction::Right => if old(self).player.location.x + MOVE_SIZE > old(self).width
                    - PLAYER_SIZE {
                    old(self).width - PLAYER_SIZE
                } else {
                    old(self).player.location.x + MOVE_SIZE
                },
            }),
    {
        match direction {
            Direction::Left => {
                let moved = self.player.location.x - MOVE_SIZE;
                let clamped = if moved < 0 {
                    0
                } else {
                    moved
                };
                self.player = Player {
                    location: Location { x: clamped, y: self.player.location.y },
                };
            },
            Direction::Right => {
                let moved = self.player.location.x + MOVE_SIZE;
                let limit = self.width - PLAYER_SIZE;
                let clamped = if moved > limit {
                    limit
                } else {
                    moved
                };
                self.player = Player {
                    location: Location { x: clamped, y: self.player.location.y },
                };
            },
        }
    }

    /// Spawns one laser at the player's top centre and appends it to
    /// the live lasers; firing is never limited.
    pub fn fire_laser(&mut self)
        requires
            old(self).wf(),
        ensures
            final(self).wf(),
            final(self).enemies == old(self).enemies,
            final(self).player == old(self).player,
            final(self).moves == old(self).moves,
            final(self).width == old(self).width,
            final(self).lasers@.len() == old(self).lasers@.len() + 1,
            forall|i: int|
                0 <= i < old(self).lasers@.len() ==> (#[trigger] final(self).lasers@[i]) == old(
                    self,
                ).lasers@[i],
            final(self).lasers@.last().location.x == old(self).player.location.x + PLAYER_SIZE / 2,
            final(self).lasers@.last().location.y == old(self).player.location.y - LASER_Y_OFFSET,
    {
        let laser = Laser::new(
            self.player.location.x + PLAYER_SIZE / 2,
            self.player.location.y - LASER_Y_OFFSET,
        );
        self.lasers.push(laser);
    }

    /// One formation advance: the advance counter grows by one, and
    /// every enemy of every row — health untouched — shifts by exactly
    /// the displacement the formation schedule gives that advance: a
    /// drop one step down each time the counter reaches a multiple of
    /// `MOVES_PER_ROW`, a sideways step otherwise, rightward or
    /// leftward by the period's direction. No bound clamps enemies:
    /// the formation may leave the play area.
    pub fn move_enemies(&mut self)
        requires
            old(self).wf(),
            old(self).moves < i32::MAX,
            forall|r: int, c: int|
                0 <= r < old(self).enemies@.len() && 0 <= c < old(self).enemies@[r]@.len() ==> {
                    &&& i32::MIN + MOVE_SIZE <= (
                    #[trigger] old(self).enemies@[r]@[c]).location.x <= i32::MAX - MOVE_SIZE
                    &&& old(self).enemies@[r]@[c].location.y <= i32::MAX - MOVE_SIZE
                },
        ensures
            final(self).wf(),
            formation_advanced(*old(self), *final(self)),
    {
        self.moves = self.moves + 1;
        let num_row_shifts = self.moves / MOVES_PER_ROW;
        let is_row_shift = self.moves % MOVES_PER_ROW == 0;
        let direction = num_row_shifts % 2;
        let x_offset = if direction == 0 {
            MOVE_SIZE
        } else {
            -MOVE_SIZE
        };
        let ghost m = self.moves as int;
        assert(!is_row_shift ==> x_offset == x_step(m));
        assert(is_row_shift ==> y_step(m) == MOVE_SIZE && x_step(m) == 0);
        assert(!is_row_shift ==> y_step(m) == 0);

        let mut new_rows: Vec<Vec<Enemy>> = Vec::new();
        let mut r: usize = 0;
        while r < self.enemies.len()
            invariant
                r <= self.enemies@.len(),
                self.enemies == old(self).enemies,
                new_rows@.len() == r,
                m == old(self).moves + 1,
                is_row_shift == (m % (MOVES_PER_ROW as int) == 0),
                !is_row_shift ==> x_offset == x_step(m),
                is_row_shift ==> y_step(m) == MOVE_SIZE && x_step(m) == 0,
                !is_row_shift ==> y_step(m) == 0,
                forall|i: int, c: int|
                    0 <= i < old(self).enemies@.len() && 0 <= c < old(self).enemies@[i]@.len()
                        ==> {
                        &&& i32::MIN + MOVE_SIZE <= (
                        #[trigger] old(self).enemies@[i]@[c]).location.x <= i32::MAX - MOVE_SIZE
                        &&& old(self).enemies@[i]@[c].location.y <= i32::MAX - MOVE_SIZE
                    },
                forall|i: int|
                    0 <= i < r ==> (#[trigger] new_rows@[i])@.len() == old(
                        self,
                    ).enemies@[i]@.len(),
                forall|i: int, c: int|
                    0 <= i < r && 0 <= c < old(self).enemies@[i]@.len() ==> {
                        &&& (#[trigger] new_rows@[i]@[c]).health == old(
                            self,
                        ).enemies@[i]@[c].health
                        &&& new_rows@[i]@[c].location.x == old(self).enemies@[i]@[c].location.x
                            + x_step(m)
                        &&& new_rows@[i]@[c].location.y == old(self).enemies@[i]@[c].location.y
                            + y_step(m)
                    },
            decreases self.enemies@.len() - r,
        {
            let row_len = self.enemies[r].len();
            let mut new_row: Vec<Enemy> = Vec::new();
            let mut c: usize = 0;
            while c < row_len
                invariant
                    c <= row_len,
                    r < self.enemies@.len(),
                    self.enemies == old(self).enemies,
                    row_len == self.enemies@[r as int]@.len(),
                    new_row@.len() == c,
                    is_row_shift == (m % (MOVES_PER_ROW as int) == 0),
                    !is_row_shift ==> x_offset == x_step(m),
                    is_row_shift ==> y_step(m) == MOVE_SIZE && x_step(m) == 0,
                    !is_row_shift ==> y_step(m) == 0,
                    forall|i: int, j: int|
                        0 <= i < old(self).enemies@.len() && 0 <= j < old(self).enemies@[i]@.len()
                            ==> {
                            &&& i32::MIN + MOVE_SIZE <= (
                            #[trigger] old(self).enemies@[i]@[j]).location.x <= i32::MAX
                                - MOVE_SIZE
                            &&& old(self).enemies@[i]@[j].location.y <= i32::MAX - MOVE_SIZE
                        },
                    forall|j: int|
                        0 <= j < c ==> {
                            &&& (#[trigger] new_row@[j]).health == old(
                                self,
                            ).enemies@[r as int]@[j].health
                            &&& new_row@[j].location.x == old(self).enemies@[r as int]@[j].location.x
                                + x_step(m)
                            &&& new_row@[j].location.y == old(self).enemies@[r as int]@[j].location.y
                                + y_step(m)
                        },
                decreases row_len - c,
            {
                let e = self.enemies[r][c];
                let moved = if is_row_shift {
                    Enemy {
                        health: e.health,
                        location: Location { x: e.location.x, y: e.location.y + MOVE_SIZE },
                    }
                } else {
                    Enemy {
                        health: e.health,
                        location: Location { x: e.location.x + x_offset, y: e.location.y },
                    }
                };
                new_row.push(moved);
                c = c + 1;
            }
            new_rows.push(new_row);
            r = r + 1;
        }
        self.enemies = new_rows;
    }

    /// One tick of the projectile engine, exactly as [`spec_tick`]
    /// states it: every laser climbs one step in creation order; an
    /// expired laser is dropped; any other laser is consumed by the
    /// first not-yet-killed enemy, in row-major order, whose box
    /// contains its point, costing that enemy one health and its life
    /// below 1; spent lasers and dead enemies are removed with rows
    /// and survivor order intact. The player, the advance counter and
    /// the width are untouched.
    pub fn next_tick(&mut self)
        requires
            old(self).wf(),
            enemy_coords_bounded(rows_model(old(self).enemies@)),
        ensures
            final(self).wf(),
            final(self).player == old(self).player,
            final(self).moves == old(self).moves,
            final(self).width == old(self).width,
            rows_model(final(self).enemies@) == spec_tick(
                rows_model(old(self).enemies@),
                old(self).lasers@,
            ).0,
            final(self).lasers@ == spec_tick(rows_model(old(self).enemies@), old(self).lasers@).1,
    {
        let ghost rows0 = rows_model(self.enemies@);
        let ghost lasers0 = self.lasers@;
        let mut kept: Vec<Laser> = Vec::new();
        let mut killed: Vec<(usize, usize)> = Vec::new();
        proof {
            crate::tick::lemma_marks_empty();
        }
        let mut i: usize = 0;
        while i < self.lasers.len()
            invariant
                i <= lasers0.len(),
                rows0 == rows_model(old(self).enemies@),
                lasers0 == old(self).lasers@,
                self.lasers == old(self).lasers,
                self.player == old(self).player,
                self.moves == old(self).moves,
                self.width == old(self).width,
                old(self).wf(),
                enemy_coords_bounded(rows_model(self.enemies@)),
                rows_model(self.enemies@) == run_lasers(rows0, lasers0, i as int).rows,
                marks_set(killed@) == run_lasers(rows0, lasers0, i as int).killed,
                kept@ == run_lasers(rows0, lasers0, i as int).kept,
                forall|k: int|
                    0 <= k < kept@.len() ==> -LASER_HEIGHT <= (#[trigger] kept@[k]).location.y,
                forall|r: int, c: int|
                    0 <= r < self.enemies@.len() && 0 <= c < self.enemies@[r]@.len()
                        && !marks_set(killed@).contains((r, c)) ==> 1 <= (
                    #[trigger] self.enemies@[r]@[c]).health,
            decreases lasers0.len() - i,
        {
            let l = self.lasers[i];
            let ghost st_pre = run_lasers(rows0, lasers0, i as int);
            let ghost st_post = run_lasers(rows0, lasers0, i as int + 1);
            proof {
                assert(l == lasers0[i as int]);
                assert(-LASER_HEIGHT <= l.location.y);
                assert(st_post == laser_step(st_pre, lasers0[i as int]));
            }
            let new_y = l.location.y - LASER_ADVANCE_SIZE;
            proof {
                assert(advance_laser(lasers0[i as int]) == (Laser {
                    location: Location { x: l.location.x, y: new_y },
                }));
            }
            if new_y < -LASER_HEIGHT {
                proof {
                    assert(st_post == st_pre);
                }
            } else {
                let p = Location { x: l.location.x, y: new_y };
                match find_hit(&self.enemies, &killed, p) {
                    None => {
                        kept.push(Laser { location: p });
                        proof {
                            assert(st_post.rows == st_pre.rows);
                            assert(st_post.killed == st_pre.killed);
                            assert(st_post.kept == st_pre.kept.push(advance_laser(
                                lasers0[i as int],
                            )));
                        }
                    },
                    Some((r, c)) => {
                        let e = self.enemies[r][c];
                        proof {
                            assert(e == rows_model(self.enemies@)[r as int][c as int]);
                            assert(!marks_set(killed@).contains((r as int, c as int)));
                            assert(1 <= e.health);
                        }
                        let hurt = Enemy { health: e.health - 1, location: e.location };
                        let ghost rows_before = self.enemies@;
                        let mut row = self.enemies.remove(r);
                        row.set(c, hurt);
                        let ghost rowv = row@;
                        self.enemies.insert(r, row);
                        proof {
                            assert(rowv == rows_before[r as int]@.update(c as int, hurt));
                            crate::tick::lemma_remove_insert_is_update(
                                rows_before,
                                r as int,
                                self.enemies@[r as int],
                            );
                            assert(self.enemies@ == rows_before.update(
                                r as int,
                                self.enemies@[r as int],
                            ));
                            crate::tick::lemma_rows_model_update(
                                rows_before,
                                r as int,
                                self.enemies@[r as int],
                            );
                            assert(hurt == damage_enemy(st_pre.rows[r as int][c as int]));
                            assert(rows_model(self.enemies@) == st_pre.rows.update(
                                r as int,
                                st_pre.rows[r as int].update(
                                    c as int,
                                    damage_enemy(st_pre.rows[r as int][c as int]),
                                ),
                            ));
                            assert(st_post.rows == rows_model(self.enemies@));
                            assert(st_post.kept == st_pre.kept);
                        }
                        if hurt.health < 1 {
                            let ghost killed_before = killed@;
                            killed.push((r, c));
                            proof {
                                assert(killed@ == killed_before.push((r, c)));
                                crate::tick::lemma_marks_push(killed_before, (r, c));
                                assert(marks_set(killed@) == st_pre.killed.insert(
                                    (r as int, c as int),
                                ));
                                assert(st_post.killed == marks_set(killed@));
                            }
                        } else {
                            proof {
                                assert(st_post.killed == st_pre.killed);
                            }
                        }
                        proof {
                            assert forall|r2: int, c2: int|
                                0 <= r2 < self.enemies@.len() && 0 <= c2
                                    < self.enemies@[r2]@.len() && !marks_set(killed@).contains(
                                    (r2, c2),
                                ) implies 1 <= (#[trigger] self.enemies@[r2]@[c2]).health by {
                                if r2 == r as int && c2 == c as int {
                                } else {
                                    assert(self.enemies@[r2]@[c2] == rows_before[r2]@[c2]);
                                }
                            }
                            assert(enemy_coords_bounded(rows_model(self.enemies@)));
                        }
                    },
                }
            }
            i = i + 1;
        }
        let ghost st = run_lasers(rows0, lasers0, lasers0.len() as int);
        proof {
            assert(i as int == lasers0.len());
            assert(st == run_lasers(rows0, lasers0, i as int));
        }
        let mut new_rows: Vec<Vec<Enemy>> = Vec::new();
        let mut r: usize = 0;
        while r < self.enemies.len()
            invariant
                r <= self.enemies@.len(),
                rows_model(self.enemies@) == st.rows,
                marks_set(killed@) == st.killed,
                new_rows@.len() == r,
                forall|j: int|
                    0 <= j < r ==> (#[trigger] new_rows@[j])@ == filter_row_upto(
                        st.rows[j],
                        j,
                        st.killed,
                        st.rows[j].len() as int,
                    ),
                forall|j: int, q: int|
                    0 <= j < r && 0 <= q < new_rows@[j]@.len() ==> 1 <= (
                    #[trigger] new_rows@[j]@[q]).health,
                forall|r2: int, c2: int|
                    0 <= r2 < self.enemies@.len() && 0 <= c2 < self.enemies@[r2]@.len()
                        && !marks_set(killed@).contains((r2, c2)) ==> 1 <= (
                    #[trigger] self.enemies@[r2]@[c2]).health,
            decreases self.enemies@.len() - r,
        {
            let row_len = self.enemies[r].len();
            let mut new_row: Vec<Enemy> = Vec::new();
            let mut c: usize = 0;
            while c < row_len
                invariant
                    c <= row_len,
                    r < self.enemies@.len(),
                    rows_model(self.enemies@) == st.rows,
                    marks_set(killed@) == st.killed,
                    row_len == self.enemies@[r as int]@.len(),
                    new_row@ == filter_row_upto(st.rows[r as int], r as int, st.killed, c as int),
                    forall|q: int|
                        0 <= q < new_row@.len() ==> 1 <= (#[trigger] new_row@[q]).health,
                    forall|r2: int, c2: int|
                        0 <= r2 < self.enemies@.len() && 0 <= c2 < self.enemies@[r2]@.len()
                            && !marks_set(killed@).contains((r2, c2)) ==> 1 <= (
                        #[trigger] self.enemies@[r2]@[c2]).health,
                decreases row_len - c,
            {
                if !is_marked(&killed, r, c) {
                    let e = self.enemies[r][c];
                    proof {
                        assert(e == st.rows[r as int][c as int]);
                        assert(1 <= e.health);
                    }
                    new_row.push(e);
                }
                proof {
                    assert(st.rows[r as int][c as int] == self.enemies@[r as int]@[c as int]);
                }
                c = c + 1;
            }
            new_rows.push(new_row);
            r = r + 1;
        }
        self.enemies = new_rows;
        self.lasers = kept;
        proof {
            assert(rows_model(self.enemies@) =~= remove_killed(st.rows, st.killed));
            assert(rows_model(self.enemies@) == spec_tick(rows0, lasers0).0);
            assert(self.lasers@ == spec_tick(rows0, lasers0).1);
        }
    }

    /// Current player position, for the rendering collaborator.
    pub fn player_location(&self) -> (loc: Location)
        ensures
            loc == self.player.location,
    {
        self.player.location
    }

    /// Number of enemy rows (rows stay, even emptied).
    pub fn row_count(&self) -> (n: usize)
        ensures
            n == self.enemies@.len(),
    {
        self.enemies.len()
    }

    /// Number of enemies alive in row `r`.
    pub fn row_len(&self, r: usize) -> (n: usize)
        requires
            r < self.enemies@.len(),
        ensures
            n == self.enemies@[r as int]@.len(),
    {
        self.enemies[r].len()
    }

    /// The enemy at row `r`, column `c`.
    pub fn enemy_at(&self, r: usize, c: usize) -> (e: Enemy)
        requires
            r < self.enemies@.len(),
            c < self.enemies@[r as int]@.len(),
        ensures
            e == self.enemies@[r as int]@[c as int],
    {
        self.enemies[r][c]
    }

    /// Number of live lasers.
    pub fn laser_count(&self) -> (n: usize)
        ensures
            n == self.lasers@.len(),
    {
        self.lasers.len()
    }

    /// The laser at index `i`, in creation order.
    pub fn laser_at(&self, i: usize) -> (l: Laser)
        requires
            i < self.lasers@.len(),
        ensures
            l == self.lasers@[i as int],
    {
        self.lasers[i]
    }

    /// Number of formation advances so far.
    pub fn move_count(&self) -> (n: i32)
        ensures
            n == self.moves,
    {
        self.moves
    }
}

} // verus!
