//! Laws of the simulation, proved against what the session's commands
//! promise: over one full period the formation drops one step and
//! crosses `MOVES_PER_ROW - 1` steps sideways; a laser fired over an
//! empty field leaves through the top; an Easy enemy dies to one hit
//! together with the laser; a tougher enemy trades one health for the
//! laser, dying to the third hit; and removal keeps the survivors'
//! order under fresh indices.

use vstd::prelude::*;

use crate::constants::{
    LASER_ADVANCE_SIZE, LASER_HEIGHT, LASER_Y_OFFSET, MOVES_PER_ROW, MOVE_SIZE, PLAYER_SIZE,
};
use crate::entities::{Enemy, Laser};
use crate::formation::{horiz_dir, lemma_formation_period, x_total, y_total};
use crate::game::{formation_advanced, Game};
use crate::geometry::Location;
use crate::tick::{
    advance_laser, damage_enemy, enemy_hit, filter_row_upto, laser_step, remove_killed,
    row_hit_from, rows_hit_from, run_lasers, spec_tick, tick_iter, ScanState,
};

verus! {

/// A laser point hits nothing among rows that hold no enemy.
proof fn lemma_no_hit_in_empty_rows(
    rows: Seq<Seq<Enemy>>,
    killed: Set<(int, int)>,
    p: Location,
    r: int,
)
    requires
        forall|j: int| 0 <= j < rows.len() ==> (#[trigger] rows[j]).len() == 0,
        0 <= r,
    ensures
        rows_hit_from(rows, killed, p, r) is None,
    decreases rows.len() - r,
{
    if r < rows.len() {
        assert(row_hit_from(rows[r], r, killed, p, 0) is None);
        lemma_no_hit_in_empty_rows(rows, killed, p, r + 1);
    }
}

/// Removing nothing from rows that hold no enemy returns them as they
/// are.
proof fn lemma_remove_none_from_empty_rows(rows: Seq<Seq<Enemy>>, killed: Set<(int, int)>)
    requires
        forall|j: int| 0 <= j < rows.len() ==> (#[trigger] rows[j]).len() == 0,
    ensures
        remove_killed(rows, killed) == rows,
{
    assert forall|j: int| 0 <= j < rows.len() implies remove_killed(rows, killed)[j] == rows[j] by {
        assert(filter_row_upto(rows[j], j, killed, rows[j].len() as int) == Seq::<Enemy>::empty());
        assert(rows[j] =~= Seq::<Enemy>::empty());
    }
    assert(remove_killed(rows, killed) =~= rows);
}

/// Over rows that hold no enemy, a single laser climbs one step each
/// tick and vanishes on the tick that carries it above the top of the
/// play area; the rows stay as they are.
proof fn lemma_single_laser_climbs(rows: Seq<Seq<Enemy>>, l: Laser, k: nat)
    requires
        forall|j: int| 0 <= j < rows.len() ==> (#[trigger] rows[j]).len() == 0,
        -LASER_HEIGHT <= l.location.y,
    ensures
        tick_iter(rows, seq![l], k).0 == rows,
        l.location.y - k * LASER_ADVANCE_SIZE >= -LASER_HEIGHT ==> tick_iter(rows, seq![l], k).1
            == seq![
            (Laser {
                location: Location {
                    x: l.location.x,
                    y: (l.location.y - k * LASER_ADVANCE_SIZE) as i32,
                },
            }),
        ],
        l.location.y - k * LASER_ADVANCE_SIZE < -LASER_HEIGHT ==> tick_iter(rows, seq![l], k).1
            == Seq::<Laser>::empty(),
    decreases k,
{
    if k == 0 {
        assert(tick_iter(rows, seq![l], 0).1 == seq![l]);
        assert(l == (Laser {
            location: Location { x: l.location.x, y: (l.location.y - 0) as i32 },
        }));
    } else {
        lemma_single_laser_climbs(rows, l, (k - 1) as nat);
        let prev = tick_iter(rows, seq![l], (k - 1) as nat);
        assert(tick_iter(rows, seq![l], k) == spec_tick(prev.0, prev.1));
        let y_prev = l.location.y - (k - 1) * LASER_ADVANCE_SIZE;
        assert(y_prev - LASER_ADVANCE_SIZE == l.location.y - k * LASER_ADVANCE_SIZE);
        if y_prev < -LASER_HEIGHT {
            // The laser was already gone; a tick over no lasers changes
            // nothing.
            assert(prev.1 == Seq::<Laser>::empty());
            assert(run_lasers(prev.0, prev.1, 0) == (ScanState {
                rows: prev.0,
                killed: Set::empty(),
                kept: Seq::empty(),
            }));
            lemma_remove_none_from_empty_rows(prev.0, Set::empty());
            assert(l.location.y - k * LASER_ADVANCE_SIZE < -LASER_HEIGHT);
        } else {
            let lp = Laser { location: Location { x: l.location.x, y: y_prev as i32 } };
            assert(prev.1 == seq![lp]);
            let st0 = ScanState { rows: prev.0, killed: Set::empty(), kept: Seq::empty() };
            assert(run_lasers(prev.0, prev.1, 1) == laser_step(
                run_lasers(prev.0, prev.1, 0),
                prev.1[0],
            ));
            assert(run_lasers(prev.0, prev.1, 0) == st0);
            let adv = advance_laser(lp);
            assert(adv.location.y == y_prev - LASER_ADVANCE_SIZE);
            if adv.location.y < -LASER_HEIGHT {
                assert(laser_step(st0, lp) == st0);
                lemma_remove_none_from_empty_rows(prev.0, Set::empty());
            } else {
                lemma_no_hit_in_empty_rows(prev.0, Set::empty(), adv.location, 0);
                assert(laser_step(st0, lp) == (ScanState {
                    rows: prev.0,
                    killed: Set::<(int, int)>::empty(),
                    kept: Seq::<Laser>::empty().push(adv),
                }));
                lemma_remove_none_from_empty_rows(prev.0, Set::empty());
                assert(Seq::<Laser>::empty().push(adv) =~= seq![adv]);
                assert(adv == (Laser {
                    location: Location {
                        x: l.location.x,
                        y: (l.location.y - k * LASER_ADVANCE_SIZE) as i32,
                    },
                }));
            }
        }
    }
}

/// A laser fired from a fresh session's player — spawned at
/// `height - PLAYER_SIZE - LASER_Y_OFFSET` — with no enemies on the
/// field is gone after `⌈height / LASER_ADVANCE_SIZE⌉` ticks: it has
/// left through the top of the play area.
pub proof fn lemma_laser_exits_top(rows: Seq<Seq<Enemy>>, l: Laser, height: int, k: nat)
    requires
        forall|j: int| 0 <= j < rows.len() ==> (#[trigger] rows[j]).len() == 0,
        PLAYER_SIZE + LASER_Y_OFFSET - LASER_HEIGHT <= height,
        l.location.y == height - PLAYER_SIZE - LASER_Y_OFFSET,
        k == (height + LASER_ADVANCE_SIZE - 1) / (LASER_ADVANCE_SIZE as int),
    ensures
        tick_iter(rows, seq![l], k).1 == Seq::<Laser>::empty(),
        tick_iter(rows, seq![l], k).0 == rows,
{
    vstd::arithmetic::div_mod::lemma_fundamental_div_mod(
        height + LASER_ADVANCE_SIZE - 1,
        LASER_ADVANCE_SIZE as int,
    );
    assert(k * LASER_ADVANCE_SIZE >= height);
    lemma_single_laser_climbs(rows, l, k);
}

/// A laser whose point lands inside the box of an Easy enemy — health
/// 1 — kills it: one tick removes the enemy and consumes the laser.
pub proof fn lemma_easy_enemy_killed(e: Enemy, l: Laser)
    requires
        e.health == 1,
        -LASER_HEIGHT <= l.location.y - LASER_ADVANCE_SIZE,
        enemy_hit(e, advance_laser(l).location),
    ensures
        spec_tick(seq![seq![e]], seq![l]).0 == seq![Seq::<Enemy>::empty()],
        spec_tick(seq![seq![e]], seq![l]).1 == Seq::<Laser>::empty(),
{
    let rows = seq![seq![e]];
    let lasers = seq![l];
    let st0 = ScanState { rows, killed: Set::empty(), kept: Seq::empty() };
    assert(run_lasers(rows, lasers, 1) == laser_step(run_lasers(rows, lasers, 0), l));
    assert(run_lasers(rows, lasers, 0) == st0);
    let adv = advance_laser(l);
    assert(!(adv.location.y < -LASER_HEIGHT));
    assert(row_hit_from(rows[0], 0, Set::empty(), adv.location, 0) == Some(0int));
    assert(rows_hit_from(rows, Set::empty(), adv.location, 0) == Some((0int, 0int)));
    let st1 = laser_step(st0, l);
    assert(st1.killed == Set::<(int, int)>::empty().insert((0, 0)));
    assert(st1.kept == Seq::<Laser>::empty());
    assert(st1.rows == rows.update(0, rows[0].update(0, damage_enemy(e))));
    assert(filter_row_upto(st1.rows[0], 0, st1.killed, 0) == Seq::<Enemy>::empty());
    assert(filter_row_upto(st1.rows[0], 0, st1.killed, 1) == Seq::<Enemy>::empty());
    assert(remove_killed(st1.rows, st1.killed) =~= seq![Seq::<Enemy>::empty()]);
}

/// A laser landing on an enemy with health of at least 2 — a Hard or
/// Medium one, or a Hard already hit once — is consumed and costs the
/// enemy exactly one health, without removing it.
pub proof fn lemma_tough_enemy_survives_hit(e: Enemy, l: Laser)
    requires
        2 <= e.health,
        -LASER_HEIGHT <= l.location.y - LASER_ADVANCE_SIZE,
        enemy_hit(e, advance_laser(l).location),
    ensures
        spec_tick(seq![seq![e]], seq![l]).0 == seq![seq![damage_enemy(e)]],
        spec_tick(seq![seq![e]], seq![l]).1 == Seq::<Laser>::empty(),
        damage_enemy(e).health == e.health - 1,
        damage_enemy(e).location == e.location,
{
    let rows = seq![seq![e]];
    let lasers = seq![l];
    let st0 = ScanState { rows, killed: Set::empty(), kept: Seq::empty() };
    assert(run_lasers(rows, lasers, 1) == laser_step(run_lasers(rows, lasers, 0), l));
    assert(run_lasers(rows, lasers, 0) == st0);
    let adv = advance_laser(l);
    assert(!(adv.location.y < -LASER_HEIGHT));
    assert(row_hit_from(rows[0], 0, Set::empty(), adv.location, 0) == Some(0int));
    assert(rows_hit_from(rows, Set::empty(), adv.location, 0) == Some((0int, 0int)));
    let st1 = laser_step(st0, l);
    assert(st1.killed == Set::<(int, int)>::empty());
    assert(st1.kept == Seq::<Laser>::empty());
    assert(st1.rows == rows.update(0, rows[0].update(0, damage_enemy(e))));
    assert(filter_row_upto(st1.rows[0], 0, st1.killed, 0) == Seq::<Enemy>::empty());
    assert(filter_row_upto(st1.rows[0], 0, st1.killed, 1) =~= seq![damage_enemy(e)]);
    assert(remove_killed(st1.rows, st1.killed) =~= seq![seq![damage_enemy(e)]]);
}

/// Along a chain of formation advances, the advance counter counts up
/// by one per state, rows keep their shape and healths, and every
/// enemy's displacement is the running sum of the schedule's steps.
proof fn lemma_formation_chain(states: Seq<Game>, k: int)
    requires
        0 <= k < states.len(),
        forall|j: int|
            0 <= j < states.len() - 1 ==> formation_advanced(#[trigger] states[j], states[j + 1]),
    ensures
        states[k].moves == states[0].moves + k,
        states[k].enemies@.len() == states[0].enemies@.len(),
        forall|r: int|
            0 <= r < states[0].enemies@.len() ==> (#[trigger] states[k].enemies@[r])@.len()
                == states[0].enemies@[r]@.len(),
        forall|r: int, c: int|
            0 <= r < states[0].enemies@.len() && 0 <= c < states[0].enemies@[r]@.len() ==> {
                &&& (#[trigger] states[k].enemies@[r]@[c]).health
                    == states[0].enemies@[r]@[c].health
                &&& states[k].enemies@[r]@[c].location.x == states[0].enemies@[r]@[c].location.x
                    + x_total(states[0].moves as int, k as nat)
                &&& states[k].enemies@[r]@[c].location.y == states[0].enemies@[r]@[c].location.y
                    + y_total(states[0].moves as int, k as nat)
            },
    decreases k,
{
    if k > 0 {
        lemma_formation_chain(states, k - 1);
        assert(formation_advanced(states[k - 1], states[k]));
        let m0 = states[0].moves as int;
        assert(x_total(m0, k as nat) == x_total(m0, (k - 1) as nat) + crate::formation::x_step(
            m0 + k,
        ));
        assert(y_total(m0, k as nat) == y_total(m0, (k - 1) as nat) + crate::formation::y_step(
            m0 + k,
        ));
    }
}

/// After exactly `MOVES_PER_ROW` formation advances from a period
/// boundary, every enemy has dropped exactly one step and moved
/// `MOVES_PER_ROW - 1` steps sideways in the period's one direction,
/// health untouched.
pub proof fn lemma_formation_period_displaces_enemies(states: Seq<Game>)
    requires
        states.len() == MOVES_PER_ROW + 1,
        0 <= states[0].moves,
        (states[0].moves as int) % (MOVES_PER_ROW as int) == 0,
        forall|j: int|
            0 <= j < MOVES_PER_ROW ==> formation_advanced(#[trigger] states[j], states[j + 1]),
    ensures
        forall|r: int, c: int|
            0 <= r < states[0].enemies@.len() && 0 <= c < states[0].enemies@[r]@.len() ==> {
                &&& (#[trigger] states[MOVES_PER_ROW as int].enemies@[r]@[c]).health == states[0].enemies@[r]@[c].health
                &&& states[MOVES_PER_ROW as int].enemies@[r]@[c].location.y
                    == states[0].enemies@[r]@[c].location.y + MOVE_SIZE
                &&& states[MOVES_PER_ROW as int].enemies@[r]@[c].location.x
                    == states[0].enemies@[r]@[c].location.x + (if horiz_dir(
                    states[0].moves + 1,
                ) == 0 {
                    (MOVES_PER_ROW - 1) * MOVE_SIZE as int
                } else {
                    -((MOVES_PER_ROW - 1) * MOVE_SIZE)
                })
            },
{
    lemma_formation_chain(states, MOVES_PER_ROW as int);
    lemma_formation_period(states[0].moves as int);
}

/// Three separate hits remove a Hard enemy: with health 3 it survives
/// the first two ticks, one health poorer each, and dies on the third.
pub proof fn lemma_hard_enemy_dies_to_three_hits(e: Enemy, l1: Laser, l2: Laser, l3: Laser)
    requires
        e.health == 3,
        -LASER_HEIGHT <= l1.location.y - LASER_ADVANCE_SIZE,
        -LASER_HEIGHT <= l2.location.y - LASER_ADVANCE_SIZE,
        -LASER_HEIGHT <= l3.location.y - LASER_ADVANCE_SIZE,
        enemy_hit(e, advance_laser(l1).location),
        enemy_hit(e, advance_laser(l2).location),
        enemy_hit(e, advance_laser(l3).location),
    ensures
        spec_tick(
            spec_tick(spec_tick(seq![seq![e]], seq![l1]).0, seq![l2]).0,
            seq![l3],
        ).0 == seq![Seq::<Enemy>::empty()],
{
    let e1 = damage_enemy(e);
    let e2 = damage_enemy(e1);
    lemma_tough_enemy_survives_hit(e, l1);
    assert(enemy_hit(e1, advance_laser(l2).location));
    lemma_tough_enemy_survives_hit(e1, l2);
    assert(enemy_hit(e2, advance_laser(l3).location));
    lemma_easy_enemy_killed(e2, l3);
}

/// Removing the cells killed at columns 0 and 2 of a three-enemy row
/// leaves exactly the middle enemy, re-indexed to position 0.
pub proof fn lemma_row_removal_reindexes(row: Seq<Enemy>, r: int, killed: Set<(int, int)>)
    requires
        row.len() == 3,
        killed.contains((r, 0)),
        !killed.contains((r, 1)),
        killed.contains((r, 2)),
    ensures
        filter_row_upto(row, r, killed, 3) == seq![row[1]],
{
    assert(filter_row_upto(row, r, killed, 0) == Seq::<Enemy>::empty());
    assert(filter_row_upto(row, r, killed, 1) == Seq::<Enemy>::empty());
    assert(filter_row_upto(row, r, killed, 2) == Seq::<Enemy>::empty().push(row[1]));
    assert(filter_row_upto(row, r, killed, 3) =~= seq![row[1]]);
}

} // verus!
