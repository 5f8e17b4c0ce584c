//! The projectile and collision engine: what one tick does.
//!
//! A tick advances every live laser one step upward, in creation
//! order. A laser that climbs past the top of the play area expires.
//! Any other laser is tested, as a single point, against the bounding
//! box of every enemy in row-major order — top row first, left to
//! right — and is consumed by the first enemy found that contains it
//! and has not been killed earlier in the same tick: that enemy loses
//! one health, and dies when its health sinks below 1. An enemy killed
//! earlier in the tick is passed through, costing later lasers
//! neither their flight nor the enemy more health. When all lasers
//! are processed, expired and consumed lasers and dead enemies are
//! removed; rows keep their order and the survivors their relative
//! positions.
//!
//! The spec functions in this module state that behaviour over
//! mathematical sequences; [`spec_tick`] is the whole tick, and the
//! session's tick command promises exactly it.

use vstd::prelude::*;

use crate::constants::{ENEMY_SIZE, LASER_ADVANCE_SIZE, LASER_HEIGHT};
use crate::entities::{Enemy, Laser};
use crate::geometry::{contains, spec_contains, Location};

verus! {

/// The point `p` lies inside enemy `e`'s bounding box.
pub open spec fn enemy_hit(e: Enemy, p: Location) -> bool {
    spec_contains(e.location, ENEMY_SIZE as int, ENEMY_SIZE as int, p)
}

/// The enemy formation as mathematical rows.
pub open spec fn rows_model(rows: Seq<Vec<Enemy>>) -> Seq<Seq<Enemy>> {
    rows.map_values(|row: Vec<Enemy>| row@)
}

/// Every enemy's box stays within machine range, so the containment
/// test's corner sums cannot overflow.
pub open spec fn enemy_coords_bounded(rows: Seq<Seq<Enemy>>) -> bool {
    forall|r: int, c: int|
        0 <= r < rows.len() && 0 <= c < rows[r].len() ==> {
            &&& (#[trigger] rows[r][c]).location.x + ENEMY_SIZE <= i32::MAX
            &&& rows[r][c].location.y + ENEMY_SIZE <= i32::MAX
        }
}

/// The set of cells (row, column) listed in `marks`.
pub open spec fn marks_set(marks: Seq<(usize, usize)>) -> Set<(int, int)> {
    Set::new(
        |rc: (int, int)|
            exists|k: int|
                0 <= k < marks.len() && (#[trigger] marks[k]).0 == rc.0 && marks[k].1 == rc.1,
    )
}

/// Column of the first enemy of `row` (scanning left to right from
/// column `c`) whose box contains `p` and which is not among the cells
/// `killed` this tick; the row's own index is `r`.
pub open spec fn row_hit_from(
    row: Seq<Enemy>,
    r: int,
    killed: Set<(int, int)>,
    p: Location,
    c: int,
) -> Option<int>
    decreases row.len() - c,
{
    if c < 0 || c >= row.len() {
        None
    } else if enemy_hit(row[c], p) && !killed.contains((r, c)) {
        Some(c)
    } else {
        row_hit_from(row, r, killed, p, c + 1)
    }
}

/// First hit cell in row-major order, scanning from row `r` downward.
pub open spec fn rows_hit_from(
    rows: Seq<Seq<Enemy>>,
    killed: Set<(int, int)>,
    p: Location,
    r: int,
) -> Option<(int, int)>
    decreases rows.len() - r,
{
    if r < 0 || r >= rows.len() {
        None
    } else {
        match row_hit_from(rows[r], r, killed, p, 0) {
            Some(c) => Some((r, c)),
            None => rows_hit_from(rows, killed, p, r + 1),
        }
    }
}

/// The cell credited with a hit by a laser at `p`: the first enemy in
/// row-major order — top row first, left to right — whose box contains
/// `p` and which was not killed earlier this tick.
pub open spec fn first_hit(rows: Seq<Seq<Enemy>>, killed: Set<(int, int)>, p: Location) -> Option<
    (int, int),
> {
    rows_hit_from(rows, killed, p, 0)
}

/// A laser one step further up.
pub open spec fn advance_laser(l: Laser) -> Laser {
    Laser { location: Location { x: l.location.x, y: (l.location.y - LASER_ADVANCE_SIZE) as i32 } }
}

/// An advanced laser that has left the play area above.
pub open spec fn laser_expired(l: Laser) -> bool {
    l.location.y < -LASER_HEIGHT
}

/// The enemy after one hit.
pub open spec fn damage_enemy(e: Enemy) -> Enemy {
    Enemy { health: (e.health - 1) as i32, location: e.location }
}

/// State of one tick while its lasers are processed: the rows with
/// the healths dealt so far, the cells killed so far, and the
/// advanced lasers that survived so far, in creation order.
pub struct ScanState {
    pub rows: Seq<Seq<Enemy>>,
    pub killed: Set<(int, int)>,
    pub kept: Seq<Laser>,
}

/// Processing of one laser: advance it; drop it if it expired; else
/// let the first not-yet-killed enemy containing it consume it and
/// take one damage, dying below 1 health; a laser that hits nothing is
/// kept.
pub open spec fn laser_step(st: ScanState, l: Laser) -> ScanState {
    let adv = advance_laser(l);
    if laser_expired(adv) {
        st
    } else {
        match first_hit(st.rows, st.killed, adv.location) {
            None => ScanState { rows: st.rows, killed: st.killed, kept: st.kept.push(adv) },
            Some(rc) => {
                let hurt = damage_enemy(st.rows[rc.0][rc.1]);
                ScanState {
                    rows: st.rows.update(rc.0, st.rows[rc.0].update(rc.1, hurt)),
                    killed: if hurt.health < 1 {
                        st.killed.insert(rc)
                    } else {
                        st.killed
                    },
                    kept: st.kept,
                }
            },
        }
    }
}

/// State after the first `n` lasers of the tick are processed, in
/// creation order.
pub open spec fn run_lasers(rows: Seq<Seq<Enemy>>, lasers: Seq<Laser>, n: int) -> ScanState
    decreases n,
{
    if n <= 0 {
        ScanState { rows, killed: Set::empty(), kept: Seq::empty() }
    } else {
        laser_step(run_lasers(rows, lasers, n - 1), lasers[n - 1])
    }
}

/// The survivors among the first `c` enemies of `row` (whose own index
/// is `r`): those not killed, in their original order.
pub open spec fn filter_row_upto(
    row: Seq<Enemy>,
    r: int,
    killed: Set<(int, int)>,
    c: int,
) -> Seq<Enemy>
    decreases c,
{
    if c <= 0 {
        Seq::empty()
    } else if killed.contains((r, c - 1)) {
        filter_row_upto(row, r, killed, c - 1)
    } else {
        filter_row_upto(row, r, killed, c - 1).push(row[c - 1])
    }
}

/// The rows after the killed cells are removed: every row keeps its
/// place and its survivors their left-to-right order.
pub open spec fn remove_killed(rows: Seq<Seq<Enemy>>, killed: Set<(int, int)>) -> Seq<Seq<Enemy>> {
    Seq::new(rows.len(), |r: int| filter_row_upto(rows[r], r, killed, rows[r].len() as int))
}

/// One whole tick over rows of enemies and lasers in creation order:
/// the rows after damage and removal, and the surviving advanced
/// lasers.
pub open spec fn spec_tick(rows: Seq<Seq<Enemy>>, lasers: Seq<Laser>) -> (Seq<Seq<Enemy>>, Seq<
    Laser,
>) {
    let st = run_lasers(rows, lasers, lasers.len() as int);
    (remove_killed(st.rows, st.killed), st.kept)
}

/// `k` ticks in a row.
pub open spec fn tick_iter(rows: Seq<Seq<Enemy>>, lasers: Seq<Laser>, k: nat) -> (Seq<Seq<Enemy>>, Seq<
    Laser,
>)
    decreases k,
{
    if k == 0 {
        (rows, lasers)
    } else {
        let s = tick_iter(rows, lasers, (k - 1) as nat);
        spec_tick(s.0, s.1)
    }
}

/// An empty mark list marks no cell.
pub proof fn lemma_marks_empty()
    ensures
        marks_set(Seq::<(usize, usize)>::empty()) == Set::<(int, int)>::empty(),
{
    assert(marks_set(Seq::<(usize, usize)>::empty()) =~= Set::<(int, int)>::empty());
}

/// Appending one cell to the mark list inserts exactly that cell into
/// the marked set.
pub proof fn lemma_marks_push(marks: Seq<(usize, usize)>, rc: (usize, usize))
    ensures
        marks_set(marks.push(rc)) == marks_set(marks).insert((rc.0 as int, rc.1 as int)),
{
    let lhs = marks_set(marks.push(rc));
    let rhs = marks_set(marks).insert((rc.0 as int, rc.1 as int));
    assert forall|q: (int, int)| lhs.contains(q) implies rhs.contains(q) by {
        let k = choose|k: int|
            0 <= k < marks.push(rc).len() && (#[trigger] marks.push(rc)[k]).0 == q.0
                && marks.push(rc)[k].1 == q.1;
        if k < marks.len() {
            assert(marks[k] == marks.push(rc)[k]);
            assert(marks_set(marks).contains(q));
        } else {
            assert(marks.push(rc)[k] == rc);
        }
    }
    assert forall|q: (int, int)| rhs.contains(q) implies lhs.contains(q) by {
        if q == ((rc.0 as int, rc.1 as int)) {
            assert(marks.push(rc)[marks.len() as int] == rc);
            assert(lhs.contains(q));
        } else {
            assert(marks_set(marks).contains(q));
            let k = choose|k: int|
                0 <= k < marks.len() && (#[trigger] marks[k]).0 == q.0 && marks[k].1 == q.1;
            assert(marks.push(rc)[k] == marks[k]);
            assert(lhs.contains(q));
        }
    }
    assert(lhs =~= rhs);
}

/// Taking one row out and putting another back at the same place is
/// the pointwise update of the row list.
pub proof fn lemma_remove_insert_is_update(rows: Seq<Vec<Enemy>>, r: int, row: Vec<Enemy>)
    requires
        0 <= r < rows.len(),
    ensures
        rows.remove(r).insert(r, row) == rows.update(r, row),
{
    assert(rows.remove(r).insert(r, row) =~= rows.update(r, row));
}

/// Updating one row of the formation updates its model pointwise.
pub proof fn lemma_rows_model_update(rows: Seq<Vec<Enemy>>, r: int, row: Vec<Enemy>)
    requires
        0 <= r < rows.len(),
    ensures
        rows_model(rows.update(r, row)) == rows_model(rows).update(r, row@),
{
    assert(rows_model(rows.update(r, row)) =~= rows_model(rows).update(r, row@));
}

/// Whether the cell (`r`, `c`) is among the marked cells.
pub fn is_marked(marks: &Vec<(usize, usize)>, r: usize, c: usize) -> (res: bool)
    ensures
        res == marks_set(marks@).contains((r as int, c as int)),
{
    let mut k: usize = 0;
    while k < marks.len()
        invariant
            k <= marks@.len(),
            forall|j: int| 0 <= j < k ==> !((#[trigger] marks@[j]).0 == r && marks@[j].1 == c),
        decreases marks@.len() - k,
    {
        let m = marks[k];
        if m.0 == r && m.1 == c {
            assert(marks_set(marks@).contains((r as int, c as int)));
            return true;
        }
        k = k + 1;
    }
    assert(!marks_set(marks@).contains((r as int, c as int)));
    false
}

/// The first hit for a laser point `p`, as [`first_hit`] states it,
/// scanning the formation in row-major order.
pub fn find_hit(rows: &Vec<Vec<Enemy>>, marks: &Vec<(usize, usize)>, p: Location) -> (res: Option<
    (usize, usize),
>)
    requires
        enemy_coords_bounded(rows_model(rows@)),
    ensures
        match res {
            Some(rc) => {
                &&& rc.0 < rows@.len()
                &&& rc.1 < rows@[rc.0 as int]@.len()
                &&& first_hit(rows_model(rows@), marks_set(marks@), p) == Some(
                    (rc.0 as int, rc.1 as int),
                )
                &&& enemy_hit(rows@[rc.0 as int]@[rc.1 as int], p)
                &&& !marks_set(marks@).contains((rc.0 as int, rc.1 as int))
            },
            None => first_hit(rows_model(rows@), marks_set(marks@), p) is None,
        },
{
    let ghost rowsm = rows_model(rows@);
    let ghost killed = marks_set(marks@);
    let mut r: usize = 0;
    while r < rows.len()
        invariant
            r <= rows@.len(),
            rowsm == rows_model(rows@),
            killed == marks_set(marks@),
            enemy_coords_bounded(rowsm),
            rows_hit_from(rowsm, killed, p, 0) == rows_hit_from(rowsm, killed, p, r as int),
        decreases rows@.len() - r,
    {
        let row_len = rows[r].len();
        assert(rowsm[r as int] == rows@[r as int]@);
        let mut c: usize = 0;
        while c < row_len
            invariant
                c <= row_len,
                r < rows@.len(),
                row_len == rows@[r as int]@.len(),
                rowsm == rows_model(rows@),
                killed == marks_set(marks@),
                enemy_coords_bounded(rowsm),
                rowsm[r as int] == rows@[r as int]@,
                rows_hit_from(rowsm, killed, p, 0) == rows_hit_from(rowsm, killed, p, r as int),
                row_hit_from(rowsm[r as int], r as int, killed, p, 0) == row_hit_from(
                    rowsm[r as int],
                    r as int,
                    killed,
                    p,
                    c as int,
                ),
            decreases row_len - c,
        {
            let e = rows[r][c];
            assert(e == rowsm[r as int][c as int]);
            if contains(e.location, ENEMY_SIZE, ENEMY_SIZE, p) {
                if !is_marked(marks, r, c) {
                    assert(row_hit_from(rowsm[r as int], r as int, killed, p, c as int) == Some(
                        c as int,
                    ));
                    assert(rows_hit_from(rowsm, killed, p, r as int) == Some((r as int, c as int)));
                    return Some((r, c));
                }
            }
            assert(row_hit_from(rowsm[r as int], r as int, killed, p, c as int) == row_hit_from(
                rowsm[r as int],
                r as int,
                killed,
                p,
                c as int + 1,
            ));
            c = c + 1;
        }
        assert(row_hit_from(rowsm[r as int], r as int, killed, p, 0) is None);
        assert(rows_hit_from(rowsm, killed, p, r as int) == rows_hit_from(
            rowsm,
            killed,
            p,
            r as int + 1,
        ));
        r = r + 1;
    }
    assert(rows_hit_from(rowsm, killed, p, r as int) is None);
    None
}

} // verus!
