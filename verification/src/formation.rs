//! The zig-zag descent of the enemy formation.
//!
//! The session counts formation advances in `moves`. On the advance
//! that makes `moves` a multiple of `MOVES_PER_ROW` the whole block
//! drops one step; on every other advance it shifts one step
//! sideways, rightward while `moves / MOVES_PER_ROW` is even and
//! leftward while it is odd. The spec functions below give the exact
//! displacement of advance number `m`, and the sums over a whole
//! period; the session's formation command promises these
//! displacements pointwise for every enemy.

use vstd::prelude::*;

use crate::constants::{MOVES_PER_ROW, MOVE_SIZE};

verus! {

/// Advance number `m` is the one on which the formation drops a row.
pub open spec fn row_shift_move(m: int) -> bool {
    m % (MOVES_PER_ROW as int) == 0
}

/// Horizontal direction in force on advance number `m`:
/// 0 is rightward, 1 is leftward.
pub open spec fn horiz_dir(m: int) -> int {
    (m / (MOVES_PER_ROW as int)) % 2
}

/// Displacement of every enemy's x on advance number `m`.
pub open spec fn x_step(m: int) -> int {
    if row_shift_move(m) {
        0
    } else if horiz_dir(m) == 0 {
        MOVE_SIZE as int
    } else {
        -(MOVE_SIZE as int)
    }
}

/// Displacement of every enemy's y on advance number `m`.
pub open spec fn y_step(m: int) -> int {
    if row_shift_move(m) {
        MOVE_SIZE as int
    } else {
        0
    }
}

/// Sum of the x displacements of advances `m0 + 1 ..= m0 + k`.
pub open spec fn x_total(m0: int, k: nat) -> int
    decreases k,
{
    if k == 0 {
        0
    } else {
        x_total(m0, (k - 1) as nat) + x_step(m0 + k)
    }
}

/// Sum of the y displacements of advances `m0 + 1 ..= m0 + k`.
pub open spec fn y_total(m0: int, k: nat) -> int
    decreases k,
{
    if k == 0 {
        0
    } else {
        y_total(m0, (k - 1) as nat) + y_step(m0 + k)
    }
}

/// Over one full period — the `MOVES_PER_ROW` advances that follow a
/// row drop — every enemy moves `MOVES_PER_ROW - 1` steps sideways in
/// the period's one horizontal direction and drops exactly one step:
/// the classic zig-zag. Advances `m0 + 1 .. m0 + MOVES_PER_ROW` keep
/// one direction because their shift count `m / MOVES_PER_ROW` stays
/// `m0 / MOVES_PER_ROW`; only the last advance of the period is a
/// drop.
pub proof fn lemma_formation_period(m0: int)
    requires
        0 <= m0,
        m0 % (MOVES_PER_ROW as int) == 0,
    ensures
        horiz_dir(m0 + 1) == if (m0 / (MOVES_PER_ROW as int)) % 2 == 0 { 0int } else { 1int },
        x_total(m0, MOVES_PER_ROW as nat) == if horiz_dir(m0 + 1) == 0 {
            (MOVES_PER_ROW - 1) * MOVE_SIZE
        } else {
            -((MOVES_PER_ROW - 1) * MOVE_SIZE)
        },
        y_total(m0, MOVES_PER_ROW as nat) == MOVE_SIZE,
{
    let p = MOVES_PER_ROW as int;
    let q = m0 / p;
    assert(m0 == p * q) by {
        vstd::arithmetic::div_mod::lemma_fundamental_div_mod(m0, p);
    }
    assert forall|j: int| 1 <= j < p implies (m0 + j) % p == j && #[trigger] ((m0 + j) / p) == q by {
        vstd::arithmetic::div_mod::lemma_fundamental_div_mod_converse(m0 + j, p, q, j);
    }
    assert((m0 + p) % p == 0 && (m0 + p) / p == q + 1) by {
        vstd::arithmetic::div_mod::lemma_fundamental_div_mod_converse(m0 + p, p, q + 1, 0);
    }
    reveal_with_fuel(x_total, 11);
    reveal_with_fuel(y_total, 11);
}

} // verus!
