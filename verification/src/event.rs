//! Input events as the embedding program hands them to the session:
//! a periodic enemy-move event, or a player move in one direction.

use vstd::prelude::*;

verus! {

/// What an event asks for.
#[derive(PartialEq, Eq, Structural, Debug)]
pub enum EventKind {
    EnemyMove,
    PlayerMove,
}

/// A horizontal direction for a player move.
#[derive(PartialEq, Eq, Structural, Debug)]
pub enum Direction {
    Left,
    Right,
}

/// An event: its kind, and for a player move the direction.
#[derive(PartialEq, Eq, Debug)]
pub struct Event {
    pub kind: EventKind,
    pub direction: Option<Direction>,
}

impl Event {
    /// The event of the player moving one step in `direction`.
    pub fn player_move(direction: Direction) -> (e: Event)
        ensures
            e.kind == EventKind::PlayerMove,
            e.direction == Some(direction),
    {
        Event { kind: EventKind::PlayerMove, direction: Some(direction) }
    }

    /// The periodic event of the enemy formation advancing one step.
    pub fn enemy_move() -> (e: Event)
        ensures
            e.kind == EventKind::EnemyMove,
            e.direction is None,
    {
        Event { kind: EventKind::EnemyMove, direction: None }
    }
}

} // verus!
