//! Simulation core of a small Space-Invaders style arcade game.
//!
//! The library owns the whole game state — the player, the enemy
//! formation and the live lasers — and the rules that move them:
//! clamped player movement, the zig-zag descent of the formation,
//! laser advance, point-in-box collision detection, enemy health and
//! the removal of spent entities. Rendering, window management,
//! keyboard capture and timers are left to the embedding program,
//! which drives the session through its public commands and reads the
//! entity positions back.

pub mod constants;
pub mod entities;
pub mod event;
pub mod formation;
pub mod game;
pub mod geometry;
pub mod laws;
pub mod tick;
