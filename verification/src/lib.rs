//! Server-authoritative engine for the Crabul card game.
//!
//! A room is a sequential state machine: it owns the players, the deck and
//! the current game state, and processes one command at a time.  Every
//! command handler validates the current state, mutates the room, and
//! records the events and timer operations it wants performed in a list of
//! [`Effect`]s; the surrounding (unverified) runtime performs them.

use vstd::prelude::*;

pub mod deck;
pub mod errors;
pub mod events;
mod rng;
pub mod room;
pub mod score;

verus! {

/// Identifier a room hands out to each joined player.
pub type PlayerId = u16;

/// Identifier of a room within the registry.
pub type RoomId = u16;

/// Display name a player joins with.
pub type PlayerName = String;

/// A game cannot start with fewer players than this.
pub const MIN_PLAYERS: usize = 2;

/// A room never holds more players than this.
pub const MAX_PLAYERS: usize = 6;

/// Seconds the peeking phase lasts before the first turn is forced.
pub const PEEKING_PHASE_COUNTDOWN_SECS: u64 = 10;

/// Seconds a player may hold the turn before it is ended for them.
pub const TURN_COUNTDOWN_SECS: u64 = 600;

/// Seconds between entering `Terminating` and the final score broadcast.
pub const FINALIZE_GAME_COUNTDOWN_SECS: u64 = 5;

} // verus!
