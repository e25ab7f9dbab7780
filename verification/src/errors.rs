//! The closed error sets the room and the registry answer with.

use vstd::prelude::*;

verus! {

/// Why a room command was rejected.  A rejected command leaves the room
/// unchanged; the error goes back to the requesting player only.
#[derive(Clone, Copy, PartialEq, Eq, Structural, Debug)]
pub enum GameError {
    NameAlreadyExists,
    EmptyName,
    NotEnoughPlayers,
    TooManyPlayers,
    OperationNotAllowedAtCurrentState,
    InvalidCardIndex,
    UnableToParseCommand,
}

/// Why a registry request was rejected.
#[derive(Clone, Copy, PartialEq, Eq, Structural, Debug)]
pub enum ServerError {
    RoomNotFound,
}

} // verus!
