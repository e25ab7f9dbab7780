//! The protocol a room speaks: powers, outcomes, scores, the events it
//! broadcasts, and the effects a command handler asks the runtime to
//! perform.

use vstd::prelude::*;

verus! {

use crate::deck::Card;
use crate::{PlayerId, PlayerName, RoomId};

/// The ability a discarded card grants, by rank.  The two-step
/// check-and-swap carries its chosen target between the steps.
#[derive(Clone, Copy, PartialEq, Eq, Structural, Debug)]
pub enum Power {
    PeekOwnCard,
    PeekOtherCard,
    BlindSwap,
    CheckAndSwapStage1,
    CheckAndSwapStage2(PlayerId, usize),
}

/// How a same-card throw was judged.
#[derive(Clone, Copy, PartialEq, Eq, Structural, Debug)]
pub enum SameCardResult {
    Success,
    NotTheSame,
    TooLate,
}

/// One player's final hand and its score.
#[derive(Clone, PartialEq, Debug)]
pub struct Score {
    pub player_id: PlayerId,
    pub cards: Vec<Card>,
    pub total_score: i64,
}

/// The game's outcome: the winner and every player's score, lowest first.
#[derive(Clone, PartialEq, Debug)]
pub struct FinalScore {
    pub winner: PlayerId,
    pub scores: Vec<Score>,
}

/// A notification the room sends to its players.  Events are broadcast to
/// every player unless the effect wrapping them names a single recipient.
#[derive(Clone, PartialEq, Debug)]
pub enum RoomEvent {
    PlayerJoined {
        room_id: RoomId,
        player_id: PlayerId,
        player_name: PlayerName,
        player_list: Vec<(PlayerId, PlayerName)>,
    },
    PlayerLeft(PlayerId),
    GameStarted,
    PlayerTurn(PlayerId),
    PeekingPhaseStarted(Card, Card),
    PlayerIsReady(PlayerId),
    CardWasDrawn(PlayerId),
    DrawnCard(Card),
    CardSwapped(PlayerId, usize),
    CardDiscarded(PlayerId, Card),
    PowerActivated(PlayerId, Power),
    PeekedCard(Card),
    PowerUsed(Power, PlayerId, Option<usize>, Option<PlayerId>, Option<usize>),
    SameCardAttempt(PlayerId, PlayerId, usize, Option<Card>, SameCardResult),
    CardReplaced(PlayerId, usize, PlayerId, usize),
    PlayerWentCrabul(PlayerId),
    GameTerminated(FinalScore),
    TurnEndedByTimeout(PlayerId),
    PowerDiscarded(PlayerId, Power),
    ForcedBlindSwap(PlayerId, usize, PlayerId, usize),
}

/// What a command handler asks the surrounding runtime to do, in order.
/// The handlers only record effects; the runtime owns the channels, the
/// timers and the room's own command queue.
#[derive(Clone, PartialEq, Debug)]
pub enum Effect {
    /// Send the event to every player in the room.
    ToAll(RoomEvent),
    /// Send the event to one player only.
    ToPlayer(PlayerId, RoomEvent),
    /// Abort the outstanding turn countdown, if one is live.
    CancelTurnTimer,
    /// Start a turn countdown that will force-end this player's turn.
    StartTurnTimer(PlayerId),
    /// Start the peeking-phase countdown that forces the first turn.
    StartPeekingTimer,
    /// Start the countdown that finalizes a terminating game.
    StartFinalizeTimer,
    /// Put an internal next-turn command on the room's own queue.
    EnqueueNextTurn,
    /// Shut the room down: its run loop exits after this command.
    StopRoom,
}

} // verus!
