//! The room actor's state machine.
//!
//! A `RoomServer` owns all mutable state of one game.  Each command
//! handler validates the current state, mutates the room, and appends the
//! events and timer operations to perform to a caller-supplied list of
//! [`Effect`]s; a rejected command returns its error and leaves both the
//! room and the effect list untouched.

use vstd::prelude::*;

verus! {

use crate::deck::{full_deck, Card, Deck};
use crate::errors::GameError;
use crate::events::{Effect, FinalScore, Power, RoomEvent, SameCardResult, Score};
use crate::rng::{random_below, random_u16};
use crate::score::{
    copy_cards, entries_view, hand_score, score_entry, scores_sorted, sort_scores,
    spec_hand_score,
};
use crate::{PlayerId, PlayerName, RoomId, MAX_PLAYERS, MIN_PLAYERS};

/// One seated player: identifier, display name, hand, and the peeking
/// readiness flag.
#[verifier::ext_equal]
pub struct Player {
    pub id: PlayerId,
    pub name: PlayerName,
    pub cards: Vec<Card>,
    pub ready: bool,
}

/// The game phase, the single source of truth for what commands are legal.
/// `PauseForSameCardThrow` stacks the preempted phase so a successful
/// interrupt can resume it unchanged.
#[derive(Debug)]
pub enum State {
    NotStarted,
    PeekingPhase,
    StartTurn(PlayerId),
    MiddleTurn(PlayerId, Card),
    PowerStage(PlayerId, Power),
    PauseForSameCardThrow(PlayerId, PlayerId, usize, Box<State>),
    Terminating,
    Terminated,
}

/// A state stacked under an interrupt pause is itself a state of a running
/// game: never `NotStarted`, and sound recursively.
pub open spec fn saved_state_wf(s: State) -> bool
    decreases s,
{
    match s {
        State::PauseForSameCardThrow(_, _, _, b) => !(*b is NotStarted) && saved_state_wf(*b),
        _ => true,
    }
}

/// No two seated players share an identifier.
pub open spec fn unique_ids(s: Seq<Player>) -> bool {
    forall|i: int, j: int| 0 <= i < j < s.len() ==> s[i].id != s[j].id
}

/// Some seated player carries this identifier.
pub open spec fn has_player(s: Seq<Player>, id: PlayerId) -> bool {
    exists|i: int| 0 <= i < s.len() && s[i].id == id
}

/// The seat index of the player with this identifier (meaningful when the
/// identifier is seated and identifiers are unique).
pub open spec fn idx_of(s: Seq<Player>, id: PlayerId) -> int {
    choose|i: int| 0 <= i < s.len() && s[i].id == id
}

pub proof fn lemma_idx_of_unique(s: Seq<Player>, id: PlayerId, i: int)
    requires
        unique_ids(s),
        0 <= i < s.len(),
        s[i].id == id,
    ensures
        has_player(s, id),
        idx_of(s, id) == i,
{
    assert(has_player(s, id));
}

/// Some seated player already carries this display name.
pub open spec fn name_taken(s: Seq<Player>, name: Seq<char>) -> bool {
    exists|i: int| 0 <= i < s.len() && s[i].name@ == name
}

/// The roster broadcast with a join event: every seat's identifier and
/// name, in seating order.
pub open spec fn roster_of(s: Seq<Player>) -> Seq<(PlayerId, PlayerName)> {
    s.map_values(|p: Player| (p.id, p.name))
}

/// A player as they sit down: the allotted identifier, the chosen name, an
/// empty hand, not ready.
pub open spec fn freshly_joined(p: Player, id: PlayerId, name: PlayerName) -> bool {
    &&& p.id == id
    &&& p.name == name
    &&& p.cards@.len() == 0
    &&& p.ready == false
}

/// Every seated player has confirmed their peek.
pub open spec fn all_ready(s: Seq<Player>) -> bool {
    forall|i: int| 0 <= i < s.len() ==> #[trigger] s[i].ready
}

/// The hand dealt to seat `i`: four cards drawn in order off the top of
/// the draw pile (which is the sequence's end).
pub open spec fn dealt_hand(deck0: Seq<Card>, i: int) -> Seq<Card> {
    Seq::new(4, |k: int| deck0[deck0.len() - 4 * i - 1 - k])
}

/// Two hand cards changed places: seat `i1`'s card `idx1` and seat `i2`'s
/// card `idx2`, everything else as it was.  When both name the same seat
/// the two positions of that one hand are exchanged.
pub open spec fn hands_swapped(
    pre: Seq<Player>,
    post: Seq<Player>,
    i1: int,
    idx1: int,
    i2: int,
    idx2: int,
) -> bool {
    &&& post.len() == pre.len()
    &&& forall|j: int| 0 <= j < pre.len() && j != i1 && j != i2 ==> post[j] == pre[j]
    &&& post[i1] == (Player { cards: post[i1].cards, ..pre[i1] })
    &&& post[i2] == (Player { cards: post[i2].cards, ..pre[i2] })
    &&& if i1 == i2 {
        post[i1].cards@ == pre[i1].cards@.update(idx1, pre[i1].cards@[idx2]).update(
            idx2,
            pre[i1].cards@[idx1],
        )
    } else {
        &&& post[i1].cards@ == pre[i1].cards@.update(idx1, pre[i2].cards@[idx2])
        &&& post[i2].cards@ == pre[i2].cards@.update(idx2, pre[i1].cards@[idx1])
    }
}

/// The power a discarded card grants: nothing below rank 7 and for jokers,
/// then peek-own, peek-other, blind-swap, and check-and-swap at 13.
pub open spec fn power_of(card: Card) -> Option<Power> {
    match card {
        Card::Joker => None,
        Card::Clubs(n) | Card::Diamonds(n) | Card::Hearts(n) | Card::Spade(n) => if n < 7 {
            None
        } else if n <= 8 {
            Some(Power::PeekOwnCard)
        } else if n <= 10 {
            Some(Power::PeekOtherCard)
        } else if n <= 12 {
            Some(Power::BlindSwap)
        } else if n == 13 {
            Some(Power::CheckAndSwapStage1)
        } else {
            None
        },
    }
}

/// Law: the rank-to-power mapping is total and deterministic over the
/// 54-card identity set: ranks 1-6 and jokers grant no power, 7-8 peek an
/// own card, 9-10 peek another player's card, 11-12 blind-swap, and 13
/// starts the two-step check-and-swap.
pub proof fn lemma_match_power_total(c: Card)
    requires
        c.wf(),
    ensures
        c.spec_value() is None ==> power_of(c) is None,
        c.spec_value() matches Some(n) ==> {
            &&& (1 <= n <= 6 ==> power_of(c) is None)
            &&& (7 <= n <= 8 ==> power_of(c) == Some(Power::PeekOwnCard))
            &&& (9 <= n <= 10 ==> power_of(c) == Some(Power::PeekOtherCard))
            &&& (11 <= n <= 12 ==> power_of(c) == Some(Power::BlindSwap))
            &&& (n == 13 ==> power_of(c) == Some(Power::CheckAndSwapStage1))
        },
{
}

/// The room actor's whole mutable state.
#[verifier::ext_equal]
pub struct RoomServer {
    pub id: RoomId,
    pub players: Vec<Player>,
    pub deck: Deck,
    pub state: State,
    pub same_card_thrown: bool,
    pub current_player_idx: usize,
    pub turn_order: Vec<PlayerId>,
    pub crabul_player: Option<PlayerId>,
}

impl RoomServer {
    /// The structural invariant every handler assumes and preserves.
    pub open spec fn wf(self) -> bool {
        &&& self.players@.len() <= MAX_PLAYERS
        &&& unique_ids(self.players@)
        &&& self.turn_order@.len() <= MAX_PLAYERS
        &&& (self.state is NotStarted <==> self.turn_order@.len() == 0)
        &&& self.turn_order@.len() > 0 ==> {
            &&& self.current_player_idx < self.turn_order@.len()
            &&& self.players@.len() <= self.turn_order@.len()
        }
        &&& saved_state_wf(self.state)
        &&& self.state is NotStarted ==> self.current_player_idx == 0
        &&& self.state is NotStarted ==> forall|i: int|
            0 <= i < self.players@.len() ==> #[trigger] self.players@[i].cards@.len() == 0
    }

    /// The seat index whose turn comes next: the turn pointer advances
    /// modulo the current player count.
    pub open spec fn next_player_idx(self) -> int {
        ((self.current_player_idx + 1) as int) % (self.players@.len() as int)
    }

    /// The player whose turn comes next, read from the frozen turn order.
    pub open spec fn next_player(self) -> PlayerId {
        self.turn_order@[self.next_player_idx()]
    }

    /// Whether advancing the turn lands on the Crabul caller, which ends
    /// the game.
    pub open spec fn crabul_reached(self) -> bool {
        self.crabul_player == Some(self.next_player())
    }

    /// The room after a turn advance: interrupt flag cleared, pointer
    /// advanced, and either `Terminating` (Crabul caller reached) or the
    /// next player's `StartTurn`.
    pub open spec fn next_turn_state(self) -> RoomServer {
        RoomServer {
            same_card_thrown: false,
            current_player_idx: self.next_player_idx() as usize,
            state: if self.crabul_reached() {
                State::Terminating
            } else {
                State::StartTurn(self.next_player())
            },
            ..self
        }
    }

    /// The effects of a turn advance: the superseded turn timer goes away,
    /// then either the finalize countdown starts silently or the new turn
    /// is announced and timed.
    pub open spec fn next_turn_effects(self) -> Seq<Effect> {
        if self.crabul_reached() {
            seq![Effect::CancelTurnTimer, Effect::StartFinalizeTimer]
        } else {
            seq![
                Effect::CancelTurnTimer,
                Effect::ToAll(RoomEvent::PlayerTurn(self.next_player())),
                Effect::StartTurnTimer(self.next_player()),
            ]
        }
    }

    /// A fresh room: random identifier, shuffled full deck, nobody seated.
    pub fn new() -> (r: RoomServer)
        ensures
            r.wf(),
            r.players@.len() == 0,
            r.deck.cards@.to_multiset() == full_deck().to_multiset(),
            r.deck.cards@.len() == 54,
            r.deck.discard_pile@.len() == 0,
            r.state is NotStarted,
            !r.same_card_thrown,
            r.current_player_idx == 0,
            r.turn_order@.len() == 0,
            r.crabul_player is None,
    {
        RoomServer {
            id: random_u16(),
            players: Vec::new(),
            deck: Deck::new(),
            state: State::NotStarted,
            same_card_thrown: false,
            current_player_idx: 0,
            turn_order: Vec::new(),
            crabul_player: None,
        }
    }

    /// The seat index of a player identifier, if seated.
    pub fn find_player(&self, id: PlayerId) -> (r: Option<usize>)
        requires
            self.wf(),
        ensures
            match r {
                Some(i) => {
                    &&& 0 <= i < self.players@.len()
                    &&& self.players@[i as int].id == id
                    &&& has_player(self.players@, id)
                    &&& idx_of(self.players@, id) == i
                },
                None => !has_player(self.players@, id),
            },
    {
        let mut i: usize = 0;
        while i < self.players.len()
            invariant
                self.wf(),
                0 <= i <= self.players@.len(),
                forall|j: int| 0 <= j < i ==> self.players@[j].id != id,
            decreases self.players@.len() - i,
        {
            if self.players[i].id == id {
                proof {
                    lemma_idx_of_unique(self.players@, id, i as int);
                }
                return Some(i);
            }
            i += 1;
        }
        None
    }

    /// The pure rank-to-power table, as an executable function.
    pub fn match_power(&self, card: Card) -> (r: Option<Power>)
        ensures
            r == power_of(card),
    {
        match card {
            Card::Joker => None,
            Card::Clubs(n) | Card::Diamonds(n) | Card::Hearts(n) | Card::Spade(n) => if n < 7 {
                None
            } else if n <= 8 {
                Some(Power::PeekOwnCard)
            } else if n <= 10 {
                Some(Power::PeekOtherCard)
            } else if n <= 12 {
                Some(Power::BlindSwap)
            } else if n == 13 {
                Some(Power::CheckAndSwapStage1)
            } else {
                None
            },
        }
    }

    /// Advance the turn: cancel the superseded timer, clear the same-card
    /// flag, move the pointer, and either start the next turn or enter
    /// `Terminating` when the Crabul caller's turn has come back around.
    pub fn next_turn(&mut self, fx: &mut Vec<Effect>)
        requires
            old(self).wf(),
            old(self).players@.len() > 0,
            old(self).turn_order@.len() > 0,
        ensures
            final(self).wf(),
            *final(self) == old(self).next_turn_state(),
            final(fx)@ == old(fx)@ + old(self).next_turn_effects(),
    {
        fx.push(Effect::CancelTurnTimer);
        self.same_card_thrown = false;
        let idx = (self.current_player_idx + 1) % self.players.len();
        self.current_player_idx = idx;
        let current_player_id = self.turn_order[idx];

        let crabul_hit = match self.crabul_player {
            Some(cp) => cp == current_player_id,
            None => false,
        };
        if crabul_hit {
            fx.push(Effect::StartFinalizeTimer);
            self.state = State::Terminating;
            return;
        }

        self.state = State::StartTurn(current_player_id);
        fx.push(Effect::ToAll(RoomEvent::PlayerTurn(current_player_id)));
        fx.push(Effect::StartTurnTimer(current_player_id));
    }

    /// Seat a new player.  Only legal before the game starts, below the
    /// room limit, with a non-empty name nobody already uses.  The new
    /// player gets a random identifier; should that identifier already be
    /// seated, the newcomer takes over that seat.  Everybody, the newcomer
    /// included, is told who joined and the full roster.
    pub fn new_player(&mut self, name: PlayerName, fx: &mut Vec<Effect>) -> (r: Result<
        PlayerId,
        GameError,
    >)
        requires
            old(self).wf(),
        ensures
            final(self).wf(),
            !(old(self).state is NotStarted) ==> r == Err::<PlayerId, GameError>(
                GameError::OperationNotAllowedAtCurrentState,
            ) && *final(self) == *old(self) && final(fx)@ == old(fx)@,
            old(self).state is NotStarted && old(self).players@.len() >= MAX_PLAYERS ==> r
                == Err::<PlayerId, GameError>(GameError::TooManyPlayers)
                && *final(self) == *old(self) && final(fx)@ == old(fx)@,
            old(self).state is NotStarted && old(self).players@.len() < MAX_PLAYERS && name_taken(
                old(self).players@,
                name@,
            ) ==> r == Err::<PlayerId, GameError>(GameError::NameAlreadyExists) && *final(self)
                == *old(self) && final(fx)@ == old(fx)@,
            old(self).state is NotStarted && old(self).players@.len() < MAX_PLAYERS && !name_taken(
                old(self).players@,
                name@,
            ) && name@.len() == 0 ==> r == Err::<PlayerId, GameError>(GameError::EmptyName)
                && *final(self) == *old(self) && final(fx)@ == old(fx)@,
            old(self).state is NotStarted && old(self).players@.len() < MAX_PLAYERS && !name_taken(
                old(self).players@,
                name@,
            ) && name@.len() > 0 ==> {
                &&& r is Ok
                &&& {
                    let nid = r->Ok_0;
                    let i = if has_player(old(self).players@, nid) {
                        idx_of(old(self).players@, nid)
                    } else {
                        old(self).players@.len() as int
                    };
                    &&& final(self).players@.len() == if has_player(old(self).players@, nid) {
                        old(self).players@.len() as int
                    } else {
                        old(self).players@.len() + 1 as int
                    }
                    &&& forall|j: int|
                        0 <= j < final(self).players@.len() && j != i ==> final(self).players@[j]
                            == old(self).players@[j]
                    &&& freshly_joined(final(self).players@[i], nid, name)
                    &&& *final(self) == (RoomServer {
                        players: final(self).players,
                        ..*old(self)
                    })
                    &&& final(fx)@.len() == old(fx)@.len() + 1
                    &&& final(fx)@.subrange(0, old(fx)@.len() as int) == old(fx)@
                    &&& final(fx)@.last() matches Effect::ToAll(
                        RoomEvent::PlayerJoined {
                            room_id,
                            player_id,
                            player_name,
                            player_list,
                        },
                    ) && room_id == old(self).id && player_id == nid && player_name == name
                        && player_list@ == roster_of(final(self).players@)
                }
            },
    {
        match &self.state {
            State::NotStarted => {},
            _ => {
                return Err(GameError::OperationNotAllowedAtCurrentState);
            },
        }
        if self.players.len() >= MAX_PLAYERS {
            return Err(GameError::TooManyPlayers);
        }

        let mut i: usize = 0;
        let mut taken = false;
        while i < self.players.len()
            invariant
                0 <= i <= self.players@.len(),
                taken == name_taken(self.players@.subrange(0, i as int), name@),
            decreases self.players@.len() - i,
        {
            let same = self.players[i].name == name;
            proof {
                let sub0 = self.players@.subrange(0, i as int);
                let sub1 = self.players@.subrange(0, i + 1);
                assert(sub1 =~= sub0.push(self.players@[i as int]));
                if same {
                    assert(sub1[i as int].name@ == name@);
                    assert(name_taken(sub1, name@));
                } else if taken {
                    let w = choose|j: int| 0 <= j < sub0.len() && sub0[j].name@ == name@;
                    assert(sub1[w].name@ == name@);
                    assert(name_taken(sub1, name@));
                } else {
                    assert forall|j: int| 0 <= j < sub1.len() implies sub1[j].name@ != name@ by {
                        if j < i {
                            assert(sub1[j] == sub0[j]);
                        } else {
                            assert(sub1[j] == self.players@[i as int]);
                        }
                    }
                }
            }
            if same {
                taken = true;
            }
            i += 1;
        }
        proof {
            assert(self.players@.subrange(0, self.players@.len() as int) =~= self.players@);
        }
        if taken {
            return Err(GameError::NameAlreadyExists);
        }
        if name.as_str().is_empty() {
            return Err(GameError::EmptyName);
        }

        let nid = random_u16();
        let newcomer = Player { id: nid, name: name.clone(), cards: Vec::new(), ready: false };
        match self.find_player(nid) {
            Some(seat) => {
                self.players[seat] = newcomer;
            },
            None => {
                self.players.push(newcomer);
            },
        }

        let mut roster: Vec<(PlayerId, PlayerName)> = Vec::new();
        let mut k: usize = 0;
        while k < self.players.len()
            invariant
                0 <= k <= self.players@.len(),
                roster@ == roster_of(self.players@.subrange(0, k as int)),
            decreases self.players@.len() - k,
        {
            roster.push((self.players[k].id, self.players[k].name.clone()));
            proof {
                assert(self.players@.subrange(0, k + 1) =~= self.players@.subrange(
                    0,
                    k as int,
                ).push(self.players@[k as int]));
            }
            k += 1;
        }
        proof {
            assert(self.players@.subrange(0, self.players@.len() as int) =~= self.players@);
        }

        fx.push(Effect::ToAll(RoomEvent::PlayerJoined {
            room_id: self.id,
            player_id: nid,
            player_name: name,
            player_list: roster,
        }));
        Ok(nid)
    }

    /// Start the game: freeze the turn order from the current seating,
    /// deal four cards to everybody, enter the peeking phase, and show
    /// each player their first two cards privately.
    pub fn start_game(&mut self, fx: &mut Vec<Effect>) -> (r: Result<(), GameError>)
        requires
            old(self).wf(),
            old(self).state is NotStarted && old(self).players@.len() >= MIN_PLAYERS ==> old(
                self,
            ).deck.cards@.len() >= 4 * old(self).players@.len(),
        ensures
            final(self).wf(),
            !(old(self).state is NotStarted) ==> r == Err::<(), GameError>(
                GameError::OperationNotAllowedAtCurrentState,
            ) && *final(self) == *old(self) && final(fx)@ == old(fx)@,
            old(self).state is NotStarted && old(self).players@.len() < MIN_PLAYERS ==> r
                == Err::<(), GameError>(GameError::NotEnoughPlayers) && *final(self) == *old(self)
                && final(fx)@ == old(fx)@,
            old(self).state is NotStarted && old(self).players@.len() >= MIN_PLAYERS ==> {
                let deck0 = old(self).deck.cards@;
                let n = old(self).players@.len() as int;
                &&& r is Ok
                &&& final(self).state is PeekingPhase
                &&& final(self).turn_order@ == old(self).players@.map_values(|p: Player| p.id)
                &&& final(self).players@.len() == n
                &&& forall|i: int|
                    0 <= i < n ==> final(self).players@[i] == (Player {
                        cards: final(self).players@[i].cards,
                        ..old(self).players@[i]
                    })
                &&& forall|i: int|
                    0 <= i < n ==> #[trigger] final(self).players@[i].cards@ == dealt_hand(
                        deck0,
                        i,
                    )
                &&& final(self).deck.cards@ == deck0.subrange(0, deck0.len() - 4 * n)
                &&& final(self).deck.discard_pile@ == old(self).deck.discard_pile@
                &&& *final(self) == (RoomServer {
                    players: final(self).players,
                    deck: final(self).deck,
                    state: final(self).state,
                    turn_order: final(self).turn_order,
                    ..*old(self)
                })
                &&& final(fx)@ == old(fx)@ + Seq::new(
                    n as nat,
                    |i: int|
                        Effect::ToPlayer(
                            old(self).players@[i].id,
                            RoomEvent::PeekingPhaseStarted(
                                deck0[deck0.len() - 4 * i - 1],
                                deck0[deck0.len() - 4 * i - 2],
                            ),
                        ),
                ) + seq![Effect::StartPeekingTimer]
            },
    {
        match &self.state {
            State::NotStarted => {},
            _ => {
                return Err(GameError::OperationNotAllowedAtCurrentState);
            },
        }
        if self.players.len() < MIN_PLAYERS {
            return Err(GameError::NotEnoughPlayers);
        }

        let ghost players0 = self.players@;
        let ghost deck0 = self.deck.cards@;
        let ghost fx0 = fx@;

        let mut order: Vec<PlayerId> = Vec::new();
        let mut i: usize = 0;
        while i < self.players.len()
            invariant
                0 <= i <= self.players@.len(),
                *self == *old(self),
                self.players@ == players0,
                order@ == players0.subrange(0, i as int).map_values(|p: Player| p.id),
            decreases self.players@.len() - i,
        {
            order.push(self.players[i].id);
            proof {
                assert(players0.subrange(0, i + 1) =~= players0.subrange(0, i as int).push(
                    players0[i as int],
                ));
                assert(order@ =~= players0.subrange(0, i + 1).map_values(|p: Player| p.id));
            }
            i += 1;
        }
        proof {
            assert(players0.subrange(0, players0.len() as int) =~= players0);
        }
        self.turn_order = order;
        self.state = State::PeekingPhase;

        let n = self.players.len();
        let mut j: usize = 0;
        while j < n
            invariant
                0 <= j <= n,
                n == self.players@.len(),
                n == players0.len(),
                n >= MIN_PLAYERS,
                deck0.len() >= 4 * n,
                self.id == old(self).id,
                self.same_card_thrown == old(self).same_card_thrown,
                self.current_player_idx == old(self).current_player_idx,
                self.current_player_idx == 0,
                self.crabul_player == old(self).crabul_player,
                self.state is PeekingPhase,
                self.turn_order@ == players0.map_values(|p: Player| p.id),
                self.deck.cards@ == deck0.subrange(0, deck0.len() - 4 * j),
                self.deck.discard_pile@ == old(self).deck.discard_pile@,
                forall|k: int|
                    0 <= k < n ==> #[trigger] self.players@[k] == (Player {
                        cards: self.players@[k].cards,
                        ..players0[k]
                    }),
                forall|k: int|
                    j <= k < n ==> #[trigger] self.players@[k].cards@ == players0[k].cards@,
                forall|k: int| 0 <= k < n ==> players0[k].cards@.len() == 0,
                forall|k: int|
                    0 <= k < j ==> #[trigger] self.players@[k].cards@ == dealt_hand(deck0, k),
                fx@ == fx0 + Seq::new(
                    j as nat,
                    |k: int|
                        Effect::ToPlayer(
                            players0[k].id,
                            RoomEvent::PeekingPhaseStarted(
                                deck0[deck0.len() - 4 * k - 1],
                                deck0[deck0.len() - 4 * k - 2],
                            ),
                        ),
                ),
            decreases n - j,
        {
            let ghost pile_before = self.deck.cards@;
            let c1 = self.deck.draw();
            let c2 = self.deck.draw();
            let c3 = self.deck.draw();
            let c4 = self.deck.draw();
            proof {
                assert(pile_before.drop_last() =~= deck0.subrange(0, deck0.len() - 4 * j - 1));
                assert(pile_before.drop_last().drop_last() =~= deck0.subrange(
                    0,
                    deck0.len() - 4 * j - 2,
                ));
                assert(pile_before.drop_last().drop_last().drop_last() =~= deck0.subrange(
                    0,
                    deck0.len() - 4 * j - 3,
                ));
                assert(pile_before.drop_last().drop_last().drop_last().drop_last() =~= deck0
                    .subrange(0, deck0.len() - 4 * (j + 1)));
            }
            self.players[j].cards.push(c1);
            self.players[j].cards.push(c2);
            self.players[j].cards.push(c3);
            self.players[j].cards.push(c4);
            fx.push(Effect::ToPlayer(
                self.players[j].id,
                RoomEvent::PeekingPhaseStarted(c1, c2),
            ));
            proof {
                assert(self.players@[j as int].cards@ =~= dealt_hand(deck0, j as int));
                assert(fx@ =~= fx0 + Seq::new(
                    (j + 1) as nat,
                    |k: int|
                        Effect::ToPlayer(
                            players0[k].id,
                            RoomEvent::PeekingPhaseStarted(
                                deck0[deck0.len() - 4 * k - 1],
                                deck0[deck0.len() - 4 * k - 2],
                            ),
                        ),
                ));
            }
            j += 1;
        }
        fx.push(Effect::StartPeekingTimer);
        proof {
            assert(fx@ =~= old(fx)@ + Seq::new(
                n as nat,
                |i: int|
                    Effect::ToPlayer(
                        players0[i].id,
                        RoomEvent::PeekingPhaseStarted(
                            deck0[deck0.len() - 4 * i - 1],
                            deck0[deck0.len() - 4 * i - 2],
                        ),
                    ),
            ) + seq![Effect::StartPeekingTimer]);
            assert(self.turn_order@ =~= players0.map_values(|p: Player| p.id));
            assert(self.deck.cards@ =~= deck0.subrange(0, deck0.len() - 4 * (n as int)));
        }
        Ok(())
    }

    /// Record that a player has seen their cards during the peeking phase;
    /// once the last player is ready, ask the runtime to trigger the first
    /// turn.
    pub fn set_player_ready(&mut self, id: PlayerId, fx: &mut Vec<Effect>) -> (r: Result<
        (),
        GameError,
    >)
        requires
            old(self).wf(),
        ensures
            final(self).wf(),
            !(old(self).state is PeekingPhase) || !has_player(old(self).players@, id) ==> r
                == Err::<(), GameError>(GameError::OperationNotAllowedAtCurrentState)
                && *final(self) == *old(self) && final(fx)@ == old(fx)@,
            old(self).state is PeekingPhase && has_player(old(self).players@, id) ==> {
                let i = idx_of(old(self).players@, id);
                &&& r is Ok
                &&& final(self).players@ == old(self).players@.update(
                    i,
                    (Player { ready: true, ..old(self).players@[i] }),
                )
                &&& *final(self) == (RoomServer { players: final(self).players, ..*old(self) })
                &&& final(fx)@ == old(fx)@ + seq![Effect::ToAll(RoomEvent::PlayerIsReady(id))]
                    + if all_ready(final(self).players@) {
                    seq![Effect::EnqueueNextTurn]
                } else {
                    Seq::<Effect>::empty()
                }
            },
    {
        match &self.state {
            State::PeekingPhase => {},
            _ => {
                return Err(GameError::OperationNotAllowedAtCurrentState);
            },
        }
        let seat = match self.find_player(id) {
            Some(seat) => seat,
            None => {
                return Err(GameError::OperationNotAllowedAtCurrentState);
            },
        };
        self.players[seat].ready = true;
        fx.push(Effect::ToAll(RoomEvent::PlayerIsReady(id)));

        let mut everyone = true;
        let mut k: usize = 0;
        while k < self.players.len()
            invariant
                0 <= k <= self.players@.len(),
                everyone == forall|j: int| 0 <= j < k ==> #[trigger] self.players@[j].ready,
            decreases self.players@.len() - k,
        {
            if !self.players[k].ready {
                everyone = false;
            }
            k += 1;
        }
        if everyone {
            fx.push(Effect::EnqueueNextTurn);
        }
        Ok(())
    }

    /// Declare the final lap: legal once per game, only for the player
    /// whose turn has just started.  The game will terminate when the turn
    /// order comes back around to the caller.
    pub fn go_crabul(&mut self, id: PlayerId, fx: &mut Vec<Effect>) -> (r: Result<(), GameError>)
        requires
            old(self).wf(),
        ensures
            final(self).wf(),
            !(old(self).state matches State::StartTurn(p) && p == id)
                || old(self).crabul_player is Some || old(self).players@.len() == 0 ==> r
                == Err::<(), GameError>(GameError::OperationNotAllowedAtCurrentState)
                && *final(self) == *old(self) && final(fx)@ == old(fx)@,
            (old(self).state matches State::StartTurn(p) && p == id)
                && old(self).crabul_player is None && old(self).players@.len() > 0 ==> {
                let mid = RoomServer { crabul_player: Some(id), ..*old(self) };
                &&& r is Ok
                &&& *final(self) == mid.next_turn_state()
                &&& final(fx)@ == old(fx)@ + seq![Effect::ToAll(RoomEvent::PlayerWentCrabul(id))]
                    + mid.next_turn_effects()
            },
    {
        let held = match &self.state {
            State::StartTurn(p) => *p == id,
            _ => false,
        };
        if !held || self.crabul_player.is_some() || self.players.len() == 0 {
            return Err(GameError::OperationNotAllowedAtCurrentState);
        }
        self.crabul_player = Some(id);
        fx.push(Effect::ToAll(RoomEvent::PlayerWentCrabul(id)));
        self.next_turn(fx);
        Ok(())
    }

    /// Draw the turn's card: only the player whose turn has just started
    /// may draw.  Everybody learns that a card was drawn; only the drawer
    /// learns which.
    pub fn draw_card(&mut self, id: PlayerId, fx: &mut Vec<Effect>) -> (r: Result<(), GameError>)
        requires
            old(self).wf(),
            (old(self).state matches State::StartTurn(p) && p == id) ==> old(self).deck.total()
                >= 1,
        ensures
            final(self).wf(),
            !(old(self).state matches State::StartTurn(p) && p == id) ==> r == Err::<(),
                GameError,
            >(GameError::OperationNotAllowedAtCurrentState) && *final(self) == *old(self)
                && final(fx)@ == old(fx)@,
            (old(self).state matches State::StartTurn(p) && p == id) ==> {
                &&& r is Ok
                &&& final(self).state matches State::MiddleTurn(p2, c) && p2 == id && {
                    &&& Deck::draw_spec(old(self).deck, final(self).deck, c)
                    &&& *final(self) == (RoomServer {
                        deck: final(self).deck,
                        state: final(self).state,
                        ..*old(self)
                    })
                    &&& final(fx)@ == old(fx)@ + seq![
                        Effect::ToAll(RoomEvent::CardWasDrawn(id)),
                        Effect::ToPlayer(id, RoomEvent::DrawnCard(c)),
                    ]
                }
            },
    {
        let held = match &self.state {
            State::StartTurn(p) => *p == id,
            _ => false,
        };
        if !held {
            return Err(GameError::OperationNotAllowedAtCurrentState);
        }
        let card = self.deck.draw();
        self.state = State::MiddleTurn(id, card);
        fx.push(Effect::ToAll(RoomEvent::CardWasDrawn(id)));
        fx.push(Effect::ToPlayer(id, RoomEvent::DrawnCard(card)));
        Ok(())
    }

    /// Exchange one of `id1`'s cards with one of `id2`'s, sight unseen.
    /// Both seats and both indices are validated; nothing changes on
    /// rejection.
    fn swap_players_card(
        &mut self,
        id1: PlayerId,
        idx1: usize,
        id2: PlayerId,
        idx2: usize,
    ) -> (r: Result<(), GameError>)
        requires
            old(self).wf(),
        ensures
            final(self).wf(),
            r is Err ==> *final(self) == *old(self),
            !has_player(old(self).players@, id1) || !has_player(old(self).players@, id2) ==> r
                == Err::<(), GameError>(GameError::OperationNotAllowedAtCurrentState),
            has_player(old(self).players@, id1) && has_player(old(self).players@, id2) && (idx1
                >= old(self).players@[idx_of(old(self).players@, id1)].cards@.len() || idx2 >= old(self).players@[idx_of(old(self).players@, id2)].cards@.len()) ==> r == Err::<(),
                GameError,
            >(GameError::InvalidCardIndex),
            has_player(old(self).players@, id1) && has_player(old(self).players@, id2) && idx1
                < old(self).players@[idx_of(old(self).players@, id1)].cards@.len() && idx2 < old(self).players@[idx_of(old(self).players@, id2)].cards@.len() ==> {
                &&& r is Ok
                &&& hands_swapped(
                    old(self).players@,
                    final(self).players@,
                    idx_of(old(self).players@, id1),
                    idx1 as int,
                    idx_of(old(self).players@, id2),
                    idx2 as int,
                )
                &&& *final(self) == (RoomServer { players: final(self).players, ..*old(self) })
            },
    {
        let i1 = match self.find_player(id1) {
            Some(i) => i,
            None => {
                return Err(GameError::OperationNotAllowedAtCurrentState);
            },
        };
        let i2 = match self.find_player(id2) {
            Some(i) => i,
            None => {
                return Err(GameError::OperationNotAllowedAtCurrentState);
            },
        };
        if idx1 >= self.players[i1].cards.len() || idx2 >= self.players[i2].cards.len() {
            return Err(GameError::InvalidCardIndex);
        }
        let c1 = self.players[i1].cards[idx1];
        let c2 = self.players[i2].cards[idx2];
        self.players[i1].cards[idx1] = c2;
        self.players[i2].cards[idx2] = c1;
        Ok(())
    }

    /// Exchange the drawn card with one of the drawer's own, then discard
    /// the displaced card and advance the turn.
    pub fn swap_card(&mut self, id: PlayerId, card_idx: usize, fx: &mut Vec<Effect>) -> (r: Result<
        (),
        GameError,
    >)
        requires
            old(self).wf(),
        ensures
            final(self).wf(),
            r is Err ==> *final(self) == *old(self) && final(fx)@ == old(fx)@,
            !(old(self).state matches State::MiddleTurn(p, c) && p == id) || !has_player(
                old(self).players@,
                id,
            ) ==> r == Err::<(), GameError>(GameError::OperationNotAllowedAtCurrentState),
            (old(self).state matches State::MiddleTurn(p, c) && p == id) && has_player(
                old(self).players@,
                id,
            ) && card_idx >= old(self).players@[idx_of(old(self).players@, id)].cards@.len() ==> r
                == Err::<(), GameError>(GameError::InvalidCardIndex),
            (old(self).state matches State::MiddleTurn(p, c) && p == id) && has_player(
                old(self).players@,
                id,
            ) && card_idx < old(self).players@[idx_of(old(self).players@, id)].cards@.len() ==> {
                let drawn = old(self).state->MiddleTurn_1;
                let i = idx_of(old(self).players@, id);
                let displaced = old(self).players@[i].cards@[card_idx as int];
                let mid = RoomServer {
                    players: final(self).players,
                    deck: final(self).deck,
                    ..*old(self)
                };
                &&& r is Ok
                &&& final(self).players@.len() == old(self).players@.len()
                &&& forall|j: int|
                    0 <= j < old(self).players@.len() && j != i ==> final(self).players@[j] == old(self).players@[j]
                &&& final(self).players@[i] == (Player {
                    cards: final(self).players@[i].cards,
                    ..old(self).players@[i]
                })
                &&& final(self).players@[i].cards@ == old(self).players@[i].cards@.update(
                    card_idx as int,
                    drawn,
                )
                &&& final(self).deck.cards@ == old(self).deck.cards@
                &&& final(self).deck.discard_pile@ == old(self).deck.discard_pile@.push(displaced)
                &&& *final(self) == mid.next_turn_state()
                &&& final(fx)@ == old(fx)@ + seq![
                    Effect::ToAll(RoomEvent::CardSwapped(id, card_idx)),
                    Effect::ToAll(RoomEvent::CardDiscarded(id, displaced)),
                ] + mid.next_turn_effects()
            },
    {
        let (held, drawn) = match &self.state {
            State::MiddleTurn(p, c) => (*p == id, *c),
            _ => (false, Card::Joker),
        };
        if !held {
            return Err(GameError::OperationNotAllowedAtCurrentState);
        }
        let i = match self.find_player(id) {
            Some(i) => i,
            None => {
                return Err(GameError::OperationNotAllowedAtCurrentState);
            },
        };
        if card_idx >= self.players[i].cards.len() {
            return Err(GameError::InvalidCardIndex);
        }
        let displaced = self.players[i].cards[card_idx];
        self.players[i].cards[card_idx] = drawn;
        self.deck.discard(displaced);
        fx.push(Effect::ToAll(RoomEvent::CardSwapped(id, card_idx)));
        fx.push(Effect::ToAll(RoomEvent::CardDiscarded(id, displaced)));
        self.next_turn(fx);
        Ok(())
    }

    /// Discard the drawn card as it is.  A power card activates its power
    /// (unless suppressed late in a two-player Crabul endgame, where it is
    /// announced as discarded); otherwise the turn advances.
    pub fn discard_card(&mut self, id: PlayerId, fx: &mut Vec<Effect>) -> (r: Result<
        (),
        GameError,
    >)
        requires
            old(self).wf(),
        ensures
            final(self).wf(),
            r is Err ==> *final(self) == *old(self) && final(fx)@ == old(fx)@,
            !(old(self).state matches State::MiddleTurn(p, c) && p == id) || old(self).players@.len() == 0 ==> r == Err::<(), GameError>(
                GameError::OperationNotAllowedAtCurrentState,
            ),
            (old(self).state matches State::MiddleTurn(p, c) && p == id)
                && old(self).players@.len() > 0 ==> {
                let drawn = old(self).state->MiddleTurn_1;
                let mid = RoomServer { deck: final(self).deck, ..*old(self) };
                &&& r is Ok
                &&& final(self).deck.cards@ == old(self).deck.cards@
                &&& final(self).deck.discard_pile@ == old(self).deck.discard_pile@.push(drawn)
                &&& match power_of(drawn) {
                    Some(power) => if old(self).crabul_player is Some && old(self).players@.len()
                        == 2 {
                        &&& *final(self) == mid.next_turn_state()
                        &&& final(fx)@ == old(fx)@ + seq![
                            Effect::ToAll(RoomEvent::CardDiscarded(id, drawn)),
                            Effect::ToAll(RoomEvent::PowerDiscarded(id, power)),
                        ] + mid.next_turn_effects()
                    } else {
                        &&& *final(self) == (RoomServer {
                            state: State::PowerStage(id, power),
                            ..mid
                        })
                        &&& final(fx)@ == old(fx)@ + seq![
                            Effect::ToAll(RoomEvent::CardDiscarded(id, drawn)),
                            Effect::ToAll(RoomEvent::PowerActivated(id, power)),
                        ]
                    },
                    None => {
                        &&& *final(self) == mid.next_turn_state()
                        &&& final(fx)@ == old(fx)@ + seq![
                            Effect::ToAll(RoomEvent::CardDiscarded(id, drawn)),
                        ] + mid.next_turn_effects()
                    },
                }
            },
    {
        let (held, drawn) = match &self.state {
            State::MiddleTurn(p, c) => (*p == id, *c),
            _ => (false, Card::Joker),
        };
        if !held || self.players.len() == 0 {
            return Err(GameError::OperationNotAllowedAtCurrentState);
        }
        self.deck.discard(drawn);
        fx.push(Effect::ToAll(RoomEvent::CardDiscarded(id, drawn)));

        match self.match_power(drawn) {
            Some(power) => {
                if self.crabul_player.is_some() && self.players.len() == 2 {
                    fx.push(Effect::ToAll(RoomEvent::PowerDiscarded(id, power)));
                    self.next_turn(fx);
                } else {
                    fx.push(Effect::ToAll(RoomEvent::PowerActivated(id, power)));
                    self.state = State::PowerStage(id, power);
                }
            },
            None => {
                self.next_turn(fx);
            },
        }
        Ok(())
    }

    /// Resolve a peek-own power: show the chosen own card to its owner
    /// alone, announce the power as used, and advance the turn.
    pub fn peek_own_card(&mut self, id: PlayerId, card_idx: usize, fx: &mut Vec<Effect>) -> (r:
        Result<(), GameError>)
        requires
            old(self).wf(),
        ensures
            final(self).wf(),
            r is Err ==> *final(self) == *old(self) && final(fx)@ == old(fx)@,
            !(old(self).state matches State::PowerStage(p, pw) && p == id && pw
                == Power::PeekOwnCard) || !has_player(old(self).players@, id) ==> r == Err::<(),
                GameError,
            >(GameError::OperationNotAllowedAtCurrentState),
            (old(self).state matches State::PowerStage(p, pw) && p == id && pw
                == Power::PeekOwnCard) && has_player(old(self).players@, id) && card_idx >= old(self).players@[idx_of(old(self).players@, id)].cards@.len() ==> r == Err::<(), GameError>(
                GameError::InvalidCardIndex,
            ),
            (old(self).state matches State::PowerStage(p, pw) && p == id && pw
                == Power::PeekOwnCard) && has_player(old(self).players@, id) && card_idx < old(self).players@[idx_of(old(self).players@, id)].cards@.len() ==> {
                let seen = old(self).players@[idx_of(old(self).players@, id)].cards@[card_idx as int];
                &&& r is Ok
                &&& *final(self) == old(self).next_turn_state()
                &&& final(fx)@ == old(fx)@ + seq![
                    Effect::ToPlayer(id, RoomEvent::PeekedCard(seen)),
                    Effect::ToAll(
                        RoomEvent::PowerUsed(Power::PeekOwnCard, id, Some(card_idx), None, None),
                    ),
                ] + old(self).next_turn_effects()
            },
    {
        let held = match &self.state {
            State::PowerStage(p, Power::PeekOwnCard) => *p == id,
            _ => false,
        };
        if !held {
            return Err(GameError::OperationNotAllowedAtCurrentState);
        }
        let i = match self.find_player(id) {
            Some(i) => i,
            None => {
                return Err(GameError::OperationNotAllowedAtCurrentState);
            },
        };
        if card_idx >= self.players[i].cards.len() {
            return Err(GameError::InvalidCardIndex);
        }
        let seen = self.players[i].cards[card_idx];
        fx.push(Effect::ToPlayer(id, RoomEvent::PeekedCard(seen)));
        fx.push(Effect::ToAll(RoomEvent::PowerUsed(Power::PeekOwnCard, id, Some(card_idx), None, None)));
        self.next_turn(fx);
        Ok(())
    }

    /// Resolve a peek-other power: show the chosen card of another player
    /// (never the Crabul caller) to the acting player alone, announce the
    /// power as used, and advance the turn.
    pub fn peek_other_card(
        &mut self,
        id: PlayerId,
        other_player_id: PlayerId,
        other_card_idx: usize,
        fx: &mut Vec<Effect>,
    ) -> (r: Result<(), GameError>)
        requires
            old(self).wf(),
        ensures
            final(self).wf(),
            r is Err ==> *final(self) == *old(self) && final(fx)@ == old(fx)@,
            !(old(self).state matches State::PowerStage(p, pw) && p == id && pw
                == Power::PeekOtherCard) || old(self).crabul_player == Some(other_player_id)
                || !has_player(old(self).players@, other_player_id) ==> r == Err::<(), GameError>(
                GameError::OperationNotAllowedAtCurrentState,
            ),
            (old(self).state matches State::PowerStage(p, pw) && p == id && pw
                == Power::PeekOtherCard) && old(self).crabul_player != Some(other_player_id)
                && has_player(old(self).players@, other_player_id) && other_card_idx >= old(self).players@[idx_of(old(self).players@, other_player_id)].cards@.len() ==> r == Err::<
                (),
                GameError,
            >(GameError::InvalidCardIndex),
            (old(self).state matches State::PowerStage(p, pw) && p == id && pw
                == Power::PeekOtherCard) && old(self).crabul_player != Some(other_player_id)
                && has_player(old(self).players@, other_player_id) && other_card_idx < old(self).players@[idx_of(old(self).players@, other_player_id)].cards@.len() ==> {
                let seen = old(self).players@[idx_of(old(self).players@, other_player_id)].cards@[other_card_idx as int];
                &&& r is Ok
                &&& *final(self) == old(self).next_turn_state()
                &&& final(fx)@ == old(fx)@ + seq![
                    Effect::ToPlayer(id, RoomEvent::PeekedCard(seen)),
                    Effect::ToAll(
                        RoomEvent::PowerUsed(
                            Power::PeekOtherCard,
                            id,
                            None,
                            Some(other_player_id),
                            Some(other_card_idx),
                        ),
                    ),
                ] + old(self).next_turn_effects()
            },
    {
        let held = match &self.state {
            State::PowerStage(p, Power::PeekOtherCard) => *p == id,
            _ => false,
        };
        if !held {
            return Err(GameError::OperationNotAllowedAtCurrentState);
        }
        if self.is_crabul_player(other_player_id) {
            return Err(GameError::OperationNotAllowedAtCurrentState);
        }
        let i = match self.find_player(other_player_id) {
            Some(i) => i,
            None => {
                return Err(GameError::OperationNotAllowedAtCurrentState);
            },
        };
        if other_card_idx >= self.players[i].cards.len() {
            return Err(GameError::InvalidCardIndex);
        }
        let seen = self.players[i].cards[other_card_idx];
        fx.push(Effect::ToPlayer(id, RoomEvent::PeekedCard(seen)));
        fx.push(Effect::ToAll(RoomEvent::PowerUsed(
            Power::PeekOtherCard,
            id,
            None,
            Some(other_player_id),
            Some(other_card_idx),
        )));
        self.next_turn(fx);
        Ok(())
    }

    /// Resolve a blind-swap power: exchange one of the acting player's
    /// cards with one of another player's (never the Crabul caller's),
    /// sight unseen, then advance the turn.
    pub fn blind_swap(
        &mut self,
        id: PlayerId,
        card_idx: usize,
        other_player_id: PlayerId,
        other_card_idx: usize,
        fx: &mut Vec<Effect>,
    ) -> (r: Result<(), GameError>)
        requires
            old(self).wf(),
        ensures
            final(self).wf(),
            r is Err ==> *final(self) == *old(self) && final(fx)@ == old(fx)@,
            !(old(self).state matches State::PowerStage(p, pw) && p == id && pw
                == Power::BlindSwap) || old(self).crabul_player == Some(other_player_id)
                || !has_player(old(self).players@, id) || !has_player(
                old(self).players@,
                other_player_id,
            ) ==> r == Err::<(), GameError>(GameError::OperationNotAllowedAtCurrentState),
            (old(self).state matches State::PowerStage(p, pw) && p == id && pw
                == Power::BlindSwap) && old(self).crabul_player != Some(other_player_id)
                && has_player(old(self).players@, id) && has_player(
                old(self).players@,
                other_player_id,
            ) && (card_idx >= old(self).players@[idx_of(old(self).players@, id)].cards@.len()
                || other_card_idx >= old(self).players@[idx_of(
                old(self).players@,
                other_player_id,
            )].cards@.len()) ==> r == Err::<(), GameError>(GameError::InvalidCardIndex),
            (old(self).state matches State::PowerStage(p, pw) && p == id && pw
                == Power::BlindSwap) && old(self).crabul_player != Some(other_player_id)
                && has_player(old(self).players@, id) && has_player(
                old(self).players@,
                other_player_id,
            ) && card_idx < old(self).players@[idx_of(old(self).players@, id)].cards@.len()
                && other_card_idx < old(self).players@[idx_of(
                old(self).players@,
                other_player_id,
            )].cards@.len() ==> {
                let mid = RoomServer { players: final(self).players, ..*old(self) };
                &&& r is Ok
                &&& hands_swapped(
                    old(self).players@,
                    final(self).players@,
                    idx_of(old(self).players@, id),
                    card_idx as int,
                    idx_of(old(self).players@, other_player_id),
                    other_card_idx as int,
                )
                &&& *final(self) == mid.next_turn_state()
                &&& final(fx)@ == old(fx)@ + seq![
                    Effect::ToAll(
                        RoomEvent::PowerUsed(
                            Power::BlindSwap,
                            id,
                            Some(card_idx),
                            Some(other_player_id),
                            Some(other_card_idx),
                        ),
                    ),
                ] + mid.next_turn_effects()
            },
    {
        let held = match &self.state {
            State::PowerStage(p, Power::BlindSwap) => *p == id,
            _ => false,
        };
        if !held {
            return Err(GameError::OperationNotAllowedAtCurrentState);
        }
        if self.is_crabul_player(other_player_id) {
            return Err(GameError::OperationNotAllowedAtCurrentState);
        }
        match self.swap_players_card(id, card_idx, other_player_id, other_card_idx) {
            Ok(()) => {},
            Err(e) => {
                return Err(e);
            },
        }
        fx.push(Effect::ToAll(RoomEvent::PowerUsed(
            Power::BlindSwap,
            id,
            Some(card_idx),
            Some(other_player_id),
            Some(other_card_idx),
        )));
        self.next_turn(fx);
        Ok(())
    }

    /// First step of check-and-swap: reveal the chosen card of another
    /// player (never the Crabul caller) to the acting player, then wait in
    /// the second stage for their decision.
    pub fn check_and_swap_stage1(
        &mut self,
        id: PlayerId,
        other_player_id: PlayerId,
        other_card_idx: usize,
        fx: &mut Vec<Effect>,
    ) -> (r: Result<(), GameError>)
        requires
            old(self).wf(),
        ensures
            final(self).wf(),
            r is Err ==> *final(self) == *old(self) && final(fx)@ == old(fx)@,
            !(old(self).state matches State::PowerStage(p, pw) && p == id && pw
                == Power::CheckAndSwapStage1) || old(self).crabul_player == Some(other_player_id)
                || !has_player(old(self).players@, other_player_id) ==> r == Err::<(), GameError>(
                GameError::OperationNotAllowedAtCurrentState,
            ),
            (old(self).state matches State::PowerStage(p, pw) && p == id && pw
                == Power::CheckAndSwapStage1) && old(self).crabul_player != Some(other_player_id)
                && has_player(old(self).players@, other_player_id) && other_card_idx >= old(self).players@[idx_of(old(self).players@, other_player_id)].cards@.len() ==> r == Err::<
                (),
                GameError,
            >(GameError::InvalidCardIndex),
            (old(self).state matches State::PowerStage(p, pw) && p == id && pw
                == Power::CheckAndSwapStage1) && old(self).crabul_player != Some(other_player_id)
                && has_player(old(self).players@, other_player_id) && other_card_idx < old(self).players@[idx_of(old(self).players@, other_player_id)].cards@.len() ==> {
                let seen = old(self).players@[idx_of(old(self).players@, other_player_id)].cards@[other_card_idx as int];
                &&& r is Ok
                &&& *final(self) == (RoomServer {
                    state: State::PowerStage(
                        id,
                        Power::CheckAndSwapStage2(other_player_id, other_card_idx),
                    ),
                    ..*old(self)
                })
                &&& final(fx)@ == old(fx)@ + seq![
                    Effect::ToPlayer(id, RoomEvent::PeekedCard(seen)),
                    Effect::ToAll(
                        RoomEvent::PowerUsed(
                            Power::CheckAndSwapStage1,
                            id,
                            None,
                            Some(other_player_id),
                            Some(other_card_idx),
                        ),
                    ),
                ]
            },
    {
        let held = match &self.state {
            State::PowerStage(p, Power::CheckAndSwapStage1) => *p == id,
            _ => false,
        };
        if !held {
            return Err(GameError::OperationNotAllowedAtCurrentState);
        }
        if self.is_crabul_player(other_player_id) {
            return Err(GameError::OperationNotAllowedAtCurrentState);
        }
        let i = match self.find_player(other_player_id) {
            Some(i) => i,
            None => {
                return Err(GameError::OperationNotAllowedAtCurrentState);
            },
        };
        if other_card_idx >= self.players[i].cards.len() {
            return Err(GameError::InvalidCardIndex);
        }
        let seen = self.players[i].cards[other_card_idx];
        fx.push(Effect::ToPlayer(id, RoomEvent::PeekedCard(seen)));
        fx.push(Effect::ToAll(RoomEvent::PowerUsed(
            Power::CheckAndSwapStage1,
            id,
            None,
            Some(other_player_id),
            Some(other_card_idx),
        )));
        self.state = State::PowerStage(
            id,
            Power::CheckAndSwapStage2(other_player_id, other_card_idx),
        );
        Ok(())
    }

    /// Second step of check-and-swap: either exchange an own card with the
    /// revealed one or decline; the turn advances either way.
    pub fn check_and_swap_stage2(
        &mut self,
        id: PlayerId,
        card_idx: Option<usize>,
        fx: &mut Vec<Effect>,
    ) -> (r: Result<(), GameError>)
        requires
            old(self).wf(),
        ensures
            final(self).wf(),
            r is Err ==> *final(self) == *old(self) && final(fx)@ == old(fx)@,
            !(old(self).state matches State::PowerStage(p, pw) && p == id && pw matches
                Power::CheckAndSwapStage2(o, oi)) ==> r == Err::<(), GameError>(
                GameError::OperationNotAllowedAtCurrentState,
            ),
            (old(self).state matches State::PowerStage(p, pw) && p == id && pw matches
                Power::CheckAndSwapStage2(o, oi)) ==> {
                let o = old(self).state->PowerStage_1->CheckAndSwapStage2_0;
                let oi = old(self).state->PowerStage_1->CheckAndSwapStage2_1;
                match card_idx {
                    None => if old(self).players@.len() == 0 {
                        r == Err::<(), GameError>(GameError::OperationNotAllowedAtCurrentState)
                    } else {
                        &&& r is Ok
                        &&& *final(self) == old(self).next_turn_state()
                        &&& final(fx)@ == old(fx)@ + seq![
                            Effect::ToAll(
                                RoomEvent::PowerUsed(
                                    Power::CheckAndSwapStage2(o, oi),
                                    id,
                                    None,
                                    Some(o),
                                    Some(oi),
                                ),
                            ),
                        ] + old(self).next_turn_effects()
                    },
                    Some(ci) => if !has_player(old(self).players@, id) || !has_player(
                        old(self).players@,
                        o,
                    ) {
                        r == Err::<(), GameError>(GameError::OperationNotAllowedAtCurrentState)
                    } else if ci >= old(self).players@[idx_of(old(self).players@, id)].cards@.len()
                        || oi >= old(self).players@[idx_of(old(self).players@, o)].cards@.len() {
                        r == Err::<(), GameError>(GameError::InvalidCardIndex)
                    } else {
                        let mid = RoomServer { players: final(self).players, ..*old(self) };
                        &&& r is Ok
                        &&& hands_swapped(
                            old(self).players@,
                            final(self).players@,
                            idx_of(old(self).players@, id),
                            ci as int,
                            idx_of(old(self).players@, o),
                            oi as int,
                        )
                        &&& *final(self) == mid.next_turn_state()
                        &&& final(fx)@ == old(fx)@ + seq![
                            Effect::ToAll(
                                RoomEvent::PowerUsed(
                                    Power::CheckAndSwapStage2(o, oi),
                                    id,
                                    Some(ci),
                                    Some(o),
                                    Some(oi),
                                ),
                            ),
                        ] + mid.next_turn_effects()
                    },
                }
            },
    {
        let (held, other_player_id, other_card_idx) = match &self.state {
            State::PowerStage(p, Power::CheckAndSwapStage2(o, oi)) => (*p == id, *o, *oi),
            _ => (false, 0u16, 0usize),
        };
        if !held {
            return Err(GameError::OperationNotAllowedAtCurrentState);
        }
        match card_idx {
            Some(ci) => {
                match self.swap_players_card(id, ci, other_player_id, other_card_idx) {
                    Ok(()) => {},
                    Err(e) => {
                        return Err(e);
                    },
                }
            },
            None => {
                if self.players.len() == 0 {
                    return Err(GameError::OperationNotAllowedAtCurrentState);
                }
            },
        }
        fx.push(Effect::ToAll(RoomEvent::PowerUsed(
            Power::CheckAndSwapStage2(other_player_id, other_card_idx),
            id,
            card_idx,
            Some(other_player_id),
            Some(other_card_idx),
        )));
        self.next_turn(fx);
        Ok(())
    }

    /// Whether the same-card interrupt may fire at all: any state of an
    /// active game, but not before it starts, not while peeking, and not
    /// after it has terminated.
    pub open spec fn interrupt_open(self) -> bool {
        match self.state {
            State::NotStarted | State::PeekingPhase | State::Terminated => false,
            _ => true,
        }
    }

    /// Everything `throw_same_card` does, as a relation between the room
    /// and effect list before and after the call.
    pub open spec fn throw_rel(
        pre: RoomServer,
        post: RoomServer,
        fxa: Seq<Effect>,
        fxb: Seq<Effect>,
        r: Result<(), GameError>,
        id: PlayerId,
        picked_player_id: PlayerId,
        picked_card_idx: usize,
    ) -> bool {
        &&& (r is Err ==> post == pre && fxb == fxa)
        &&& (!pre.interrupt_open() ==> r == Err::<(), GameError>(
            GameError::OperationNotAllowedAtCurrentState,
        ))
        &&& (pre.interrupt_open() && pre.same_card_thrown ==> {
            &&& r is Ok
            &&& post == pre
            &&& fxb =~= fxa + seq![
                Effect::ToAll(
                    RoomEvent::SameCardAttempt(
                        id,
                        picked_player_id,
                        picked_card_idx,
                        None,
                        SameCardResult::TooLate,
                    ),
                ),
            ]
        })
        &&& (pre.interrupt_open() && !pre.same_card_thrown && !has_player(
            pre.players@,
            picked_player_id,
        ) ==> r == Err::<(), GameError>(GameError::OperationNotAllowedAtCurrentState))
        &&& (pre.interrupt_open() && !pre.same_card_thrown && has_player(
            pre.players@,
            picked_player_id,
        ) && picked_card_idx >= pre.players@[idx_of(pre.players@, picked_player_id)].cards@.len()
            ==> r == Err::<(), GameError>(GameError::InvalidCardIndex))
        &&& (pre.interrupt_open() && !pre.same_card_thrown && has_player(
            pre.players@,
            picked_player_id,
        ) && picked_card_idx < pre.players@[idx_of(pre.players@, picked_player_id)].cards@.len()
            ==> {
            let ip = idx_of(pre.players@, picked_player_id);
            let chosen = pre.players@[ip].cards@[picked_card_idx as int];
            let pile = pre.deck.discard_pile@;
            let matched = pile.len() > 0 && chosen.spec_value() == pile.last().spec_value();
            if matched {
                &&& r is Ok
                &&& post.players@.len() == pre.players@.len()
                &&& forall|j: int|
                    0 <= j < pre.players@.len() && j != ip ==> post.players@[j] == pre.players@[j]
                &&& post.players@[ip] == (Player { cards: post.players@[ip].cards, ..pre.players@[ip] })
                &&& post.players@[ip].cards@ == pre.players@[ip].cards@.remove(
                    picked_card_idx as int,
                )
                &&& post.deck.cards@ == pre.deck.cards@
                &&& post.deck.discard_pile@ =~= pile.push(chosen)
                &&& post.same_card_thrown == true
                &&& if id == picked_player_id {
                    post.state == pre.state
                } else {
                    post.state matches State::PauseForSameCardThrow(a, b, c, saved) && a == id
                        && b == picked_player_id && c == picked_card_idx && saved == pre.state
                }
                &&& post == (RoomServer {
                    players: post.players,
                    deck: post.deck,
                    state: post.state,
                    same_card_thrown: true,
                    ..pre
                })
                &&& fxb =~= fxa + seq![
                    Effect::ToAll(
                        RoomEvent::SameCardAttempt(
                            id,
                            picked_player_id,
                            picked_card_idx,
                            Some(chosen),
                            SameCardResult::Success,
                        ),
                    ),
                ]
            } else if !has_player(pre.players@, id) {
                r == Err::<(), GameError>(GameError::OperationNotAllowedAtCurrentState)
            } else {
                let ic = idx_of(pre.players@, id);
                &&& r is Ok
                &&& post.players@.len() == pre.players@.len()
                &&& forall|j: int|
                    0 <= j < pre.players@.len() && j != ic ==> post.players@[j] == pre.players@[j]
                &&& post.players@[ic] == (Player { cards: post.players@[ic].cards, ..pre.players@[ic] })
                &&& post.players@[ic].cards@.len() == pre.players@[ic].cards@.len() + 1
                &&& post.players@[ic].cards@.drop_last() =~= pre.players@[ic].cards@
                &&& Deck::draw_spec(pre.deck, post.deck, post.players@[ic].cards@.last())
                &&& post == (RoomServer { players: post.players, deck: post.deck, ..pre })
                &&& fxb =~= fxa + seq![
                    Effect::ToAll(
                        RoomEvent::SameCardAttempt(
                            id,
                            picked_player_id,
                            picked_card_idx,
                            Some(chosen),
                            SameCardResult::NotTheSame,
                        ),
                    ),
                ]
            }
        })
    }

    /// Claim that a card in some player's hand (possibly one's own) has
    /// the same rank as the top of the discard pile.  Only the first claim
    /// per discard can succeed: a correct claim throws the card away and,
    /// against an opponent, suspends play until the claimant gives a card
    /// back; a wrong claim draws a penalty card; a late claim is only
    /// announced.
    pub fn throw_same_card(
        &mut self,
        id: PlayerId,
        picked_player_id: PlayerId,
        picked_card_idx: usize,
        fx: &mut Vec<Effect>,
    ) -> (r: Result<(), GameError>)
        requires
            old(self).wf(),
            old(self).interrupt_open() && !old(self).same_card_thrown ==> old(self).deck.total()
                >= 1,
        ensures
            final(self).wf(),
            RoomServer::throw_rel(
                *old(self),
                *final(self),
                old(fx)@,
                final(fx)@,
                r,
                id,
                picked_player_id,
                picked_card_idx,
            ),
    {
        let open = match &self.state {
            State::NotStarted | State::PeekingPhase | State::Terminated => false,
            _ => true,
        };
        if !open {
            return Err(GameError::OperationNotAllowedAtCurrentState);
        }
        if self.same_card_thrown {
            fx.push(Effect::ToAll(RoomEvent::SameCardAttempt(
                id,
                picked_player_id,
                picked_card_idx,
                None,
                SameCardResult::TooLate,
            )));
            return Ok(());
        }
        let ip = match self.find_player(picked_player_id) {
            Some(i) => i,
            None => {
                return Err(GameError::OperationNotAllowedAtCurrentState);
            },
        };
        if picked_card_idx >= self.players[ip].cards.len() {
            return Err(GameError::InvalidCardIndex);
        }
        let chosen = self.players[ip].cards[picked_card_idx];

        let matched = match self.deck.get_last_discarded() {
            Some(top) => match (chosen.get_value(), top.get_value()) {
                (Some(a), Some(b)) => a == b,
                (None, None) => true,
                _ => false,
            },
            None => false,
        };

        if matched {
            let card = self.players[ip].cards.remove(picked_card_idx);
            self.deck.discard(card);
            fx.push(Effect::ToAll(RoomEvent::SameCardAttempt(
                id,
                picked_player_id,
                picked_card_idx,
                Some(card),
                SameCardResult::Success,
            )));
            self.same_card_thrown = true;
            if id != picked_player_id {
                let mut saved = State::Terminated;
                core::mem::swap(&mut saved, &mut self.state);
                self.state = State::PauseForSameCardThrow(
                    id,
                    picked_player_id,
                    picked_card_idx,
                    Box::new(saved),
                );
            }
            return Ok(());
        }

        let ic = match self.find_player(id) {
            Some(i) => i,
            None => {
                return Err(GameError::OperationNotAllowedAtCurrentState);
            },
        };
        fx.push(Effect::ToAll(RoomEvent::SameCardAttempt(
            id,
            picked_player_id,
            picked_card_idx,
            Some(chosen),
            SameCardResult::NotTheSame,
        )));
        let penalty = self.deck.draw();
        self.players[ic].cards.push(penalty);
        Ok(())
    }

    /// After a successful claim against an opponent, the claimant hands
    /// one of their own cards over into the vacated position; the
    /// suspended game state then resumes exactly as it was.
    pub fn select_card_to_give_away(
        &mut self,
        id: PlayerId,
        card_idx: usize,
        fx: &mut Vec<Effect>,
    ) -> (r: Result<(), GameError>)
        requires
            old(self).wf(),
        ensures
            final(self).wf(),
            r is Err ==> *final(self) == *old(self) && final(fx)@ == old(fx)@,
            !(old(self).state matches State::PauseForSameCardThrow(a, b, c, s) && a == id) ==> r
                == Err::<(), GameError>(GameError::OperationNotAllowedAtCurrentState),
            (old(self).state matches State::PauseForSameCardThrow(a, b, c, s) && a == id) ==> {
                let b = old(self).state->PauseForSameCardThrow_1;
                let c = old(self).state->PauseForSameCardThrow_2;
                let saved = old(self).state->PauseForSameCardThrow_3;
                if !has_player(old(self).players@, id) {
                    r == Err::<(), GameError>(GameError::OperationNotAllowedAtCurrentState)
                } else if card_idx >= old(self).players@[idx_of(
                    old(self).players@,
                    id,
                )].cards@.len() {
                    r == Err::<(), GameError>(GameError::InvalidCardIndex)
                } else if !has_player(old(self).players@, b) {
                    r == Err::<(), GameError>(GameError::OperationNotAllowedAtCurrentState)
                } else {
                    let i = idx_of(old(self).players@, id);
                    let j = idx_of(old(self).players@, b);
                    let limit = if i == j {
                        old(self).players@[j].cards@.len() - 1
                    } else {
                        old(self).players@[j].cards@.len() as int
                    };
                    if c > limit {
                        r == Err::<(), GameError>(GameError::InvalidCardIndex)
                    } else {
                        let moved = old(self).players@[i].cards@[card_idx as int];
                        &&& r is Ok
                        &&& final(self).players@.len() == old(self).players@.len()
                        &&& forall|k: int|
                            0 <= k < old(self).players@.len() && k != i && k != j ==> final(self).players@[k] == old(self).players@[k]
                        &&& final(self).players@[i] == (Player {
                            cards: final(self).players@[i].cards,
                            ..old(self).players@[i]
                        })
                        &&& final(self).players@[j] == (Player {
                            cards: final(self).players@[j].cards,
                            ..old(self).players@[j]
                        })
                        &&& if i == j {
                            final(self).players@[i].cards@ == old(self).players@[i].cards@.remove(
                                card_idx as int,
                            ).insert(c as int, moved)
                        } else {
                            &&& final(self).players@[i].cards@ == old(self).players@[i].cards@.remove(card_idx as int)
                            &&& final(self).players@[j].cards@ == old(self).players@[j].cards@.insert(c as int, moved)
                        }
                        &&& final(self).state == saved
                        &&& *final(self) == (RoomServer {
                            players: final(self).players,
                            state: final(self).state,
                            ..*old(self)
                        })
                        &&& final(fx)@ == old(fx)@ + seq![
                            Effect::ToAll(RoomEvent::CardReplaced(id, card_idx, b, c)),
                        ]
                    }
                }
            },
    {
        let (held, other_player_id, other_card_idx) = match &self.state {
            State::PauseForSameCardThrow(a, b, c, _) => (*a == id, *b, *c),
            _ => (false, 0u16, 0usize),
        };
        if !held {
            return Err(GameError::OperationNotAllowedAtCurrentState);
        }
        let i = match self.find_player(id) {
            Some(i) => i,
            None => {
                return Err(GameError::OperationNotAllowedAtCurrentState);
            },
        };
        if card_idx >= self.players[i].cards.len() {
            return Err(GameError::InvalidCardIndex);
        }
        let j = match self.find_player(other_player_id) {
            Some(j) => j,
            None => {
                return Err(GameError::OperationNotAllowedAtCurrentState);
            },
        };
        let limit = if i == j {
            self.players[j].cards.len() - 1
        } else {
            self.players[j].cards.len()
        };
        if other_card_idx > limit {
            return Err(GameError::InvalidCardIndex);
        }

        let moved = self.players[i].cards.remove(card_idx);
        self.players[j].cards.insert(other_card_idx, moved);
        fx.push(Effect::ToAll(RoomEvent::CardReplaced(
            id,
            card_idx,
            other_player_id,
            other_card_idx,
        )));

        let mut resumed = State::Terminated;
        core::mem::swap(&mut resumed, &mut self.state);
        if let State::PauseForSameCardThrow(_, _, _, saved) = resumed {
            self.state = *saved;
        }
        Ok(())
    }

    /// Seat `j` can be hit by a forced blind swap on `id`'s behalf:
    /// someone else, not the Crabul caller, with a card to take.
    pub open spec fn blind_swap_eligible(self, id: PlayerId, j: int) -> bool {
        &&& 0 <= j < self.players@.len()
        &&& self.players@[j].id != id
        &&& self.crabul_player != Some(self.players@[j].id)
        &&& self.players@[j].cards@.len() > 0
    }

    /// A forfeited blind swap stays forfeited when no forced exchange is
    /// possible: the acting player is gone or empty-handed, or nobody is
    /// eligible to swap with.
    pub open spec fn blind_swap_forfeited(self, id: PlayerId) -> bool {
        ||| !has_player(self.players@, id)
        ||| self.players@[idx_of(self.players@, id)].cards@.len() == 0
        ||| forall|j: int| !self.blind_swap_eligible(id, j)
    }

    /// How a timed-out power resolves.  Peeks and check-and-swap are
    /// simply forfeited; a blind swap is executed against a random
    /// eligible opponent and random card positions on both sides, and is
    /// forfeited only when no such exchange is possible.
    pub open spec fn power_resolution(
        pre: RoomServer,
        post: RoomServer,
        id: PlayerId,
        power: Power,
        fx_pre: Seq<Effect>,
        fx_post: Seq<Effect>,
    ) -> bool {
        if power != Power::BlindSwap || pre.blind_swap_forfeited(id) {
            &&& post == pre
            &&& fx_post =~= fx_pre + seq![Effect::ToAll(RoomEvent::PowerDiscarded(id, power))]
        } else {
            exists|j: int, a: int, b: int|
                {
                    &&& pre.blind_swap_eligible(id, j)
                    &&& 0 <= a < pre.players@[idx_of(pre.players@, id)].cards@.len()
                    &&& 0 <= b < pre.players@[j].cards@.len()
                    &&& #[trigger] hands_swapped(
                        pre.players@,
                        post.players@,
                        idx_of(pre.players@, id),
                        a,
                        j,
                        b,
                    )
                    &&& post == (RoomServer { players: post.players, ..pre })
                    &&& fx_post =~= fx_pre + seq![
                        Effect::ToAll(
                            RoomEvent::ForcedBlindSwap(id, a as usize, pre.players@[j].id, b as usize),
                        ),
                    ]
                }
        }
    }

    /// Resolve a power the turn holder let time out: forfeit it, except
    /// that a blind swap is executed randomly against an eligible
    /// opponent.
    fn discard_power(&mut self, id: PlayerId, power: Power, fx: &mut Vec<Effect>)
        requires
            old(self).wf(),
        ensures
            final(self).wf(),
            RoomServer::power_resolution(
                *old(self),
                *final(self),
                id,
                power,
                old(fx)@,
                final(fx)@,
            ),
            final(self).players@.len() == old(self).players@.len(),
            final(self).turn_order@ == old(self).turn_order@,
            final(self).crabul_player == old(self).crabul_player,
            final(self).current_player_idx == old(self).current_player_idx,
            final(self).state == old(self).state,
            final(self).same_card_thrown == old(self).same_card_thrown,
            final(self).deck == old(self).deck,
    {
        let is_blind_swap = match power {
            Power::BlindSwap => true,
            _ => false,
        };
        if !is_blind_swap {
            fx.push(Effect::ToAll(RoomEvent::PowerDiscarded(id, power)));
            return ;
        }
        let ic = match self.find_player(id) {
            Some(i) => i,
            None => {
                fx.push(Effect::ToAll(RoomEvent::PowerDiscarded(id, power)));
                return ;
            },
        };
        if self.players[ic].cards.len() == 0 {
            fx.push(Effect::ToAll(RoomEvent::PowerDiscarded(id, power)));
            return ;
        }

        let mut eligible: Vec<usize> = Vec::new();
        let mut j: usize = 0;
        while j < self.players.len()
            invariant
                0 <= j <= self.players@.len(),
                self.wf(),
                forall|t: int|
                    0 <= t < eligible@.len() ==> self.blind_swap_eligible(
                        id,
                        #[trigger] eligible@[t] as int,
                    ),
                forall|k: int|
                    0 <= k < j && self.blind_swap_eligible(id, k) ==> eligible@.contains(
                        k as usize,
                    ),
            decreases self.players@.len() - j,
        {
            let p_id = self.players[j].id;
            let ghost el0 = eligible@;
            if p_id != id && !self.is_crabul_player(p_id) && self.players[j].cards.len() > 0 {
                eligible.push(j);
                proof {
                    assert(eligible@ == el0.push(j as usize));
                    assert forall|k: int| 0 <= k < j + 1 && self.blind_swap_eligible(id, k)
                        implies eligible@.contains(k as usize) by {
                        if k < j {
                            assert(el0.contains(k as usize));
                            let t = choose|t: int| 0 <= t < el0.len() && el0[t] == k as usize;
                            assert(eligible@[t] == k as usize);
                        } else {
                            assert(eligible@[eligible@.len() - 1] == k as usize);
                        }
                    }
                }
            }
            j += 1;
        }

        if eligible.len() == 0 {
            proof {
                assert forall|k: int| !self.blind_swap_eligible(id, k) by {
                    if 0 <= k < self.players@.len() && self.blind_swap_eligible(id, k) {
                        assert(eligible@.contains(k as usize));
                    }
                }
            }
            fx.push(Effect::ToAll(RoomEvent::PowerDiscarded(id, power)));
            return ;
        }

        let pick = random_below(eligible.len());
        let target = eligible[pick];
        let own_idx = random_below(self.players[ic].cards.len());
        let other_idx = random_below(self.players[target].cards.len());

        let c1 = self.players[ic].cards[own_idx];
        let c2 = self.players[target].cards[other_idx];
        self.players[ic].cards[own_idx] = c2;
        self.players[target].cards[other_idx] = c1;

        fx.push(Effect::ToAll(RoomEvent::ForcedBlindSwap(
            id,
            own_idx,
            self.players[target].id,
            other_idx,
        )));
        proof {
            let pre = *old(self);
            let jj = target as int;
            assert(pre.blind_swap_eligible(id, jj));
            assert(!pre.blind_swap_forfeited(id));
            assert(ic != target);
            assert(self.players@[ic as int].cards@ =~= pre.players@[ic as int].cards@.update(
                own_idx as int,
                c2,
            ));
            assert(self.players@[jj].cards@ =~= pre.players@[jj].cards@.update(
                other_idx as int,
                c1,
            ));
            assert(hands_swapped(
                pre.players@,
                self.players@,
                ic as int,
                own_idx as int,
                jj,
                other_idx as int,
            ));
            assert(fx@ =~= old(fx)@ + seq![
                Effect::ToAll(
                    RoomEvent::ForcedBlindSwap(id, own_idx, pre.players@[jj].id, other_idx),
                ),
            ]);
            assert(RoomServer::power_resolution(pre, *self, id, power, old(fx)@, fx@));
        }
    }

    /// How a drawn card is disposed of on a timeout: it is discarded, any
    /// power it grants is resolved by `power_resolution`, and the turn
    /// advances from the resulting intermediate room.
    pub open spec fn auto_discard_rel(
        pre: RoomServer,
        post: RoomServer,
        id: PlayerId,
        card: Card,
        fx_pre: Seq<Effect>,
        fx_post: Seq<Effect>,
    ) -> bool {
        exists|mid: RoomServer, fx_mid: Seq<Effect>|
            {
                &&& mid.wf()
                &&& mid.deck.cards@ == pre.deck.cards@
                &&& mid.deck.discard_pile@ == pre.deck.discard_pile@.push(card)
                &&& {
                    let d1 = RoomServer { deck: mid.deck, ..pre };
                    match power_of(card) {
                        Some(pw) => RoomServer::power_resolution(
                            d1,
                            mid,
                            id,
                            pw,
                            fx_pre + seq![Effect::ToAll(RoomEvent::CardDiscarded(id, card))],
                            fx_mid,
                        ),
                        None => mid == d1 && fx_mid =~= fx_pre + seq![
                            Effect::ToAll(RoomEvent::CardDiscarded(id, card)),
                        ],
                    }
                }
                &&& post == mid.next_turn_state()
                &&& fx_post =~= #[trigger] (fx_mid + mid.next_turn_effects())
            }
    }

    /// Discard a card on the turn holder's behalf after a timeout,
    /// resolving any power it grants, then advance the turn.
    fn auto_discard_drawn_card(&mut self, card: Card, id: PlayerId, fx: &mut Vec<Effect>)
        requires
            old(self).wf(),
            old(self).players@.len() > 0,
            old(self).turn_order@.len() > 0,
        ensures
            final(self).wf(),
            RoomServer::auto_discard_rel(
                *old(self),
                *final(self),
                id,
                card,
                old(fx)@,
                final(fx)@,
            ),
    {
        self.deck.discard(card);
        fx.push(Effect::ToAll(RoomEvent::CardDiscarded(id, card)));
        match self.match_power(card) {
            Some(power) => {
                self.discard_power(id, power, fx);
            },
            None => {},
        }
        let ghost mid = *self;
        let ghost fx_mid = fx@;
        self.next_turn(fx);
        proof {
            assert(mid.wf());
            assert(RoomServer::auto_discard_rel(
                *old(self),
                *self,
                id,
                card,
                old(fx)@,
                fx@,
            )) by {
                assert(mid.deck.cards@ == old(self).deck.cards@);
                assert(mid.deck.discard_pile@ == old(self).deck.discard_pile@.push(card));
                assert(fx@ =~= fx_mid + mid.next_turn_effects());
            }
        }
    }

    /// The turn timer fired: if it still belongs to the current turn
    /// holder, push the turn forward — auto-draw and auto-discard in
    /// `StartTurn`, auto-discard in `MiddleTurn`, resolve the power in
    /// `PowerStage` — or merely re-arm the timer while an interrupt pause
    /// holds the turn open.  A stale timer does nothing.
    pub fn force_end_turn(&mut self, id: PlayerId, fx: &mut Vec<Effect>)
        requires
            old(self).wf(),
            old(self).turn_order@.len() > 0,
            old(self).players@.len() > 0,
            old(self).turn_order@[old(self).current_player_idx as int] == id && old(
                self,
            ).state is StartTurn ==> old(self).deck.total() >= 1,
        ensures
            final(self).wf(),
            old(self).turn_order@[old(self).current_player_idx as int] != id ==> *final(self)
                == *old(self) && final(fx)@ == old(fx)@,
            old(self).turn_order@[old(self).current_player_idx as int] == id ==> match old(
                self,
            ).state {
                State::NotStarted | State::PeekingPhase | State::Terminating
                | State::Terminated => *final(self) == *old(self) && final(fx)@ == old(fx)@,
                State::StartTurn(_) => exists|c: Card, dmid: RoomServer|
                    {
                        &&& #[trigger] Deck::draw_spec(old(self).deck, dmid.deck, c)
                        &&& dmid == (RoomServer { deck: dmid.deck, ..*old(self) })
                        &&& RoomServer::auto_discard_rel(
                            dmid,
                            *final(self),
                            id,
                            c,
                            old(fx)@ + seq![
                                Effect::ToAll(RoomEvent::TurnEndedByTimeout(id)),
                                Effect::ToAll(RoomEvent::CardWasDrawn(id)),
                            ],
                            final(fx)@,
                        )
                    },
                State::MiddleTurn(_, card) => RoomServer::auto_discard_rel(
                    *old(self),
                    *final(self),
                    id,
                    card,
                    old(fx)@ + seq![Effect::ToAll(RoomEvent::TurnEndedByTimeout(id))],
                    final(fx)@,
                ),
                State::PowerStage(_, power) => exists|mid: RoomServer, fx_mid: Seq<Effect>|
                    {
                        &&& mid.wf()
                        &&& RoomServer::power_resolution(
                            *old(self),
                            mid,
                            id,
                            power,
                            old(fx)@ + seq![Effect::ToAll(RoomEvent::TurnEndedByTimeout(id))],
                            fx_mid,
                        )
                        &&& *final(self) == mid.next_turn_state()
                        &&& final(fx)@ =~= #[trigger] (fx_mid + mid.next_turn_effects())
                    },
                State::PauseForSameCardThrow(_, _, _, _) => *final(self) == *old(self)
                    && final(fx)@ == old(fx)@ + seq![Effect::StartTurnTimer(id)],
            },
    {
        if self.turn_order[self.current_player_idx] != id {
            return ;
        }
        match &self.state {
            State::NotStarted | State::PeekingPhase | State::Terminating | State::Terminated => {},
            State::StartTurn(_) => {
                fx.push(Effect::ToAll(RoomEvent::TurnEndedByTimeout(id)));
                let card = self.deck.draw();
                fx.push(Effect::ToAll(RoomEvent::CardWasDrawn(id)));
                let ghost dmid = *self;
                self.auto_discard_drawn_card(card, id, fx);
                proof {
                    assert(Deck::draw_spec(old(self).deck, dmid.deck, card));
                    assert(dmid == (RoomServer { deck: dmid.deck, ..*old(self) }));
                }
            },
            State::MiddleTurn(_, card) => {
                let card = *card;
                fx.push(Effect::ToAll(RoomEvent::TurnEndedByTimeout(id)));
                self.auto_discard_drawn_card(card, id, fx);
            },
            State::PowerStage(_, power) => {
                let power = *power;
                fx.push(Effect::ToAll(RoomEvent::TurnEndedByTimeout(id)));
                self.discard_power(id, power, fx);
                let ghost mid = *self;
                let ghost fx_mid = fx@;
                self.next_turn(fx);
                proof {
                    assert(mid.wf());
                    assert(fx@ =~= fx_mid + mid.next_turn_effects());
                }
            },
            State::PauseForSameCardThrow(_, _, _, _) => {
                fx.push(Effect::StartTurnTimer(id));
            },
        }
    }

    /// Every seat's closing entry: identifier, hand, and hand score, in
    /// seating order.
    pub open spec fn closing_entries(players: Seq<Player>) -> Seq<(PlayerId, Seq<Card>, int)> {
        players.map_values(|p: Player| (p.id, p.cards@, spec_hand_score(p.cards@)))
    }

    /// End the game after the finalize countdown: score every hand, rank
    /// the players ascending, pick the winner — lowest score, with a tie
    /// between the two lowest broken against the Crabul caller — then
    /// broadcast the result and shut the room down.
    pub fn finalize_game(&mut self, fx: &mut Vec<Effect>)
        requires
            old(self).wf(),
            old(self).state is Terminating,
            old(self).crabul_player is Some,
            old(self).players@.len() >= 2,
            forall|i: int|
                0 <= i < old(self).players@.len() ==> #[trigger] old(
                    self,
                ).players@[i].cards@.len() <= 0x1000_0000,
        ensures
            final(self).wf(),
            *final(self) == (RoomServer { state: State::Terminated, ..*old(self) }),
            final(fx)@.len() == old(fx)@.len() + 2,
            final(fx)@.subrange(0, old(fx)@.len() as int) == old(fx)@,
            final(fx)@.last() == Effect::StopRoom,
            final(fx)@[old(fx)@.len() as int] matches Effect::ToAll(
                RoomEvent::GameTerminated(fs),
            ) && {
                &&& fs.scores@.len() == old(self).players@.len()
                &&& entries_view(fs.scores@).to_multiset() == RoomServer::closing_entries(
                    old(self).players@,
                ).to_multiset()
                &&& scores_sorted(fs.scores@)
                &&& forall|k: int|
                    0 <= k < fs.scores@.len() ==> #[trigger] fs.scores@[k].total_score as int
                        == spec_hand_score(fs.scores@[k].cards@)
                &&& fs.winner == if fs.scores@[0].total_score == fs.scores@[1].total_score
                    && fs.scores@[0].player_id == old(self).crabul_player->0 {
                    fs.scores@[1].player_id
                } else {
                    fs.scores@[0].player_id
                }
            },
    {
        let ghost players0 = self.players@;
        let mut entries: Vec<Score> = Vec::new();
        let mut i: usize = 0;
        while i < self.players.len()
            invariant
                0 <= i <= self.players@.len(),
                *self == *old(self),
                self.players@ == players0,
                forall|k: int|
                    0 <= k < players0.len() ==> #[trigger] players0[k].cards@.len() <= 0x1000_0000,
                entries_view(entries@) == RoomServer::closing_entries(players0.subrange(
                    0,
                    i as int,
                )),
            decreases self.players@.len() - i,
        {
            let cards = copy_cards(&self.players[i].cards);
            let total = hand_score(&self.players[i].cards);
            let ghost e0 = entries@;
            let entry = Score { player_id: self.players[i].id, cards, total_score: total };
            proof {
                assert(score_entry(entry) == (players0[i as int].id, players0[i as int].cards@, spec_hand_score(
                    players0[i as int].cards@,
                )));
            }
            entries.push(entry);
            proof {
                assert(entries_view(entries@) =~= entries_view(e0).push(score_entry(entry)));
                assert(players0.subrange(0, i + 1) =~= players0.subrange(0, i as int).push(
                    players0[i as int],
                ));
                assert(RoomServer::closing_entries(players0.subrange(0, i + 1))
                    =~= RoomServer::closing_entries(players0.subrange(0, i as int)).push(
                    (players0[i as int].id, players0[i as int].cards@, spec_hand_score(
                        players0[i as int].cards@,
                    )),
                ));
                assert(entries_view(entries@) =~= RoomServer::closing_entries(players0.subrange(
                    0,
                    i + 1,
                )));
            }
            i += 1;
        }
        proof {
            assert(players0.subrange(0, players0.len() as int) =~= players0);
        }

        let sorted = sort_scores(entries);
        proof {
            broadcast use vstd::seq_lib::group_to_multiset_ensures;

            assert forall|k: int| 0 <= k < sorted@.len() implies #[trigger] sorted@[k].total_score
                as int == spec_hand_score(sorted@[k].cards@) by {
                let e = score_entry(sorted@[k]);
                assert(entries_view(sorted@)[k] == e);
                assert(entries_view(sorted@).contains(e));
                assert(entries_view(sorted@).to_multiset().count(e) > 0);
                assert(RoomServer::closing_entries(players0).to_multiset().count(e) > 0);
                assert(RoomServer::closing_entries(players0).contains(e));
                let j = choose|j: int|
                    0 <= j < RoomServer::closing_entries(players0).len()
                        && RoomServer::closing_entries(players0)[j] == e;
                assert(RoomServer::closing_entries(players0)[j] == e);
            }
        }

        let crabul_id = match self.crabul_player {
            Some(c) => c,
            None => {
                proof {
                    assert(false);
                }
                0
            },
        };
        let winner = if sorted[0].total_score == sorted[1].total_score && sorted[0].player_id
            == crabul_id {
            sorted[1].player_id
        } else {
            sorted[0].player_id
        };

        self.state = State::Terminated;
        fx.push(Effect::ToAll(RoomEvent::GameTerminated(FinalScore { winner, scores: sorted })));
        fx.push(Effect::StopRoom);
    }

    /// Whether this identifier belongs to the Crabul caller.
    fn is_crabul_player(&self, id: PlayerId) -> (r: bool)
        ensures
            r == (self.crabul_player == Some(id)),
    {
        match self.crabul_player {
            Some(cp) => cp == id,
            None => false,
        }
    }

    /// Unseat a player, in any phase.  An emptied room asks the runtime to
    /// shut it down; otherwise the remaining players learn who left.  The
    /// frozen turn order is deliberately left alone.
    pub fn remove_player(&mut self, id: PlayerId, fx: &mut Vec<Effect>)
        requires
            old(self).wf(),
        ensures
            final(self).wf(),
            final(self).players@ == if has_player(old(self).players@, id) {
                old(self).players@.remove(idx_of(old(self).players@, id))
            } else {
                old(self).players@
            },
            *final(self) == (RoomServer { players: final(self).players, ..*old(self) }),
            final(fx)@ == old(fx)@ + if final(self).players@.len() == 0 {
                seq![Effect::StopRoom]
            } else {
                seq![Effect::ToAll(RoomEvent::PlayerLeft(id))]
            },
    {
        match self.find_player(id) {
            Some(seat) => {
                self.players.remove(seat);
            },
            None => {},
        }
        if self.players.len() == 0 {
            fx.push(Effect::StopRoom);
        } else {
            fx.push(Effect::ToAll(RoomEvent::PlayerLeft(id)));
        }
    }
}

/// The effects appended by one call contain a same-card attempt that was
/// judged a success.
pub open spec fn claim_succeeded(fxa: Seq<Effect>, fxb: Seq<Effect>) -> bool {
    exists|k: int|
        {
            &&& fxa.len() <= k < fxb.len()
            &&& (#[trigger] fxb[k]) matches Effect::ToAll(
                RoomEvent::SameCardAttempt(t, p, i, c, res),
            )
            &&& res == SameCardResult::Success
        }
}

/// Law: at most one same-card claim can succeed per discard.  If one call
/// of `throw_same_card` reports a success, then until the next turn clears
/// the flag, any further claim — whoever makes it, whatever it names — is
/// answered `TooLate`, changes nothing, and reports no success.
pub proof fn lemma_one_claim_per_discard(
    pre: RoomServer,
    mid: RoomServer,
    post: RoomServer,
    fx0: Seq<Effect>,
    fx1: Seq<Effect>,
    fx2: Seq<Effect>,
    r1: Result<(), GameError>,
    r2: Result<(), GameError>,
    id1: PlayerId,
    picked1: PlayerId,
    idx1: usize,
    id2: PlayerId,
    picked2: PlayerId,
    idx2: usize,
)
    requires
        pre.wf(),
        RoomServer::throw_rel(pre, mid, fx0, fx1, r1, id1, picked1, idx1),
        claim_succeeded(fx0, fx1),
        RoomServer::throw_rel(mid, post, fx1, fx2, r2, id2, picked2, idx2),
    ensures
        mid.same_card_thrown,
        r2 is Ok,
        post == mid,
        fx2 =~= fx1 + seq![
            Effect::ToAll(
                RoomEvent::SameCardAttempt(id2, picked2, idx2, None, SameCardResult::TooLate),
            ),
        ],
        !claim_succeeded(fx1, fx2),
{
    let k = choose|k: int|
        {
            &&& fx0.len() <= k < fx1.len()
            &&& (#[trigger] fx1[k]) matches Effect::ToAll(
                RoomEvent::SameCardAttempt(t, p, i, c, res),
            )
            &&& res == SameCardResult::Success
        };

    // Pin down which branch the first call took: only the matched branch
    // appends a success event.
    if !pre.interrupt_open() {
        assert(fx1 == fx0);
        assert(false);
    }
    if pre.same_card_thrown {
        assert(fx1[k] == Effect::ToAll(
            RoomEvent::SameCardAttempt(id1, picked1, idx1, None, SameCardResult::TooLate),
        ));
        assert(false);
    }
    if r1 is Err {
        assert(fx1 == fx0);
        assert(false);
    }
    let ip = idx_of(pre.players@, picked1);
    assert(has_player(pre.players@, picked1) && idx1 < pre.players@[ip].cards@.len()) by {
        if !has_player(pre.players@, picked1) || idx1 >= pre.players@[ip].cards@.len() {
            assert(r1 is Err);
        }
    }
    let chosen = pre.players@[ip].cards@[idx1 as int];
    let pile = pre.deck.discard_pile@;
    if !(pile.len() > 0 && chosen.spec_value() == pile.last().spec_value()) {
        assert(fx1[k] == Effect::ToAll(
            RoomEvent::SameCardAttempt(id1, picked1, idx1, Some(chosen), SameCardResult::NotTheSame),
        ));
        assert(false);
    }
    assert(mid.same_card_thrown);
    assert(mid.interrupt_open()) by {
        if id1 == picked1 {
            assert(mid.state == pre.state);
        }
    }

    // The second call therefore takes the too-late branch.
    assert(r2 is Ok && post == mid);
    assert(fx2 =~= fx1 + seq![
        Effect::ToAll(
            RoomEvent::SameCardAttempt(id2, picked2, idx2, None, SameCardResult::TooLate),
        ),
    ]);
    assert(!claim_succeeded(fx1, fx2)) by {
        if claim_succeeded(fx1, fx2) {
            let m = choose|m: int|
                {
                    &&& fx1.len() <= m < fx2.len()
                    &&& (#[trigger] fx2[m]) matches Effect::ToAll(
                        RoomEvent::SameCardAttempt(t, p, i, c, res),
                    )
                    &&& res == SameCardResult::Success
                };
            assert(fx2[m] == Effect::ToAll(
                RoomEvent::SameCardAttempt(id2, picked2, idx2, None, SameCardResult::TooLate),
            ));
        }
    }
}

/// Law: the turn order is frozen when the game starts and a later
/// departure never rewrites it; only the wraparound of the turn pointer is
/// recomputed against the shrunken player count.
pub proof fn lemma_departure_keeps_turn_order(
    pre: RoomServer,
    post: RoomServer,
    removed_seat: int,
)
    requires
        pre.wf(),
        0 <= removed_seat < pre.players@.len(),
        pre.players@.len() > 1,
        post.players@ == pre.players@.remove(removed_seat),
        post == (RoomServer { players: post.players, ..pre }),
    ensures
        post.turn_order@ == pre.turn_order@,
        post.next_player_idx() == ((pre.current_player_idx + 1) as int) % (pre.players@.len()
            - 1),
        post.next_player() == pre.turn_order@[((pre.current_player_idx + 1) as int) % (
        pre.players@.len() - 1)],
{
}

} // verus!
