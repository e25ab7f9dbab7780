use crabul::deck::{testing_deck, Card, Deck};
use crabul::errors::GameError;
use crabul::events::{Effect, Power, RoomEvent, SameCardResult};
use crabul::room::{Player, RoomServer, State};

fn seated(id: u16, name: &str, cards: Vec<Card>) -> Player {
    Player { id, name: name.to_string(), cards, ready: true, }
}

/// A running game with `n` players (ids 0..n, seated in id order), in the
/// given state.
fn game_room(n: u16, state: State, current_idx: usize, deck: Deck, crabul: Option<u16>) -> RoomServer {
    let mut players = Vec::new();
    let mut order = Vec::new();
    for i in 0..n {
        players.push(seated(i, &format!("p{i}"), vec![]));
        order.push(i);
    }
    RoomServer {
        id: 7,
        players,
        deck,
        state,
        same_card_thrown: false,
        current_player_idx: current_idx,
        turn_order: order,
        crabul_player: crabul,
    }
}

fn join_n(room: &mut RoomServer, n: u16) -> Vec<u16> {
    let mut ids = Vec::new();
    for i in 0..n {
        let mut fx: Vec<Effect> = Vec::new();
        ids.push(room.new_player(format!("name_{i}"), &mut fx).unwrap());
    }
    ids
}

#[test]
fn server_new_player() {
    let mut room = RoomServer::new();
    let mut fx: Vec<Effect> = Vec::new();
    let id = room.new_player("name_0".to_string(), &mut fx).unwrap();
    assert_eq!(fx.len(), 1);
    match &fx[0] {
        Effect::ToAll(RoomEvent::PlayerJoined { player_id, player_name, player_list, .. }) => {
            assert_eq!(*player_id, id);
            assert_eq!(player_name, "name_0");
            assert_eq!(player_list, &vec![(id, "name_0".to_string())]);
        }
        other => panic!("unexpected effect {other:?}"),
    }
}

#[test]
fn server_new_player_previous_player_should_receive_the_join_event() {
    let mut room = RoomServer::new();
    let mut fx: Vec<Effect> = Vec::new();
    let id0 = room.new_player("name_0".to_string(), &mut fx).unwrap();
    fx.clear();
    let id1 = room.new_player("name_1".to_string(), &mut fx).unwrap();
    // A broadcast effect reaches every seated player, the first one included.
    match &fx[0] {
        Effect::ToAll(RoomEvent::PlayerJoined { player_id, player_name, player_list, .. }) => {
            assert_eq!(*player_id, id1);
            assert_eq!(player_name, "name_1");
            assert_eq!(
                player_list,
                &vec![(id0, "name_0".to_string()), (id1, "name_1".to_string())]
            );
        }
        other => panic!("unexpected effect {other:?}"),
    }
}

#[test]
fn server_new_player_should_fail_when_name_exists() {
    let mut room = RoomServer::new();
    let mut fx: Vec<Effect> = Vec::new();
    room.new_player("name1".to_string(), &mut fx).unwrap();
    let res = room.new_player("name1".to_string(), &mut fx);
    assert!(matches!(res, Err(GameError::NameAlreadyExists)));
}

#[test]
fn new_player_should_fail_when_name_is_empty() {
    let mut room = RoomServer::new();
    let mut fx: Vec<Effect> = Vec::new();
    let res = room.new_player(String::new(), &mut fx);
    assert!(matches!(res, Err(GameError::EmptyName)));
}

#[test]
fn server_new_player_should_fail_when_there_are_too_many_players() {
    let mut room = RoomServer::new();
    join_n(&mut room, 6);
    let mut fx: Vec<Effect> = Vec::new();
    let res = room.new_player("name_7".to_string(), &mut fx);
    assert!(matches!(res, Err(GameError::TooManyPlayers)));
}

#[test]
fn server_remove_player() {
    let mut room = RoomServer::new();
    let ids = join_n(&mut room, 3);
    let mut fx: Vec<Effect> = Vec::new();
    room.remove_player(ids[2], &mut fx);
    assert_eq!(fx, vec![Effect::ToAll(RoomEvent::PlayerLeft(ids[2]))]);
    assert_eq!(room.players.len(), 2);
}

#[test]
fn room_terminate_when_no_players_left() {
    let mut room = RoomServer::new();
    let ids = join_n(&mut room, 2);
    let mut fx: Vec<Effect> = Vec::new();
    room.remove_player(ids[0], &mut fx);
    room.remove_player(ids[1], &mut fx);
    // Emptying the room asks the runtime to stop it instead of announcing.
    assert_eq!(fx.last(), Some(&Effect::StopRoom));
    assert!(room.players.is_empty());
}

#[test]
fn server_start_game_should_fail_when_not_enough_players() {
    let mut room = RoomServer::new();
    join_n(&mut room, 1);
    let mut fx: Vec<Effect> = Vec::new();
    assert!(matches!(
        room.start_game(&mut fx),
        Err(GameError::NotEnoughPlayers)
    ));
}

#[test]
fn start_game_succeeds_after_second_join() {
    let mut room = RoomServer::new();
    join_n(&mut room, 1);
    let mut fx: Vec<Effect> = Vec::new();
    assert!(matches!(
        room.start_game(&mut fx),
        Err(GameError::NotEnoughPlayers)
    ));
    room.new_player("name_1".to_string(), &mut fx).unwrap();
    fx.clear();
    assert!(room.start_game(&mut fx).is_ok());
    assert!(matches!(room.state, State::PeekingPhase));
}

#[test]
fn server_start_game() {
    let mut room = RoomServer::new();
    let ids = join_n(&mut room, 6);
    let mut fx: Vec<Effect> = Vec::new();
    room.start_game(&mut fx).unwrap();
    assert_eq!(fx.len(), 7);
    for (i, id) in ids.iter().enumerate() {
        match &fx[i] {
            Effect::ToPlayer(to, RoomEvent::PeekingPhaseStarted(c1, c2)) => {
                assert_eq!(to, id);
                let hand = &room.players[i].cards;
                assert_eq!(hand.len(), 4);
                assert_eq!((c1, c2), (&hand[0], &hand[1]));
            }
            other => panic!("unexpected effect {other:?}"),
        }
    }
    assert_eq!(fx[6], Effect::StartPeekingTimer);
    assert_eq!(room.turn_order, ids);
    assert_eq!(room.deck.cards.len(), 54 - 24);
}

#[test]
fn server_cannot_start_game_if_state_different_from_not_started() {
    let mut room = RoomServer::new();
    join_n(&mut room, 6);
    let mut fx: Vec<Effect> = Vec::new();
    room.start_game(&mut fx).unwrap();
    assert!(matches!(
        room.start_game(&mut fx),
        Err(GameError::OperationNotAllowedAtCurrentState)
    ));
}

#[test]
fn server_new_player_should_fail_when_game_started() {
    let mut room = RoomServer::new();
    join_n(&mut room, 6);
    let mut fx: Vec<Effect> = Vec::new();
    room.start_game(&mut fx).unwrap();
    assert!(matches!(
        room.new_player("test".to_string(), &mut fx),
        Err(GameError::OperationNotAllowedAtCurrentState)
    ));
}

#[test]
fn server_start_turn_when_everyone_is_ready() {
    let mut room = RoomServer::new();
    let ids = join_n(&mut room, 6);
    let mut fx: Vec<Effect> = Vec::new();
    room.start_game(&mut fx).unwrap();
    fx.clear();
    for (i, id) in ids.iter().enumerate() {
        room.set_player_ready(*id, &mut fx).unwrap();
        assert_eq!(fx[0], Effect::ToAll(RoomEvent::PlayerIsReady(*id)));
        if i + 1 < ids.len() {
            assert_eq!(fx.len(), 1);
        } else {
            // The last confirmation triggers the first turn.
            assert_eq!(fx[1], Effect::EnqueueNextTurn);
        }
        fx.clear();
    }
    room.next_turn(&mut fx);
    assert!(fx.iter().any(|e| matches!(e, Effect::ToAll(RoomEvent::PlayerTurn(_)))));
}

#[test]
fn server_cannot_set_ready_when_stage_is_not_peeking_phase() {
    let mut room = game_room(6, State::StartTurn(0), 0, Deck::new(), None);
    let mut fx: Vec<Effect> = Vec::new();
    assert!(matches!(
        room.set_player_ready(0, &mut fx),
        Err(GameError::OperationNotAllowedAtCurrentState)
    ));
}

#[test]
fn server_automatic_start_turn_after_timeout() {
    // The peeking countdown fires a next-turn command whether or not
    // everyone confirmed; the first turn then starts.
    let mut room = RoomServer::new();
    join_n(&mut room, 6);
    let mut fx: Vec<Effect> = Vec::new();
    room.start_game(&mut fx).unwrap();
    fx.clear();
    room.next_turn(&mut fx);
    let expect = room.turn_order[1];
    assert_eq!(
        fx,
        vec![
            Effect::CancelTurnTimer,
            Effect::ToAll(RoomEvent::PlayerTurn(expect)),
            Effect::StartTurnTimer(expect),
        ]
    );
    assert!(matches!(room.state, State::StartTurn(p) if p == expect));
}

#[test]
fn server_draw_card() {
    let mut room = game_room(6, State::StartTurn(0), 0, testing_deck(vec![Card::Spade(4)]), None);
    let mut fx: Vec<Effect> = Vec::new();
    room.draw_card(0, &mut fx).unwrap();
    assert_eq!(
        fx,
        vec![
            Effect::ToAll(RoomEvent::CardWasDrawn(0)),
            Effect::ToPlayer(0, RoomEvent::DrawnCard(Card::Spade(4))),
        ]
    );
    assert!(matches!(room.state, State::MiddleTurn(0, Card::Spade(4))));
}

#[test]
fn draw_card_rejected_when_not_turn_holder() {
    let mut room = game_room(6, State::StartTurn(0), 0, Deck::new(), None);
    let mut fx: Vec<Effect> = Vec::new();
    assert!(matches!(
        room.draw_card(3, &mut fx),
        Err(GameError::OperationNotAllowedAtCurrentState)
    ));
}

#[test]
fn server_swap_card() {
    let mut room = game_room(6, State::MiddleTurn(0, Card::Spade(4)), 0, Deck::new(), None);
    room.players[0].cards = vec![Card::Clubs(1), Card::Clubs(2), Card::Clubs(3), Card::Clubs(4)];
    let mut fx: Vec<Effect> = Vec::new();
    room.swap_card(0, 0, &mut fx).unwrap();
    assert_eq!(fx[0], Effect::ToAll(RoomEvent::CardSwapped(0, 0)));
    assert_eq!(fx[1], Effect::ToAll(RoomEvent::CardDiscarded(0, Card::Clubs(1))));
    assert_eq!(fx[3], Effect::ToAll(RoomEvent::PlayerTurn(1)));
    assert_eq!(room.players[0].cards[0], Card::Spade(4));
    assert_eq!(room.deck.discard_pile.last(), Some(&Card::Clubs(1)));
}

#[test]
fn swap_card_rejects_bad_index() {
    let mut room = game_room(6, State::MiddleTurn(0, Card::Spade(4)), 0, Deck::new(), None);
    room.players[0].cards = vec![Card::Clubs(1)];
    let mut fx: Vec<Effect> = Vec::new();
    assert!(matches!(
        room.swap_card(0, 5, &mut fx),
        Err(GameError::InvalidCardIndex)
    ));
}

#[test]
fn server_discard_card_normal_card() {
    let mut room = game_room(6, State::MiddleTurn(0, Card::Diamonds(1)), 0, Deck::new(), None);
    room.players[0].cards = vec![Card::Clubs(1), Card::Clubs(2), Card::Clubs(3), Card::Clubs(4)];
    let mut fx: Vec<Effect> = Vec::new();
    room.discard_card(0, &mut fx).unwrap();
    assert_eq!(fx[0], Effect::ToAll(RoomEvent::CardDiscarded(0, Card::Diamonds(1))));
    assert_eq!(fx[2], Effect::ToAll(RoomEvent::PlayerTurn(1)));
}

#[test]
fn server_discard_power() {
    let mut room = game_room(6, State::MiddleTurn(0, Card::Diamonds(7)), 0, Deck::new(), None);
    room.players[0].cards = vec![Card::Clubs(1), Card::Clubs(2), Card::Clubs(3), Card::Clubs(4)];
    let mut fx: Vec<Effect> = Vec::new();
    room.discard_card(0, &mut fx).unwrap();
    assert_eq!(fx[0], Effect::ToAll(RoomEvent::CardDiscarded(0, Card::Diamonds(7))));
    assert_eq!(
        fx[1],
        Effect::ToAll(RoomEvent::PowerActivated(0, Power::PeekOwnCard))
    );
    assert!(matches!(room.state, State::PowerStage(0, Power::PeekOwnCard)));
}

#[test]
fn power_suppressed_in_two_player_crabul_endgame() {
    let mut room = game_room(2, State::MiddleTurn(0, Card::Diamonds(7)), 0, Deck::new(), Some(1));
    let mut fx: Vec<Effect> = Vec::new();
    room.discard_card(0, &mut fx).unwrap();
    assert_eq!(
        fx[1],
        Effect::ToAll(RoomEvent::PowerDiscarded(0, Power::PeekOwnCard))
    );
    assert!(!matches!(room.state, State::PowerStage(_, _)));
}

#[test]
fn server_use_power_peek_own_card() {
    let cards = vec![Card::Clubs(1), Card::Clubs(2), Card::Clubs(3), Card::Clubs(4)];
    let mut room = game_room(6, State::PowerStage(0, Power::PeekOwnCard), 0, Deck::new(), None);
    room.players[0].cards = cards.clone();
    let mut fx: Vec<Effect> = Vec::new();
    room.peek_own_card(0, 3, &mut fx).unwrap();
    assert_eq!(fx[0], Effect::ToPlayer(0, RoomEvent::PeekedCard(cards[3])));
    assert_eq!(
        fx[1],
        Effect::ToAll(RoomEvent::PowerUsed(Power::PeekOwnCard, 0, Some(3), None, None))
    );
    assert_eq!(fx[3], Effect::ToAll(RoomEvent::PlayerTurn(1)));
}

#[test]
fn server_use_power_peek_other_card() {
    let cards = vec![Card::Clubs(1), Card::Clubs(2), Card::Clubs(3), Card::Clubs(4)];
    let mut room = game_room(6, State::PowerStage(1, Power::PeekOtherCard), 1, Deck::new(), None);
    room.players[0].cards = cards.clone();
    let mut fx: Vec<Effect> = Vec::new();
    room.peek_other_card(1, 0, 3, &mut fx).unwrap();
    assert_eq!(fx[0], Effect::ToPlayer(1, RoomEvent::PeekedCard(cards[3])));
    assert_eq!(
        fx[1],
        Effect::ToAll(RoomEvent::PowerUsed(Power::PeekOtherCard, 1, None, Some(0), Some(3)))
    );
    assert_eq!(fx[3], Effect::ToAll(RoomEvent::PlayerTurn(2)));
}

#[test]
fn server_use_power_blind_swap() {
    let cards_1 = vec![Card::Clubs(1), Card::Clubs(2), Card::Clubs(3), Card::Clubs(4)];
    let cards_2 = vec![Card::Diamonds(1), Card::Diamonds(2), Card::Diamonds(3), Card::Diamonds(4)];
    let mut room = game_room(6, State::PowerStage(0, Power::BlindSwap), 0, Deck::new(), None);
    room.players[0].cards = cards_1.clone();
    room.players[1].cards = cards_2.clone();
    let mut fx: Vec<Effect> = Vec::new();
    room.blind_swap(0, 2, 1, 3, &mut fx).unwrap();
    assert_eq!(
        fx[0],
        Effect::ToAll(RoomEvent::PowerUsed(Power::BlindSwap, 0, Some(2), Some(1), Some(3)))
    );
    assert_eq!(fx[2], Effect::ToAll(RoomEvent::PlayerTurn(1)));
    assert_eq!(room.players[0].cards[2], Card::Diamonds(4));
    assert_eq!(room.players[1].cards[3], Card::Clubs(3));
}

#[test]
fn use_power_check_and_swap_stage1() {
    let cards_2 = vec![Card::Diamonds(1), Card::Diamonds(2), Card::Diamonds(3), Card::Diamonds(4)];
    let mut room = game_room(6, State::PowerStage(0, Power::CheckAndSwapStage1), 0, Deck::new(), None);
    room.players[1].cards = cards_2.clone();
    let mut fx: Vec<Effect> = Vec::new();
    room.check_and_swap_stage1(0, 1, 3, &mut fx).unwrap();
    assert_eq!(fx[0], Effect::ToPlayer(0, RoomEvent::PeekedCard(cards_2[3])));
    assert_eq!(
        fx[1],
        Effect::ToAll(RoomEvent::PowerUsed(Power::CheckAndSwapStage1, 0, None, Some(1), Some(3)))
    );
    assert!(matches!(
        room.state,
        State::PowerStage(0, Power::CheckAndSwapStage2(1, 3))
    ));
}

#[test]
fn use_power_check_and_swap_decide_to_swap() {
    let cards_1 = vec![Card::Clubs(1), Card::Clubs(2), Card::Clubs(3), Card::Clubs(4)];
    let cards_2 = vec![Card::Diamonds(1), Card::Diamonds(2), Card::Diamonds(3), Card::Diamonds(4)];
    let mut room = game_room(
        6,
        State::PowerStage(0, Power::CheckAndSwapStage2(1, 3)),
        0,
        Deck::new(),
        None,
    );
    room.players[0].cards = cards_1.clone();
    room.players[1].cards = cards_2.clone();
    let mut fx: Vec<Effect> = Vec::new();
    room.check_and_swap_stage2(0, Some(2), &mut fx).unwrap();
    assert_eq!(
        fx[0],
        Effect::ToAll(RoomEvent::PowerUsed(
            Power::CheckAndSwapStage2(1, 3),
            0,
            Some(2),
            Some(1),
            Some(3)
        ))
    );
    assert_eq!(fx[2], Effect::ToAll(RoomEvent::PlayerTurn(1)));
    assert_eq!(room.players[0].cards[2], Card::Diamonds(4));
    assert_eq!(room.players[1].cards[3], Card::Clubs(3));
}

#[test]
fn use_power_check_and_swap_decide_to_not_swap() {
    let cards_1 = vec![Card::Clubs(1), Card::Clubs(2), Card::Clubs(3), Card::Clubs(4)];
    let cards_2 = vec![Card::Diamonds(1), Card::Diamonds(2), Card::Diamonds(3), Card::Diamonds(4)];
    let mut room = game_room(
        6,
        State::PowerStage(0, Power::CheckAndSwapStage2(1, 3)),
        0,
        Deck::new(),
        None,
    );
    room.players[0].cards = cards_1.clone();
    room.players[1].cards = cards_2.clone();
    let mut fx: Vec<Effect> = Vec::new();
    room.check_and_swap_stage2(0, None, &mut fx).unwrap();
    assert_eq!(
        fx[0],
        Effect::ToAll(RoomEvent::PowerUsed(
            Power::CheckAndSwapStage2(1, 3),
            0,
            None,
            Some(1),
            Some(3)
        ))
    );
    assert_eq!(fx[2], Effect::ToAll(RoomEvent::PlayerTurn(1)));
    assert_eq!(room.players[0].cards, cards_1);
    assert_eq!(room.players[1].cards, cards_2);
}

#[test]
fn throw_own_same_card() {
    let mut room = game_room(6, State::StartTurn(0), 0, Deck::new(), None);
    room.deck.discard(Card::Clubs(1));
    room.players[1].cards.push(Card::Diamonds(1));
    let mut fx: Vec<Effect> = Vec::new();
    room.throw_same_card(1, 1, 0, &mut fx).unwrap();
    assert_eq!(
        fx[0],
        Effect::ToAll(RoomEvent::SameCardAttempt(
            1,
            1,
            0,
            Some(Card::Diamonds(1)),
            SameCardResult::Success
        ))
    );
    assert!(room.players[1].cards.is_empty());
    // Throwing one's own card needs no give-away: play resumes directly.
    assert!(matches!(room.state, State::StartTurn(0)));
}

#[test]
fn throw_someone_else_same_card() {
    let mut room = game_room(6, State::StartTurn(0), 0, Deck::new(), None);
    room.deck.discard(Card::Clubs(1));
    room.players[0].cards.push(Card::Diamonds(1));
    room.players[1].cards = vec![Card::Hearts(2), Card::Hearts(3)];
    let mut fx: Vec<Effect> = Vec::new();
    room.throw_same_card(1, 0, 0, &mut fx).unwrap();
    assert_eq!(
        fx[0],
        Effect::ToAll(RoomEvent::SameCardAttempt(
            1,
            0,
            0,
            Some(Card::Diamonds(1)),
            SameCardResult::Success
        ))
    );
    assert!(room.players[0].cards.is_empty());
    assert!(matches!(
        &room.state,
        State::PauseForSameCardThrow(1, 0, 0, saved) if matches!(**saved, State::StartTurn(0))
    ));

    // The turn holder cannot act while the interrupt pause holds.
    let mut fx2: Vec<Effect> = Vec::new();
    assert!(matches!(
        room.draw_card(0, &mut fx2),
        Err(GameError::OperationNotAllowedAtCurrentState)
    ));

    fx.clear();
    room.select_card_to_give_away(1, 0, &mut fx).unwrap();
    assert_eq!(fx[0], Effect::ToAll(RoomEvent::CardReplaced(1, 0, 0, 0)));
    assert_eq!(room.players[0].cards, vec![Card::Hearts(2)]);
    assert_eq!(room.players[1].cards, vec![Card::Hearts(3)]);
    assert!(matches!(room.state, State::StartTurn(0)));
}

#[test]
fn throw_same_card_penalty_when_is_not_the_same() {
    let mut deck = testing_deck(vec![Card::Clubs(9), Card::Clubs(10)]);
    deck.discard(Card::Hearts(1));
    let mut room = game_room(6, State::StartTurn(5), 5, deck, None);
    room.players[0].cards = vec![Card::Clubs(5), Card::Clubs(2), Card::Clubs(3), Card::Clubs(4)];
    let mut fx: Vec<Effect> = Vec::new();
    room.throw_same_card(5, 0, 0, &mut fx).unwrap();
    assert_eq!(
        fx[0],
        Effect::ToAll(RoomEvent::SameCardAttempt(
            5,
            0,
            0,
            Some(Card::Clubs(5)),
            SameCardResult::NotTheSame
        ))
    );
    // The wrong claimant drew a penalty card; the named hand is untouched.
    assert_eq!(room.players[5].cards, vec![Card::Clubs(10)]);
    assert_eq!(room.players[0].cards.len(), 4);
}

#[test]
fn throw_same_card_penalty_when_someone_already_threw_one() {
    let mut room = game_room(6, State::StartTurn(0), 0, Deck::new(), None);
    room.deck.discard(Card::Clubs(1));
    room.players[1].cards.push(Card::Diamonds(1));
    let mut fx: Vec<Effect> = Vec::new();
    room.throw_same_card(1, 1, 0, &mut fx).unwrap();
    fx.clear();
    room.throw_same_card(0, 1, 0, &mut fx).unwrap();
    assert_eq!(
        fx,
        vec![Effect::ToAll(RoomEvent::SameCardAttempt(
            0,
            1,
            0,
            None,
            SameCardResult::TooLate
        ))]
    );
    assert!(room.players[1].cards.is_empty());
    // A late claim is rejected outright and changes nothing.
    assert!(room.players[0].cards.is_empty());
}

#[test]
fn go_crabul() {
    let mut room = game_room(6, State::StartTurn(0), 0, Deck::new(), None);
    let mut fx: Vec<Effect> = Vec::new();
    room.go_crabul(0, &mut fx).unwrap();
    assert_eq!(fx[0], Effect::ToAll(RoomEvent::PlayerWentCrabul(0)));
    assert_eq!(fx[2], Effect::ToAll(RoomEvent::PlayerTurn(1)));
    assert_eq!(room.crabul_player, Some(0));
}

#[test]
fn cant_crabul_if_someone_else_already_crabul() {
    let mut room = game_room(6, State::StartTurn(0), 0, Deck::new(), None);
    let mut fx: Vec<Effect> = Vec::new();
    room.go_crabul(0, &mut fx).unwrap();
    assert!(matches!(room.state, State::StartTurn(1)));
    assert!(matches!(
        room.go_crabul(1, &mut fx),
        Err(GameError::OperationNotAllowedAtCurrentState)
    ));
}

#[test]
fn cant_use_power_on_crabul_player() {
    let mut room = game_room(6, State::PowerStage(0, Power::PeekOtherCard), 0, Deck::new(), Some(1));
    let mut fx: Vec<Effect> = Vec::new();
    assert!(matches!(
        room.peek_other_card(0, 1, 0, &mut fx),
        Err(GameError::OperationNotAllowedAtCurrentState)
    ));

    room.state = State::PowerStage(0, Power::BlindSwap);
    assert!(matches!(
        room.blind_swap(0, 0, 1, 0, &mut fx),
        Err(GameError::OperationNotAllowedAtCurrentState)
    ));

    room.state = State::PowerStage(0, Power::CheckAndSwapStage1);
    assert!(matches!(
        room.check_and_swap_stage1(0, 1, 0, &mut fx),
        Err(GameError::OperationNotAllowedAtCurrentState)
    ));
}

#[test]
fn end_game_when_turn_reaches_crabul_player() {
    let mut room = game_room(6, State::MiddleTurn(5, Card::Clubs(10)), 5, Deck::new(), Some(0));
    room.players[0].cards = vec![Card::Hearts(13), Card::Diamonds(1), Card::Joker];
    for i in 1..6 {
        room.players[i].cards = vec![Card::Clubs(10), Card::Clubs(10)];
    }
    let mut fx: Vec<Effect> = Vec::new();
    room.swap_card(5, 0, &mut fx).unwrap();
    // The turn pointer lands on the Crabul caller: the game terminates.
    assert!(matches!(room.state, State::Terminating));
    assert_eq!(fx.last(), Some(&Effect::StartFinalizeTimer));

    fx.clear();
    room.finalize_game(&mut fx);
    assert!(matches!(room.state, State::Terminated));
    assert_eq!(fx.len(), 2);
    assert_eq!(fx[1], Effect::StopRoom);
    match &fx[0] {
        Effect::ToAll(RoomEvent::GameTerminated(score)) => {
            assert_eq!(score.winner, 0);
            assert_eq!(score.scores[0].total_score, 0);
            assert_eq!(score.scores[1].total_score, 20);
            assert_eq!(
                score.scores[0].cards,
                vec![Card::Hearts(13), Card::Diamonds(1), Card::Joker]
            );
            for w in score.scores.windows(2) {
                assert!(w[0].total_score <= w[1].total_score);
            }
        }
        other => panic!("unexpected effect {other:?}"),
    }
}

#[test]
fn room_terminate_when_game_is_over() {
    let mut room = game_room(2, State::Terminating, 1, Deck::new(), Some(0));
    room.players[0].cards = vec![Card::Joker];
    room.players[1].cards = vec![Card::Clubs(9)];
    let mut fx: Vec<Effect> = Vec::new();
    room.finalize_game(&mut fx);
    assert!(matches!(room.state, State::Terminated));
    assert_eq!(fx.last(), Some(&Effect::StopRoom));
}

#[test]
fn finalize_breaks_tie_against_crabul_caller() {
    let mut room = game_room(2, State::Terminating, 1, Deck::new(), Some(0));
    room.players[0].cards = vec![Card::Clubs(4)];
    room.players[1].cards = vec![Card::Diamonds(4)];
    let mut fx: Vec<Effect> = Vec::new();
    room.finalize_game(&mut fx);
    match &fx[0] {
        Effect::ToAll(RoomEvent::GameTerminated(score)) => {
            // Equal lowest scores: the caller loses the tie.
            assert_ne!(score.winner, 0);
            assert_eq!(score.winner, 1);
        }
        other => panic!("unexpected effect {other:?}"),
    }
}

#[test]
fn turn_timeout() {
    let mut room = game_room(6, State::StartTurn(1), 1, testing_deck(vec![Card::Clubs(2)]), None);
    for i in 0..6 {
        room.players[i].cards = vec![Card::Clubs(10), Card::Clubs(10)];
    }
    let mut fx: Vec<Effect> = Vec::new();
    room.force_end_turn(1, &mut fx);
    assert_eq!(fx[0], Effect::ToAll(RoomEvent::TurnEndedByTimeout(1)));
    assert_eq!(fx[1], Effect::ToAll(RoomEvent::CardWasDrawn(1)));
    assert_eq!(fx[2], Effect::ToAll(RoomEvent::CardDiscarded(1, Card::Clubs(2))));
    assert_eq!(fx[4], Effect::ToAll(RoomEvent::PlayerTurn(2)));
}

#[test]
fn stale_turn_timeout_is_ignored() {
    let mut room = game_room(6, State::StartTurn(1), 1, Deck::new(), None);
    let mut fx: Vec<Effect> = Vec::new();
    room.force_end_turn(0, &mut fx);
    assert!(fx.is_empty());
    assert!(matches!(room.state, State::StartTurn(1)));
}

#[test]
fn turn_timeout_when_card_has_power() {
    let mut room = game_room(6, State::StartTurn(1), 1, testing_deck(vec![Card::Clubs(7)]), None);
    for i in 0..6 {
        room.players[i].cards = vec![Card::Clubs(10), Card::Clubs(10)];
    }
    let mut fx: Vec<Effect> = Vec::new();
    room.force_end_turn(1, &mut fx);
    assert_eq!(fx[0], Effect::ToAll(RoomEvent::TurnEndedByTimeout(1)));
    assert_eq!(fx[1], Effect::ToAll(RoomEvent::CardWasDrawn(1)));
    assert_eq!(fx[2], Effect::ToAll(RoomEvent::CardDiscarded(1, Card::Clubs(7))));
    assert_eq!(
        fx[3],
        Effect::ToAll(RoomEvent::PowerDiscarded(1, Power::PeekOwnCard))
    );
    assert_eq!(fx[5], Effect::ToAll(RoomEvent::PlayerTurn(2)));
}

#[test]
fn turn_timeout_when_card_has_power_and_power_is_blind_swap() {
    let mut room = game_room(6, State::StartTurn(1), 1, testing_deck(vec![Card::Clubs(11)]), None);
    for i in 0..6 {
        room.players[i].cards = vec![Card::Clubs(10), Card::Clubs(10)];
    }
    let mut fx: Vec<Effect> = Vec::new();
    room.force_end_turn(1, &mut fx);
    assert_eq!(fx[0], Effect::ToAll(RoomEvent::TurnEndedByTimeout(1)));
    assert_eq!(fx[1], Effect::ToAll(RoomEvent::CardWasDrawn(1)));
    assert_eq!(fx[2], Effect::ToAll(RoomEvent::CardDiscarded(1, Card::Clubs(11))));
    match &fx[3] {
        Effect::ToAll(RoomEvent::ForcedBlindSwap(1, own_idx, other, other_idx)) => {
            assert!(*own_idx < 2);
            assert!(*other_idx < 2);
            assert_ne!(*other, 1);
        }
        other => panic!("unexpected effect {other:?}"),
    }
    assert_eq!(fx[5], Effect::ToAll(RoomEvent::PlayerTurn(2)));
}

#[test]
fn timeout_during_interrupt_pause_only_rearms_the_timer() {
    let saved = Box::new(State::StartTurn(1));
    let mut room = game_room(6, State::PauseForSameCardThrow(2, 3, 0, saved), 1, Deck::new(), None);
    let mut fx: Vec<Effect> = Vec::new();
    room.force_end_turn(1, &mut fx);
    assert_eq!(fx, vec![Effect::StartTurnTimer(1)]);
    assert!(matches!(room.state, State::PauseForSameCardThrow(2, 3, 0, _)));
}

#[test]
fn power_card_discard_then_peek_scenario() {
    // Draw the 7 of clubs, discard it, and the peek-own power activates;
    // using it shows the card privately and hands the turn on.
    let mut room = game_room(6, State::StartTurn(0), 0, testing_deck(vec![Card::Clubs(7)]), None);
    room.players[0].cards = vec![Card::Spade(2), Card::Spade(3), Card::Spade(4), Card::Spade(5)];
    let mut fx: Vec<Effect> = Vec::new();
    room.draw_card(0, &mut fx).unwrap();
    room.discard_card(0, &mut fx).unwrap();
    assert!(fx.contains(&Effect::ToAll(RoomEvent::PowerActivated(0, Power::PeekOwnCard))));
    fx.clear();
    room.peek_own_card(0, 0, &mut fx).unwrap();
    assert_eq!(fx[0], Effect::ToPlayer(0, RoomEvent::PeekedCard(Card::Spade(2))));
    assert_eq!(fx[3], Effect::ToAll(RoomEvent::PlayerTurn(1)));
}

#[test]
fn match_power_table() {
    let room = game_room(2, State::StartTurn(0), 0, Deck::new(), None);
    for rank in 1..=6u8 {
        assert_eq!(room.match_power(Card::Clubs(rank)), None);
    }
    assert_eq!(room.match_power(Card::Diamonds(7)), Some(Power::PeekOwnCard));
    assert_eq!(room.match_power(Card::Hearts(8)), Some(Power::PeekOwnCard));
    assert_eq!(room.match_power(Card::Spade(9)), Some(Power::PeekOtherCard));
    assert_eq!(room.match_power(Card::Clubs(10)), Some(Power::PeekOtherCard));
    assert_eq!(room.match_power(Card::Diamonds(11)), Some(Power::BlindSwap));
    assert_eq!(room.match_power(Card::Hearts(12)), Some(Power::BlindSwap));
    assert_eq!(room.match_power(Card::Spade(13)), Some(Power::CheckAndSwapStage1));
    assert_eq!(room.match_power(Card::Joker), None);
}

#[test]
fn turn_order_unchanged_by_departure() {
    let mut room = game_room(6, State::StartTurn(1), 1, Deck::new(), None);
    let frozen = room.turn_order.clone();
    let mut fx: Vec<Effect> = Vec::new();
    room.remove_player(3, &mut fx);
    assert_eq!(room.turn_order, frozen);
    // The pointer now wraps around the shrunken count.
    room.state = State::MiddleTurn(1, Card::Clubs(2));
    fx.clear();
    room.discard_card(1, &mut fx).unwrap();
    assert!(matches!(room.state, State::StartTurn(2)));
}
