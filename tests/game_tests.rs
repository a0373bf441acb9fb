#![allow(unused_variables)]

use spades::{Bet, BetResult, Card, Game, PlayCardResult, Rank, SpadesError, State, Suit, Uid};

#[test]
fn test_play_card_can_or_cannot_play() {
    let g = Game::new(Uid(0), [Uid(1), Uid(2), Uid(3), Uid(4)], 500);
    let c3c = Card {
        rank: Rank::Three,
        suit: Suit::Clubs,
    };
    let c4c = Card {
        rank: Rank::Four,
        suit: Suit::Clubs,
    };
    let qs = Card {
        rank: Rank::Queen,
        suit: Suit::Spades,
    };
    let aces = Card {
        rank: Rank::Ace,
        suit: Suit::Spades,
    };

    // all the reasons cannot play
}

#[test]
fn test_play_card_regular_play() {
    let mut g = Game::new(Uid(0), [Uid(1), Uid(2), Uid(3), Uid(4)], 500);
    let c3c = Card {
        rank: Rank::Three,
        suit: Suit::Clubs,
    };
    let c4c = Card {
        rank: Rank::Four,
        suit: Suit::Clubs,
    };
    let qs = Card {
        rank: Rank::Queen,
        suit: Suit::Spades,
    };
    let aces = Card {
        rank: Rank::Ace,
        suit: Suit::Spades,
    };
    g.state = State::Trick(0);
    g.player[0].hand = vec![qs];
    assert_eq!(None, g.can_play_card(qs));
    assert_eq!(Some(PlayCardResult::CardPlayed), g.play_card(qs));
}

#[test]
fn test_play_card_not_suitable_state() {
    let mut g = Game::new(Uid(0), [Uid(1), Uid(2), Uid(3), Uid(4)], 500);
    let c3c = Card {
        rank: Rank::Three,
        suit: Suit::Clubs,
    };
    let c4c = Card {
        rank: Rank::Four,
        suit: Suit::Clubs,
    };
    let qs = Card {
        rank: Rank::Queen,
        suit: Suit::Spades,
    };
    let aces = Card {
        rank: Rank::Ace,
        suit: Suit::Spades,
    };

    g.state = State::GameNotStarted;
    assert_eq!(None, g.play_card(qs));

    g.state = State::GameCompleted;
    assert_eq!(None, g.play_card(qs));

    g.state = State::Betting(2);
    assert_eq!(None, g.play_card(qs));

    g.current_player_index = 1;
    g.state = State::Trick(1);
    g.player[1].hand = vec![qs];
    assert_eq!(None, g.can_play_card(qs));
    assert_eq!(Some(PlayCardResult::CardPlayed), g.play_card(qs));
}

#[test]
fn test_execute_play_card_playing_spades_breaks_spades() {
    let mut g = Game::new(Uid(0), [Uid(1), Uid(2), Uid(3), Uid(4)], 500);
    let c3c = Card {
        rank: Rank::Three,
        suit: Suit::Clubs,
    };
    let c4c = Card {
        rank: Rank::Four,
        suit: Suit::Clubs,
    };
    let qs = Card {
        rank: Rank::Queen,
        suit: Suit::Spades,
    };
    let aces = Card {
        rank: Rank::Ace,
        suit: Suit::Spades,
    };

    g.spades_broken = false;
    assert_eq!(PlayCardResult::CardPlayed, g.execute_play_card(1, c3c));
    assert_eq!(false, g.spades_broken);
    assert_eq!(PlayCardResult::CardPlayed, g.execute_play_card(1, qs));
    assert_eq!(true, g.spades_broken);

    g.spades_broken = false;
    assert_eq!(PlayCardResult::CardPlayed, g.execute_play_card(0, qs));
    assert_eq!(true, g.spades_broken);
}

#[test]
fn test_execute_play_card_played_card_added_to_trick_cards() {
    let mut g = Game::new(Uid(0), [Uid(1), Uid(2), Uid(3), Uid(4)], 500);
    let c3c = Card {
        rank: Rank::Three,
        suit: Suit::Clubs,
    };
    let c4c = Card {
        rank: Rank::Four,
        suit: Suit::Clubs,
    };
    let qc = Card {
        rank: Rank::Queen,
        suit: Suit::Clubs,
    };
    let ac = Card {
        rank: Rank::Ace,
        suit: Suit::Clubs,
    };

    g.current_trick = vec![];
    g.state = State::Trick(0);
    g.current_player_index = 0;
    assert_eq!(PlayCardResult::CardPlayed, g.execute_play_card(0, c3c));
    assert_eq!(1, g.current_player_index);
    assert_eq!(vec![c3c], g.current_trick);
    assert_eq!(PlayCardResult::CardPlayed, g.execute_play_card(1, c4c));
    assert_eq!(2, g.current_player_index);
    assert_eq!(vec![c3c, c4c], g.current_trick);
    assert_eq!(PlayCardResult::CardPlayed, g.execute_play_card(2, ac));
    assert_eq!(3, g.current_player_index);
    assert_eq!(vec![c3c, c4c, ac], g.current_trick);
    assert_eq!(PlayCardResult::TrickCompleted, g.execute_play_card(3, qc));
    assert_eq!(0, g.current_player_index); // 2 won trick, so should be next player
    assert_eq!(Vec::<Card>::new(), g.current_trick); // cards should be cleared

    assert_eq!(false, g.scoring.is_over());

    //        assert_eq!(0, g.current_player_index);
    //        assert_eq!(PlayCardResult::GameCompleted, g.execute_play_card(3, qc));
}

#[test]
fn test_execute_play_card_last_card_in_trick() {
    // tests in // test_execute_play_card_played_card_added_to_trick_cards
}

#[test]
fn test_execute_play_card_last_card_in_game_results() {}

#[test]
fn test_execute_play_card_handle_regular_card() {
    let g = Game::new(Uid(0), [Uid(1), Uid(2), Uid(3), Uid(4)], 500);
    let qc = Card {
        rank: Rank::Queen,
        suit: Suit::Clubs,
    };
    let jd = Card {
        rank: Rank::Jack,
        suit: Suit::Diamonds,
    };
    let ks = Card {
        rank: Rank::King,
        suit: Suit::Spades,
    };
    let js = Card {
        rank: Rank::Jack,
        suit: Suit::Spades,
    };
    let ad = Card {
        rank: Rank::Ace,
        suit: Suit::Diamonds,
    };
    let hand = [qc, jd, ks];
}

#[test]
fn test_can_play_card_from_hand() {
    let mut g = Game::new(Uid(0), [Uid(1), Uid(2), Uid(3), Uid(4)], 500);
    let qc = Card {
        rank: Rank::Queen,
        suit: Suit::Clubs,
    };
    let jd = Card {
        rank: Rank::Jack,
        suit: Suit::Diamonds,
    };
    let ks = Card {
        rank: Rank::King,
        suit: Suit::Spades,
    };
    let js = Card {
        rank: Rank::Jack,
        suit: Suit::Spades,
    };
    let ad = Card {
        rank: Rank::Ace,
        suit: Suit::Diamonds,
    };
    let hand = [qc, jd, ks];

    // clubs led by another; must follow suit
    g.leading_suit = Some(Suit::Clubs);
    assert_eq!(None, g.can_play_card_from_hand(1, qc, &hand));
    assert_eq!(
        Some(SpadesError::CardIncorrectSuit),
        g.can_play_card_from_hand(1, jd, &hand)
    );
    assert_eq!(
        Some(SpadesError::CardIncorrectSuit),
        g.can_play_card_from_hand(1, ks, &hand)
    );

    // can't follow suit; all possible
    g.leading_suit = Some(Suit::Hearts);
    assert_eq!(None, g.can_play_card_from_hand(1, qc, &hand));
    assert_eq!(None, g.can_play_card_from_hand(1, jd, &hand));
    assert_eq!(None, g.can_play_card_from_hand(1, ks, &hand));

    // cards not in hand
    assert_eq!(
        Some(SpadesError::CardNotInHand),
        g.can_play_card_from_hand(2, ad, &hand)
    );
    assert_eq!(
        Some(SpadesError::CardNotInHand),
        g.can_play_card_from_hand(3, ad, &hand)
    );

    // can lead non-spades
    g.leading_suit = None;
    assert_eq!(None, g.can_play_card_from_hand(0, qc, &hand));
    assert_eq!(None, g.can_play_card_from_hand(0, jd, &hand));
    // can't lead spades unless they've been broken
    assert_eq!(
        Some(SpadesError::CardIncorrectSuit),
        g.can_play_card_from_hand(0, ks, &hand)
    );
    // broken, so can lead spades
    g.spades_broken = true;
    assert_eq!(None, g.can_play_card_from_hand(0, ks, &hand));

    g.leading_suit = None;
    let hand2 = [js, ks];
    // or, only have spades in my hand
    g.spades_broken = false;
    assert_eq!(None, g.can_play_card_from_hand(0, js, &hand2));
    assert_eq!(None, g.can_play_card_from_hand(0, ks, &hand2));
}

#[test]
fn test_create_game() {
    let game_uuid = Uid(4);
    let p1_uuid = Uid(10);
    let p2_uuid = Uid(11);
    let p3_uuid = Uid(12);
    let p4_uuid = Uid(13);
    let player_uuids = [p1_uuid, p2_uuid, p3_uuid, p4_uuid];
    let max_points: i32 = -1;

    let g = Game::new(game_uuid, player_uuids, max_points);
    let cpi = g.current_player_index;
    assert_eq!(0, cpi);
    let curr_trick = g.current_trick;
    assert!(curr_trick.is_empty());
    let deck = g.deck;
    assert_eq!(52, deck.len());
    let gameid = g.id;
    assert_eq!(game_uuid, gameid);
    let leading_suit = g.leading_suit;
    assert_eq!(None, leading_suit);
    let players = g.player;
    assert_eq!(p1_uuid, players[0].id);
    assert_eq!(p2_uuid, players[1].id);
    assert_eq!(p3_uuid, players[2].id);
    assert_eq!(p4_uuid, players[3].id);
    let b = g.scoring;
    let spades_broken = g.spades_broken;
    assert_eq!(false, spades_broken);
    let gamestate = g.state;
    assert_eq!(State::GameNotStarted, gamestate);
}

#[test]
fn test_default_game() {
    let g = Game::default();
    let cpi = g.current_player_index;
    assert_eq!(0, cpi);
    let curr_trick = g.current_trick;
    assert!(curr_trick.is_empty());
    let deck = g.deck;
    assert_eq!(52, deck.len());
    let leading_suit = g.leading_suit;
    assert_eq!(None, leading_suit);
    let players = g.player;
    assert!(players[0].hand.is_empty());
    let b = g.scoring;
    let spades_broken = g.spades_broken;
    assert_eq!(false, spades_broken);
    let gamestate = g.state;
    assert_eq!(State::GameNotStarted, gamestate);
}

#[test]
fn test_queries_when_gamenotstarted() {
    let g = Game::default();
    assert_eq!(
        Err(SpadesError::GameNotStarted),
        g.team_individual_round_bags(0)
    );
    assert_eq!(
        Err(SpadesError::GameNotStarted),
        g.team_individual_round_score(0)
    );
    assert_eq!(Err(SpadesError::GameNotStarted), g.team_all_rounds_bags(0));
    assert_eq!(
        Err(SpadesError::GameNotStarted),
        g.team_all_rounds_score(0)
    );
    assert_eq!(Err(SpadesError::GameNotStarted), g.team_tricks_won(0));
    assert_eq!(
        Err(SpadesError::GameNotStarted),
        g.team_individual_round_bags(1)
    );
    assert_eq!(
        Err(SpadesError::GameNotStarted),
        g.team_individual_round_score(1)
    );
    assert_eq!(Err(SpadesError::GameNotStarted), g.team_all_rounds_bags(1));
    assert_eq!(
        Err(SpadesError::GameNotStarted),
        g.team_all_rounds_score(1)
    );
    assert_eq!(Err(SpadesError::GameNotStarted), g.team_tricks_won(1));
}

#[test]
fn test_current_player_id_and_blind_nil_bets() {
    let game_uuid = Uid(4);
    let p1_uuid = Uid(10);
    let p2_uuid = Uid(11);
    let p3_uuid = Uid(12);
    let p4_uuid = Uid(13);
    let player_uuids = [p1_uuid, p2_uuid, p3_uuid, p4_uuid];
    let mut g = Game::new(game_uuid, player_uuids, 500);
    let mut cpi_response = g.current_player_id();
    assert_eq!(Err(SpadesError::GameNotStarted), cpi_response);
    g.start_game();
    cpi_response = g.current_player_id();
    assert_eq!(Ok(p1_uuid), cpi_response);
    let look_at_hand_response = g.current_hand();
    assert_eq!(true, look_at_hand_response.is_ok());
    assert_eq!(13, look_at_hand_response.unwrap().len());
    let mut can_bet_response = g.can_place_bet(Bet::BlindNil);
    assert_eq!(Some(SpadesError::BetImproperSeenHand), can_bet_response);
    can_bet_response = g.can_place_bet(Bet::Nil);
    assert_eq!(None, can_bet_response);
    let mut place_bet_response = g.place_bet(Bet::Nil);
    assert_eq!(Some(BetResult::MadeBet), place_bet_response);
    cpi_response = g.current_player_id();
    assert_eq!(Ok(p2_uuid), cpi_response);
    place_bet_response = g.place_bet(Bet::Amount(3));
    assert_eq!(Some(BetResult::MadeBet), place_bet_response);
    cpi_response = g.current_player_id();
    assert_eq!(Ok(p3_uuid), cpi_response);
    place_bet_response = g.place_bet(Bet::BlindNil);
    assert_eq!(Some(BetResult::MadeBet), place_bet_response);
    cpi_response = g.current_player_id();
    assert_eq!(Ok(p4_uuid), cpi_response);
    place_bet_response = g.place_bet(Bet::Amount(3));
    assert_eq!(Some(BetResult::CompletedBetting), place_bet_response);
    cpi_response = g.current_player_id();
    assert_eq!(Ok(p1_uuid), cpi_response);
    let card_to_play = g.current_hand().unwrap()[0];
    let play_card_action_response = g.play_card(card_to_play);
    assert_eq!(Some(PlayCardResult::CardPlayed), play_card_action_response);
    cpi_response = g.current_player_id();
    assert_eq!(Ok(p2_uuid), cpi_response);
}

#[test]
fn test_hand_from_player_id() {
    let game_uuid = Uid(4);
    let p1_uuid = Uid(10);
    let p2_uuid = Uid(11);
    let p3_uuid = Uid(12);
    let p4_uuid = Uid(13);
    let unknown_uuid = Uid(99);
    let player_uuids = [p1_uuid, p2_uuid, p3_uuid, p4_uuid];
    let mut g = Game::new(game_uuid, player_uuids, 500);
    g.start_game();
    let p1_hand_result = g.hand_from_player_id(p1_uuid);
    if let Ok(p1_hand) = p1_hand_result {
        assert_eq!(13, p1_hand.len());
    } else {
        assert!(false); // p1 is a valid player, so should not error
    }
    let unknown_hand_result = g.hand_from_player_id(unknown_uuid);
    assert_eq!(Err(SpadesError::InvalidUuid), unknown_hand_result);
    match p1_hand_result {
        Ok(p1_hand) => {
            assert_eq!(13, p1_hand.len());
        }
        Err(_err) => {}
    }
}
