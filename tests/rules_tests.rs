use spades::{
    Bet, BetResult, Card, Game, PlayCardResult, PlayerState, Rank, SpadesError, State, Suit,
    TeamState, Uid,
};

fn ids() -> [Uid; 4] {
    [Uid(10), Uid(11), Uid(12), Uid(13)]
}

/// Plays the first card that the player to act may play.
fn play_any(g: &mut Game) -> PlayCardResult {
    let hand = g.current_hand().unwrap();
    for c in hand {
        if g.can_play_card(c).is_none() {
            return g.play_card(c).unwrap();
        }
    }
    panic!("no playable card");
}

fn card_total(g: &Game) -> usize {
    g.deck.len() + g.player.iter().map(|p| p.hand.len()).sum::<usize>()
}

fn bet_round(g: &mut Game) {
    for _ in 0..4 {
        g.place_bet(Bet::Amount(3)).unwrap();
    }
}

#[test]
fn cards_stay_fifty_two_through_a_round() {
    let mut g = Game::new(Uid(1), ids(), 500);
    assert_eq!(52, card_total(&g));
    g.start_game();
    assert_eq!(52, card_total(&g));
    assert_eq!(0, g.deck.len());
    bet_round(&mut g);
    for _ in 0..52 {
        play_any(&mut g);
        assert_eq!(52, card_total(&g));
        for c in &g.current_trick {
            assert!(g.deck.contains(c));
        }
    }
    assert_eq!(State::Betting(0), g.state());
    assert_eq!(0, g.deck.len());
    for p in &g.player {
        assert_eq!(13, p.hand.len());
    }
}

#[test]
fn round_tricks_sum_to_thirteen() {
    let mut g = Game::new(Uid(1), ids(), 500);
    g.start_game();
    bet_round(&mut g);
    let mut completed = 0;
    for _ in 0..52 {
        if play_any(&mut g) == PlayCardResult::TrickCompleted {
            completed += 1;
        }
    }
    assert_eq!(13, completed);
    assert_eq!(13, g.team_tricks_won(0).unwrap() + g.team_tricks_won(1).unwrap());
}

#[test]
fn trick_winner_spade_played_late_trumps() {
    let lead = Card::new(Suit::Hearts, Rank::Ace);
    let follow = Card::new(Suit::Hearts, Rank::King);
    let trump = Card::new(Suit::Spades, Rank::Two);
    let other = Card::new(Suit::Diamonds, Rank::Ace);
    assert_eq!(3, spades::get_trick_winner(0, &vec![lead, follow, other, trump]));
    assert_eq!(0, spades::get_trick_winner(1, &vec![lead, follow, other, trump]));
}

#[test]
fn blind_nil_made_scores_two_hundred() {
    let mut ts = TeamState::default();
    let mut second = PlayerState::default();
    for i in 0..11 {
        second.won_trick[i] = true;
    }
    ts.calculate_round_totals(Bet::BlindNil, &PlayerState::default(), Bet::Amount(11), &second);
    assert_eq!(310, ts.game_points());
    assert_eq!(0, ts.game_bags());
}

#[test]
fn blind_nil_failed_costs_two_hundred() {
    let mut ts = TeamState::default();
    let mut first = PlayerState::default();
    first.won_trick[0] = true;
    ts.calculate_round_totals(Bet::BlindNil, &first, Bet::Amount(11), &PlayerState::default());
    assert_eq!(-110 - 200, ts.game_points());
}

#[test]
fn bag_rollover_from_nine() {
    let mut ts = TeamState {
        cumulative_bags: 9,
        ..TeamState::default()
    };
    let mut first = PlayerState::default();
    for i in 0..13 {
        first.won_trick[i] = true;
    }
    ts.calculate_round_totals(Bet::Amount(3), &first, Bet::Amount(8), &PlayerState::default());
    assert_eq!(2, ts.game_bags());
    assert_eq!(1, ts.cumulative_bags());
    assert_eq!(112 - 100, ts.game_points());
    assert_eq!(12, ts.cumulative_points());
}

#[test]
fn wrong_suit_leaves_game_unchanged() {
    let mut g = Game::new(Uid(1), ids(), 500);
    g.start_game();
    bet_round(&mut g);
    let lead = Card::new(Suit::Clubs, Rank::Two);
    let follow = Card::new(Suit::Clubs, Rank::Three);
    let off = Card::new(Suit::Hearts, Rank::Four);
    g.player[0].hand = vec![lead];
    g.player[1].hand = vec![follow, off];
    assert_eq!(Some(PlayCardResult::CardPlayed), g.play_card(lead));
    let before = g.clone();
    assert_eq!(Some(SpadesError::CardIncorrectSuit), g.can_play_card(off));
    assert_eq!(None, g.play_card(off));
    assert_eq!(before, g);
    assert_eq!(Some(PlayCardResult::CardPlayed), g.play_card(follow));
}

#[test]
fn spade_lead_rules() {
    let g = Game::new(Uid(1), ids(), 500);
    let ks = Card::new(Suit::Spades, Rank::King);
    let qh = Card::new(Suit::Hearts, Rank::Queen);
    assert_eq!(
        Some(SpadesError::CardIncorrectSuit),
        g.can_play_card_from_hand(0, ks, &[ks, qh])
    );
    assert_eq!(None, g.can_play_card_from_hand(0, ks, &[ks]));
}

#[test]
fn game_completes_only_at_round_end() {
    let mut g = Game::new(Uid(1), ids(), -100_000);
    g.start_game();
    bet_round(&mut g);
    for i in 0..52 {
        let r = play_any(&mut g);
        if i < 51 {
            assert_ne!(PlayCardResult::GameCompleted, r);
            assert_ne!(State::GameCompleted, g.state());
        } else {
            assert_eq!(PlayCardResult::GameCompleted, r);
        }
    }
    assert_eq!(State::GameCompleted, g.state());
    assert!(g.is_over());
    assert_eq!(Err(SpadesError::GameCompleted), g.current_player_id());
    assert!(g.winner_ids().is_ok());
}

#[test]
fn errors_for_each_stage() {
    let mut g = Game::new(Uid(1), ids(), 500);
    assert_eq!(Err(SpadesError::GameNotCompleted), g.winner_ids());
    assert_eq!(Some(SpadesError::GameNotStarted), g.can_place_bet(Bet::Nil));
    assert_eq!(None, g.can_start_game());
    g.start_game();
    assert_eq!(Some(SpadesError::ImproperGameStage), g.can_start_game());
    assert_eq!(Err(SpadesError::InternalError), g.leading_suit());
    let c = g.player[0].hand[0];
    assert_eq!(Some(SpadesError::ImproperGameStage), g.can_play_card(c));
    assert_eq!(Some(BetResult::MadeBet), g.place_bet(Bet::Amount(2)));
    assert_eq!(Ok([Bet::Amount(2), Bet::Amount(0), Bet::Amount(0), Bet::Amount(0)]), g.bets_placed());
    let other = g.player[2].hand[0];
    for _ in 0..3 {
        g.place_bet(Bet::Amount(2)).unwrap();
    }
    assert_eq!(Some(SpadesError::CardNotInHand), g.can_play_card(other));
    assert_eq!(Some(SpadesError::ImproperGameStage), g.can_place_bet(Bet::Nil));
    assert_eq!(Ok(None), g.leading_suit());
}

#[test]
fn start_deals_sorted_hands_and_resets_blind_nil() {
    let mut g = Game::new(Uid(1), ids(), 500);
    g.start_game();
    for p in &g.player {
        assert_eq!(13, p.hand.len());
        let mut sorted = p.hand.clone();
        sorted.sort();
        assert_eq!(sorted, p.hand);
        assert!(!p.seen_hand);
    }
    g.current_hand().unwrap();
    assert_eq!(Some(SpadesError::BetImproperSeenHand), g.can_place_bet(Bet::BlindNil));
}

#[test]
fn card_codes_round_trip() {
    let ks = Card::new(Suit::Spades, Rank::King);
    assert_eq!(58, ks.to_code());
    assert_eq!(Some(ks), Card::from_code(58));
    assert_eq!(2, Card::new(Suit::Clubs, Rank::Two).to_code());
    assert_eq!(None, Card::from_code(1));
    assert_eq!(None, Card::from_code(60));
}

#[test]
fn bet_from_number_and_messages() {
    assert_eq!(Bet::Nil, Bet::from(0u8));
    assert_eq!(Bet::Amount(4), Bet::from(4u8));
    assert_eq!(Bet::Amount(3), Bet::default());
    assert_eq!("card not in hand", SpadesError::CardNotInHand.message());
    assert_eq!(Suit::Spades, Suit::from(7u8));
    assert_eq!(Rank::Ace, Rank::from(20u8));
}
