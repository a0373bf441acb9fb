use crate::cards::{
    card_key, deal_four_players, lemma_winner_is_seat, is_sorted, new_deck, ordered_deck, sort_cards,
    trick_winner, Card, Suit,
};
use crate::game_state::State;
use crate::result::SpadesError;
use crate::scoring::{Bet, Scoring, TeamState};
use vstd::multiset::Multiset;
use vstd::prelude::*;

verus! {

broadcast use vstd::seq_lib::group_to_multiset_ensures;

/// What a successful bet did: recorded a bet, or recorded the last bet of the round.
#[derive(Debug, Default, PartialEq, Eq, Structural, PartialOrd, Ord, Clone, Copy, Hash)]
pub enum BetResult {
    /// The bet was recorded.
    #[default]
    MadeBet,
    /// The bet was recorded and completed the betting stage.
    CompletedBetting,
}

/// What a successfully played card did: only that, or it completed a trick, or the
/// whole game.
#[derive(Debug, Default, PartialEq, Eq, Structural, PartialOrd, Ord, Clone, Copy, Hash)]
pub enum PlayCardResult {
    /// The card was played.
    #[default]
    CardPlayed,
    /// The card completed a trick.
    TrickCompleted,
    /// The card completed the game.
    GameCompleted,
}

/// An opaque identity of a game or a player.
#[derive(Debug, Clone, Copy, PartialEq, Eq, Structural, PartialOrd, Ord, Hash, Default)]
pub struct Uid(pub u64);

/// A seat at the table: who sits there, whether they have looked at their hand this
/// round, and the hand, kept in card order.
#[derive(Debug, Clone, PartialEq, Eq, PartialOrd, Ord, Hash, Default)]
pub struct Player {
    pub id: Uid,
    pub seen_hand: bool,
    pub hand: Vec<Card>,
}

impl Player {
    pub fn new(id: Uid) -> (r: Player)
        ensures
            r.id == id,
            !r.seen_hand,
            r.hand@.len() == 0,
    {
        Player { id, seen_hand: false, hand: Vec::new() }
    }
}

/// A game of Spades for four players in two partnerships: seats 0 and 2 against
/// seats 1 and 3. It owns the hands, the discard pile, the current trick and the
/// score keeper, and moves through its stages as bets are placed and cards played.
#[derive(Debug, Clone, PartialEq, Eq, PartialOrd, Ord, Hash)]
pub struct Game {
    pub id: Uid,
    pub state: State,
    pub scoring: Scoring,
    pub current_player_index: usize,
    /// The undealt cards, and then the cards played this round.
    pub deck: Vec<Card>,
    pub current_trick: Vec<Card>,
    pub bets_placed: [Bet; 4],
    pub leading_suit: Option<Suit>,
    pub spades_broken: bool,
    pub player: [Player; 4],
}

/// The cards of the four hands together.
pub open spec fn hands_multiset(player: [Player; 4]) -> Multiset<Card> {
    player[0].hand@.to_multiset().add(player[1].hand@.to_multiset()).add(
        player[2].hand@.to_multiset(),
    ).add(player[3].hand@.to_multiset())
}

/// True when seat `p` has already played to the current trick, in which `n` cards
/// have been played and seat `cur` is to play next.
pub open spec fn has_played(p: int, cur: int, n: int) -> bool {
    let d = (cur - p + 4) % 4;
    1 <= d <= n
}

/// The hands of `after` were dealt from `deck`: together they hold its cards, each
/// holds 13 in card order, nobody has seen theirs, and everyone keeps their seat.
pub open spec fn dealt(deck: Seq<Card>, before: [Player; 4], after: [Player; 4]) -> bool {
    &&& hands_multiset(after) == deck.to_multiset()
    &&& forall|p: int|
        0 <= p < 4 ==> {
            &&& (#[trigger] after[p]).hand@.len() == 13
            &&& is_sorted(after[p].hand@)
            &&& !after[p].seen_hand
            &&& after[p].id == before[p].id
        }
}

/// Why a player holding `hand` may not play `card` as the card number `rotation` (from 0)
/// of a trick led in suit `leading`, with spades broken or not; `None` when it may.
pub open spec fn play_error(
    rotation: int,
    card: Card,
    hand: Seq<Card>,
    leading: Option<Suit>,
    spades_broken: bool,
) -> Option<SpadesError> {
    if !hand.contains(card) {
        Some(SpadesError::CardNotInHand)
    } else if rotation == 0 && card.suit == Suit::Spades && !spades_broken && exists|i: int|
        0 <= i < hand.len() && #[trigger] hand[i].suit != Suit::Spades {
        Some(SpadesError::CardIncorrectSuit)
    } else if leading != Some(card.suit) && exists|i: int|
        0 <= i < hand.len() && Some(#[trigger] hand[i].suit) == leading {
        Some(SpadesError::CardIncorrectSuit)
    } else {
        None
    }
}

impl Game {
    /// All 52 cards are in the discard pile or in the hands, each exactly once.
    pub open spec fn cards_conserved(&self) -> bool {
        self.deck@.to_multiset().add(hands_multiset(self.player)) == ordered_deck().to_multiset()
    }

    /// The invariant of a game that is driven only through its actions.
    pub open spec fn wf(&self) -> bool {
        &&& self.current_player_index < 4
        &&& self.scoring.wf()
        &&& self.cards_conserved()
        &&& match self.state {
            State::GameNotStarted => {
                &&& self.scoring.in_betting_stage
                &&& !self.scoring.is_over
                &&& self.current_trick@.len() == 0
                &&& self.leading_suit is None
                &&& forall|p: int| 0 <= p < 4 ==> (#[trigger] self.player[p]).hand@.len() == 0
            },
            State::Betting(n) => {
                &&& n < 4
                &&& self.current_player_index == n
                &&& self.scoring.in_betting_stage
                &&& !self.scoring.is_over
                &&& self.current_trick@.len() == 0
                &&& self.leading_suit is None
                &&& forall|p: int|
                    0 <= p < 4 ==> (#[trigger] self.player[p]).hand@.len() == 13 && is_sorted(
                        self.player[p].hand@,
                    )
            },
            State::Trick(n) => {
                &&& n < 4
                &&& !self.scoring.in_betting_stage
                &&& !self.scoring.is_over
                &&& self.current_trick@.len() == n
                &&& (n == 0 <==> self.leading_suit is None)
                &&& n > 0 ==> self.leading_suit == Some(self.current_trick@[0].suit)
                &&& self.current_trick@.to_multiset().subset_of(self.deck@.to_multiset())
                &&& forall|p: int|
                    0 <= p < 4 ==> (#[trigger] self.player[p]).hand@.len() == 13
                        - self.scoring.trick - (if has_played(
                        p,
                        self.current_player_index as int,
                        n as int,
                    ) {
                        1int
                    } else {
                        0
                    }) && is_sorted(self.player[p].hand@)
            },
            State::GameCompleted => self.scoring.is_over,
        }
    }

    pub fn new(id: Uid, player_ids: [Uid; 4], max_points: i32) -> (r: Game)
        ensures
            r.wf(),
            r.id == id,
            r.state == State::GameNotStarted,
            r.current_player_index == 0,
            r.current_trick@.len() == 0,
            r.deck@.len() == 52,
            r.leading_suit is None,
            !r.spades_broken,
            r.scoring.config.max_points == max_points,
            forall|p: int| 0 <= p < 4 ==> (#[trigger] r.player[p]).id == player_ids[p],
    {
        let r = Game {
            id,
            state: State::GameNotStarted,
            scoring: Scoring::new(max_points),
            current_trick: Vec::new(),
            bets_placed: [Bet::Amount(0), Bet::Amount(0), Bet::Amount(0), Bet::Amount(0)],
            deck: new_deck(),
            current_player_index: 0,
            leading_suit: None,
            spades_broken: false,
            player: [
                Player::new(player_ids[0]),
                Player::new(player_ids[1]),
                Player::new(player_ids[2]),
                Player::new(player_ids[3]),
            ],
        };
        proof {
            assert(hands_multiset(r.player) =~= Multiset::empty());
            assert(r.deck@.to_multiset().add(hands_multiset(r.player)) =~= r.deck@.to_multiset());
        }
        r
    }

    /// The identity of the game.
    pub fn id(&self) -> (r: &Uid)
        ensures
            *r == self.id,
    {
        &self.id
    }

    pub fn state(&self) -> (r: State)
        ensures
            r == self.state,
    {
        self.state
    }

    /// Points of team 0 (seats 0 and 2) or team 1 (seats 1 and 3) in the round last
    /// settled.
    pub fn team_individual_round_score(&self, team_id: usize) -> (r: Result<i32, SpadesError>)
        requires
            team_id < 2,
        ensures
            r == if self.state == State::GameNotStarted {
                Err(SpadesError::GameNotStarted)
            } else {
                Ok(self.scoring.team[team_id as int].game_points)
            },
    {
        match self.state {
            State::GameNotStarted => Err(SpadesError::GameNotStarted),
            _ => Ok(self.scoring.team[team_id].game_points()),
        }
    }

    /// Points of team 0 (seats 0 and 2) or team 1 (seats 1 and 3) over all rounds
    /// settled so far.
    pub fn team_all_rounds_score(&self, team_id: usize) -> (r: Result<i32, SpadesError>)
        requires
            team_id < 2,
        ensures
            r == if self.state == State::GameNotStarted {
                Err(SpadesError::GameNotStarted)
            } else {
                Ok(self.scoring.team[team_id as int].cumulative_points)
            },
    {
        match self.state {
            State::GameNotStarted => Err(SpadesError::GameNotStarted),
            _ => Ok(self.scoring.team[team_id].cumulative_points()),
        }
    }

    /// Tricks taken by team 0 (seats 0 and 2) or team 1 (seats 1 and 3) in the round
    /// last settled.
    pub fn team_tricks_won(&self, team_id: usize) -> (r: Result<u8, SpadesError>)
        requires
            team_id < 2,
        ensures
            r == if self.state == State::GameNotStarted {
                Err(SpadesError::GameNotStarted)
            } else {
                Ok(self.scoring.team[team_id as int].tricks)
            },
    {
        match self.state {
            State::GameNotStarted => Err(SpadesError::GameNotStarted),
            _ => Ok(self.scoring.team[team_id].tricks_won()),
        }
    }

    /// Bags (overtricks) of team 0 (seats 0 and 2) or team 1 (seats 1 and 3) in the
    /// round last settled.
    pub fn team_individual_round_bags(&self, team_id: usize) -> (r: Result<u8, SpadesError>)
        requires
            team_id < 2,
        ensures
            r == if self.state == State::GameNotStarted {
                Err(SpadesError::GameNotStarted)
            } else {
                Ok(self.scoring.team[team_id as int].game_bags)
            },
    {
        match self.state {
            State::GameNotStarted => Err(SpadesError::GameNotStarted),
            _ => Ok(self.scoring.team[team_id].game_bags()),
        }
    }

    /// Bags of team 0 (seats 0 and 2) or team 1 (seats 1 and 3) carried over all
    /// rounds; ten of them cost 100 points and are taken off.
    pub fn team_all_rounds_bags(&self, team_id: usize) -> (r: Result<u8, SpadesError>)
        requires
            team_id < 2,
        ensures
            r == if self.state == State::GameNotStarted {
                Err(SpadesError::GameNotStarted)
            } else {
                Ok(self.scoring.team[team_id as int].cumulative_bags)
            },
    {
        match self.state {
            State::GameNotStarted => Err(SpadesError::GameNotStarted),
            _ => Ok(self.scoring.team[team_id].cumulative_bags()),
        }
    }

    /// The identity of the player who is to act next; an error before the game has
    /// started or once it is over.
    pub fn current_player_id(&self) -> (r: Result<Uid, SpadesError>)
        requires
            self.current_player_index < 4,
        ensures
            r == match self.state {
                State::GameNotStarted => Err(SpadesError::GameNotStarted),
                State::GameCompleted => Err(SpadesError::GameCompleted),
                _ => Ok(self.player[self.current_player_index as int].id),
            },
    {
        match self.state {
            State::GameNotStarted => Err(SpadesError::GameNotStarted),
            State::GameCompleted => Err(SpadesError::GameCompleted),
            State::Betting(_) | State::Trick(_) => Ok(self.player[self.current_player_index].id),
        }
    }

    /// The hand of the player with identity `player_id` (the first such seat), or
    /// `InvalidUuid` when nobody at the table has it.
    pub fn hand_from_player_id(&self, player_id: Uid) -> (r: Result<&Vec<Card>, SpadesError>)
        ensures
            match r {
                Ok(h) => exists|p: int|
                    0 <= p < 4 && self.player[p].id == player_id && *h == self.player[p].hand
                        && forall|q: int| 0 <= q < p ==> (#[trigger] self.player[q]).id != player_id,
                Err(e) => e == SpadesError::InvalidUuid && forall|p: int|
                    0 <= p < 4 ==> (#[trigger] self.player[p]).id != player_id,
            },
    {
        if player_id == self.player[0].id {
            return Ok(&self.player[0].hand);
        }
        if player_id == self.player[1].id {
            return Ok(&self.player[1].hand);
        }
        if player_id == self.player[2].id {
            return Ok(&self.player[2].hand);
        }
        if player_id == self.player[3].id {
            return Ok(&self.player[3].hand);
        }
        Err(SpadesError::InvalidUuid)
    }

    /// A copy of the hand of the player who is to act next. From then on that player
    /// may not bet BlindNil this round.
    pub fn current_hand(&mut self) -> (r: Result<Vec<Card>, SpadesError>)
        requires
            old(self).current_player_index < 4,
        ensures
            ({
                let i = old(self).current_player_index as int;
                match old(self).state {
                    State::GameNotStarted => r == Err::<Vec<Card>, SpadesError>(
                        SpadesError::GameNotStarted,
                    ) && *final(self) == *old(self),
                    State::GameCompleted => r == Err::<Vec<Card>, SpadesError>(
                        SpadesError::GameCompleted,
                    ) && *final(self) == *old(self),
                    _ => {
                        &&& r matches Ok(h) && h@ == old(self).player[i].hand@
                        &&& final(self).player[i] == (Player {
                            seen_hand: true,
                            ..old(self).player[i]
                        })
                        &&& forall|p: int|
                            0 <= p < 4 && p != i ==> #[trigger] final(self).player[p]
                                == old(self).player[p]
                        &&& final(self).id == old(self).id
                        &&& final(self).state == old(self).state
                        &&& final(self).scoring == old(self).scoring
                        &&& final(self).current_player_index == old(self).current_player_index
                        &&& final(self).deck == old(self).deck
                        &&& final(self).current_trick == old(self).current_trick
                        &&& final(self).bets_placed == old(self).bets_placed
                        &&& final(self).leading_suit == old(self).leading_suit
                        &&& final(self).spades_broken == old(self).spades_broken
                    },
                }
            }),
    {
        match self.state {
            State::GameNotStarted => Err(SpadesError::GameNotStarted),
            State::GameCompleted => Err(SpadesError::GameCompleted),
            State::Betting(_) | State::Trick(_) => {
                let p = self.current_player_index;
                self.player[p].seen_hand = true;
                Ok(copy_cards(&self.player[p].hand))
            },
        }
    }

    /// The suit led in the current trick, `None` before its first card.
    pub fn leading_suit(&self) -> (r: Result<Option<Suit>, SpadesError>)
        ensures
            r == match self.state {
                State::GameNotStarted => Err(SpadesError::GameNotStarted),
                State::GameCompleted => Err(SpadesError::GameCompleted),
                State::Trick(_) => Ok(self.leading_suit),
                State::Betting(_) => Err(SpadesError::InternalError),
            },
    {
        match self.state {
            State::GameNotStarted => Err(SpadesError::GameNotStarted),
            State::GameCompleted => Err(SpadesError::GameCompleted),
            State::Trick(_) => Ok(self.leading_suit),
            _ => Err(SpadesError::InternalError),
        }
    }

    /// The identities of the winning partnership, once the game is over: the team with
    /// the higher cumulative score, team 0 on a tie.
    pub fn winner_ids(&self) -> (r: Result<(Uid, Uid), SpadesError>)
        ensures
            r == if self.state == State::GameCompleted {
                if self.scoring.team[0].cumulative_points >= self.scoring.team[1].cumulative_points {
                    Ok((self.player[0].id, self.player[2].id))
                } else {
                    Ok((self.player[1].id, self.player[3].id))
                }
            } else {
                Err(SpadesError::GameNotCompleted)
            },
    {
        match self.state {
            State::GameCompleted => {
                if self.scoring.team[0].cumulative_points()
                    >= self.scoring.team[1].cumulative_points() {
                    Ok((self.player[0].id, self.player[2].id))
                } else {
                    Ok((self.player[1].id, self.player[3].id))
                }
            },
            _ => Err(SpadesError::GameNotCompleted),
        }
    }

    /// The bets placed so far this round, by seat.
    pub fn bets_placed(&self) -> (r: Result<[Bet; 4], SpadesError>)
        ensures
            r == Ok::<[Bet; 4], SpadesError>(self.bets_placed),
    {
        Ok(self.bets_placed)
    }

    /// `None` when the game may be started now, else why not.
    pub fn can_start_game(&self) -> (r: Option<SpadesError>)
        ensures
            r == if self.state == State::GameNotStarted {
                None
            } else {
                Some(SpadesError::ImproperGameStage)
            },
    {
        if self.state == State::GameNotStarted {
            None
        } else {
            Some(SpadesError::ImproperGameStage)
        }
    }

    /// Starts the game: deals the first round and opens the betting at seat 0. Does
    /// nothing once the game has started.
    pub fn start_game(&mut self)
        requires
            old(self).wf(),
        ensures
            final(self).wf(),
            old(self).state != State::GameNotStarted ==> *final(self) == *old(self),
            old(self).state == State::GameNotStarted ==> {
                &&& final(self).state == State::Betting(0)
                &&& final(self).current_player_index == 0
                &&& !final(self).spades_broken
                &&& final(self).deck@.len() == 0
                &&& dealt(old(self).deck@, old(self).player, final(self).player)
                &&& final(self).id == old(self).id
                &&& final(self).scoring == old(self).scoring
                &&& final(self).bets_placed == old(self).bets_placed
            },
    {
        if let Some(_err) = self.can_start_game() {
        } else {
            self.execute_game_start();
        }
    }

    fn execute_game_start(&mut self)
        requires
            old(self).wf(),
            old(self).state == State::GameNotStarted,
        ensures
            final(self).wf(),
            final(self).state == State::Betting(0),
            final(self).current_player_index == 0,
            !final(self).spades_broken,
            final(self).deck@.len() == 0,
            dealt(old(self).deck@, old(self).player, final(self).player),
            final(self).id == old(self).id,
            final(self).scoring == old(self).scoring,
            final(self).bets_placed == old(self).bets_placed,
    {
        proof {
            assert(hands_multiset(self.player) =~= Multiset::empty());
            assert(self.deck@.to_multiset() =~= ordered_deck().to_multiset());
            assert(ordered_deck().len() == 52);
            assert(ordered_deck().to_multiset().len() == 52);
            assert(self.deck@.to_multiset().len() == self.deck@.len());
        }
        self.spades_broken = false;
        self.deal_cards();
        self.state = State::Betting(0);
        self.current_player_index = 0;
        proof {
            assert(self.deck@.to_multiset() =~= Multiset::empty());
            assert(self.deck@.to_multiset().add(hands_multiset(self.player)) =~= ordered_deck().to_multiset());
        }
    }

    /// Deals the 52 cards of the pile to the four players, each hand in card order, and
    /// lets everyone bet BlindNil again.
    fn deal_cards(&mut self)
        requires
            old(self).deck@.len() == 52,
        ensures
            final(self).deck@.len() == 0,
            dealt(old(self).deck@, old(self).player, final(self).player),
            final(self).id == old(self).id,
            final(self).state == old(self).state,
            final(self).scoring == old(self).scoring,
            final(self).current_player_index == old(self).current_player_index,
            final(self).current_trick == old(self).current_trick,
            final(self).bets_placed == old(self).bets_placed,
            final(self).leading_suit == old(self).leading_suit,
            final(self).spades_broken == old(self).spades_broken,
    {
        let mut hands = deal_four_players(&mut self.deck);
        let ghost hs = hands@;
        let h3 = match hands.pop() {
            Some(h) => h,
            None => Vec::new(),
        };
        let h2 = match hands.pop() {
            Some(h) => h,
            None => Vec::new(),
        };
        let h1 = match hands.pop() {
            Some(h) => h,
            None => Vec::new(),
        };
        let h0 = match hands.pop() {
            Some(h) => h,
            None => Vec::new(),
        };
        proof {
            assert(h3 == hs[3] && h2 == hs[2] && h1 == hs[1] && h0 == hs[0]);
        }
        self.player[0].hand = h3;
        self.player[1].hand = h2;
        self.player[2].hand = h1;
        self.player[3].hand = h0;
        let mut p: usize = 0;
        while p < 4
            invariant
                p <= 4,
                self.deck@.len() == 0,
                hands_multiset(self.player) == old(self).deck@.to_multiset(),
                forall|q: int| 0 <= q < 4 ==> (#[trigger] self.player[q]).hand@.len() == 13,
                forall|q: int| 0 <= q < 4 ==> (#[trigger] self.player[q]).id == old(self).player[q].id,
                forall|q: int|
                    0 <= q < p ==> is_sorted((#[trigger] self.player[q]).hand@) && !self.player[q].seen_hand,
                self.id == old(self).id,
                self.state == old(self).state,
                self.scoring == old(self).scoring,
                self.current_player_index == old(self).current_player_index,
                self.current_trick == old(self).current_trick,
                self.bets_placed == old(self).bets_placed,
                self.leading_suit == old(self).leading_suit,
                self.spades_broken == old(self).spades_broken,
            decreases 4 - p,
        {
            let ghost before = self.player;
            sort_cards(&mut self.player[p].hand);
            self.player[p].seen_hand = false;
            proof {
                assert(forall|q: int| 0 <= q < 4 && q != p ==> self.player[q] == before[q]);
                assert(self.player[p as int].hand@.to_multiset() == before[p as int].hand@.to_multiset());
                assert(hands_multiset(self.player) =~= hands_multiset(before));
            }
            p = p + 1;
        }
    }

    /// Why the player to act may not place `bet` now; `None` when they may.
    pub open spec fn bet_error(&self, bet: Bet) -> Option<SpadesError> {
        match self.state {
            State::GameNotStarted => Some(SpadesError::GameNotStarted),
            State::Trick(_) => Some(SpadesError::ImproperGameStage),
            State::GameCompleted => Some(SpadesError::GameCompleted),
            State::Betting(_) => if bet == Bet::BlindNil
                && self.player[self.current_player_index as int].seen_hand {
                Some(SpadesError::BetImproperSeenHand)
            } else {
                None
            },
        }
    }

    /// `None` when the player to act may place `bet` now, else why not: the game is
    /// not in its betting stage, or the bet is BlindNil from a player who has looked at
    /// their hand this round.
    pub fn can_place_bet(&self, bet: Bet) -> (r: Option<SpadesError>)
        requires
            self.current_player_index < 4,
        ensures
            r == self.bet_error(bet),
    {
        match self.state {
            State::GameNotStarted => Some(SpadesError::GameNotStarted),
            State::Trick(_) => Some(SpadesError::ImproperGameStage),
            State::GameCompleted => Some(SpadesError::GameCompleted),
            State::Betting(_rotation_status) => {
                if bet == Bet::BlindNil && self.player[self.current_player_index].seen_hand {
                    Some(SpadesError::BetImproperSeenHand)
                } else {
                    None
                }
            },
        }
    }

    /// Places `bet` for the player to act and passes the turn on; the fourth bet of a
    /// round closes the betting and opens trick play at seat 0. Returns `None`, and
    /// changes nothing, when the bet may not be placed now.
    pub fn place_bet(&mut self, bet: Bet) -> (r: Option<BetResult>)
        requires
            old(self).wf(),
        ensures
            final(self).wf(),
            r is None <==> old(self).bet_error(bet) is Some,
            r is None ==> *final(self) == *old(self),
            r is Some ==> old(self).records_bet(*final(self), bet, r->0),
    {
        if let Some(_err) = self.can_place_bet(bet) {
            None
        } else if let State::Betting(rotation_status) = self.state {
            let bet_result = self.execute_bet(rotation_status, bet);
            Some(bet_result)
        } else {
            None
        }
    }

    /// `next` is this game, in betting stage, after the player to act has placed `bet`
    /// with outcome `result`.
    pub open spec fn records_bet(self, next: Game, bet: Bet, result: BetResult) -> bool {
        let i = self.current_player_index as int;
        &&& next.bets_placed@ == self.bets_placed@.update(i, bet)
        &&& next.scoring.bets_placed@ == self.scoring.bets_placed@.update(i, bet)
        &&& next.player == self.player
        &&& next.deck == self.deck
        &&& next.id == self.id
        &&& next.scoring.config == self.scoring.config
        &&& next.scoring.is_over == self.scoring.is_over
        &&& match self.state {
            State::Betting(n) => if n == 3 {
                &&& result == BetResult::CompletedBetting
                &&& next.state == State::Trick(0)
                &&& next.current_player_index == 0
                &&& !next.scoring.in_betting_stage
                &&& next.scoring.trick == 0
                &&& crate::scoring::no_tricks_won(next.scoring.players)
                &&& forall|k: int|
                    0 <= k < 2 ==> (#[trigger] next.scoring.team[k]) == (TeamState {
                        game_bags: 0,
                        game_points: 0,
                        ..self.scoring.team[k]
                    })
            } else {
                &&& result == BetResult::MadeBet
                &&& next.state == State::Betting((n + 1) as usize)
                &&& next.current_player_index == i + 1
                &&& next.scoring == (Scoring { bets_placed: next.scoring.bets_placed, ..self.scoring })
            },
            _ => false,
        }
    }

    fn execute_bet(&mut self, rotation_status: usize, bet: Bet) -> (r: BetResult)
        requires
            old(self).wf(),
            old(self).state == State::Betting(rotation_status),
            old(self).bet_error(bet) is None,
        ensures
            final(self).wf(),
            old(self).records_bet(*final(self), bet, r),
    {
        self.scoring.add_bet(self.current_player_index, bet);
        self.bets_placed[self.current_player_index] = bet;
        if rotation_status == 3 {
            self.scoring.betting_over();
            self.state = State::Trick(0);
            self.current_player_index = 0;
            proof {
                assert(self.current_trick@.to_multiset() =~= Multiset::empty());
                assert(self.bets_placed@ == old(self).bets_placed@.update(old(self).current_player_index as int, bet));
            }
            BetResult::CompletedBetting
        } else {
            self.current_player_index = (self.current_player_index + 1) % 4;
            self.state = State::Betting(rotation_status + 1);
            proof {
                assert(self.bets_placed@ == old(self).bets_placed@.update(old(self).current_player_index as int, bet));
                assert(self.scoring == (Scoring { bets_placed: self.scoring.bets_placed, ..old(self).scoring }));
            }
            BetResult::MadeBet
        }
    }

    /// Why the player to act may not play `card` now; `None` when they may.
    pub open spec fn card_error(&self, card: Card) -> Option<SpadesError> {
        match self.state {
            State::GameNotStarted => Some(SpadesError::GameNotStarted),
            State::GameCompleted => Some(SpadesError::GameCompleted),
            State::Betting(_) => Some(SpadesError::ImproperGameStage),
            State::Trick(n) => play_error(
                n as int,
                card,
                self.player[self.current_player_index as int].hand@,
                self.leading_suit,
                self.spades_broken,
            ),
        }
    }

    /// `None` when the player to act may play `card` now, else why not: the game is
    /// not in trick play, the card is not in their hand, or it breaks a suit rule.
    pub fn can_play_card(&self, card: Card) -> (r: Option<SpadesError>)
        requires
            self.current_player_index < 4,
        ensures
            r == self.card_error(card),
    {
        match self.state {
            State::GameNotStarted => Some(SpadesError::GameNotStarted),
            State::GameCompleted => Some(SpadesError::GameCompleted),
            State::Betting(_rotation_status) => Some(SpadesError::ImproperGameStage),
            State::Trick(rotation_status) => {
                let player_hand = &self.player[self.current_player_index].hand;
                self.can_play_card_from_hand(rotation_status, card, player_hand.as_slice())
            },
        }
    }

    /// Whether a player holding `hand` may play `card` as card number
    /// `rotation_status` (from 0) of the current trick. The card must be in the hand; a
    /// spade may lead a trick only once spades are broken or when the hand holds
    /// nothing but spades; and a player who holds the led suit must follow it.
    pub fn can_play_card_from_hand(&self, rotation_status: usize, card: Card, hand: &[Card]) -> (r:
        Option<SpadesError>)
        ensures
            r == play_error(
                rotation_status as int,
                card,
                hand@,
                self.leading_suit,
                self.spades_broken,
            ),
    {
        if !holds_card(hand, card) {
            return Some(SpadesError::CardNotInHand);
        }
        let leading_suit = self.leading_suit;
        if rotation_status == 0 {
            if card.suit == Suit::Spades {
                if self.spades_broken || !holds_non_spade(hand) {
                } else {
                    return Some(SpadesError::CardIncorrectSuit);
                }
            }
        }
        if leading_suit != Some(card.suit) && holds_suit(hand, leading_suit) {
            return Some(SpadesError::CardIncorrectSuit);
        }
        None
    }

    /// `next` is this game after `card`, already moved from the hand of the player to
    /// act onto the pile, was played as card number `n` (from 0) of the trick, with
    /// outcome `result`. A fourth card completes the trick: its winner is recorded and
    /// leads the next trick; after the thirteenth trick the game is over, or the bets
    /// are cleared and a new round is dealt with betting from seat 0.
    pub open spec fn plays(self, next: Game, n: int, card: Card, result: PlayCardResult) -> bool {
        let broken = self.spades_broken || card.suit == Suit::Spades;
        let trick = self.current_trick@.push(card);
        &&& next.id == self.id
        &&& if n < 3 {
            &&& result == PlayCardResult::CardPlayed
            &&& next.state == State::Trick((n + 1) as usize)
            &&& next.current_player_index == (self.current_player_index + 1) % 4
            &&& next.current_trick@ == trick
            &&& next.spades_broken == broken
            &&& next.scoring == self.scoring
            &&& next.deck == self.deck
            &&& next.player == self.player
            &&& next.leading_suit == self.leading_suit
            &&& next.bets_placed == self.bets_placed
        } else {
            let w = trick_winner((self.current_player_index + 1) % 4, trick);
            &&& self.scoring.records_trick(next.scoring, w)
            &&& next.current_trick@.len() == 0
            &&& next.leading_suit is None
            &&& if next.scoring.is_over {
                &&& result == PlayCardResult::GameCompleted
                &&& next.state == State::GameCompleted
                &&& next.current_player_index == self.current_player_index
                &&& next.spades_broken == broken
                &&& next.deck == self.deck
                &&& next.player == self.player
                &&& next.bets_placed == self.bets_placed
            } else if next.scoring.in_betting_stage {
                &&& result == PlayCardResult::TrickCompleted
                &&& next.state == State::Betting(0)
                &&& next.current_player_index == 0
                &&& !next.spades_broken
                &&& forall|i: int| 0 <= i < 4 ==> #[trigger] next.bets_placed[i] == Bet::Amount(0)
                &&& next.deck@.len() == 0
                &&& dealt(self.deck@, self.player, next.player)
            } else {
                &&& result == PlayCardResult::TrickCompleted
                &&& next.state == State::Trick(0)
                &&& next.current_player_index == w
                &&& next.spades_broken == broken
                &&& next.deck == self.deck
                &&& next.player == self.player
                &&& next.bets_placed == self.bets_placed
            }
        }
    }

    /// Adds `card` to the current trick as card number `rotation_status` (from 0) and
    /// moves the game on; the card must already have left the hand for the pile.
    pub fn execute_play_card(&mut self, rotation_status: usize, card: Card) -> (r: PlayCardResult)
        requires
            old(self).current_player_index < 4,
            rotation_status < 4,
            rotation_status == 3 ==> {
                &&& old(self).current_trick@.len() == 3
                &&& old(self).scoring.wf()
                &&& !old(self).scoring.in_betting_stage
                &&& old(self).scoring.trick == 12 ==> old(self).deck@.len() == 52
            },
        ensures
            old(self).plays(*final(self), rotation_status as int, card, r),
    {
        if card.suit == Suit::Spades {
            self.spades_broken = true;
        }
        self.current_trick.push(card);
        if rotation_status == 3 {
            let winner = self.scoring.trick((self.current_player_index + 1) % 4, &self.current_trick);
            self.current_trick.clear();
            self.leading_suit = None;
            if self.scoring.is_over() {
                self.state = State::GameCompleted;
                return PlayCardResult::GameCompleted;
            }
            if self.scoring.is_in_betting_stage() {
                self.current_player_index = 0;
                self.spades_broken = false;
                self.bets_placed = [Bet::Amount(0), Bet::Amount(0), Bet::Amount(0), Bet::Amount(0)];
                self.state = State::Betting(0);
                self.deal_cards();
            } else {
                self.current_player_index = winner;
                self.state = State::Trick(0);
            }
            PlayCardResult::TrickCompleted
        } else {
            self.current_player_index = (self.current_player_index + 1) % 4;
            self.state = State::Trick(rotation_status + 1);
            PlayCardResult::CardPlayed
        }
    }

    /// `mid` is this game, in trick play, with `card` moved from the hand of the player
    /// to act onto the pile, and the led suit set when the card leads the trick.
    pub open spec fn moves_card(self, mid: Game, card: Card) -> bool {
        let i = self.current_player_index as int;
        &&& exists|k: int|
            0 <= k < self.player[i].hand@.len() && self.player[i].hand@[k] == card
                && mid.player[i].hand@ == self.player[i].hand@.remove(k)
        &&& mid.player[i].id == self.player[i].id
        &&& mid.player[i].seen_hand == self.player[i].seen_hand
        &&& forall|p: int| 0 <= p < 4 && p != i ==> #[trigger] mid.player[p] == self.player[p]
        &&& mid.deck@ == self.deck@.push(card)
        &&& mid.leading_suit == if self.state == State::Trick(0) {
            Some(card.suit)
        } else {
            self.leading_suit
        }
        &&& mid.id == self.id
        &&& mid.state == self.state
        &&& mid.scoring == self.scoring
        &&& mid.current_player_index == self.current_player_index
        &&& mid.current_trick == self.current_trick
        &&& mid.bets_placed == self.bets_placed
        &&& mid.spades_broken == self.spades_broken
    }

    /// Plays `card` for the player to act and moves the game on (see `plays`). Returns
    /// `None`, and changes nothing, when the card may not be played now.
    pub fn play_card(&mut self, card: Card) -> (r: Option<PlayCardResult>)
        requires
            old(self).wf(),
        ensures
            final(self).wf(),
            r is None <==> old(self).card_error(card) is Some,
            r is None ==> *final(self) == *old(self),
            r matches Some(res) ==> exists|mid: Game|
                old(self).moves_card(mid, card) && #[trigger] mid.plays(
                    *final(self),
                    old(self).rotation(),
                    card,
                    res,
                ),
    {
        if let Some(_err) = self.can_play_card(card) {
            None
        } else if let State::Trick(rotation_status) = self.state {
            let ghost g0 = *self;
            if rotation_status == 0 {
                self.leading_suit = Some(card.suit);
            }
            let cpi = self.current_player_index;
            let idx = position_of(&self.player[cpi].hand, card);
            let c = self.player[cpi].hand.remove(idx);
            self.deck.push(c);
            let ghost mid = *self;
            proof {
                assert(g0.moves_card(mid, card));
                lemma_moved_card(g0, mid, card, idx as int);
                if rotation_status == 3 && g0.scoring.trick == 12 {
                    lemma_full_pile(g0, mid);
                }
            }
            let card_result = self.execute_play_card(rotation_status, card);
            proof {
                lemma_play_keeps_wf(g0, mid, *self, card, card_result);
                assert(mid.plays(*self, g0.rotation(), card, card_result));
            }
            Some(card_result)
        } else {
            None
        }
    }

    /// The number of players who have acted in the current rotation.
    pub open spec fn rotation(self) -> int {
        match self.state {
            State::Betting(n) => n as int,
            State::Trick(n) => n as int,
            _ => 0,
        }
    }

    /// Whether the game has ended.
    pub fn is_over(&self) -> (r: bool)
        ensures
            r == self.scoring.is_over,
    {
        self.scoring.is_over()
    }
}

/// The position of `card` in `hand`, which holds it.
fn position_of(hand: &Vec<Card>, card: Card) -> (r: usize)
    requires
        hand@.contains(card),
    ensures
        r < hand@.len(),
        hand@[r as int] == card,
{
    let mut i: usize = 0;
    while i < hand.len()
        invariant
            i <= hand@.len(),
            hand@.contains(card),
            forall|j: int| 0 <= j < i ==> hand@[j] != card,
        decreases hand@.len() - i,
    {
        if hand[i] == card {
            return i;
        }
        i = i + 1;
    }
    0
}

proof fn lemma_sorted_remove(s: Seq<Card>, k: int)
    requires
        is_sorted(s),
        0 <= k < s.len(),
    ensures
        is_sorted(s.remove(k)),
{
    let t = s.remove(k);
    assert forall|i: int, j: int| 0 <= i < j < t.len() implies card_key(t[i]) <= card_key(t[j]) by {
        let i2 = if i < k { i } else { i + 1 };
        let j2 = if j < k { j } else { j + 1 };
        assert(t[i] == s[i2] && t[j] == s[j2]);
    }
}

/// What moving the card leaves true: the cards are still all there, the hand of the
/// player to act is one card shorter and still in order, and the pile holds the trick.
proof fn lemma_moved_card(g0: Game, mid: Game, card: Card, k: int)
    requires
        g0.wf(),
        g0.state is Trick,
        g0.moves_card(mid, card),
        0 <= k < g0.player[g0.current_player_index as int].hand@.len(),
        g0.player[g0.current_player_index as int].hand@[k] == card,
        mid.player[g0.current_player_index as int].hand@ == g0.player[g0.current_player_index as int].hand@.remove(k),
    ensures
        mid.cards_conserved(),
        mid.current_trick@.push(card).to_multiset().subset_of(mid.deck@.to_multiset()),
        forall|p: int|
            0 <= p < 4 ==> (#[trigger] mid.player[p]).hand@.len() == g0.player[p].hand@.len() - (
            if p == g0.current_player_index {
                1int
            } else {
                0
            }) && is_sorted(mid.player[p].hand@),
{
    let i = g0.current_player_index as int;
    let h = g0.player[i].hand@;
    lemma_sorted_remove(h, k);
    assert(h.remove(k).to_multiset() == h.to_multiset().remove(card));
    assert(h.to_multiset().count(card) > 0);
    assert(mid.deck@.to_multiset() == g0.deck@.to_multiset().insert(card));
    assert(mid.deck@.to_multiset().add(hands_multiset(mid.player)) =~= g0.deck@.to_multiset().add(
        hands_multiset(g0.player),
    ));
    assert(mid.current_trick@.push(card).to_multiset() == g0.current_trick@.to_multiset().insert(card));
    assert(mid.current_trick@.push(card).to_multiset().subset_of(mid.deck@.to_multiset()));
}

/// While a trick is played, the hand of each seat shrinks by one as it plays, so the
/// hands keep the lengths that `wf` gives them once the player to act has moved `card`.
proof fn lemma_hand_lengths(g0: Game, mid: Game, n: int, k: int)
    requires
        0 <= n < 4,
        g0.current_player_index < 4,
        forall|p: int|
            0 <= p < 4 ==> (#[trigger] g0.player[p]).hand@.len() == 13 - k - (if has_played(
                p,
                g0.current_player_index as int,
                n,
            ) {
                1int
            } else {
                0
            }),
        forall|p: int|
            0 <= p < 4 ==> (#[trigger] mid.player[p]).hand@.len() == g0.player[p].hand@.len() - (
            if p == g0.current_player_index {
                1int
            } else {
                0
            }),
    ensures
        n < 3 ==> forall|p: int|
            0 <= p < 4 ==> (#[trigger] mid.player[p]).hand@.len() == 13 - k - (if has_played(
                p,
                (g0.current_player_index + 1) % 4,
                n + 1,
            ) {
                1int
            } else {
                0
            }),
        n == 3 ==> forall|p: int| 0 <= p < 4 ==> (#[trigger] mid.player[p]).hand@.len() == 12 - k,
{
    let c = g0.current_player_index as int;
    assert forall|p: int| 0 <= p < 4 implies (#[trigger] mid.player[p]).hand@.len() == 13 - k - (
    if p == c || has_played(p, c, n) {
        1int
    } else {
        0
    }) by {
        assert(g0.player[p].hand@.len() == 13 - k - (if has_played(p, c, n) {
            1int
        } else {
            0
        }));
        if p == c {
            assert(!has_played(p, c, n));
        }
    }
    if n < 3 {
        assert forall|p: int| 0 <= p < 4 implies (p == c || has_played(p, c, n)) == has_played(
            p,
            (c + 1) % 4,
            n + 1,
        ) by {
            assert(0 <= c < 4);
        }
    } else {
        assert forall|p: int| 0 <= p < 4 implies (p == c || has_played(p, c, n)) by {
            assert(0 <= c < 4);
        }
    }
}

/// When the last card of a round has left its hand, the pile holds all 52 cards.
proof fn lemma_full_pile(g0: Game, mid: Game)
    requires
        g0.wf(),
        g0.state == State::Trick(3),
        g0.scoring.trick == 12,
        mid.cards_conserved(),
        forall|p: int|
            0 <= p < 4 ==> (#[trigger] mid.player[p]).hand@.len() == g0.player[p].hand@.len() - (
            if p == g0.current_player_index {
                1int
            } else {
                0
            }),
    ensures
        mid.deck@.len() == 52,
{
    lemma_hand_lengths(g0, mid, 3, 12);
    assert(hands_multiset(mid.player) =~= Multiset::empty()) by {
        assert(mid.player[0].hand@.len() == 0);
        assert(mid.player[1].hand@.len() == 0);
        assert(mid.player[2].hand@.len() == 0);
        assert(mid.player[3].hand@.len() == 0);
        assert(mid.player[0].hand@.to_multiset() =~= Multiset::empty());
        assert(mid.player[1].hand@.to_multiset() =~= Multiset::empty());
        assert(mid.player[2].hand@.to_multiset() =~= Multiset::empty());
        assert(mid.player[3].hand@.to_multiset() =~= Multiset::empty());
    }
    assert(mid.deck@.to_multiset() =~= ordered_deck().to_multiset());
    assert(ordered_deck().len() == 52);
    assert(ordered_deck().to_multiset().len() == 52);
    assert(mid.deck@.to_multiset().len() == mid.deck@.len());
}

/// Playing a legal card keeps the game's invariant.
proof fn lemma_play_keeps_wf(g0: Game, mid: Game, next: Game, card: Card, r: PlayCardResult)
    requires
        g0.wf(),
        g0.state is Trick,
        g0.card_error(card) is None,
        g0.moves_card(mid, card),
        mid.cards_conserved(),
        mid.current_trick@.push(card).to_multiset().subset_of(mid.deck@.to_multiset()),
        forall|p: int|
            0 <= p < 4 ==> (#[trigger] mid.player[p]).hand@.len() == g0.player[p].hand@.len() - (
            if p == g0.current_player_index {
                1int
            } else {
                0
            }) && is_sorted(mid.player[p].hand@),
        mid.plays(next, g0.rotation(), card, r),
    ensures
        next.wf(),
{
    let n = g0.rotation();
    let k = g0.scoring.trick as int;
    let c = g0.current_player_index as int;
    lemma_hand_lengths(g0, mid, n, k);
    if n < 3 {
        assert(next.player == mid.player);
        if n == 0 {
            assert(next.current_trick@[0] == card);
        } else {
            assert(next.current_trick@[0] == g0.current_trick@[0]);
        }
    } else {
        let trick = mid.current_trick@.push(card);
        let w = trick_winner((c + 1) % 4, trick);
        lemma_winner_is_seat((c + 1) % 4, trick);
        assert(next.current_trick@.to_multiset() =~= Multiset::empty());
        if next.scoring.is_over {
        } else if next.scoring.in_betting_stage {
            assert(k == 12);
            assert(hands_multiset(mid.player) =~= Multiset::empty()) by {
                assert(forall|p: int| 0 <= p < 4 ==> (#[trigger] mid.player[p]).hand@.len() == 0);
                assert(mid.player[0].hand@.to_multiset() =~= Multiset::empty());
                assert(mid.player[1].hand@.to_multiset() =~= Multiset::empty());
                assert(mid.player[2].hand@.to_multiset() =~= Multiset::empty());
                assert(mid.player[3].hand@.to_multiset() =~= Multiset::empty());
            }
            assert(mid.deck@.to_multiset() =~= ordered_deck().to_multiset());
            assert(next.deck@.to_multiset() =~= Multiset::empty());
            assert(next.deck@.to_multiset().add(hands_multiset(next.player)) =~= ordered_deck().to_multiset());
        } else {
            assert(next.scoring.trick == k + 1);
            assert(forall|p: int| 0 <= p < 4 ==> !has_played(p, w, 0));
        }
    }
}

/// Whether `hand` holds `card`.
fn holds_card(hand: &[Card], card: Card) -> (r: bool)
    ensures
        r == hand@.contains(card),
{
    let mut i: usize = 0;
    while i < hand.len()
        invariant
            i <= hand@.len(),
            forall|j: int| 0 <= j < i ==> hand@[j] != card,
        decreases hand@.len() - i,
    {
        if hand[i] == card {
            return true;
        }
        i = i + 1;
    }
    false
}

/// Whether `hand` holds a card that is not a spade.
fn holds_non_spade(hand: &[Card]) -> (r: bool)
    ensures
        r == exists|i: int| 0 <= i < hand@.len() && #[trigger] hand@[i].suit != Suit::Spades,
{
    let mut i: usize = 0;
    while i < hand.len()
        invariant
            i <= hand@.len(),
            forall|j: int| 0 <= j < i ==> #[trigger] hand@[j].suit == Suit::Spades,
        decreases hand@.len() - i,
    {
        if hand[i].suit != Suit::Spades {
            return true;
        }
        i = i + 1;
    }
    false
}

/// Whether `hand` holds a card of suit `suit`; never when `suit` is `None`.
fn holds_suit(hand: &[Card], suit: Option<Suit>) -> (r: bool)
    ensures
        r == exists|i: int| 0 <= i < hand@.len() && Some(#[trigger] hand@[i].suit) == suit,
{
    let mut i: usize = 0;
    while i < hand.len()
        invariant
            i <= hand@.len(),
            forall|j: int| 0 <= j < i ==> Some(#[trigger] hand@[j].suit) != suit,
        decreases hand@.len() - i,
    {
        if Some(hand[i].suit) == suit {
            return true;
        }
        i = i + 1;
    }
    false
}

impl Default for Game {
    /// A game whose identities are all `Uid(0)`, ending at 500 points.
    fn default() -> (r: Game)
        ensures
            r.wf(),
            r.state == State::GameNotStarted,
            r.scoring.config.max_points == 500,
            r.deck@.len() == 52,
            forall|p: int| 0 <= p < 4 ==> (#[trigger] r.player[p]).hand@.len() == 0,
    {
        Game::new(Uid(0), [Uid(0), Uid(0), Uid(0), Uid(0)], 500)
    }
}

/// In every reachable game all 52 cards are accounted for: the pile and the four
/// hands hold 52 cards, each card once, and the cards of the current trick lie on
/// the pile.
pub proof fn lemma_card_count(g: Game)
    requires
        g.wf(),
    ensures
        g.deck@.len() + g.player[0].hand@.len() + g.player[1].hand@.len() + g.player[2].hand@.len()
            + g.player[3].hand@.len() == 52,
        g.state is Trick ==> g.current_trick@.to_multiset().subset_of(g.deck@.to_multiset()),
{
    assert(ordered_deck().len() == 52);
    assert(ordered_deck().to_multiset().len() == 52);
    assert(g.deck@.to_multiset().len() == g.deck@.len());
    assert(g.player[0].hand@.to_multiset().len() == g.player[0].hand@.len());
    assert(g.player[1].hand@.to_multiset().len() == g.player[1].hand@.len());
    assert(g.player[2].hand@.to_multiset().len() == g.player[2].hand@.len());
    assert(g.player[3].hand@.to_multiset().len() == g.player[3].hand@.len());
}

/// Leading a spade before spades are broken is refused while the hand holds a card of
/// another suit, and allowed when it holds nothing but spades.
pub proof fn lemma_spade_lead(card: Card, hand: Seq<Card>, spades_broken: bool)
    requires
        hand.contains(card),
        card.suit == Suit::Spades,
    ensures
        !spades_broken && (exists|i: int| 0 <= i < hand.len() && #[trigger] hand[i].suit != Suit::Spades)
            ==> play_error(0, card, hand, None, spades_broken) == Some(SpadesError::CardIncorrectSuit),
        (forall|i: int| 0 <= i < hand.len() ==> #[trigger] hand[i].suit == Suit::Spades)
            ==> play_error(0, card, hand, None, spades_broken) is None,
{
}

/// The game is completed exactly by the card that ends a round in which a team's
/// cumulative score reaches the maximum: never in the middle of a round.
pub proof fn lemma_completion_at_settlement(
    g: Game,
    mid: Game,
    next: Game,
    card: Card,
    r: PlayCardResult,
)
    requires
        g.wf(),
        g.state is Trick,
        g.moves_card(mid, card),
        mid.plays(next, g.rotation(), card, r),
    ensures
        (next.state == State::GameCompleted) <==> {
            &&& g.rotation() == 3
            &&& g.scoring.trick == 12
            &&& (next.scoring.team[0].cumulative_points >= g.scoring.config.max_points
                || next.scoring.team[1].cumulative_points >= g.scoring.config.max_points)
        },
        next.state == State::GameCompleted <==> r == PlayCardResult::GameCompleted,
{
}

/// A copy of a sequence of cards.
fn copy_cards(cards: &Vec<Card>) -> (r: Vec<Card>)
    ensures
        r@ == cards@,
{
    let mut r: Vec<Card> = Vec::new();
    let mut i: usize = 0;
    while i < cards.len()
        invariant
            i <= cards@.len(),
            r@ == cards@.take(i as int),
        decreases cards@.len() - i,
    {
        proof {
            assert(cards@.take(i as int + 1) =~= cards@.take(i as int).push(cards@[i as int]));
        }
        r.push(cards[i]);
        i = i + 1;
    }
    proof {
        assert(cards@.take(cards@.len() as int) =~= cards@);
    }
    r
}

} // verus!
