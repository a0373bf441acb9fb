use crate::cards::{get_trick_winner, trick_winner, Card};
use vstd::prelude::*;

verus! {

/// A player's bet for a round: a number of tricks, Nil (no tricks, hand seen) or
/// BlindNil (no tricks, hand unseen, double stakes).
#[derive(Debug, Clone, Copy, PartialEq, Eq, Structural, PartialOrd, Ord, Hash)]
pub enum Bet {
    Amount(u8),
    Nil,
    BlindNil,
}

/// The number of tricks a bet counts toward its team's target: the amount, or 0 for
/// Nil and BlindNil.
pub open spec fn bet_amount(b: Bet) -> int {
    match b {
        Bet::Amount(x) => x as int,
        _ => 0,
    }
}

/// What a bet of no tricks wins or loses: 200 for BlindNil, 100 otherwise.
pub open spec fn nil_stake(b: Bet) -> int {
    if b == Bet::BlindNil {
        200
    } else {
        100
    }
}

impl Bet {
    /// The number of tricks the bet counts toward its team's target.
    pub fn amount(self) -> (r: u8)
        ensures
            r == bet_amount(self),
    {
        match self {
            Bet::Amount(x) => x,
            _ => 0,
        }
    }
}

impl Default for Bet {
    fn default() -> (r: Bet)
        ensures
            r == Bet::Amount(3),
    {
        Bet::Amount(3)
    }
}

impl From<u8> for Bet {
    /// 0 gives Nil; any other number that amount.
    fn from(f: u8) -> (r: Bet)
        ensures
            r == bet_of(f),
    {
        if f == 0 {
            Bet::Nil
        } else {
            Bet::Amount(f)
        }
    }
}

pub open spec fn bet_of(f: u8) -> Bet {
    if f == 0 {
        Bet::Nil
    } else {
        Bet::Amount(f)
    }
}

impl vstd::std_specs::convert::FromSpecImpl<u8> for Bet {
    open spec fn obeys_from_spec() -> bool {
        true
    }

    open spec fn from_spec(v: u8) -> Bet {
        bet_of(v)
    }
}

impl core::ops::Add for Bet {
    type Output = u8;

    /// The combined number of tricks two bets count toward.
    fn add(self, rhs: Bet) -> (r: u8) {
        match self {
            Bet::Amount(x) => {
                match rhs {
                    Bet::Amount(y) => x + y,
                    _ => x,
                }
            },
            _ => {
                match rhs {
                    Bet::Amount(y) => y,
                    _ => 0,
                }
            },
        }
    }
}

impl vstd::std_specs::ops::AddSpecImpl for Bet {
    open spec fn obeys_add_spec() -> bool {
        true
    }

    open spec fn add_req(self, rhs: Bet) -> bool {
        bet_amount(self) + bet_amount(rhs) <= u8::MAX
    }

    open spec fn add_spec(self, rhs: Bet) -> u8 {
        (bet_amount(self) + bet_amount(rhs)) as u8
    }
}

/// Which of the thirteen tricks of the current round a player has won.
#[derive(Debug, Clone, Copy, PartialEq, Eq, PartialOrd, Ord, Hash)]
pub struct PlayerState {
    pub won_trick: [bool; 13],
}

impl Default for PlayerState {
    fn default() -> (r: PlayerState)
        ensures
            forall|t: int| 0 <= t < 13 ==> !#[trigger] r.won_trick[t],
    {
        PlayerState { won_trick: [false; 13] }
    }
}

/// The number of `true` entries among the first `n` of `w`.
pub open spec fn won_count(w: Seq<bool>, n: int) -> int
    decreases n,
{
    if n <= 0 {
        0
    } else {
        won_count(w, n - 1) + if w[n - 1] {
            1int
        } else {
            0
        }
    }
}

/// The number of tricks a player has won this round.
pub open spec fn tricks_of(p: PlayerState) -> int {
    won_count(p.won_trick@, 13)
}

proof fn lemma_won_count_bounds(w: Seq<bool>, n: int)
    requires
        0 <= n,
    ensures
        0 <= won_count(w, n) <= n,
    decreases n,
{
    if n > 0 {
        lemma_won_count_bounds(w, n - 1);
    }
}

impl PlayerState {
    /// The number of tricks won.
    fn tricks(&self) -> (r: u8)
        ensures
            r == tricks_of(*self),
            r <= 13,
    {
        let mut c: u8 = 0;
        let mut i: usize = 0;
        while i < 13
            invariant
                i <= 13,
                c == won_count(self.won_trick@, i as int),
                c <= i,
            decreases 13 - i,
        {
            if self.won_trick[i] {
                c = c + 1;
            }
            i = i + 1;
        }
        c
    }
}

/// One partnership's score: tricks, bags (overtricks) and points of the round just
/// settled, and bags and points over all rounds so far.
#[derive(Debug, Clone, Copy, PartialEq, Eq, Structural, PartialOrd, Ord, Hash)]
pub struct TeamState {
    pub tricks: u8,
    pub game_bags: u8,
    pub cumulative_bags: u8,
    pub game_points: i32,
    pub cumulative_points: i32,
}

/// Points that a trick target met earns: 10 per trick bet and 1 per overtrick.
pub open spec fn made_points(tricks: int, target: int) -> int {
    tricks - target + 10 * target
}

/// The points a team scores for its bets in a round, before any bag penalty: partner
/// one bet `b1` and took `t1` tricks, partner two bet `b2` and took `t2`.
///
/// A met combined target earns `made_points` when both partners bet a number above 0;
/// a missed one costs 10 per trick bet. A partner who bet 0 wins or loses the stake
/// of the bet (100, or 200 for BlindNil) as they took no trick or some; and then their
/// partner, who bet above 0, earns `made_points` if they alone met the target.
pub open spec fn bet_points(b1: Bet, t1: int, b2: Bet, t2: int) -> int {
    let tricks = t1 + t2;
    let a1 = bet_amount(b1);
    let a2 = bet_amount(b2);
    let target = a1 + a2;
    let base = if tricks >= target {
        if a1 != 0 && a2 != 0 {
            made_points(tricks, target)
        } else {
            0
        }
    } else {
        0 - 10 * target
    };
    base + nil_points(b1, t1, a2 != 0 && t2 >= target, made_points(tricks, target)) + nil_points(
        b2,
        t2,
        a1 != 0 && t1 >= target,
        made_points(tricks, target),
    )
}

/// What a partner who bet `b` and took `t` tricks adds on their own when the bet
/// counts for 0 tricks: the stake won or lost, and `made` when the other partner
/// alone met the target (`partner_made`). Nothing when the bet is above 0.
pub open spec fn nil_points(b: Bet, t: int, partner_made: bool, made: int) -> int {
    if bet_amount(b) == 0 {
        (if t == 0 {
            nil_stake(b)
        } else {
            -nil_stake(b)
        }) + if partner_made {
            made
        } else {
            0
        }
    } else {
        0
    }
}

/// A partner whose bet counts for no tricks adds 100 points to the team's round
/// score by taking no trick and loses 100 by taking any, for a Nil bet; a BlindNil bet
/// doubles both to 200; see `nil_points`, which `bet_points` adds for each partner.
pub proof fn lemma_nil_stakes(t1: int, made: int)
    ensures
        nil_points(Bet::Nil, 0, false, made) == 100,
        t1 >= 1 ==> nil_points(Bet::Nil, t1, false, made) == -100,
        nil_points(Bet::BlindNil, 0, false, made) == 200,
        t1 >= 1 ==> nil_points(Bet::BlindNil, t1, false, made) == -200,
{
}

/// Overtricks of a round: tricks beyond the combined target, if it was met.
pub open spec fn round_bags(b1: Bet, t1: int, b2: Bet, t2: int) -> int {
    let target = bet_amount(b1) + bet_amount(b2);
    if t1 + t2 >= target {
        t1 + t2 - target
    } else {
        0
    }
}

/// Cumulative bags before the rollover check, held at the type's maximum.
pub open spec fn bags_total(before: int, bags: int) -> int {
    if before + bags > u8::MAX {
        u8::MAX as int
    } else {
        before + bags
    }
}

/// `v` held to the range of `i32`.
pub open spec fn clamp_i32(v: int) -> int {
    if v > i32::MAX {
        i32::MAX as int
    } else if v < i32::MIN {
        i32::MIN as int
    } else {
        v
    }
}

/// The team's state after settling a round in which partner one bet `b1` and took
/// `t1` tricks and partner two bet `b2` and took `t2`. Reaching 10 cumulative bags
/// costs 100 points and takes 10 bags off.
pub open spec fn settle(before: TeamState, b1: Bet, t1: int, b2: Bet, t2: int) -> TeamState {
    let bags = round_bags(b1, t1, b2, t2);
    let total = bags_total(before.cumulative_bags as int, bags);
    let rolled = total >= 10;
    let points = bet_points(b1, t1, b2, t2) - if rolled {
        100int
    } else {
        0
    };
    TeamState {
        tricks: (t1 + t2) as u8,
        game_bags: bags as u8,
        cumulative_bags: (if rolled {
            total - 10
        } else {
            total
        }) as u8,
        game_points: points as i32,
        cumulative_points: clamp_i32(before.cumulative_points + points) as i32,
    }
}

/// The points a team scores for its bets in a round; see `bet_points`.
fn bet_points_of(first_bet: Bet, t1: u8, second_bet: Bet, t2: u8) -> (r: i32)
    requires
        t1 + t2 <= 13,
    ensures
        r == bet_points(first_bet, t1 as int, second_bet, t2 as int),
{
    let a1 = first_bet.amount() as i32;
    let a2 = second_bet.amount() as i32;
    let tricks = t1 as i32 + t2 as i32;
    let target = a1 + a2;
    assert(0 <= target <= 510);
    let made = tricks - target + 10 * target;
    let base = if tricks >= target {
        if a1 != 0 && a2 != 0 {
            made
        } else {
            0
        }
    } else {
        0 - 10 * target
    };
    base + nil_points_of(first_bet, t1, a2 != 0 && t2 as i32 >= target, made) + nil_points_of(
        second_bet,
        t2,
        a1 != 0 && t1 as i32 >= target,
        made,
    )
}

/// What a partner adds on their own; see `nil_points`.
fn nil_points_of(b: Bet, t: u8, partner_made: bool, made: i32) -> (r: i32)
    requires
        -10000 <= made <= 10000,
    ensures
        r == nil_points(b, t as int, partner_made, made as int),
        -10200 <= r <= 10200,
{
    if b.amount() == 0 {
        let stake: i32 = if b == Bet::BlindNil {
            200
        } else {
            100
        };
        let own = if t == 0 {
            stake
        } else {
            -stake
        };
        if partner_made {
            own + made
        } else {
            own
        }
    } else {
        0
    }
}

impl TeamState {
    /// A team with no tricks, bags or points.
    pub open spec fn default_spec() -> TeamState {
        TeamState { tricks: 0, game_bags: 0, cumulative_bags: 0, game_points: 0, cumulative_points: 0 }
    }

    pub fn default() -> (r: TeamState)
        ensures
            r == TeamState::default_spec(),
    {
        TeamState { tricks: 0, game_bags: 0, cumulative_bags: 0, game_points: 0, cumulative_points: 0 }
    }

    pub fn tricks_won(&self) -> (r: u8)
        ensures
            r == self.tricks,
    {
        self.tricks
    }

    pub fn game_bags(&self) -> (r: u8)
        ensures
            r == self.game_bags,
    {
        self.game_bags
    }

    pub fn cumulative_bags(&self) -> (r: u8)
        ensures
            r == self.cumulative_bags,
    {
        self.cumulative_bags
    }

    pub fn game_points(&self) -> (r: i32)
        ensures
            r == self.game_points,
    {
        self.game_points
    }

    pub fn cumulative_points(&self) -> (r: i32)
        ensures
            r == self.cumulative_points,
    {
        self.cumulative_points
    }

    /// Settles a round for this team from the partners' bets and the tricks each won
    /// (see `settle`). The partners together cannot have won more than the 13 tricks
    /// of a round. Cumulative bags and points hold at the limits of their types.
    pub fn calculate_round_totals(
        &mut self,
        first_bet: Bet,
        first_player: &PlayerState,
        second_bet: Bet,
        second_player: &PlayerState,
    )
        requires
            tricks_of(*first_player) + tricks_of(*second_player) <= 13,
        ensures
            *final(self) == settle(
                *old(self),
                first_bet,
                tricks_of(*first_player),
                second_bet,
                tricks_of(*second_player),
            ),
    {
        let first_player_tricks = first_player.tricks();
        let second_player_tricks = second_player.tricks();
        self.tricks = first_player_tricks + second_player_tricks;
        let team_bets = first_bet.amount() as i32 + second_bet.amount() as i32;
        let tricks = self.tricks as i32;
        self.game_bags = if tricks >= team_bets {
            (tricks - team_bets) as u8
        } else {
            0
        };
        let mut game_points = bet_points_of(
            first_bet,
            first_player_tricks,
            second_bet,
            second_player_tricks,
        );
        self.cumulative_bags = self.cumulative_bags.saturating_add(self.game_bags);
        if self.cumulative_bags >= 10 {
            self.cumulative_bags = self.cumulative_bags - 10;
            game_points = game_points - 100;
        }
        self.game_points = game_points;
        let total = self.cumulative_points as i64 + game_points as i64;
        self.cumulative_points = if total > i32::MAX as i64 {
            i32::MAX
        } else if total < i32::MIN as i64 {
            i32::MIN
        } else {
            total as i32
        };
    }
}

/// Settings of a game: the cumulative score at which it ends.
#[derive(Debug, Clone, Copy, PartialEq, Eq, Structural, PartialOrd, Ord, Hash)]
pub struct GameConfig {
    pub max_points: i32,
}

/// The score keeper of a game: the bets of the round, who won each trick of it, and
/// the two teams' scores. Team 0 is seats 0 and 2, team 1 seats 1 and 3.
#[derive(Debug, PartialEq, Eq, PartialOrd, Ord, Hash, Clone, Copy)]
pub struct Scoring {
    pub config: GameConfig,
    pub team: [TeamState; 2],
    pub players: [PlayerState; 4],
    pub in_betting_stage: bool,
    pub bets_placed: [Bet; 4],
    pub is_over: bool,
    pub trick: usize,
}

/// How many of the four players are recorded as winners of trick `t`.
pub open spec fn winners_at(players: [PlayerState; 4], t: int) -> int {
    (if players[0].won_trick[t] {
        1int
    } else {
        0
    }) + (if players[1].won_trick[t] {
        1int
    } else {
        0
    }) + (if players[2].won_trick[t] {
        1int
    } else {
        0
    }) + (if players[3].won_trick[t] {
        1int
    } else {
        0
    })
}

/// True when no player holds a trick win.
pub open spec fn no_tricks_won(players: [PlayerState; 4]) -> bool {
    forall|p: int, t: int| 0 <= p < 4 && 0 <= t < 13 ==> !#[trigger] players[p].won_trick[t]
}

proof fn lemma_tricks_sum(players: [PlayerState; 4], n: int)
    requires
        0 <= n <= 13,
        forall|t: int| 0 <= t < n ==> #[trigger] winners_at(players, t) == 1,
    ensures
        won_count(players[0].won_trick@, n) + won_count(players[1].won_trick@, n) + won_count(
            players[2].won_trick@,
            n,
        ) + won_count(players[3].won_trick@, n) == n,
    decreases n,
{
    if n > 0 {
        lemma_tricks_sum(players, n - 1);
        assert(winners_at(players, n - 1) == 1);
    }
}

impl Scoring {
    /// The bookkeeping is consistent: at most one winner per trick, and while tricks
    /// are being played, exactly one for each trick already played and none after.
    pub open spec fn wf(&self) -> bool {
        &&& self.trick < 13
        &&& forall|t: int| 0 <= t < 13 ==> #[trigger] winners_at(self.players, t) <= 1
        &&& !self.in_betting_stage ==> forall|t: int|
            0 <= t < 13 ==> #[trigger] winners_at(self.players, t) == if t < self.trick {
                1int
            } else {
                0
            }
    }

    /// `next` is this score keeper after recording a trick won by seat `w`: the win is
    /// noted at the current trick; the thirteenth trick settles both teams' round,
    /// whose tricks then add up to 13, ends the game once either team has reached the
    /// maximum score, and returns to the betting stage.
    pub open spec fn records_trick(self, next: Scoring, w: int) -> bool {
        &&& next.wf()
        &&& next.config == self.config
        &&& next.bets_placed == self.bets_placed
        &&& forall|p: int, t: int|
            0 <= p < 4 && 0 <= t < 13 ==> #[trigger] next.players[p].won_trick[t] == (
            self.players[p].won_trick[t] || (p == w && t == self.trick))
        &&& self.trick < 12 ==> {
            &&& next.trick == self.trick + 1
            &&& !next.in_betting_stage
            &&& next.team == self.team
            &&& next.is_over == self.is_over
        }
        &&& self.trick == 12 ==> {
            let ps = next.players;
            let bets = self.bets_placed;
            &&& next.trick == 12
            &&& next.in_betting_stage
            &&& next.team[0] == settle(self.team[0], bets[0], tricks_of(ps[0]), bets[2], tricks_of(ps[2]))
            &&& next.team[1] == settle(self.team[1], bets[1], tricks_of(ps[1]), bets[3], tricks_of(ps[3]))
            &&& next.team[0].tricks + next.team[1].tricks == 13
            &&& next.is_over == (self.is_over || next.team[0].cumulative_points
                >= self.config.max_points || next.team[1].cumulative_points
                >= self.config.max_points)
        }
    }

    /// A fresh score keeper for a game that ends at `max_points`.
    pub fn new(max_points: i32) -> (r: Scoring)
        ensures
            r.wf(),
            r.config.max_points == max_points,
            r.in_betting_stage,
            !r.is_over,
            r.trick == 0,
            no_tricks_won(r.players),
            forall|k: int| 0 <= k < 2 ==> #[trigger] r.team[k] == TeamState::default_spec(),
    {
        Scoring {
            team: [TeamState::default(), TeamState::default()],
            in_betting_stage: true,
            players: [
                PlayerState::default(),
                PlayerState::default(),
                PlayerState::default(),
                PlayerState::default(),
            ],
            bets_placed: [Bet::Amount(0), Bet::Amount(0), Bet::Amount(0), Bet::Amount(0)],
            is_over: false,
            trick: 0,
            config: GameConfig { max_points },
        }
    }

    /// The score at which the game ends.
    pub fn max_points(&self) -> (r: i32)
        ensures
            r == self.config.max_points,
    {
        self.config.max_points
    }

    /// Records the bet of the player in seat `current_player_index`.
    pub fn add_bet(&mut self, current_player_index: usize, bet: Bet)
        requires
            current_player_index < 4,
        ensures
            final(self).bets_placed@ == old(self).bets_placed@.update(current_player_index as int, bet),
            final(self).config == old(self).config,
            final(self).team == old(self).team,
            final(self).players == old(self).players,
            final(self).in_betting_stage == old(self).in_betting_stage,
            final(self).is_over == old(self).is_over,
            final(self).trick == old(self).trick,
    {
        self.bets_placed[current_player_index] = bet;
    }

    /// Closes the betting stage: clears the trick wins and the round's bags and points,
    /// and starts trick play at the first trick.
    pub fn betting_over(&mut self)
        ensures
            final(self).wf(),
            final(self).trick == 0,
            !final(self).in_betting_stage,
            no_tricks_won(final(self).players),
            final(self).config == old(self).config,
            final(self).bets_placed == old(self).bets_placed,
            final(self).is_over == old(self).is_over,
            forall|k: int|
                0 <= k < 2 ==> (#[trigger] final(self).team[k]) == (TeamState {
                    game_bags: 0,
                    game_points: 0,
                    ..old(self).team[k]
                }),
    {
        self.trick = 0;
        self.in_betting_stage = false;
        let mut p: usize = 0;
        while p < 4
            invariant
                p <= 4,
                self.trick == 0,
                !self.in_betting_stage,
                self.config == old(self).config,
                self.bets_placed == old(self).bets_placed,
                self.is_over == old(self).is_over,
                self.team == old(self).team,
                forall|q: int, t: int|
                    0 <= q < p && 0 <= t < 13 ==> !#[trigger] self.players[q].won_trick[t],
            decreases 4 - p,
        {
            self.players[p] = PlayerState::default();
            p = p + 1;
        }
        self.team[0].game_bags = 0;
        self.team[1].game_bags = 0;
        self.team[0].game_points = 0;
        self.team[1].game_points = 0;
    }

    /// Records a played trick, given its four cards in the order played and the seat
    /// that led it, and returns the winning seat. The thirteenth trick settles the
    /// round for both teams, ends the game if either team has reached the maximum
    /// score, and returns the score keeper to the betting stage.
    pub fn trick(&mut self, starting_player_index: usize, cards: &Vec<Card>) -> (r: usize)
        requires
            old(self).wf(),
            !old(self).in_betting_stage,
            cards@.len() == 4,
        ensures
            r == trick_winner(starting_player_index as int, cards@),
            r < 4,
            old(self).records_trick(*final(self), r as int),
    {
        let winner = get_trick_winner(starting_player_index, cards);
        let t = self.trick;
        self.players[winner].won_trick[t] = true;
        proof {
            assert forall|u: int| 0 <= u < 13 implies #[trigger] winners_at(self.players, u)
                == if u <= t {
                1int
            } else {
                0
            } by {
                assert(winners_at(old(self).players, u) == if u < t {
                    1int
                } else {
                    0
                });
            }
        }
        if t == 12 {
            proof {
                lemma_tricks_sum(self.players, 13);
                lemma_won_count_bounds(self.players[0].won_trick@, 13);
                lemma_won_count_bounds(self.players[1].won_trick@, 13);
                lemma_won_count_bounds(self.players[2].won_trick@, 13);
                lemma_won_count_bounds(self.players[3].won_trick@, 13);
            }
            let p0 = self.players[0];
            let p1 = self.players[1];
            let p2 = self.players[2];
            let p3 = self.players[3];
            self.team[0].calculate_round_totals(self.bets_placed[0], &p0, self.bets_placed[2], &p2);
            self.team[1].calculate_round_totals(self.bets_placed[1], &p1, self.bets_placed[3], &p3);
            if self.team[0].cumulative_points >= self.config.max_points
                || self.team[1].cumulative_points >= self.config.max_points {
                self.is_over = true;
            }
            self.in_betting_stage = true;
        } else {
            self.trick = self.trick + 1;
        }
        winner
    }

    pub fn is_over(&self) -> (r: bool)
        ensures
            r == self.is_over,
    {
        self.is_over
    }

    pub fn is_in_betting_stage(&self) -> (r: bool)
        ensures
            r == self.in_betting_stage,
    {
        self.in_betting_stage
    }
}

impl Default for Scoring {
    /// A fresh score keeper for a game that ends at 500 points.
    fn default() -> (r: Scoring)
        ensures
            r.wf(),
            r.config.max_points == 500,
            r.in_betting_stage,
            !r.is_over,
    {
        Scoring::new(500)
    }
}

} // verus!
