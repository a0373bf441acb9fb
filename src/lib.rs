//! A rules engine for the four-player trick-taking card game Spades.
//!
//! A game runs through the stages start -> four bets -> thirteen tricks of four
//! cards -> settlement, and then back to betting, until a team's cumulative
//! score reaches the configured maximum at the close of a round.

mod cards;

pub use cards::{deal_four_players, get_trick_winner, new_deck, shuffle, Card, Rank, Suit};
mod scoring;
mod game_state;
mod result;
mod game;

pub use game::{BetResult, Game, PlayCardResult, Player, Uid};
pub use game_state::State;
pub use result::SpadesError;
pub use scoring::{Bet, PlayerState, Scoring, TeamState};
