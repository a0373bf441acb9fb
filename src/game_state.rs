use vstd::prelude::*;

verus! {

/// The stage of a game.
///
/// `Betting` and `Trick` carry the number of players, 0 to 3, who have already bet or
/// played a card in the current rotation. `Trick(2)`, for instance, means that two
/// cards of the current trick have been played.
#[derive(Debug, Default, PartialEq, Clone, Copy, Eq, Structural, PartialOrd, Ord, Hash)]
pub enum State {
    #[default]
    GameNotStarted,
    Betting(usize),
    Trick(usize),
    GameCompleted,
}

} // verus!
