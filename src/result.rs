use vstd::prelude::*;

verus! {

/// Why an action or a query was refused.
#[derive(Debug, PartialEq, Eq, Structural, Clone, Copy)]
pub enum SpadesError {
    InvalidUuid,
    GameNotStarted,
    GameCompleted,
    GameNotCompleted,
    BetImproperSeenHand,
    CardIncorrectSuit,
    CardNotInHand,
    ImproperGameStage,
    InternalError,
}

/// The message that describes an error.
pub open spec fn error_message(e: SpadesError) -> Seq<char> {
    match e {
        SpadesError::InvalidUuid => "invalid Uuid"@,
        SpadesError::GameNotStarted => "game not started"@,
        SpadesError::GameCompleted => "game is complete"@,
        SpadesError::GameNotCompleted => "game is not complete"@,
        SpadesError::BetImproperSeenHand => "blind nil bet improper; seen hand"@,
        SpadesError::CardIncorrectSuit => "card of incorrect suit"@,
        SpadesError::CardNotInHand => "card not in hand"@,
        SpadesError::ImproperGameStage => "improper stage of game to take that action"@,
        SpadesError::InternalError => "spades crate internal error"@,
    }
}

impl SpadesError {
    /// A short description of the error.
    pub fn message(&self) -> (r: &'static str)
        ensures
            r@ == error_message(*self),
    {
        match self {
            SpadesError::InvalidUuid => {
                proof {
                    reveal_strlit("invalid Uuid");
                }
                "invalid Uuid"
            },
            SpadesError::GameNotStarted => {
                proof {
                    reveal_strlit("game not started");
                }
                "game not started"
            },
            SpadesError::GameCompleted => {
                proof {
                    reveal_strlit("game is complete");
                }
                "game is complete"
            },
            SpadesError::GameNotCompleted => {
                proof {
                    reveal_strlit("game is not complete");
                }
                "game is not complete"
            },
            SpadesError::BetImproperSeenHand => {
                proof {
                    reveal_strlit("blind nil bet improper; seen hand");
                }
                "blind nil bet improper; seen hand"
            },
            SpadesError::CardIncorrectSuit => {
                proof {
                    reveal_strlit("card of incorrect suit");
                }
                "card of incorrect suit"
            },
            SpadesError::CardNotInHand => {
                proof {
                    reveal_strlit("card not in hand");
                }
                "card not in hand"
            },
            SpadesError::ImproperGameStage => {
                proof {
                    reveal_strlit("improper stage of game to take that action");
                }
                "improper stage of game to take that action"
            },
            SpadesError::InternalError => {
                proof {
                    reveal_strlit("spades crate internal error");
                }
                "spades crate internal error"
            },
        }
    }
}

} // verus!
