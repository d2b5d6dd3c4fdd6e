use vstd::prelude::*;

verus! {

/// The two sides of the game: `First` moves first (black), `Second` answers (white).
#[derive(Clone, Copy, Debug, PartialEq, Eq, Structural)]
pub enum Player {
    First,
    Second,
}

impl Player {
    /// The side that moves after `self`.
    pub fn opponent(&self) -> (r: Player)
        ensures
            r == self.opponent_spec(),
    {
        match self {
            Player::First => Player::Second,
            Player::Second => Player::First,
        }
    }

    pub open spec fn opponent_spec(self) -> Player {
        match self {
            Player::First => Player::Second,
            Player::Second => Player::First,
        }
    }
}

} // verus!
