//! The three seats of the game.

use vstd::prelude::*;
use vstd::string::StringExecFns;

verus! {

/// The three players in Dreierschnapsen. One player (the declarer) plays against the other
/// two.
#[derive(Debug, Clone, Copy, PartialEq, Eq, Hash, PartialOrd, Ord, Structural)]
pub enum Player {
    /// The Rufer (caller) - sits left of the dealer, calls trump, plays first in normal game
    Rufer,
    /// The player to the left of the Rufer (clockwise)
    LeftOpponent,
    /// The player to the right of the Rufer (the dealer)
    RightOpponent,
}

impl Player {
    /// All players in turn order (Rufer plays first in normal game).
    pub fn all() -> (a: [Player; 3])
        ensures
            a@ == seq![Player::Rufer, Player::LeftOpponent, Player::RightOpponent],
    {
        [Player::Rufer, Player::LeftOpponent, Player::RightOpponent]
    }

    pub open spec fn index_spec(&self) -> nat {
        match self {
            Player::Rufer => 0,
            Player::LeftOpponent => 1,
            Player::RightOpponent => 2,
        }
    }

    /// The player whose index is `i` (taken modulo 3).
    pub open spec fn at_index(i: nat) -> Player {
        if i % 3 == 0 {
            Player::Rufer
        } else if i % 3 == 1 {
            Player::LeftOpponent
        } else {
            Player::RightOpponent
        }
    }

    /// The next player in turn order (clockwise).
    pub fn next(&self) -> (p: Player)
        ensures
            p == Player::at_index(self.index_spec() + 1),
    {
        match self {
            Player::Rufer => Player::LeftOpponent,
            Player::LeftOpponent => Player::RightOpponent,
            Player::RightOpponent => Player::Rufer,
        }
    }

    /// The previous player in turn order (counter-clockwise).
    pub fn prev(&self) -> (p: Player)
        ensures
            p == Player::at_index(self.index_spec() + 2),
    {
        match self {
            Player::Rufer => Player::RightOpponent,
            Player::LeftOpponent => Player::Rufer,
            Player::RightOpponent => Player::LeftOpponent,
        }
    }

    /// Index for array access (0, 1, 2).
    pub fn index(&self) -> (i: usize)
        ensures
            i == self.index_spec(),
    {
        match self {
            Player::Rufer => 0,
            Player::LeftOpponent => 1,
            Player::RightOpponent => 2,
        }
    }

    /// Whether this player is an opponent of the declarer.
    pub fn is_opponent_of(&self, declarer: Player) -> (b: bool)
        ensures
            b == (*self != declarer),
    {
        *self != declarer
    }

    pub open spec fn label_spec(&self) -> Seq<char> {
        match self {
            Player::Rufer => "Rufer"@,
            Player::LeftOpponent => "Linker Gegner"@,
            Player::RightOpponent => "Rechter Gegner"@,
        }
    }

    /// The German name of the seat.
    pub fn label(&self) -> (s: String)
        ensures
            s@ == self.label_spec(),
    {
        match self {
            Player::Rufer => String::from_str("Rufer"),
            Player::LeftOpponent => String::from_str("Linker Gegner"),
            Player::RightOpponent => String::from_str("Rechter Gegner"),
        }
    }
}

/// The next and the previous seat undo each other, and three steps come back.
pub proof fn lemma_turn_order(p: Player)
    ensures
        Player::at_index(Player::at_index(p.index_spec() + 1).index_spec() + 2) == p,
        Player::at_index(Player::at_index(p.index_spec() + 2).index_spec() + 1) == p,
        Player::at_index(p.index_spec() + 3) == p,
{
}

} // verus!
