//! Game move types.

use vstd::prelude::*;
use crate::classic::card::{Card, Suit};
use crate::classic::game_type::GameType;

verus! {

/// A legal action a player can take.
#[derive(Debug, Clone, Copy, PartialEq, Eq, Structural)]
pub enum GameMove {
    /// Call trump suit (during TrumpCalling phase)
    CallTrump(Suit),
    /// Pass during bidding
    Pass,
    /// Declare a game type
    DeclareGame(GameType),
    /// Play a card
    PlayCard(Card),
    /// Flecken (double) - only when allowed and applicable
    Flecken,
    /// Declare Zwanziger (20 pts) - Koenig+Ober of same suit
    AnnounceZwanziger,
    /// Declare Vierziger (40 pts) - Koenig+Ober of trump
    AnnounceVierziger,
}

} // verus!
