use vstd::prelude::*;
use crate::model::card::{Card, Suit};
use crate::model::game_type::GameType;
use crate::model::player::PlayerId;

verus! {

/// Actions a player can take during different phases of the game.
#[derive(Debug, Clone, Copy, PartialEq, Eq, Structural)]
pub enum Action {
    /// Call a trump suit (Rufer's first action after seeing initial 3 cards).
    CallTrump(Suit),
    /// Flip a card to determine trump.
    FlipForTrump(usize),
    /// Announce a game type during the bidding phase.
    AnnounceGame(GameAnnouncement),
    /// Pass during bidding.
    Pass,
    /// Pick up the talon cards.
    TakeTalon,
    /// Discard two cards after picking up talon.
    DiscardToTalon(Card, Card),
    /// Play a card during a trick.
    PlayCard(Card),
    /// Announce a marriage (Zwanziger or Vierziger) before playing a card.
    AnnounceMarriage(Suit),
    /// Spritzen (double the stakes).
    Spritzen,
    /// Accept the Spritzen.
    AcceptSpritzen,
    /// Request a redeal (when dealt three Jacks).
    RequestRedeal,
}

/// A game announcement with optional "without talon" modifier.
#[derive(Debug, Clone, Copy, PartialEq, Eq, Structural)]
pub struct GameAnnouncement {
    pub game_type: GameType,
    pub without_talon: bool,
}

impl GameAnnouncement {
    pub fn new(game_type: GameType, without_talon: bool) -> (a: Self)
        ensures
            a == (GameAnnouncement { game_type, without_talon }),
    {
        Self { game_type, without_talon }
    }
}

/// The result of completing a single deal.
#[derive(Debug, Clone)]
pub struct DealResult {
    pub game_type: GameType,
    pub winner: Winner,
    pub points_awarded: u32,
}

/// Who won the deal.
#[derive(Debug, Clone, Copy, PartialEq, Eq, Structural)]
pub enum Winner {
    Announcer(PlayerId),
    Defenders(PlayerId, PlayerId),
}

/// Outcome details for a normal game.
#[derive(Debug, Clone, Copy, PartialEq, Eq, Structural)]
pub enum NormalGameOutcome {
    /// Opponent got at least 33 points: winner gets 1 point.
    OnePoint,
    /// Opponent got fewer than 33 points: winner gets 2 points (Schneider).
    TwoPoints,
    /// Opponent got no tricks: winner gets 3 points.
    ThreePoints,
}

impl NormalGameOutcome {
    pub open spec fn points_spec(self) -> nat {
        match self {
            NormalGameOutcome::OnePoint => 1,
            NormalGameOutcome::TwoPoints => 2,
            NormalGameOutcome::ThreePoints => 3,
        }
    }

    pub fn points(&self) -> (p: u32)
        ensures
            p == self.points_spec(),
    {
        match self {
            NormalGameOutcome::OnePoint => 1,
            NormalGameOutcome::TwoPoints => 2,
            NormalGameOutcome::ThreePoints => 3,
        }
    }

    pub open spec fn from_defender_points_spec(points: nat, has_trick: bool) -> NormalGameOutcome {
        if !has_trick {
            NormalGameOutcome::ThreePoints
        } else if points < 33 {
            NormalGameOutcome::TwoPoints
        } else {
            NormalGameOutcome::OnePoint
        }
    }

    /// Three points if the defenders took no trick, two under 33 card points, else one.
    pub fn from_defender_points(defender_card_points: u32, defender_has_trick: bool) -> (o: Self)
        ensures
            o == Self::from_defender_points_spec(defender_card_points as nat, defender_has_trick),
    {
        if !defender_has_trick {
            NormalGameOutcome::ThreePoints
        } else if defender_card_points < 33 {
            NormalGameOutcome::TwoPoints
        } else {
            NormalGameOutcome::OnePoint
        }
    }
}

} // verus!
