//! Core domain model for Dreierschnapsen: cards, seats, the declarable game variants with
//! their metadata, rulesets, doubling, and the state of a game.

use vstd::prelude::*;
use vstd::string::StringExecFns;
use crate::seq_facts::{lemma_filter_take_step, lemma_take_full};

pub mod priority;

verus! {

pub const PLAYER_COUNT: usize = 3;
pub const HAND_SIZE: usize = 6;
pub const TALON_SIZE: usize = 2;
pub const MATCH_TARGET_POINTS: u16 = 24;

#[derive(Debug, Clone, Copy, PartialEq, Eq, Hash, Structural)]
pub enum Suit {
    Hearts,
    Diamonds,
    Spades,
    Clubs,
}

impl Suit {
    pub const ALL: [Suit; 4] = [Suit::Hearts, Suit::Diamonds, Suit::Spades, Suit::Clubs];

    /// The suits in the order of `ALL`.
    pub open spec fn all_spec() -> Seq<Suit> {
        seq![Suit::Hearts, Suit::Diamonds, Suit::Spades, Suit::Clubs]
    }

    pub open spec fn short_spec(self) -> Seq<char> {
        match self {
            Suit::Hearts => "H"@,
            Suit::Diamonds => "D"@,
            Suit::Spades => "S"@,
            Suit::Clubs => "C"@,
        }
    }

    /// The one-letter name of the suit.
    pub fn short(self) -> (s: &'static str)
        ensures
            s@ == self.short_spec(),
    {
        match self {
            Suit::Hearts => "H",
            Suit::Diamonds => "D",
            Suit::Spades => "S",
            Suit::Clubs => "C",
        }
    }
}

#[derive(Debug, Clone, Copy, PartialEq, Eq, Hash, Structural)]
pub enum Rank {
    Ace,
    Ten,
    King,
    Ober,
    Under,
}

impl Rank {
    pub const ALL: [Rank; 5] = [Rank::Ace, Rank::Ten, Rank::King, Rank::Ober, Rank::Under];

    /// The ranks in the order of `ALL`.
    pub open spec fn all_spec() -> Seq<Rank> {
        seq![Rank::Ace, Rank::Ten, Rank::King, Rank::Ober, Rank::Under]
    }

    pub open spec fn short_spec(self) -> Seq<char> {
        match self {
            Rank::Ace => "A"@,
            Rank::Ten => "10"@,
            Rank::King => "K"@,
            Rank::Ober => "O"@,
            Rank::Under => "U"@,
        }
    }

    /// The short name of the rank.
    pub fn short(self) -> (s: &'static str)
        ensures
            s@ == self.short_spec(),
    {
        match self {
            Rank::Ace => "A",
            Rank::Ten => "10",
            Rank::King => "K",
            Rank::Ober => "O",
            Rank::Under => "U",
        }
    }

    /// Ace 11, Ten 10, King 4, Ober 3, Under 2.
    pub open spec fn card_points_spec(self) -> u8 {
        match self {
            Rank::Ace => 11,
            Rank::Ten => 10,
            Rank::King => 4,
            Rank::Ober => 3,
            Rank::Under => 2,
        }
    }

    pub fn card_points(self) -> (p: u8)
        ensures
            p == self.card_points_spec(),
    {
        match self {
            Rank::Ace => 11,
            Rank::Ten => 10,
            Rank::King => 4,
            Rank::Ober => 3,
            Rank::Under => 2,
        }
    }

    /// The strength of the rank under an order, from 5 (strongest) down to 1: the standard
    /// order Ace, Ten, King, Ober, Under, and the orders where the Ace, the Ten or the King
    /// moves to the bottom.
    pub open spec fn strength_spec(self, order: RankOrder) -> u8 {
        match order {
            RankOrder::Standard => match self {
                Rank::Ace => 5,
                Rank::Ten => 4,
                Rank::King => 3,
                Rank::Ober => 2,
                Rank::Under => 1,
            },
            RankOrder::AceLow => match self {
                Rank::Ten => 5,
                Rank::King => 4,
                Rank::Ober => 3,
                Rank::Under => 2,
                Rank::Ace => 1,
            },
            RankOrder::TenLow => match self {
                Rank::King => 5,
                Rank::Ober => 4,
                Rank::Under => 3,
                Rank::Ace => 2,
                Rank::Ten => 1,
            },
            RankOrder::KingLow => match self {
                Rank::Ober => 5,
                Rank::Under => 4,
                Rank::Ace => 3,
                Rank::Ten => 2,
                Rank::King => 1,
            },
        }
    }

    pub fn strength(self, order: RankOrder) -> (s: u8)
        ensures
            s == self.strength_spec(order),
    {
        match order {
            RankOrder::Standard => match self {
                Rank::Ace => 5,
                Rank::Ten => 4,
                Rank::King => 3,
                Rank::Ober => 2,
                Rank::Under => 1,
            },
            RankOrder::AceLow => match self {
                Rank::Ten => 5,
                Rank::King => 4,
                Rank::Ober => 3,
                Rank::Under => 2,
                Rank::Ace => 1,
            },
            RankOrder::TenLow => match self {
                Rank::King => 5,
                Rank::Ober => 4,
                Rank::Under => 3,
                Rank::Ace => 2,
                Rank::Ten => 1,
            },
            RankOrder::KingLow => match self {
                Rank::Ober => 5,
                Rank::Under => 4,
                Rank::Ace => 3,
                Rank::Ten => 2,
                Rank::King => 1,
            },
        }
    }
}

/// Under every order the five ranks have five different strengths, so two cards of one
/// suit never tie.
pub proof fn lemma_strengths_distinct(a: Rank, b: Rank, order: RankOrder)
    ensures
        a != b ==> a.strength_spec(order) != b.strength_spec(order),
        1 <= a.strength_spec(order) <= 5,
{
}

#[derive(Debug, Clone, Copy, PartialEq, Eq, Hash, Structural)]
pub struct Card {
    pub suit: Suit,
    pub rank: Rank,
}

impl Card {
    pub fn new(suit: Suit, rank: Rank) -> (c: Self)
        ensures
            c == (Card { suit, rank }),
    {
        Self { suit, rank }
    }

    pub fn points(self) -> (p: u8)
        ensures
            p == self.rank.card_points_spec(),
    {
        self.rank.card_points()
    }

    pub fn strength(self, order: RankOrder) -> (s: u8)
        ensures
            s == self.rank.strength_spec(order),
    {
        self.rank.strength(order)
    }

    /// The rank's short name followed by the suit's letter, as in "AH".
    pub open spec fn label_spec(self) -> Seq<char> {
        self.rank.short_spec() + self.suit.short_spec()
    }

    pub fn label(self) -> (s: String)
        ensures
            s@ == self.label_spec(),
    {
        String::from_str(self.rank.short()).concat(self.suit.short())
    }
}

/// The twenty cards suit by suit (Hearts, Diamonds, Spades, Clubs), each from Ace to Under.
pub open spec fn deck_spec() -> Seq<Card> {
    Seq::new(20, |i: int| Card { suit: Suit::all_spec()[i / 5], rank: Rank::all_spec()[i % 5] })
}

proof fn lemma_div_mod_five(s: int, r: int)
    requires
        0 <= s,
        0 <= r < 5,
    ensures
        (5 * s + r) / 5 == s,
        (5 * s + r) % 5 == r,
{
    assert((5 * s + r) / 5 == s) by (nonlinear_arith)
        requires
            0 <= s,
            0 <= r < 5,
    ;
    assert((5 * s + r) % 5 == r) by (nonlinear_arith)
        requires
            0 <= s,
            0 <= r < 5,
    ;
}

/// The twenty cards are all different.
pub proof fn lemma_deck_distinct()
    ensures
        deck_spec().len() == 20,
        forall|i: int, j: int| 0 <= i < j < 20 ==> deck_spec()[i] != deck_spec()[j],
{
    assert forall|i: int, j: int| 0 <= i < j < 20 implies deck_spec()[i] != deck_spec()[j] by {
        lemma_div_mod_five(i / 5, i % 5);
        lemma_div_mod_five(j / 5, j % 5);
        assert(i == 5 * (i / 5) + i % 5);
        assert(j == 5 * (j / 5) + j % 5);
    }
}

/// A full deck in the order of `deck_spec`.
pub fn schnapsen_deck() -> (deck: Vec<Card>)
    ensures
        deck@ == deck_spec(),
{
    let mut cards: Vec<Card> = Vec::with_capacity(20);
    let suits = Suit::ALL;
    let ranks = Rank::ALL;
    assert(suits@ == Suit::all_spec());
    assert(ranks@ == Rank::all_spec());
    let mut si: usize = 0;
    while si < 4
        invariant
            si <= 4,
            suits@ == Suit::all_spec(),
            ranks@ == Rank::all_spec(),
            cards@ == deck_spec().take(5 * si as int),
        decreases 4 - si,
    {
        let mut ri: usize = 0;
        while ri < 5
            invariant
                si < 4,
                ri <= 5,
                suits@ == Suit::all_spec(),
                ranks@ == Rank::all_spec(),
                cards@ == deck_spec().take(5 * si + ri),
            decreases 5 - ri,
        {
            proof {
                lemma_div_mod_five(si as int, ri as int);
            }
            cards.push(Card::new(suits[si], ranks[ri]));
            assert(cards@ =~= deck_spec().take(5 * si + ri + 1));
            ri = ri + 1;
        }
        si = si + 1;
    }
    assert(deck_spec().take(20) =~= deck_spec());
    cards
}

#[derive(Debug, Clone, Copy, PartialEq, Eq, Hash, Structural)]
pub enum PlayerId {
    One,
    Two,
    Three,
}

impl PlayerId {
    pub const ALL: [PlayerId; 3] = [PlayerId::One, PlayerId::Two, PlayerId::Three];

    /// The seats in the order of `ALL`.
    pub open spec fn all_spec() -> Seq<PlayerId> {
        seq![PlayerId::One, PlayerId::Two, PlayerId::Three]
    }

    pub open spec fn index_spec(self) -> nat {
        match self {
            PlayerId::One => 0,
            PlayerId::Two => 1,
            PlayerId::Three => 2,
        }
    }

    pub fn as_index(self) -> (i: usize)
        ensures
            i == self.index_spec(),
    {
        match self {
            PlayerId::One => 0,
            PlayerId::Two => 1,
            PlayerId::Three => 2,
        }
    }

    /// One, Two, Three, then One again.
    pub open spec fn next_spec(self) -> PlayerId {
        match self {
            PlayerId::One => PlayerId::Two,
            PlayerId::Two => PlayerId::Three,
            PlayerId::Three => PlayerId::One,
        }
    }

    pub fn next_clockwise(self) -> (p: Self)
        ensures
            p == self.next_spec(),
    {
        match self {
            PlayerId::One => PlayerId::Two,
            PlayerId::Two => PlayerId::Three,
            PlayerId::Three => PlayerId::One,
        }
    }

    pub open spec fn label_spec(self) -> Seq<char> {
        match self {
            PlayerId::One => "P1"@,
            PlayerId::Two => "P2"@,
            PlayerId::Three => "P3"@,
        }
    }

    /// "P1", "P2" or "P3".
    pub fn label(self) -> (s: String)
        ensures
            s@ == self.label_spec(),
    {
        match self {
            PlayerId::One => String::from_str("P1"),
            PlayerId::Two => String::from_str("P2"),
            PlayerId::Three => String::from_str("P3"),
        }
    }
}

/// Going clockwise three times comes back to the same seat, and every seat is reached.
pub proof fn lemma_clockwise_cycle(p: PlayerId)
    ensures
        p.next_spec().next_spec().next_spec() == p,
        p.next_spec() != p,
        p.next_spec().next_spec() != p,
        p.next_spec().index_spec() == (p.index_spec() + 1) % 3,
{
}

#[derive(Debug, Clone, Copy, PartialEq, Eq, Hash, Structural)]
pub enum RankOrder {
    Standard,
    AceLow,
    TenLow,
    KingLow,
}

#[derive(Debug, Clone, Copy, PartialEq, Eq, Hash, Structural)]
pub enum TrumpPolicy {
    CalledTrump,
    NoTrump,
}

#[derive(Debug, Clone, Copy, PartialEq, Eq, Hash, Structural)]
pub enum DeclarerRestriction {
    AnyPlayer,
    CallerOnly,
    DefenderOnly,
}

#[derive(Debug, Clone, Copy, PartialEq, Eq, Hash, Structural)]
pub enum PlayerRole {
    Caller,
    Defender,
}

#[derive(Debug, Clone, Copy, PartialEq, Eq, Hash)]
pub enum GameObjective {
    Reach66OrLastTrick,
    TakeNoTricks,
    TakeAllTricks,
    SchnapserPattern,
    HoldAllCardsOfSingleSuit,
    HoldAllTrumpCards,
    Custom(&'static str),
}

#[derive(Debug, Clone, Copy, PartialEq, Eq, Hash, Structural)]
pub enum GameVariant {
    Normal,
    Bettler,
    Assenbettler,
    AssBettler,
    Schnapser,
    Plauderer,
    Damengang,
    Koenigsgang,
    Gang,
    Zehnergang,
    Bauernloch,
    Bauernschnapser,
    Kontraschnapser,
    Farbringerl,
    Kontrabauernschnapser,
    Herrenschnapser,
}

impl GameVariant {
    pub const ALL: [GameVariant; 16] = [
        GameVariant::Normal,
        GameVariant::Bettler,
        GameVariant::Assenbettler,
        GameVariant::AssBettler,
        GameVariant::Schnapser,
        GameVariant::Plauderer,
        GameVariant::Damengang,
        GameVariant::Koenigsgang,
        GameVariant::Gang,
        GameVariant::Zehnergang,
        GameVariant::Bauernloch,
        GameVariant::Bauernschnapser,
        GameVariant::Kontraschnapser,
        GameVariant::Farbringerl,
        GameVariant::Kontrabauernschnapser,
        GameVariant::Herrenschnapser,
    ];

    /// The variants in the order of `ALL`.
    pub open spec fn all_spec() -> Seq<GameVariant> {
        seq![
            GameVariant::Normal,
        GameVariant::Bettler,
        GameVariant::Assenbettler,
        GameVariant::AssBettler,
        GameVariant::Schnapser,
        GameVariant::Plauderer,
        GameVariant::Damengang,
        GameVariant::Koenigsgang,
        GameVariant::Gang,
        GameVariant::Zehnergang,
        GameVariant::Bauernloch,
        GameVariant::Bauernschnapser,
        GameVariant::Kontraschnapser,
        GameVariant::Farbringerl,
        GameVariant::Kontrabauernschnapser,
        GameVariant::Herrenschnapser,
        ]
    }

    pub open spec fn base_points_spec(self) -> u8 {
        match self {
            GameVariant::Normal => 1,
            GameVariant::Bettler => 4,
            GameVariant::Assenbettler => 5,
            GameVariant::AssBettler => 5,
            GameVariant::Schnapser => 6,
            GameVariant::Plauderer => 7,
            GameVariant::Damengang => 7,
            GameVariant::Koenigsgang => 8,
            GameVariant::Gang => 9,
            GameVariant::Zehnergang => 10,
            GameVariant::Bauernloch => 12,
            GameVariant::Bauernschnapser => 12,
            GameVariant::Kontraschnapser => 12,
            GameVariant::Farbringerl => 18,
            GameVariant::Kontrabauernschnapser => 24,
            GameVariant::Herrenschnapser => 24,
        }
    }

    pub fn base_points(self) -> (p: u8)
        ensures
            p == self.base_points_spec(),
    {
        match self {
            GameVariant::Normal => 1,
            GameVariant::Bettler => 4,
            GameVariant::Assenbettler => 5,
            GameVariant::AssBettler => 5,
            GameVariant::Schnapser => 6,
            GameVariant::Plauderer => 7,
            GameVariant::Damengang => 7,
            GameVariant::Koenigsgang => 8,
            GameVariant::Gang => 9,
            GameVariant::Zehnergang => 10,
            GameVariant::Bauernloch => 12,
            GameVariant::Bauernschnapser => 12,
            GameVariant::Kontraschnapser => 12,
            GameVariant::Farbringerl => 18,
            GameVariant::Kontrabauernschnapser => 24,
            GameVariant::Herrenschnapser => 24,
        }
    }

    /// The variants without trump: the Bettler games, the Gang games and Farbringerl; the
    /// others, the Plauderer among them, are played with the called trump.
    pub open spec fn trump_policy_spec(self) -> TrumpPolicy {
        match self {
            GameVariant::Bettler | GameVariant::Assenbettler | GameVariant::AssBettler | GameVariant::Gang
            | GameVariant::Zehnergang | GameVariant::Koenigsgang | GameVariant::Damengang
            | GameVariant::Farbringerl => TrumpPolicy::NoTrump,
            _ => TrumpPolicy::CalledTrump,
        }
    }

    pub fn trump_policy(self) -> (p: TrumpPolicy)
        ensures
            p == self.trump_policy_spec(),
    {
        match self {
            GameVariant::Bettler | GameVariant::Assenbettler | GameVariant::AssBettler | GameVariant::Gang
            | GameVariant::Zehnergang | GameVariant::Koenigsgang | GameVariant::Damengang
            | GameVariant::Farbringerl => TrumpPolicy::NoTrump,
            GameVariant::Normal | GameVariant::Plauderer | GameVariant::Schnapser | GameVariant::Bauernloch
            | GameVariant::Bauernschnapser | GameVariant::Kontraschnapser
            | GameVariant::Kontrabauernschnapser | GameVariant::Herrenschnapser => TrumpPolicy::CalledTrump,
        }
    }

    pub open spec fn rank_order_spec(self) -> RankOrder {
        match self {
            GameVariant::Assenbettler | GameVariant::Zehnergang | GameVariant::Bauernloch => RankOrder::AceLow,
            GameVariant::Koenigsgang => RankOrder::TenLow,
            GameVariant::Damengang => RankOrder::KingLow,
            _ => RankOrder::Standard,
        }
    }

    pub fn rank_order(self) -> (o: RankOrder)
        ensures
            o == self.rank_order_spec(),
    {
        match self {
            GameVariant::Assenbettler | GameVariant::Zehnergang | GameVariant::Bauernloch => RankOrder::AceLow,
            GameVariant::Koenigsgang => RankOrder::TenLow,
            GameVariant::Damengang => RankOrder::KingLow,
            _ => RankOrder::Standard,
        }
    }

    pub open spec fn objective_spec(self) -> GameObjective {
        match self {
            GameVariant::Normal => GameObjective::Reach66OrLastTrick,
            GameVariant::Bettler | GameVariant::Assenbettler | GameVariant::AssBettler => GameObjective::TakeNoTricks,
            GameVariant::Schnapser | GameVariant::Kontraschnapser => GameObjective::SchnapserPattern,
            GameVariant::Gang | GameVariant::Zehnergang | GameVariant::Koenigsgang | GameVariant::Damengang
            | GameVariant::Bauernloch | GameVariant::Bauernschnapser
            | GameVariant::Kontrabauernschnapser => GameObjective::TakeAllTricks,
            GameVariant::Farbringerl => GameObjective::HoldAllCardsOfSingleSuit,
            GameVariant::Herrenschnapser => GameObjective::HoldAllTrumpCards,
            GameVariant::Plauderer => GameObjective::Custom("Regional special game"),
        }
    }

    pub fn objective(self) -> (o: GameObjective)
        ensures
            o == self.objective_spec(),
    {
        match self {
            GameVariant::Normal => GameObjective::Reach66OrLastTrick,
            GameVariant::Bettler | GameVariant::Assenbettler | GameVariant::AssBettler => GameObjective::TakeNoTricks,
            GameVariant::Schnapser | GameVariant::Kontraschnapser => GameObjective::SchnapserPattern,
            GameVariant::Gang | GameVariant::Zehnergang | GameVariant::Koenigsgang | GameVariant::Damengang
            | GameVariant::Bauernloch | GameVariant::Bauernschnapser
            | GameVariant::Kontrabauernschnapser => GameObjective::TakeAllTricks,
            GameVariant::Farbringerl => GameObjective::HoldAllCardsOfSingleSuit,
            GameVariant::Herrenschnapser => GameObjective::HoldAllTrumpCards,
            GameVariant::Plauderer => GameObjective::Custom("Regional special game"),
        }
    }

    pub open spec fn declarer_restriction_spec(self) -> DeclarerRestriction {
        match self {
            GameVariant::Schnapser | GameVariant::Bauernschnapser | GameVariant::Herrenschnapser
            | GameVariant::Bauernloch => DeclarerRestriction::CallerOnly,
            GameVariant::Kontraschnapser | GameVariant::Kontrabauernschnapser => DeclarerRestriction::DefenderOnly,
            _ => DeclarerRestriction::AnyPlayer,
        }
    }

    pub fn declarer_restriction(self) -> (r: DeclarerRestriction)
        ensures
            r == self.declarer_restriction_spec(),
    {
        match self {
            GameVariant::Schnapser | GameVariant::Bauernschnapser | GameVariant::Herrenschnapser
            | GameVariant::Bauernloch => DeclarerRestriction::CallerOnly,
            GameVariant::Kontraschnapser | GameVariant::Kontrabauernschnapser => DeclarerRestriction::DefenderOnly,
            _ => DeclarerRestriction::AnyPlayer,
        }
    }

    /// Only the Ass-Bettler asks for an Ace in hand.
    pub fn requires_ace_in_hand(self) -> (b: bool)
        ensures
            b == (self == GameVariant::AssBettler),
    {
        matches!(self, GameVariant::AssBettler)
    }

    /// Whether a player in `role` may declare the variant, by its restriction.
    pub open spec fn can_be_declared_by_spec(self, role: PlayerRole) -> bool {
        match self.declarer_restriction_spec() {
            DeclarerRestriction::AnyPlayer => true,
            DeclarerRestriction::CallerOnly => role == PlayerRole::Caller,
            DeclarerRestriction::DefenderOnly => role == PlayerRole::Defender,
        }
    }

    pub fn can_be_declared_by(self, role: PlayerRole) -> (b: bool)
        ensures
            b == self.can_be_declared_by_spec(role),
    {
        match (self.declarer_restriction(), role) {
            (DeclarerRestriction::AnyPlayer, _) => true,
            (DeclarerRestriction::CallerOnly, PlayerRole::Caller) => true,
            (DeclarerRestriction::DefenderOnly, PlayerRole::Defender) => true,
            _ => false,
        }
    }

    /// All metadata of the variant.
    pub open spec fn spec_of(self) -> GameVariantSpec {
        GameVariantSpec {
            base_points: self.base_points_spec(),
            trump_policy: self.trump_policy_spec(),
            rank_order: self.rank_order_spec(),
            objective: self.objective_spec(),
            declarer_restriction: self.declarer_restriction_spec(),
            requires_ace_in_hand: self == GameVariant::AssBettler,
        }
    }

    pub fn spec(self) -> (s: GameVariantSpec)
        ensures
            s == self.spec_of(),
    {
        GameVariantSpec {
            base_points: self.base_points(),
            trump_policy: self.trump_policy(),
            rank_order: self.rank_order(),
            objective: self.objective(),
            declarer_restriction: self.declarer_restriction(),
            requires_ace_in_hand: self.requires_ace_in_hand(),
        }
    }
}

#[derive(Debug, Clone, Copy, PartialEq, Eq, Hash)]
pub struct GameVariantSpec {
    pub base_points: u8,
    pub trump_policy: TrumpPolicy,
    pub rank_order: RankOrder,
    pub objective: GameObjective,
    pub declarer_restriction: DeclarerRestriction,
    pub requires_ace_in_hand: bool,
}

#[derive(Debug, Clone, Copy, PartialEq, Eq, Hash, Structural)]
pub enum GangVsZehnergangRule {
    HigherPointGameWins,
    GangHasPriority,
}

#[derive(Debug, Clone, PartialEq, Eq)]
pub struct Ruleset {
    pub target_points: u16,
    pub countdown_mode: bool,
    pub allowed_variants: Vec<GameVariant>,
    pub allow_flecken: bool,
    pub gang_vs_zehnergang: GangVsZehnergangRule,
}

/// The variants of the classic ruleset.
pub open spec fn classic_variants() -> Seq<GameVariant> {
    seq![
        GameVariant::Normal,
        GameVariant::Bettler,
        GameVariant::Schnapser,
        GameVariant::Gang,
        GameVariant::Bauernschnapser,
        GameVariant::Kontraschnapser,
        GameVariant::Farbringerl,
        GameVariant::Kontrabauernschnapser,
        GameVariant::Herrenschnapser,
    ]
}

impl Ruleset {
    /// Play to 24 points, no countdown, the classic variants, Flecken allowed, and the
    /// higher-point game wins between Gang and Zehnergang.
    pub fn classic() -> (r: Self)
        ensures
            r.target_points == MATCH_TARGET_POINTS,
            !r.countdown_mode,
            r.allowed_variants@ == classic_variants(),
            r.allow_flecken,
            r.gang_vs_zehnergang == GangVsZehnergangRule::HigherPointGameWins,
    {
        Self {
            target_points: MATCH_TARGET_POINTS,
            countdown_mode: false,
            allowed_variants: vec![
                GameVariant::Normal,
                GameVariant::Bettler,
                GameVariant::Schnapser,
                GameVariant::Gang,
                GameVariant::Bauernschnapser,
                GameVariant::Kontraschnapser,
                GameVariant::Farbringerl,
                GameVariant::Kontrabauernschnapser,
                GameVariant::Herrenschnapser,
            ],
            allow_flecken: true,
            gang_vs_zehnergang: GangVsZehnergangRule::HigherPointGameWins,
        }
    }

    /// The classic ruleset with every variant allowed.
    pub fn all_variants() -> (r: Self)
        ensures
            r.target_points == MATCH_TARGET_POINTS,
            !r.countdown_mode,
            r.allowed_variants@ == GameVariant::all_spec(),
            r.allow_flecken,
            r.gang_vs_zehnergang == GangVsZehnergangRule::HigherPointGameWins,
    {
        let all = GameVariant::ALL;
        let mut variants: Vec<GameVariant> = Vec::new();
        let mut i: usize = 0;
        while i < 16
            invariant
                i <= 16,
                all@ == GameVariant::all_spec(),
                variants@ == GameVariant::all_spec().take(i as int),
            decreases 16 - i,
        {
            variants.push(all[i]);
            assert(variants@ =~= GameVariant::all_spec().take(i + 1));
            i = i + 1;
        }
        assert(GameVariant::all_spec().take(16) =~= GameVariant::all_spec());
        Self { allowed_variants: variants, ..Self::classic() }
    }

    pub fn is_variant_allowed(&self, variant: GameVariant) -> (b: bool)
        ensures
            b == self.allowed_variants@.contains(variant),
    {
        let mut i: usize = 0;
        while i < self.allowed_variants.len()
            invariant
                i <= self.allowed_variants@.len(),
                forall|j: int| 0 <= j < i ==> self.allowed_variants@[j] != variant,
            decreases self.allowed_variants@.len() - i,
        {
            if self.allowed_variants[i] == variant {
                return true;
            }
            i = i + 1;
        }
        false
    }

    /// The priority of a variant in bidding: its base points, except that under
    /// `GangHasPriority` the Zehnergang ranks just below the Gang.
    pub open spec fn variant_priority_spec(&self, variant: GameVariant) -> u8 {
        if self.gang_vs_zehnergang == GangVsZehnergangRule::GangHasPriority && variant == GameVariant::Zehnergang {
            (GameVariant::Gang.base_points_spec() - 1) as u8
        } else {
            variant.base_points_spec()
        }
    }

    pub(crate) fn variant_priority(&self, variant: GameVariant) -> (p: u8)
        ensures
            p == self.variant_priority_spec(variant),
    {
        if matches!(self.gang_vs_zehnergang, GangVsZehnergangRule::GangHasPriority) && variant
            == GameVariant::Zehnergang {
            GameVariant::Gang.base_points().saturating_sub(1)
        } else {
            variant.base_points()
        }
    }
}

impl Default for Ruleset {
    fn default() -> (r: Self)
        ensures
            r.target_points == MATCH_TARGET_POINTS,
            !r.countdown_mode,
            r.allowed_variants@ == classic_variants(),
            r.allow_flecken,
            r.gang_vs_zehnergang == GangVsZehnergangRule::HigherPointGameWins,
    {
        Self::classic()
    }
}

#[derive(Debug, Clone, Copy, PartialEq, Eq, Hash, Structural)]
pub enum DealMethod {
    Cut,
    Knock,
}

#[derive(Debug, Clone, Copy, PartialEq, Eq, Hash, Structural)]
pub enum TrumpSelection {
    CalledFromFirstThree(Suit),
    ForcedReveal(Suit),
}

/// The doubling chain: none, Spritzen, Retour, Re-Retour.
#[derive(Debug, Clone, Copy, PartialEq, Eq, Hash, Structural)]
pub enum DoublingLevel {
    Undoubled,
    Spritzen,
    Retour,
    ReRetour,
}

impl DoublingLevel {
    pub open spec fn multiplier_spec(self) -> u8 {
        match self {
            DoublingLevel::Undoubled => 1,
            DoublingLevel::Spritzen => 2,
            DoublingLevel::Retour => 4,
            DoublingLevel::ReRetour => 8,
        }
    }

    pub fn multiplier(self) -> (m: u8)
        ensures
            m == self.multiplier_spec(),
    {
        match self {
            DoublingLevel::Undoubled => 1,
            DoublingLevel::Spritzen => 2,
            DoublingLevel::Retour => 4,
            DoublingLevel::ReRetour => 8,
        }
    }

    pub open spec fn next_spec(self) -> Option<Self> {
        match self {
            DoublingLevel::Undoubled => Some(DoublingLevel::Spritzen),
            DoublingLevel::Spritzen => Some(DoublingLevel::Retour),
            DoublingLevel::Retour => Some(DoublingLevel::ReRetour),
            DoublingLevel::ReRetour => None,
        }
    }

    pub fn next(self) -> (n: Option<Self>)
        ensures
            n == self.next_spec(),
    {
        match self {
            DoublingLevel::Undoubled => Some(DoublingLevel::Spritzen),
            DoublingLevel::Spritzen => Some(DoublingLevel::Retour),
            DoublingLevel::Retour => Some(DoublingLevel::ReRetour),
            DoublingLevel::ReRetour => None,
        }
    }
}

/// Each step of the doubling chain doubles the multiplier; the last level has no next.
pub proof fn lemma_doubling_steps(level: DoublingLevel)
    ensures
        match level.next_spec() {
            Some(n) => n.multiplier_spec() == 2 * level.multiplier_spec(),
            None => level == DoublingLevel::ReRetour,
        },
{
}

#[derive(Debug, Clone, Copy, PartialEq, Eq, Hash, Structural)]
pub enum DoublingCall {
    Spritzen,
    Retour,
    Re,
}

#[derive(Debug, Clone, Copy, PartialEq, Eq, Hash, Structural)]
pub struct DoublingState {
    pub level: DoublingLevel,
}

/// The call that raises a level: Spritzen first, then Retour, then Re; none after Re.
pub open spec fn expected_call(level: DoublingLevel) -> Option<DoublingCall> {
    match level {
        DoublingLevel::Undoubled => Some(DoublingCall::Spritzen),
        DoublingLevel::Spritzen => Some(DoublingCall::Retour),
        DoublingLevel::Retour => Some(DoublingCall::Re),
        DoublingLevel::ReRetour => None,
    }
}

impl DoublingState {
    pub fn new() -> (s: Self)
        ensures
            s.level == DoublingLevel::Undoubled,
    {
        Self { level: DoublingLevel::Undoubled }
    }

    /// Registers a call: accepted, raising the level, only when it is the call the level
    /// expects.
    pub fn register_call(&mut self, call: DoublingCall) -> (accepted: bool)
        ensures
            accepted == (expected_call(old(self).level) == Some(call)),
            accepted ==> Some(final(self).level) == old(self).level.next_spec(),
            !accepted ==> *final(self) == *old(self),
    {
        let expected = match self.level {
            DoublingLevel::Undoubled => DoublingCall::Spritzen,
            DoublingLevel::Spritzen => DoublingCall::Retour,
            DoublingLevel::Retour => DoublingCall::Re,
            DoublingLevel::ReRetour => {
                return false;
            },
        };
        if expected != call {
            return false;
        }
        if let Some(next) = self.level.next() {
            self.level = next;
            true
        } else {
            false
        }
    }

    pub fn multiplier(self) -> (m: u8)
        ensures
            m == self.level.multiplier_spec(),
    {
        self.level.multiplier()
    }
}

impl Default for DoublingState {
    fn default() -> (s: Self)
        ensures
            s.level == DoublingLevel::Undoubled,
    {
        Self::new()
    }
}

#[derive(Debug, Clone, Copy, PartialEq, Eq, Hash, Structural)]
pub enum GamePhase {
    DeterminingTrump,
    Bidding { next_to_act: PlayerId },
    ExchangingTalon { player: PlayerId, discards_remaining: usize },
    Playing,
    Completed,
}

#[derive(Debug, Clone, Copy, PartialEq, Eq, Hash, Structural)]
pub struct GameAnnouncement {
    pub player: PlayerId,
    pub variant: GameVariant,
    pub without_talon: bool,
}

#[derive(Debug, Clone, Copy, PartialEq, Eq, Hash, Structural)]
pub enum NormalGameResultTier {
    OpponentsAtLeast33,
    OpponentsBelow33,
    OpponentsNoTrick,
}

#[derive(Debug, Clone, PartialEq, Eq)]
pub struct HandResult {
    pub variant: GameVariant,
    pub declarer: PlayerId,
    pub winners: Vec<PlayerId>,
    pub points_awarded: u8,
    pub doubled_multiplier: u8,
    pub normal_game_tier: Option<NormalGameResultTier>,
}

/// The card points of a pile of cards.
pub open spec fn pile_points(cards: Seq<Card>) -> nat
    decreases cards.len(),
{
    if cards.len() == 0 {
        0
    } else {
        pile_points(cards.drop_last()) + cards.last().rank.card_points_spec() as nat
    }
}

proof fn lemma_pile_points_prefix(cards: Seq<Card>, n: int)
    requires
        0 <= n <= cards.len(),
    ensures
        pile_points(cards.take(n)) <= pile_points(cards),
    decreases cards.len(),
{
    if n < cards.len() {
        assert(cards.take(n) =~= cards.drop_last().take(n));
        lemma_pile_points_prefix(cards.drop_last(), n);
    } else {
        assert(cards.take(n) =~= cards);
    }
}

#[derive(Debug, Clone, PartialEq, Eq)]
pub struct PlayerState {
    pub hand: Vec<Card>,
    pub won_cards: Vec<Card>,
    pub announced_marriages: Vec<Suit>,
}

impl Default for PlayerState {
    fn default() -> (p: Self)
        ensures
            p.hand@ == Seq::<Card>::empty(),
            p.won_cards@ == Seq::<Card>::empty(),
            p.announced_marriages@ == Seq::<Suit>::empty(),
    {
        Self { hand: Vec::new(), won_cards: Vec::new(), announced_marriages: Vec::new() }
    }
}

impl PlayerState {
    /// The card points of the won cards.
    pub fn trick_points(&self) -> (p: u16)
        requires
            pile_points(self.won_cards@) <= u16::MAX,
        ensures
            p == pile_points(self.won_cards@),
    {
        let mut total: u16 = 0;
        let mut i: usize = 0;
        while i < self.won_cards.len()
            invariant
                i <= self.won_cards@.len(),
                total == pile_points(self.won_cards@.take(i as int)),
                pile_points(self.won_cards@) <= u16::MAX,
            decreases self.won_cards@.len() - i,
        {
            assert(self.won_cards@.take(i + 1).drop_last() =~= self.won_cards@.take(i as int));
            proof {
                lemma_pile_points_prefix(self.won_cards@, i + 1);
            }
            total = total + self.won_cards[i].points() as u16;
            i = i + 1;
        }
        assert(self.won_cards@.take(self.won_cards@.len() as int) =~= self.won_cards@);
        total
    }
}

pub type PlayedCard = (PlayerId, Card);

#[derive(Debug, Clone, PartialEq, Eq)]
pub struct CurrentTrick {
    pub leader: PlayerId,
    pub cards: Vec<PlayedCard>,
}

impl CurrentTrick {
    pub fn new(leader: PlayerId) -> (t: Self)
        ensures
            t.leader == leader,
            t.cards@ == Seq::<PlayedCard>::empty(),
    {
        Self { leader, cards: Vec::with_capacity(PLAYER_COUNT) }
    }
}

#[derive(Debug, Clone, PartialEq, Eq)]
pub struct ResolvedTrick {
    pub leader: PlayerId,
    pub winner: PlayerId,
    pub cards: Vec<PlayedCard>,
}

#[derive(Debug, Clone, PartialEq, Eq)]
pub struct GameState {
    pub ruleset: Ruleset,
    pub dealer: PlayerId,
    pub caller: PlayerId,
    pub declarer: PlayerId,
    pub variant: GameVariant,
    pub trump: Option<Suit>,
    pub trump_selection: Option<TrumpSelection>,
    pub talon: Vec<Card>,
    pub active_player: PlayerId,
    pub phase: GamePhase,
    pub doubling: DoublingState,
    pub players: [PlayerState; PLAYER_COUNT],
    pub current_trick: CurrentTrick,
    pub completed_tricks: Vec<ResolvedTrick>,
}

/// The points of the announced marriages: forty in trump, twenty otherwise.
pub open spec fn marriage_points(suits: Seq<Suit>, trump: Option<Suit>) -> nat
    decreases suits.len(),
{
    if suits.len() == 0 {
        0
    } else {
        marriage_points(suits.drop_last(), trump) + marriage_value_spec(suits.last(), trump)
    }
}

proof fn lemma_marriage_points_prefix(suits: Seq<Suit>, trump: Option<Suit>, n: int)
    requires
        0 <= n <= suits.len(),
    ensures
        marriage_points(suits.take(n), trump) <= marriage_points(suits, trump),
    decreases suits.len(),
{
    if n < suits.len() {
        assert(suits.take(n) =~= suits.drop_last().take(n));
        lemma_marriage_points_prefix(suits.drop_last(), trump, n);
    } else {
        assert(suits.take(n) =~= suits);
    }
}

/// A player's points: the card points of the won cards and the announced marriages.
pub open spec fn player_points(p: PlayerState, trump: Option<Suit>) -> nat {
    pile_points(p.won_cards@) + marriage_points(p.announced_marriages@, trump)
}

impl GameState {
    /// An empty game: the caller sits left of the dealer, declares by default and is to
    /// act; trump is still to be determined and all hands are empty.
    pub fn empty(ruleset: Ruleset, dealer: PlayerId, variant: GameVariant) -> (s: Self)
        ensures
            s.ruleset == ruleset,
            s.dealer == dealer,
            s.caller == dealer.next_spec(),
            s.declarer == dealer.next_spec(),
            s.variant == variant,
            s.trump is None,
            s.trump_selection is None,
            s.talon@ == Seq::<Card>::empty(),
            s.active_player == dealer.next_spec(),
            s.phase == GamePhase::DeterminingTrump,
            s.doubling.level == DoublingLevel::Undoubled,
            forall|i: int| 0 <= i < 3 ==> {
                &&& (#[trigger] s.players@[i]).hand@ == Seq::<Card>::empty()
                &&& s.players@[i].won_cards@ == Seq::<Card>::empty()
                &&& s.players@[i].announced_marriages@ == Seq::<Suit>::empty()
            },
            s.current_trick.leader == dealer.next_spec(),
            s.current_trick.cards@ == Seq::<PlayedCard>::empty(),
            s.completed_tricks@ == Seq::<ResolvedTrick>::empty(),
    {
        let caller = dealer.next_clockwise();
        Self {
            ruleset,
            dealer,
            caller,
            declarer: caller,
            variant,
            trump: None,
            trump_selection: None,
            talon: Vec::with_capacity(TALON_SIZE),
            active_player: caller,
            phase: GamePhase::DeterminingTrump,
            doubling: DoublingState::default(),
            players: [PlayerState::default(), PlayerState::default(), PlayerState::default()],
            current_trick: CurrentTrick::new(caller),
            completed_tricks: Vec::with_capacity(HAND_SIZE),
        }
    }

    pub fn player(&self, player: PlayerId) -> (p: &PlayerState)
        ensures
            *p == self.players@[player.index_spec() as int],
    {
        &self.players[player.as_index()]
    }

    pub fn player_mut(&mut self, player: PlayerId) -> (p: &mut PlayerState)
        ensures
            *p == old(self).players@[player.index_spec() as int],
            final(self).players@ == old(self).players@.update(player.index_spec() as int, *final(p)),
            *final(self) == (GameState { players: final(self).players, ..*old(self) }),
    {
        &mut self.players[player.as_index()]
    }

    /// The player's card points plus the announced marriages.
    pub fn total_points_for_player(&self, player: PlayerId) -> (t: u16)
        requires
            player_points(self.players@[player.index_spec() as int], self.trump) <= u16::MAX,
        ensures
            t == player_points(self.players@[player.index_spec() as int], self.trump),
    {
        let p = self.player(player);
        let mut marriage: u16 = 0;
        let mut i: usize = 0;
        while i < p.announced_marriages.len()
            invariant
                i <= p.announced_marriages@.len(),
                marriage == marriage_points(p.announced_marriages@.take(i as int), self.trump),
                pile_points(p.won_cards@) + marriage_points(p.announced_marriages@, self.trump) <= u16::MAX,
            decreases p.announced_marriages@.len() - i,
        {
            assert(p.announced_marriages@.take(i + 1).drop_last() =~= p.announced_marriages@.take(i as int));
            proof {
                lemma_marriage_points_prefix(p.announced_marriages@, self.trump, i + 1);
            }
            marriage = marriage + marriage_value(p.announced_marriages[i], self.trump);
            i = i + 1;
        }
        assert(p.announced_marriages@.take(p.announced_marriages@.len() as int) =~= p.announced_marriages@);
        p.trick_points() + marriage
    }

    pub fn is_finished(&self) -> (b: bool)
        ensures
            b == (self.phase == GamePhase::Completed),
    {
        matches!(self.phase, GamePhase::Completed)
    }
}

pub open spec fn marriage_value_spec(suit: Suit, trump: Option<Suit>) -> nat {
    if Some(suit) == trump {
        40
    } else {
        20
    }
}

/// Forty for a marriage in trump, else twenty.
pub fn marriage_value(suit: Suit, trump: Option<Suit>) -> (v: u16)
    ensures
        v == marriage_value_spec(suit, trump),
{
    if Some(suit) == trump {
        40
    } else {
        20
    }
}

#[derive(Debug, Clone, Copy, PartialEq, Eq, Hash)]
pub enum GameMove {
    AnnounceVariant { player: PlayerId, variant: GameVariant, without_talon: bool },
    Pass { player: PlayerId },
    TakeTalon { player: PlayerId },
    Discard { player: PlayerId, cards: [Card; 2] },
    PlayCard { player: PlayerId, card: Card },
    AnnounceMarriage { player: PlayerId, suit: Suit },
    Doubling { player: PlayerId, call: DoublingCall },
}

/// Whether a card of `suit` lies among the played cards.
pub open spec fn suit_played(cards: Seq<PlayedCard>, suit: Suit) -> bool {
    exists|i: int| 0 <= i < cards.len() && (#[trigger] cards[i]).1.suit == suit
}

/// The suit that decides a trick: trump if any trump was played, else the suit led.
pub open spec fn deciding_suit(cards: Seq<PlayedCard>, trump: Option<Suit>) -> Suit {
    match trump {
        Some(t) => if suit_played(cards, t) {
            t
        } else {
            cards[0].1.suit
        },
        None => cards[0].1.suit,
    }
}

/// Among the first `n` played cards, the position of the strongest card of `suit`; the
/// later one on equal strength.
pub open spec fn strongest_position(cards: Seq<PlayedCard>, suit: Suit, order: RankOrder, n: int) -> Option<int>
    decreases n,
{
    if n <= 0 {
        None
    } else {
        let prev = strongest_position(cards, suit, order, n - 1);
        let c = cards[n - 1].1;
        if c.suit != suit {
            prev
        } else {
            match prev {
                None => Some(n - 1),
                Some(b) => if cards[b].1.rank.strength_spec(order) <= c.rank.strength_spec(order) {
                    Some(n - 1)
                } else {
                    prev
                },
            }
        }
    }
}

/// The winner of the played cards: the player of the strongest card of the deciding suit;
/// nobody for no cards.
pub open spec fn trick_winner_spec(cards: Seq<PlayedCard>, trump: Option<Suit>, order: RankOrder) -> Option<PlayerId> {
    if cards.len() == 0 {
        None
    } else {
        match strongest_position(cards, deciding_suit(cards, trump), order, cards.len() as int) {
            Some(i) => Some(cards[i].0),
            None => None,
        }
    }
}

proof fn lemma_strongest_position(cards: Seq<PlayedCard>, suit: Suit, order: RankOrder, n: int)
    requires
        0 <= n <= cards.len(),
    ensures
        match strongest_position(cards, suit, order, n) {
            Some(b) => 0 <= b < n && cards[b].1.suit == suit && forall|j: int|
                0 <= j < n && (#[trigger] cards[j]).1.suit == suit ==> cards[j].1.rank.strength_spec(order)
                    <= cards[b].1.rank.strength_spec(order),
            None => forall|j: int| 0 <= j < n ==> (#[trigger] cards[j]).1.suit != suit,
        },
    decreases n,
{
    if n > 0 {
        lemma_strongest_position(cards, suit, order, n - 1);
    }
}

/// The trick goes to a card of the deciding suit that no card of that suit beats; some
/// player wins every trick with a card in it.
pub proof fn lemma_trick_winner_strongest(cards: Seq<PlayedCard>, trump: Option<Suit>, order: RankOrder)
    requires
        cards.len() > 0,
    ensures
        exists|b: int|
            0 <= b < cards.len() && trick_winner_spec(cards, trump, order) == Some(#[trigger] cards[b].0)
                && cards[b].1.suit == deciding_suit(cards, trump) && forall|j: int|
                0 <= j < cards.len() && (#[trigger] cards[j]).1.suit == deciding_suit(cards, trump)
                    ==> cards[j].1.rank.strength_spec(order) <= cards[b].1.rank.strength_spec(order),
{
    let suit = deciding_suit(cards, trump);
    lemma_strongest_position(cards, suit, order, cards.len() as int);
    match trump {
        Some(t) => {
            if !suit_played(cards, t) {
                assert(cards[0].1.suit == suit);
            }
        },
        None => {
            assert(cards[0].1.suit == suit);
        },
    }
    let b = strongest_position(cards, suit, order, cards.len() as int)->Some_0;
    assert(trick_winner_spec(cards, trump, order) == Some(cards[b].0));
}

pub fn trick_winner(cards: &[(PlayerId, Card)], trump: Option<Suit>, rank_order: RankOrder) -> (w: Option<PlayerId>)
    ensures
        w == trick_winner_spec(cards@, trump, rank_order),
{
    if cards.len() == 0 {
        return None;
    }
    let lead_suit = cards[0].1.suit;
    let mut trump_played = false;
    if let Some(t) = trump {
        let mut i: usize = 0;
        while i < cards.len()
            invariant
                i <= cards@.len(),
                trump_played == exists|j: int| 0 <= j < i && (#[trigger] cards@[j]).1.suit == t,
            decreases cards@.len() - i,
        {
            if cards[i].1.suit == t {
                trump_played = true;
            }
            i = i + 1;
        }
    }
    let deciding = match trump {
        Some(t) => if trump_played {
            t
        } else {
            lead_suit
        },
        None => lead_suit,
    };
    assert(deciding == deciding_suit(cards@, trump));
    let mut best: Option<usize> = None;
    let mut i: usize = 0;
    while i < cards.len()
        invariant
            i <= cards@.len(),
            match best {
                Some(b) => strongest_position(cards@, deciding, rank_order, i as int) == Some(b as int),
                None => strongest_position(cards@, deciding, rank_order, i as int) is None,
            },
            match best {
                Some(b) => b < i,
                None => true,
            },
        decreases cards@.len() - i,
    {
        let c = cards[i].1;
        if c.suit == deciding {
            match best {
                None => {
                    best = Some(i);
                },
                Some(b) => {
                    if cards[b].1.strength(rank_order) <= c.strength(rank_order) {
                        best = Some(i);
                    }
                },
            }
        }
        i = i + 1;
    }
    match best {
        Some(b) => Some(cards[b].0),
        None => None,
    }
}

/// Among the first `n` cards, the strongest card of `suit`; the later one on equal
/// strength.
pub open spec fn highest_of_suit(cards: Seq<Card>, suit: Suit, order: RankOrder, n: int) -> Option<Card>
    decreases n,
{
    if n <= 0 {
        None
    } else {
        let prev = highest_of_suit(cards, suit, order, n - 1);
        let c = cards[n - 1];
        if c.suit != suit {
            prev
        } else {
            match prev {
                None => Some(c),
                Some(b) => if b.rank.strength_spec(order) <= c.rank.strength_spec(order) {
                    Some(c)
                } else {
                    prev
                },
            }
        }
    }
}

pub fn highest_card_in_suit(cards: &[Card], suit: Suit, order: RankOrder) -> (h: Option<Card>)
    ensures
        h == highest_of_suit(cards@, suit, order, cards@.len() as int),
{
    let mut best: Option<Card> = None;
    let mut i: usize = 0;
    while i < cards.len()
        invariant
            i <= cards@.len(),
            best == highest_of_suit(cards@, suit, order, i as int),
        decreases cards@.len() - i,
    {
        let c = cards[i];
        if c.suit == suit {
            match best {
                None => {
                    best = Some(c);
                },
                Some(b) => {
                    if b.strength(order) <= c.strength(order) {
                        best = Some(c);
                    }
                },
            }
        }
        i = i + 1;
    }
    best
}

} // verus!
