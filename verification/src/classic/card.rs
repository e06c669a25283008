//! Card representation for Schnapsen: 20 cards, 4 suits times 5 ranks.
//! Point values: Ass=11, Zehner=10, Koenig=4, Ober=3, Unter=2.

use vstd::prelude::*;
use vstd::string::StringExecFns;
use crate::classic::game_type::GameType;

verus! {

/// The four suits in Schnapsen.
#[derive(Debug, Clone, Copy, PartialEq, Eq, Hash, PartialOrd, Ord, Structural)]
pub enum Suit {
    /// Hearts (Herz)
    Hearts,
    /// Diamonds (Karo, Schelle)
    Diamonds,
    /// Spades (Pik, Blatt, Gruen, Laub)
    Spades,
    /// Clubs (Kreuz, Eichel)
    Clubs,
}

impl Suit {
    /// Returns all suits in standard order.
    pub fn all() -> (a: [Suit; 4])
        ensures
            a@ == seq![Suit::Hearts, Suit::Diamonds, Suit::Spades, Suit::Clubs],
    {
        [Suit::Hearts, Suit::Diamonds, Suit::Spades, Suit::Clubs]
    }

    pub open spec fn symbol_spec(&self) -> char {
        match self {
            Suit::Hearts => '\u{2665}',
            Suit::Diamonds => '\u{2666}',
            Suit::Spades => '\u{2660}',
            Suit::Clubs => '\u{2663}',
        }
    }

    /// Unicode symbol for display.
    pub fn symbol(&self) -> (c: char)
        ensures
            c == self.symbol_spec(),
    {
        match self {
            Suit::Hearts => '\u{2665}',
            Suit::Diamonds => '\u{2666}',
            Suit::Spades => '\u{2660}',
            Suit::Clubs => '\u{2663}',
        }
    }

    pub open spec fn symbol_text_spec(&self) -> Seq<char> {
        match self {
            Suit::Hearts => "\u{2665}"@,
            Suit::Diamonds => "\u{2666}"@,
            Suit::Spades => "\u{2660}"@,
            Suit::Clubs => "\u{2663}"@,
        }
    }

    /// The symbol as text.
    pub fn symbol_text(&self) -> (s: &'static str)
        ensures
            s@ == self.symbol_text_spec(),
    {
        match self {
            Suit::Hearts => "\u{2665}",
            Suit::Diamonds => "\u{2666}",
            Suit::Spades => "\u{2660}",
            Suit::Clubs => "\u{2663}",
        }
    }
}

/// The five ranks in each suit, from the lowest to the highest of the normal order.
#[derive(Debug, Clone, Copy, PartialEq, Eq, Hash, PartialOrd, Ord, Structural)]
pub enum Rank {
    /// Unter/Bube (Jack) - 2 points
    Unter,
    /// Ober/Dame (Queen) - 3 points
    Ober,
    /// Koenig (King) - 4 points
    Konig,
    /// Zehner (10) - 10 points
    Zehner,
    /// Ass (Ace) - 11 points
    Ass,
}

impl Rank {
    pub open spec fn points_spec(&self) -> u8 {
        match self {
            Rank::Unter => 2,
            Rank::Ober => 3,
            Rank::Konig => 4,
            Rank::Zehner => 10,
            Rank::Ass => 11,
        }
    }

    /// Point value of the card for scoring tricks.
    pub fn points(&self) -> (p: u8)
        ensures
            p == self.points_spec(),
    {
        match self {
            Rank::Unter => 2,
            Rank::Ober => 3,
            Rank::Konig => 4,
            Rank::Zehner => 10,
            Rank::Ass => 11,
        }
    }

    /// All ranks in standard (low to high) order for normal games.
    pub fn all() -> (a: [Rank; 5])
        ensures
            a@ == seq![Rank::Unter, Rank::Ober, Rank::Konig, Rank::Zehner, Rank::Ass],
    {
        [Rank::Unter, Rank::Ober, Rank::Konig, Rank::Zehner, Rank::Ass]
    }

    pub open spec fn short_name_spec(&self) -> Seq<char> {
        match self {
            Rank::Unter => "U"@,
            Rank::Ober => "O"@,
            Rank::Konig => "K"@,
            Rank::Zehner => "10"@,
            Rank::Ass => "A"@,
        }
    }

    /// Display abbreviation.
    pub fn short_name(&self) -> (s: &'static str)
        ensures
            s@ == self.short_name_spec(),
    {
        match self {
            Rank::Unter => "U",
            Rank::Ober => "O",
            Rank::Konig => "K",
            Rank::Zehner => "10",
            Rank::Ass => "A",
        }
    }

    /// The order of the rank within its suit in a game type, 0 (lowest) to 4 (highest):
    /// the normal order in the games played with the normal order (the Gang, the Bettler
    /// and the Ass-Bettler among them), the Ass lowest in the Assenbettler, the Zehnergang
    /// and the Bauernloch, the Zehner lowest in the Koenigsgang, and the Koenig lowest in
    /// the Damengang.
    pub open spec fn order_in_game_spec(&self, game_type: GameType) -> u8 {
        match game_type {
            GameType::NormalesSpiel | GameType::Schnapser | GameType::Kontraschnapser | GameType::Bauernschnapser
            | GameType::Kontrabauernschnapser | GameType::Herrenschnapser | GameType::Farbringerl
            | GameType::Plauderer | GameType::Gang | GameType::AssBettler | GameType::Bettler => match self {
                Rank::Unter => 0,
                Rank::Ober => 1,
                Rank::Konig => 2,
                Rank::Zehner => 3,
                Rank::Ass => 4,
            },
            GameType::Assenbettler | GameType::Zehnergang | GameType::Bauernloch => match self {
                Rank::Unter => 1,
                Rank::Ober => 2,
                Rank::Konig => 3,
                Rank::Zehner => 4,
                Rank::Ass => 0,
            },
            GameType::Koenigsgang => match self {
                Rank::Unter => 2,
                Rank::Ober => 3,
                Rank::Konig => 4,
                Rank::Zehner => 0,
                Rank::Ass => 1,
            },
            GameType::Damengang => match self {
                Rank::Unter => 3,
                Rank::Ober => 4,
                Rank::Konig => 0,
                Rank::Zehner => 1,
                Rank::Ass => 2,
            },
        }
    }

    /// Relative rank for comparison in a specific game type.
    pub fn order_in_game(&self, game_type: GameType) -> (o: u8)
        ensures
            o == self.order_in_game_spec(game_type),
    {
        match game_type {
            GameType::NormalesSpiel | GameType::Schnapser | GameType::Kontraschnapser | GameType::Bauernschnapser
            | GameType::Kontrabauernschnapser | GameType::Herrenschnapser | GameType::Farbringerl
            | GameType::Plauderer | GameType::Gang | GameType::AssBettler | GameType::Bettler => match self {
                Rank::Unter => 0,
                Rank::Ober => 1,
                Rank::Konig => 2,
                Rank::Zehner => 3,
                Rank::Ass => 4,
            },
            GameType::Assenbettler | GameType::Zehnergang | GameType::Bauernloch => match self {
                Rank::Unter => 1,
                Rank::Ober => 2,
                Rank::Konig => 3,
                Rank::Zehner => 4,
                Rank::Ass => 0,
            },
            GameType::Koenigsgang => match self {
                Rank::Unter => 2,
                Rank::Ober => 3,
                Rank::Konig => 4,
                Rank::Zehner => 0,
                Rank::Ass => 1,
            },
            GameType::Damengang => match self {
                Rank::Unter => 3,
                Rank::Ober => 4,
                Rank::Konig => 0,
                Rank::Zehner => 1,
                Rank::Ass => 2,
            },
        }
    }

    /// Position in the normal order counted from the highest: Ass first.
    pub open spec fn ordinal_normal_spec(&self) -> u8 {
        match self {
            Rank::Unter => 4,
            Rank::Ober => 3,
            Rank::Konig => 2,
            Rank::Zehner => 1,
            Rank::Ass => 0,
        }
    }

    pub fn ordinal_normal(&self) -> (o: u8)
        ensures
            o == self.ordinal_normal_spec(),
    {
        match self {
            Rank::Unter => 4,
            Rank::Ober => 3,
            Rank::Konig => 2,
            Rank::Zehner => 1,
            Rank::Ass => 0,
        }
    }

    /// Position counted from the highest when the Ass is lowest.
    pub open spec fn ordinal_ass_lowest_spec(&self) -> u8 {
        match self {
            Rank::Unter => 3,
            Rank::Ober => 2,
            Rank::Konig => 1,
            Rank::Zehner => 0,
            Rank::Ass => 4,
        }
    }

    pub fn ordinal_ass_lowest(&self) -> (o: u8)
        ensures
            o == self.ordinal_ass_lowest_spec(),
    {
        match self {
            Rank::Unter => 3,
            Rank::Ober => 2,
            Rank::Konig => 1,
            Rank::Zehner => 0,
            Rank::Ass => 4,
        }
    }

    /// Position counted from the highest when the Zehner is lowest.
    pub open spec fn ordinal_zehner_lowest_spec(&self) -> u8 {
        match self {
            Rank::Unter => 2,
            Rank::Ober => 1,
            Rank::Konig => 0,
            Rank::Zehner => 4,
            Rank::Ass => 3,
        }
    }

    pub fn ordinal_zehner_lowest(&self) -> (o: u8)
        ensures
            o == self.ordinal_zehner_lowest_spec(),
    {
        match self {
            Rank::Unter => 2,
            Rank::Ober => 1,
            Rank::Konig => 0,
            Rank::Zehner => 4,
            Rank::Ass => 3,
        }
    }

    /// Position counted from the highest when the Koenig is lowest.
    pub open spec fn ordinal_koenig_lowest_spec(&self) -> u8 {
        match self {
            Rank::Unter => 1,
            Rank::Ober => 0,
            Rank::Konig => 4,
            Rank::Zehner => 3,
            Rank::Ass => 2,
        }
    }

    pub fn ordinal_koenig_lowest(&self) -> (o: u8)
        ensures
            o == self.ordinal_koenig_lowest_spec(),
    {
        match self {
            Rank::Unter => 1,
            Rank::Ober => 0,
            Rank::Konig => 4,
            Rank::Zehner => 3,
            Rank::Ass => 2,
        }
    }

}

/// In every game type the five ranks take the five orders 0 to 4, each once.
pub proof fn lemma_order_in_game_distinct(a: Rank, b: Rank, game_type: GameType)
    ensures
        a.order_in_game_spec(game_type) <= 4,
        a != b ==> a.order_in_game_spec(game_type) != b.order_in_game_spec(game_type),
{
}

/// A Schnapsen card: suit + rank.
#[derive(Debug, Clone, Copy, PartialEq, Eq, Hash, Structural)]
pub struct Card {
    pub suit: Suit,
    pub rank: Rank,
}

impl Card {
    pub fn new(suit: Suit, rank: Rank) -> (c: Self)
        ensures
            c == (Card { suit, rank }),
    {
        Self { suit, rank }
    }

    /// Point value for trick scoring.
    pub fn points(&self) -> (p: u8)
        ensures
            p == self.rank.points_spec(),
    {
        self.rank.points()
    }

    /// Whether this card beats `other`: in the same suit the higher order wins; across
    /// suits only a trump beats a non-trump (two trumps are of one suit).
    pub open spec fn beats_spec(&self, other: Card, trump: Option<Suit>, game_type: GameType) -> bool {
        if self.suit != other.suit {
            match trump {
                Some(t) => self.suit == t && other.suit != t,
                None => false,
            }
        } else {
            self.rank.order_in_game_spec(game_type) > other.rank.order_in_game_spec(game_type)
        }
    }

    /// Whether this card beats another in a trick, given trump and game type.
    pub fn beats(&self, other: &Card, trump: Option<Suit>, game_type: GameType) -> (b: bool)
        ensures
            b == self.beats_spec(*other, trump, game_type),
    {
        if self.suit != other.suit {
            match trump {
                Some(trump_suit) => {
                    let self_trump = self.suit == trump_suit;
                    let other_trump = other.suit == trump_suit;
                    match (self_trump, other_trump) {
                        (true, false) => true,
                        (false, true) => false,
                        (true, true) => self.rank.order_in_game(game_type) > other.rank.order_in_game(game_type),
                        (false, false) => false,
                    }
                },
                None => false,
            }
        } else {
            self.rank.order_in_game(game_type) > other.rank.order_in_game(game_type)
        }
    }

    /// The rank's short name followed by the suit symbol, as in "A\u{2665}".
    pub open spec fn label_spec(&self) -> Seq<char> {
        self.rank.short_name_spec() + self.suit.symbol_text_spec()
    }

    pub fn label(&self) -> (s: String)
        ensures
            s@ == self.label_spec(),
    {
        String::from_str(self.rank.short_name()).concat(self.suit.symbol_text())
    }
}

/// No card beats itself, and of two different cards at most one beats the other.
pub proof fn lemma_beats_asymmetric(a: Card, b: Card, trump: Option<Suit>, game_type: GameType)
    ensures
        !a.beats_spec(a, trump, game_type),
        !(a.beats_spec(b, trump, game_type) && b.beats_spec(a, trump, game_type)),
{
}

/// The suits in the order of `Suit::all`.
pub open spec fn suit_order() -> Seq<Suit> {
    seq![Suit::Hearts, Suit::Diamonds, Suit::Spades, Suit::Clubs]
}

/// The ranks in the order of `Rank::all`.
pub open spec fn rank_order() -> Seq<Rank> {
    seq![Rank::Unter, Rank::Ober, Rank::Konig, Rank::Zehner, Rank::Ass]
}

/// The twenty cards suit by suit, each from Unter to Ass.
pub open spec fn deck_spec() -> Seq<Card> {
    Seq::new(20, |i: int| Card { suit: suit_order()[i / 5], rank: rank_order()[i % 5] })
}

proof fn lemma_div_mod_five(s: int, r: int)
    requires
        0 <= s,
        0 <= r < 5,
    ensures
        (5 * s + r) / 5 == s,
        (5 * s + r) % 5 == r,
{
    assert((5 * s + r) / 5 == s) by (nonlinear_arith)
        requires
            0 <= s,
            0 <= r < 5,
    ;
    assert((5 * s + r) % 5 == r) by (nonlinear_arith)
        requires
            0 <= s,
            0 <= r < 5,
    ;
}

/// The deck holds twenty different cards.
pub proof fn lemma_deck_distinct()
    ensures
        deck_spec().len() == 20,
        forall|i: int, j: int| 0 <= i < j < 20 ==> deck_spec()[i] != deck_spec()[j],
{
    assert forall|i: int, j: int| 0 <= i < j < 20 implies deck_spec()[i] != deck_spec()[j] by {
        lemma_div_mod_five(i / 5, i % 5);
        lemma_div_mod_five(j / 5, j % 5);
        assert(i == 5 * (i / 5) + i % 5);
        assert(j == 5 * (j / 5) + j % 5);
    }
}

/// Create a full Schnapsen deck of 20 cards.
pub fn create_deck() -> (d: [Card; 20])
    ensures
        d@ == deck_spec(),
{
    let d = [
        Card::new(Suit::Hearts, Rank::Unter),
        Card::new(Suit::Hearts, Rank::Ober),
        Card::new(Suit::Hearts, Rank::Konig),
        Card::new(Suit::Hearts, Rank::Zehner),
        Card::new(Suit::Hearts, Rank::Ass),
        Card::new(Suit::Diamonds, Rank::Unter),
        Card::new(Suit::Diamonds, Rank::Ober),
        Card::new(Suit::Diamonds, Rank::Konig),
        Card::new(Suit::Diamonds, Rank::Zehner),
        Card::new(Suit::Diamonds, Rank::Ass),
        Card::new(Suit::Spades, Rank::Unter),
        Card::new(Suit::Spades, Rank::Ober),
        Card::new(Suit::Spades, Rank::Konig),
        Card::new(Suit::Spades, Rank::Zehner),
        Card::new(Suit::Spades, Rank::Ass),
        Card::new(Suit::Clubs, Rank::Unter),
        Card::new(Suit::Clubs, Rank::Ober),
        Card::new(Suit::Clubs, Rank::Konig),
        Card::new(Suit::Clubs, Rank::Zehner),
        Card::new(Suit::Clubs, Rank::Ass),
    ];
    assert(d@ =~= deck_spec());
    d
}

} // verus!
