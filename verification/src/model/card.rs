use vstd::prelude::*;
use vstd::string::StringExecFns;

verus! {

/// The four suits in a Schnapsen deck.
#[derive(Debug, Clone, Copy, PartialEq, Eq, Hash, Structural)]
pub enum Suit {
    Hearts,
    Diamonds,
    Spades,
    Clubs,
}

impl Suit {
    pub const ALL: [Suit; 4] = [Suit::Hearts, Suit::Diamonds, Suit::Spades, Suit::Clubs];

    /// The suits in the order of `Suit::ALL`.
    pub open spec fn all_spec() -> Seq<Suit> {
        seq![Suit::Hearts, Suit::Diamonds, Suit::Spades, Suit::Clubs]
    }

    pub open spec fn symbol_spec(self) -> Seq<char> {
        match self {
            Suit::Hearts => "\u{2665}"@,
            Suit::Diamonds => "\u{2666}"@,
            Suit::Spades => "\u{2660}"@,
            Suit::Clubs => "\u{2663}"@,
        }
    }

    /// The card symbol of the suit.
    pub fn symbol(self) -> (s: &'static str)
        ensures
            s@ == self.symbol_spec(),
    {
        match self {
            Suit::Hearts => "\u{2665}",
            Suit::Diamonds => "\u{2666}",
            Suit::Spades => "\u{2660}",
            Suit::Clubs => "\u{2663}",
        }
    }

    pub open spec fn name_de_spec(self) -> Seq<char> {
        match self {
            Suit::Hearts => "Herz"@,
            Suit::Diamonds => "Karo"@,
            Suit::Spades => "Pik"@,
            Suit::Clubs => "Kreuz"@,
        }
    }

    /// The German name of the suit.
    pub fn name_de(self) -> (s: &'static str)
        ensures
            s@ == self.name_de_spec(),
    {
        match self {
            Suit::Hearts => "Herz",
            Suit::Diamonds => "Karo",
            Suit::Spades => "Pik",
            Suit::Clubs => "Kreuz",
        }
    }
}

/// The five ranks, listed from the weakest to the strongest in the standard order.
#[derive(Debug, Clone, Copy, PartialEq, Eq, Hash, Structural)]
pub enum Rank {
    Jack,
    Queen,
    King,
    Ten,
    Ace,
}

impl Rank {
    pub const ALL: [Rank; 5] = [Rank::Jack, Rank::Queen, Rank::King, Rank::Ten, Rank::Ace];

    /// The ranks in the order of `Rank::ALL`.
    pub open spec fn all_spec() -> Seq<Rank> {
        seq![Rank::Jack, Rank::Queen, Rank::King, Rank::Ten, Rank::Ace]
    }

    /// Card points: Unter 2, Ober 3, Koenig 4, Zehner 10, Ass 11.
    pub open spec fn points_spec(self) -> nat {
        match self {
            Rank::Jack => 2,
            Rank::Queen => 3,
            Rank::King => 4,
            Rank::Ten => 10,
            Rank::Ace => 11,
        }
    }

    pub fn points(self) -> (p: u8)
        ensures
            p == self.points_spec(),
    {
        match self {
            Rank::Jack => 2,
            Rank::Queen => 3,
            Rank::King => 4,
            Rank::Ten => 10,
            Rank::Ace => 11,
        }
    }

    /// Strength in the standard order Ace > Ten > King > Queen > Jack (0 is the weakest).
    pub open spec fn standard_strength_spec(self) -> nat {
        match self {
            Rank::Jack => 0,
            Rank::Queen => 1,
            Rank::King => 2,
            Rank::Ten => 3,
            Rank::Ace => 4,
        }
    }

    pub fn standard_strength(self) -> (s: u8)
        ensures
            s == self.standard_strength_spec(),
    {
        match self {
            Rank::Jack => 0,
            Rank::Queen => 1,
            Rank::King => 2,
            Rank::Ten => 3,
            Rank::Ace => 4,
        }
    }

    /// Strength when Aces are lowest: Ten > King > Queen > Jack > Ace.
    pub open spec fn ace_low_strength_spec(self) -> nat {
        match self {
            Rank::Ace => 0,
            Rank::Jack => 1,
            Rank::Queen => 2,
            Rank::King => 3,
            Rank::Ten => 4,
        }
    }

    pub fn ace_low_strength(self) -> (s: u8)
        ensures
            s == self.ace_low_strength_spec(),
    {
        match self {
            Rank::Ace => 0,
            Rank::Jack => 1,
            Rank::Queen => 2,
            Rank::King => 3,
            Rank::Ten => 4,
        }
    }

    /// Strength for Koenigsgang (Ten lowest): King > Queen > Jack > Ace > Ten.
    pub open spec fn ten_low_strength_spec(self) -> nat {
        match self {
            Rank::Ten => 0,
            Rank::Ace => 1,
            Rank::Jack => 2,
            Rank::Queen => 3,
            Rank::King => 4,
        }
    }

    pub fn ten_low_strength(self) -> (s: u8)
        ensures
            s == self.ten_low_strength_spec(),
    {
        match self {
            Rank::Ten => 0,
            Rank::Ace => 1,
            Rank::Jack => 2,
            Rank::Queen => 3,
            Rank::King => 4,
        }
    }

    /// Strength for Damengang (King lowest): Queen > Jack > Ace > Ten > King.
    pub open spec fn king_low_strength_spec(self) -> nat {
        match self {
            Rank::King => 0,
            Rank::Ten => 1,
            Rank::Ace => 2,
            Rank::Jack => 3,
            Rank::Queen => 4,
        }
    }

    pub fn king_low_strength(self) -> (s: u8)
        ensures
            s == self.king_low_strength_spec(),
    {
        match self {
            Rank::King => 0,
            Rank::Ten => 1,
            Rank::Ace => 2,
            Rank::Jack => 3,
            Rank::Queen => 4,
        }
    }

    pub open spec fn short_name_spec(self) -> Seq<char> {
        match self {
            Rank::Jack => "J"@,
            Rank::Queen => "Q"@,
            Rank::King => "K"@,
            Rank::Ten => "10"@,
            Rank::Ace => "A"@,
        }
    }

    pub fn short_name(self) -> (s: &'static str)
        ensures
            s@ == self.short_name_spec(),
    {
        match self {
            Rank::Jack => "J",
            Rank::Queen => "Q",
            Rank::King => "K",
            Rank::Ten => "10",
            Rank::Ace => "A",
        }
    }

    pub open spec fn name_de_spec(self) -> Seq<char> {
        match self {
            Rank::Jack => "Unter"@,
            Rank::Queen => "Ober"@,
            Rank::King => "K\u{f6}nig"@,
            Rank::Ten => "Zehner"@,
            Rank::Ace => "Ass"@,
        }
    }

    pub fn name_de(self) -> (s: &'static str)
        ensures
            s@ == self.name_de_spec(),
    {
        match self {
            Rank::Jack => "Unter",
            Rank::Queen => "Ober",
            Rank::King => "K\u{f6}nig",
            Rank::Ten => "Zehner",
            Rank::Ace => "Ass",
        }
    }
}

/// A single playing card.
#[derive(Debug, Clone, Copy, PartialEq, Eq, Hash, Structural)]
pub struct Card {
    pub suit: Suit,
    pub rank: Rank,
}

impl Card {
    pub fn new(suit: Suit, rank: Rank) -> (c: Self)
        ensures
            c == (Card { suit, rank }),
    {
        Self { suit, rank }
    }

    pub open spec fn points_spec(self) -> nat {
        self.rank.points_spec()
    }

    pub fn points(self) -> (p: u8)
        ensures
            p == self.points_spec(),
    {
        self.rank.points()
    }

    /// The label of the card: the rank's short name followed by the suit symbol.
    pub open spec fn label_spec(self) -> Seq<char> {
        self.rank.short_name_spec() + self.suit.symbol_spec()
    }

    /// The card as text, such as "A" followed by the Hearts symbol.
    pub fn label(self) -> (s: String)
        ensures
            s@ == self.label_spec(),
    {
        let s = String::from_str(self.rank.short_name());
        s.concat(self.suit.symbol())
    }
}

} // verus!
