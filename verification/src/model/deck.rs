use vstd::prelude::*;
use crate::model::card::{Card, Rank, Suit};
use rand::rngs::StdRng;

verus! {

/// The twenty cards in the order of a new deck: suit by suit (Hearts, Diamonds, Spades,
/// Clubs), each from Jack up to Ace.
pub open spec fn deck_order() -> Seq<Card> {
    Seq::new(20, |i: int| Card { suit: Suit::all_spec()[i / 5], rank: Rank::all_spec()[i % 5] })
}

proof fn lemma_div_mod_five(s: int, r: int)
    requires
        0 <= s,
        0 <= r < 5,
    ensures
        (5 * s + r) / 5 == s,
        (5 * s + r) % 5 == r,
{
    assert((5 * s + r) / 5 == s) by (nonlinear_arith)
        requires
            0 <= s,
            0 <= r < 5,
    ;
    assert((5 * s + r) % 5 == r) by (nonlinear_arith)
        requires
            0 <= s,
            0 <= r < 5,
    ;
}

/// The position of a card in a new deck.
pub open spec fn deck_position(c: Card) -> int {
    let s = match c.suit {
        Suit::Hearts => 0int,
        Suit::Diamonds => 1,
        Suit::Spades => 2,
        Suit::Clubs => 3,
    };
    let r = match c.rank {
        Rank::Jack => 0int,
        Rank::Queen => 1,
        Rank::King => 2,
        Rank::Ten => 3,
        Rank::Ace => 4,
    };
    5 * s + r
}

/// A new deck holds every card exactly once: each card sits at its own position, and two
/// positions hold different cards.
pub proof fn lemma_deck_complete()
    ensures
        deck_order().len() == 20,
        forall|c: Card| 0 <= #[trigger] deck_position(c) < 20 && deck_order()[deck_position(c)] == c,
        forall|i: int, j: int| 0 <= i < j < 20 ==> deck_order()[i] != deck_order()[j],
{
    assert forall|c: Card| 0 <= #[trigger] deck_position(c) < 20 && deck_order()[deck_position(c)] == c by {
        let p = deck_position(c);
        let s = p / 5;
        let r = p % 5;
        assert(0 <= p < 20);
        match c.suit {
            Suit::Hearts => lemma_div_mod_five(0, p),
            Suit::Diamonds => lemma_div_mod_five(1, p - 5),
            Suit::Spades => lemma_div_mod_five(2, p - 10),
            Suit::Clubs => lemma_div_mod_five(3, p - 15),
        }
    }
    assert forall|i: int, j: int| 0 <= i < j < 20 implies deck_order()[i] != deck_order()[j] by {
        lemma_div_mod_five(i / 5, i % 5);
        lemma_div_mod_five(j / 5, j % 5);
        assert(i == 5 * (i / 5) + i % 5);
        assert(j == 5 * (j / 5) + j % 5);
    }
}

/// The twenty cards together are worth 120 card points: 30 per suit.
pub proof fn lemma_deck_points()
    ensures
        crate::model::player::pile_points(deck_order()) == 120,
{
    let d = deck_order();
    assert forall|k: int| 0 <= k <= 20 implies #[trigger] crate::model::player::pile_points(d.take(k)) == 30 * (k / 5)
        + rank_points_upto(k % 5) by {
        lemma_deck_points_prefix(k);
    }
    assert(d.take(20) =~= d);
}

/// The points of the first `r` ranks of a suit, from the Jack up.
spec fn rank_points_upto(r: int) -> int {
    if r <= 0 {
        0
    } else if r == 1 {
        2
    } else if r == 2 {
        5
    } else if r == 3 {
        9
    } else if r == 4 {
        19
    } else {
        30
    }
}

proof fn lemma_deck_points_prefix(k: int)
    requires
        0 <= k <= 20,
    ensures
        crate::model::player::pile_points(deck_order().take(k)) == 30 * (k / 5) + rank_points_upto(k % 5),
    decreases k,
{
    let d = deck_order();
    if k > 0 {
        lemma_deck_points_prefix(k - 1);
        assert(d.take(k).drop_last() =~= d.take(k - 1));
        lemma_div_mod_five((k - 1) / 5, (k - 1) % 5);
        assert(k - 1 == 5 * ((k - 1) / 5) + (k - 1) % 5);
        if (k - 1) % 5 == 4 {
            lemma_div_mod_five((k - 1) / 5 + 1, 0);
            assert(k == 5 * ((k - 1) / 5 + 1));
        } else {
            lemma_div_mod_five((k - 1) / 5, (k - 1) % 5 + 1);
        }
    }
}

/// A 20-card Schnapsen deck; cards are drawn from the end.
#[derive(Debug, Clone)]
pub struct Deck {
    cards: Vec<Card>,
}

impl View for Deck {
    type V = Seq<Card>;

    closed spec fn view(&self) -> Seq<Card> {
        self.cards@
    }
}

impl Deck {
    /// A new deck in `deck_order`.
    pub fn new() -> (d: Self)
        ensures
            d@ == deck_order(),
    {
        let mut cards: Vec<Card> = Vec::with_capacity(20);
        let suits = Suit::ALL;
        let ranks = Rank::ALL;
        assert(suits@ == Suit::all_spec());
        assert(ranks@ == Rank::all_spec());
        let mut si: usize = 0;
        while si < 4
            invariant
                si <= 4,
                suits@ == Suit::all_spec(),
                ranks@ == Rank::all_spec(),
                cards@ == deck_order().take(5 * si as int),
            decreases 4 - si,
        {
            let mut ri: usize = 0;
            while ri < 5
                invariant
                    si < 4,
                    ri <= 5,
                    suits@ == Suit::all_spec(),
                    ranks@ == Rank::all_spec(),
                    cards@ == deck_order().take(5 * si + ri),
                decreases 5 - ri,
            {
                proof {
                    lemma_div_mod_five(si as int, ri as int);
                }
                cards.push(Card::new(suits[si], ranks[ri]));
                assert(cards@ =~= deck_order().take(5 * si + ri + 1));
                ri = ri + 1;
            }
            si = si + 1;
        }
        assert(deck_order().take(20) =~= deck_order());
        Self { cards }
    }

    /// The cards of the deck; the last is drawn first.
    pub fn cards(&self) -> (c: &[Card])
        ensures
            c@ == self@,
    {
        self.cards.as_slice()
    }

    /// Shuffles the deck with the given generator; the deck keeps the same cards.
    pub fn shuffle(&mut self, rng: &mut StdRng)
        ensures
            final(self)@.len() == old(self)@.len(),
            final(self)@.to_multiset() == old(self)@.to_multiset(),
    {
        crate::rng::shuffle(&mut self.cards, rng);
    }

    /// Draw the top card. Returns `None` if the deck is empty.
    pub fn draw(&mut self) -> (c: Option<Card>)
        ensures
            old(self)@.len() == 0 ==> c is None && final(self)@ == old(self)@,
            old(self)@.len() > 0 ==> c == Some(old(self)@.last()) && final(self)@ == old(self)@.drop_last(),
    {
        self.cards.pop()
    }

    /// Draw `n` cards from the top; fewer if the deck holds fewer. The drawn cards keep
    /// their order in the deck.
    pub fn draw_n(&mut self, n: usize) -> (drawn: Vec<Card>)
        ensures
            ({
                let start = if n <= old(self)@.len() { old(self)@.len() - n } else { 0 };
                &&& drawn@ == old(self)@.subrange(start, old(self)@.len() as int)
                &&& final(self)@ == old(self)@.subrange(0, start)
            }),
    {
        let start = self.cards.len().saturating_sub(n);
        self.cards.split_off(start)
    }

    pub fn remaining(&self) -> (n: usize)
        ensures
            n == self@.len(),
    {
        self.cards.len()
    }

    pub fn is_empty(&self) -> (b: bool)
        ensures
            b == (self@.len() == 0),
    {
        self.cards.len() == 0
    }
}

impl Default for Deck {
    fn default() -> (d: Self)
        ensures
            d@ == deck_order(),
    {
        Self::new()
    }
}

} // verus!
