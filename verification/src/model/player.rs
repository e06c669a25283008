use vstd::prelude::*;
use vstd::string::StringExecFns;
use vstd::multiset::Multiset;
use crate::model::card::{Card, Rank, Suit};
use crate::seq_facts::{lemma_filter_take_step, lemma_take_full};
use crate::model::types::{of_suit, holds_marriage, hand_has, position_of, first_index, remove_card};

verus! {

/// Identifies a player at the table by seat position.
#[derive(Debug, Clone, Copy, PartialEq, Eq, Hash, Structural)]
pub enum PlayerId {
    Player0,
    Player1,
    Player2,
}

impl PlayerId {
    /// The seat number 0, 1 or 2.
    pub open spec fn index_spec(self) -> nat {
        match self {
            PlayerId::Player0 => 0,
            PlayerId::Player1 => 1,
            PlayerId::Player2 => 2,
        }
    }

    /// The seat with the given number, taken modulo 3.
    pub open spec fn from_index_spec(i: nat) -> PlayerId {
        if i % 3 == 0 {
            PlayerId::Player0
        } else if i % 3 == 1 {
            PlayerId::Player1
        } else {
            PlayerId::Player2
        }
    }

    pub fn all() -> (a: [PlayerId; 3])
        ensures
            a@ == seq![PlayerId::Player0, PlayerId::Player1, PlayerId::Player2],
    {
        [PlayerId::Player0, PlayerId::Player1, PlayerId::Player2]
    }

    /// Next player in clockwise order.
    pub fn next(self) -> (p: PlayerId)
        ensures
            p.index_spec() == (self.index_spec() + 1) % 3,
            p == Self::from_index_spec(self.index_spec() + 1),
    {
        match self {
            PlayerId::Player0 => PlayerId::Player1,
            PlayerId::Player1 => PlayerId::Player2,
            PlayerId::Player2 => PlayerId::Player0,
        }
    }

    /// Previous player (counter-clockwise).
    pub fn prev(self) -> (p: PlayerId)
        ensures
            p.index_spec() == (self.index_spec() + 2) % 3,
    {
        match self {
            PlayerId::Player0 => PlayerId::Player2,
            PlayerId::Player1 => PlayerId::Player0,
            PlayerId::Player2 => PlayerId::Player1,
        }
    }

    pub fn index(self) -> (i: usize)
        ensures
            i == self.index_spec(),
    {
        match self {
            PlayerId::Player0 => 0,
            PlayerId::Player1 => 1,
            PlayerId::Player2 => 2,
        }
    }

    pub fn from_index(i: usize) -> (p: PlayerId)
        ensures
            p == Self::from_index_spec(i as nat),
    {
        match i % 3 {
            0 => PlayerId::Player0,
            1 => PlayerId::Player1,
            _ => PlayerId::Player2,
        }
    }

    /// The label "Player N".
    pub fn label(self) -> (s: String)
        ensures
            s@ == "Player "@ + crate::text::decimal_spec(self.index_spec()),
    {
        String::from_str("Player ").concat(crate::text::decimal(self.index() as u64).as_str())
    }
}

/// Seats are numbered one to one: the index identifies the seat, and the next and the
/// previous seat undo each other.
pub proof fn lemma_seat_numbers(p: PlayerId, q: PlayerId)
    ensures
        p.index_spec() < 3,
        p.index_spec() == q.index_spec() ==> p == q,
        PlayerId::from_index_spec(p.index_spec()) == p,
{
}

/// Role assigned for the current deal.
#[derive(Debug, Clone, Copy, PartialEq, Eq, Structural)]
pub enum Role {
    Dealer,
    Caller,
    Third,
}

/// A player's hand of cards.
#[derive(Debug, Clone)]
pub struct Hand {
    cards: Vec<Card>,
}

impl View for Hand {
    type V = Seq<Card>;

    closed spec fn view(&self) -> Seq<Card> {
        self.cards@
    }
}

/// The sort key of a card: suits in the order Hearts, Diamonds, Spades, Clubs, and within
/// a suit the stronger card first.
pub open spec fn sort_key(c: Card) -> (nat, nat) {
    let s: nat = match c.suit {
        Suit::Hearts => 0,
        Suit::Diamonds => 1,
        Suit::Spades => 2,
        Suit::Clubs => 3,
    };
    (s, (4 - c.rank.standard_strength_spec()) as nat)
}

/// Card `a` does not come after card `b`.
pub open spec fn key_le(a: Card, b: Card) -> bool {
    sort_key(a).0 < sort_key(b).0 || (sort_key(a).0 == sort_key(b).0 && sort_key(a).1 <= sort_key(b).1)
}

/// The cards are in sort order.
pub open spec fn sorted_by_suit_and_rank(s: Seq<Card>) -> bool {
    forall|i: int, j: int| 0 <= i < j < s.len() ==> key_le(s[i], s[j])
}

fn suit_number(s: Suit) -> (n: u8)
    ensures
        n == sort_key(Card { suit: s, rank: Rank::Jack }).0,
{
    match s {
        Suit::Hearts => 0,
        Suit::Diamonds => 1,
        Suit::Spades => 2,
        Suit::Clubs => 3,
    }
}

fn comes_before_or_with(a: Card, b: Card) -> (r: bool)
    ensures
        r == key_le(a, b),
{
    let sa = suit_number(a.suit);
    let sb = suit_number(b.suit);
    let ra = 4 - a.rank.standard_strength();
    let rb = 4 - b.rank.standard_strength();
    sa < sb || (sa == sb && ra <= rb)
}

impl Hand {
    pub fn new() -> (h: Self)
        ensures
            h@ == Seq::<Card>::empty(),
    {
        Self { cards: Vec::new() }
    }

    pub fn from_cards(cards: Vec<Card>) -> (h: Self)
        ensures
            h@ == cards@,
    {
        Self { cards }
    }

    pub fn cards(&self) -> (c: &[Card])
        ensures
            c@ == self@,
    {
        self.cards.as_slice()
    }

    pub fn add(&mut self, card: Card)
        ensures
            final(self)@ == old(self)@.push(card),
    {
        self.cards.push(card);
    }

    pub fn add_many(&mut self, cards: &[Card])
        ensures
            final(self)@ == old(self)@ + cards@,
    {
        let mut i: usize = 0;
        let ghost start = self@;
        while i < cards.len()
            invariant
                i <= cards@.len(),
                self@ == start + cards@.take(i as int),
            decreases cards@.len() - i,
        {
            self.cards.push(cards[i]);
            assert(self@ =~= start + cards@.take(i + 1));
            i = i + 1;
        }
        assert(cards@.take(cards@.len() as int) =~= cards@);
    }

    /// Removes the first copy of the card and returns it; `None` if the hand lacks it.
    pub fn remove(&mut self, card: &Card) -> (r: Option<Card>)
        ensures
            old(self)@.contains(*card) ==> r == Some(*card) && final(self)@ == remove_card(old(self)@, *card),
            !old(self)@.contains(*card) ==> r is None && *final(self) == *old(self),
    {
        match position_of(self.cards.as_slice(), *card) {
            Some(pos) => Some(self.cards.remove(pos)),
            None => None,
        }
    }

    pub fn contains(&self, card: &Card) -> (b: bool)
        ensures
            b == self@.contains(*card),
    {
        hand_has(self.cards.as_slice(), *card)
    }

    pub fn len(&self) -> (n: usize)
        ensures
            n == self@.len(),
    {
        self.cards.len()
    }

    pub fn is_empty(&self) -> (b: bool)
        ensures
            b == (self@.len() == 0),
    {
        self.cards.len() == 0
    }

    /// The cards of the given suit, in hand order.
    pub fn cards_of_suit(&self, suit: Suit) -> (r: Vec<Card>)
        ensures
            r@ == self@.filter(of_suit(suit)),
    {
        crate::model::types::cards_of_suit(self.cards.as_slice(), suit)
    }

    /// Check if hand contains both King and Queen of the given suit (marriage pair).
    pub fn has_marriage(&self, suit: Suit) -> (b: bool)
        ensures
            b == holds_marriage(self@, suit),
    {
        let has_king = hand_has(self.cards.as_slice(), Card::new(suit, Rank::King));
        let has_queen = hand_has(self.cards.as_slice(), Card::new(suit, Rank::Queen));
        has_king && has_queen
    }

    /// Returns suits for which the player holds a complete marriage (King + Queen), in suit order.
    pub fn marriages(&self) -> (r: Vec<Suit>)
        ensures
            r@ == Suit::all_spec().filter(|s: Suit| holds_marriage(self@, s)),
    {
        let suits = Suit::ALL;
        assert(suits@ == Suit::all_spec());
        let mut r: Vec<Suit> = Vec::new();
        let mut i: usize = 0;
        while i < 4
            invariant
                i <= 4,
                suits@ == Suit::all_spec(),
                r@ == Suit::all_spec().take(i as int).filter(|s: Suit| holds_marriage(self@, s)),
            decreases 4 - i,
        {
            proof {
                lemma_filter_take_step(Suit::all_spec(), i as int, |s: Suit| holds_marriage(self@, s));
            }
            if self.has_marriage(suits[i]) {
                r.push(suits[i]);
            }
            i = i + 1;
        }
        proof {
            lemma_take_full(Suit::all_spec());
        }
        r
    }

    /// Check if the hand contains all 5 cards of a given suit.
    pub fn has_full_suit(&self, suit: Suit) -> (b: bool)
        ensures
            b == (self@.filter(of_suit(suit)).len() == 5),
    {
        self.cards_of_suit(suit).len() == 5
    }

    /// Sorts the hand by suit (Hearts, Diamonds, Spades, Clubs) and, within a suit, from
    /// the strongest card down. The hand keeps the same cards.
    pub fn sort_by_suit_and_rank(&mut self)
        ensures
            final(self)@.to_multiset() == old(self)@.to_multiset(),
            sorted_by_suit_and_rank(final(self)@),
    {
        broadcast use {vstd::seq_lib::group_to_multiset_ensures, vstd::multiset::group_multiset_axioms};
        let ghost start = self@;
        let mut rest: Vec<Card> = Vec::new();
        std::mem::swap(&mut rest, &mut self.cards);
        let mut sorted: Vec<Card> = Vec::new();
        assert(sorted@.to_multiset().add(rest@.to_multiset()) =~= start.to_multiset());
        while rest.len() > 0
            invariant
                sorted@.to_multiset().add(rest@.to_multiset()) == start.to_multiset(),
                sorted_by_suit_and_rank(sorted@),
                forall|a: int, b: int| 0 <= a < sorted@.len() && 0 <= b < rest@.len() ==> key_le(sorted@[a], rest@[b]),
            decreases rest@.len(),
        {
            let mut m: usize = 0;
            let mut k: usize = 1;
            while k < rest.len()
                invariant
                    m < k <= rest@.len(),
                    forall|b: int| 0 <= b < k ==> key_le(rest@[m as int], rest@[b]),
                decreases rest@.len() - k,
            {
                if !comes_before_or_with(rest[m], rest[k]) {
                    m = k;
                }
                k = k + 1;
            }
            let ghost r0 = rest@;
            let ghost s0 = sorted@;
            let c = rest.remove(m);
            sorted.push(c);
            proof {
                assert(r0.contains(c));
                assert(rest@ == r0.remove(m as int));
                vstd::seq_lib::to_multiset_remove(r0, m as int);
                vstd::seq_lib::to_multiset_build(s0, c);
                assert(rest@.to_multiset() =~= r0.to_multiset().remove(c));
                assert(sorted@.to_multiset() =~= s0.to_multiset().insert(c));
                r0.to_multiset_ensures();
                assert(r0.to_multiset().count(c) > 0);
                let lhs = sorted@.to_multiset().add(rest@.to_multiset());
                let rhs = s0.to_multiset().add(r0.to_multiset());
                assert forall|x: Card| lhs.count(x) == rhs.count(x) by {
                    if x == c {
                    } else {
                    }
                }
                assert(lhs =~= rhs);
                assert forall|a: int, b: int| 0 <= a < sorted@.len() && 0 <= b < rest@.len() implies key_le(sorted@[a], rest@[b]) by {
                    if b < m {
                        assert(rest@[b] == r0[b]);
                    } else {
                        assert(rest@[b] == r0[b + 1]);
                    }
                }
            }
        }
        assert(rest@.to_multiset() =~= Multiset::<Card>::empty());
        assert(sorted@.to_multiset() =~= start.to_multiset());
        self.cards = sorted;
    }
}

/// The card points of a pile of cards.
pub open spec fn pile_points(cards: Seq<Card>) -> nat
    decreases cards.len(),
{
    if cards.len() == 0 {
        0
    } else {
        pile_points(cards.drop_last()) + cards.last().points_spec()
    }
}

/// The card points of the won tricks.
pub open spec fn tricks_points(tricks: Seq<Seq<Card>>) -> nat
    decreases tricks.len(),
{
    if tricks.len() == 0 {
        0
    } else {
        tricks_points(tricks.drop_last()) + pile_points(tricks.last())
    }
}

/// Full player state for a deal.
#[derive(Debug, Clone)]
pub struct PlayerState {
    pub id: PlayerId,
    pub role: Role,
    pub hand: Hand,
    pub tricks_won: Vec<Vec<Card>>,
    pub game_points: u32,
    pub bummerl: u32,
}

impl PlayerState {
    pub fn new(id: PlayerId, role: Role) -> (p: Self)
        ensures
            p.id == id,
            p.role == role,
            p.hand@ == Seq::<Card>::empty(),
            p.tricks_won@ == Seq::<Vec<Card>>::empty(),
            p.game_points == 0,
            p.bummerl == 0,
    {
        Self { id, role, hand: Hand::new(), tricks_won: Vec::new(), game_points: 0, bummerl: 0 }
    }

    /// The won tricks as values.
    pub open spec fn won_piles(&self) -> Seq<Seq<Card>> {
        self.tricks_won@.map_values(|t: Vec<Card>| t@)
    }

    /// The card points of all tricks won.
    pub fn card_points(&self) -> (total: u32)
        requires
            tricks_points(self.won_piles()) <= u32::MAX,
        ensures
            total == tricks_points(self.won_piles()),
    {
        let mut total: u32 = 0;
        let mut i: usize = 0;
        proof {
            lemma_tricks_points_prefix(self.won_piles(), 0);
        }
        while i < self.tricks_won.len()
            invariant
                i <= self.tricks_won@.len(),
                total == tricks_points(self.won_piles().take(i as int)),
                tricks_points(self.won_piles()) <= u32::MAX,
            decreases self.tricks_won@.len() - i,
        {
            let trick = &self.tricks_won[i];
            assert(self.won_piles().take(i + 1).drop_last() =~= self.won_piles().take(i as int));
            proof {
                lemma_tricks_points_prefix(self.won_piles(), i + 1);
            }
            let mut j: usize = 0;
            let ghost base = total;
            while j < trick.len()
                invariant
                    j <= trick@.len(),
                    trick@ == self.won_piles()[i as int],
                    total == base + pile_points(trick@.take(j as int)),
                    base + pile_points(trick@) <= u32::MAX,
                decreases trick@.len() - j,
            {
                assert(trick@.take(j + 1).drop_last() =~= trick@.take(j as int));
                proof {
                    lemma_pile_points_prefix(trick@, j + 1);
                }
                total = total + trick[j].points() as u32;
                j = j + 1;
            }
            assert(trick@.take(trick@.len() as int) =~= trick@);
            i = i + 1;
        }
        assert(self.won_piles().take(self.tricks_won@.len() as int) =~= self.won_piles());
        total
    }

    pub fn trick_count(&self) -> (n: usize)
        ensures
            n == self.tricks_won@.len(),
    {
        self.tricks_won.len()
    }
}

/// A prefix of a pile has no more points than the pile.
pub proof fn lemma_pile_points_prefix(cards: Seq<Card>, n: int)
    requires
        0 <= n <= cards.len(),
    ensures
        pile_points(cards.take(n)) <= pile_points(cards),
    decreases cards.len(),
{
    if n < cards.len() {
        assert(cards.take(n) =~= cards.drop_last().take(n));
        lemma_pile_points_prefix(cards.drop_last(), n);
    } else {
        assert(cards.take(n) =~= cards);
    }
}

/// A prefix of the won tricks has no more points than all of them.
pub proof fn lemma_tricks_points_prefix(tricks: Seq<Seq<Card>>, n: int)
    requires
        0 <= n <= tricks.len(),
    ensures
        tricks_points(tricks.take(n)) <= tricks_points(tricks),
    decreases tricks.len(),
{
    if n < tricks.len() {
        assert(tricks.take(n) =~= tricks.drop_last().take(n));
        lemma_tricks_points_prefix(tricks.drop_last(), n);
    } else {
        assert(tricks.take(n) =~= tricks);
    }
}

} // verus!
