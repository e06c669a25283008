//! A trick (Stich): the cards played in one round, by seat.

use vstd::prelude::*;
use crate::classic::card::{Card, Suit};
use crate::classic::game_type::GameType;
use crate::classic::player::Player;

verus! {

/// The card points of the played cards.
pub open spec fn plays_points(plays: Seq<(Player, Card)>) -> nat
    decreases plays.len(),
{
    if plays.len() == 0 {
        0
    } else {
        plays_points(plays.drop_last()) + plays.last().1.rank.points_spec() as nat
    }
}

proof fn lemma_plays_points_prefix(plays: Seq<(Player, Card)>, n: int)
    requires
        0 <= n <= plays.len(),
    ensures
        plays_points(plays.take(n)) <= plays_points(plays),
    decreases plays.len(),
{
    if n < plays.len() {
        assert(plays.take(n) =~= plays.drop_last().take(n));
        lemma_plays_points_prefix(plays.drop_last(), n);
    } else {
        assert(plays.take(n) =~= plays);
    }
}

/// No card is worth more than eleven points.
pub proof fn lemma_plays_points_bound(plays: Seq<(Player, Card)>)
    ensures
        plays_points(plays) <= 11 * plays.len(),
    decreases plays.len(),
{
    if plays.len() > 0 {
        lemma_plays_points_bound(plays.drop_last());
    }
}

/// The position of the winning card among the first `n` plays: each card that beats the
/// winning card so far takes over.
pub open spec fn winning_position(plays: Seq<(Player, Card)>, n: int, trump: Option<Suit>, game_type: GameType) -> int
    decreases n,
{
    if n <= 1 {
        0
    } else {
        let w = winning_position(plays, n - 1, trump, game_type);
        if plays[n - 1].1.beats_spec(plays[w].1, trump, game_type) {
            n - 1
        } else {
            w
        }
    }
}

proof fn lemma_winning_position_range(plays: Seq<(Player, Card)>, n: int, trump: Option<Suit>, game_type: GameType)
    requires
        1 <= n,
    ensures
        0 <= winning_position(plays, n, trump, game_type) < n,
    decreases n,
{
    if n > 1 {
        lemma_winning_position_range(plays, n - 1, trump, game_type);
    }
}

/// Beating is transitive: a card that beats a card beats whatever that card beats.
proof fn lemma_beats_transitive(a: Card, b: Card, c: Card, trump: Option<Suit>, game_type: GameType)
    requires
        a.beats_spec(b, trump, game_type),
        b.beats_spec(c, trump, game_type),
    ensures
        a.beats_spec(c, trump, game_type),
{
}

/// The winning card among the first `n` plays is beaten by none of them.
proof fn lemma_winning_position_unbeaten(plays: Seq<(Player, Card)>, n: int, trump: Option<Suit>, game_type: GameType)
    requires
        1 <= n <= plays.len(),
    ensures
        0 <= winning_position(plays, n, trump, game_type) < n,
        forall|j: int| 0 <= j < n ==> !(#[trigger] plays[j].1).beats_spec(
            plays[winning_position(plays, n, trump, game_type)].1,
            trump,
            game_type,
        ),
    decreases n,
{
    lemma_winning_position_range(plays, n, trump, game_type);
    let w = winning_position(plays, n, trump, game_type);
    if n == 1 {
        crate::classic::card::lemma_beats_asymmetric(plays[0].1, plays[0].1, trump, game_type);
    } else {
        lemma_winning_position_unbeaten(plays, n - 1, trump, game_type);
        let v = winning_position(plays, n - 1, trump, game_type);
        assert forall|j: int| 0 <= j < n implies !(#[trigger] plays[j].1).beats_spec(plays[w].1, trump, game_type) by {
            crate::classic::card::lemma_beats_asymmetric(plays[j].1, plays[w].1, trump, game_type);
            if j < n - 1 && w == n - 1 && plays[j].1.beats_spec(plays[w].1, trump, game_type) {
                lemma_beats_transitive(plays[j].1, plays[w].1, plays[v].1, trump, game_type);
            }
        }
    }
}

/// A single trick: up to 3 cards (one from each player).
#[derive(Debug, Clone, PartialEq, Eq)]
pub struct Trick {
    /// Cards played, in order. Entry 0 = first player to play, etc.
    plays: Vec<(Player, Card)>,
}

impl View for Trick {
    type V = Seq<(Player, Card)>;

    closed spec fn view(&self) -> Seq<(Player, Card)> {
        self.plays@
    }
}

impl Trick {
    /// Create an empty trick.
    pub fn new() -> (t: Self)
        ensures
            t@ == Seq::<(Player, Card)>::empty(),
    {
        Self { plays: Vec::with_capacity(3) }
    }

    /// Add a card to the trick.
    pub fn add(&mut self, player: Player, card: Card)
        ensures
            final(self)@ == old(self)@.push((player, card)),
    {
        self.plays.push((player, card));
    }

    /// Number of cards played so far.
    pub fn len(&self) -> (n: usize)
        ensures
            n == self@.len(),
    {
        self.plays.len()
    }

    /// Whether the trick has no cards yet.
    pub fn is_empty(&self) -> (b: bool)
        ensures
            b == (self@.len() == 0),
    {
        self.plays.len() == 0
    }

    /// Whether the trick is complete (all 3 played).
    pub fn is_complete(&self) -> (b: bool)
        ensures
            b == (self@.len() == 3),
    {
        self.plays.len() == 3
    }

    /// All plays in the trick (player and card).
    pub fn plays(&self) -> (p: &[(Player, Card)])
        ensures
            p@ == self@,
    {
        self.plays.as_slice()
    }

    /// Cards in the trick (without player info).
    pub fn cards(&self) -> (c: Vec<Card>)
        ensures
            c@ == self@.map_values(|pc: (Player, Card)| pc.1),
    {
        let mut c: Vec<Card> = Vec::new();
        let mut i: usize = 0;
        while i < self.plays.len()
            invariant
                i <= self@.len(),
                c@ == self@.take(i as int).map_values(|pc: (Player, Card)| pc.1),
            decreases self@.len() - i,
        {
            c.push(self.plays[i].1);
            assert(self@.take(i + 1).map_values(|pc: (Player, Card)| pc.1) =~= self@.take(i as int).map_values(
                |pc: (Player, Card)| pc.1,
            ).push(self@[i as int].1));
            i = i + 1;
        }
        assert(self@.take(self@.len() as int) =~= self@);
        c
    }

    /// The lead suit (suit of first card).
    pub fn lead_suit(&self) -> (s: Option<Suit>)
        ensures
            s == (if self@.len() == 0 {
                None
            } else {
                Some(self@[0].1.suit)
            }),
    {
        if self.plays.len() == 0 {
            None
        } else {
            Some(self.plays[0].1.suit)
        }
    }

    /// The winner of three plays: the player of the card that no later card beat after it
    /// took the lead.
    pub open spec fn winner_spec_of(plays: Seq<(Player, Card)>, trump: Option<Suit>, game_type: GameType) -> Player {
        plays[winning_position(plays, 3, trump, game_type)].0
    }

    /// The winner of a complete trick; `None` until three cards are played.
    pub open spec fn winner_spec(&self, trump: Option<Suit>, game_type: GameType) -> Option<Player> {
        if self@.len() != 3 {
            None
        } else {
            Some(Self::winner_spec_of(self@, trump, game_type))
        }
    }

    /// Determine who won the trick given trump and game type.
    pub fn winner(&self, trump: Option<Suit>, game_type: GameType) -> (w: Option<Player>)
        ensures
            w == self.winner_spec(trump, game_type),
    {
        if self.plays.len() != 3 {
            return None;
        }
        let mut best: usize = 0;
        let mut i: usize = 1;
        while i < 3
            invariant
                1 <= i <= 3,
                self@.len() == 3,
                best as int == winning_position(self@, i as int, trump, game_type),
                best < i,
            decreases 3 - i,
        {
            if self.plays[i].1.beats(&self.plays[best].1, trump, game_type) {
                best = i;
            }
            i = i + 1;
        }
        Some(self.plays[best].0)
    }

    /// Total points in the trick.
    pub fn points(&self) -> (p: u16)
        requires
            plays_points(self@) <= u16::MAX,
        ensures
            p == plays_points(self@),
    {
        let mut total: u16 = 0;
        let mut i: usize = 0;
        while i < self.plays.len()
            invariant
                i <= self@.len(),
                total == plays_points(self@.take(i as int)),
                plays_points(self@) <= u16::MAX,
            decreases self@.len() - i,
        {
            assert(self@.take(i + 1).drop_last() =~= self@.take(i as int));
            proof {
                lemma_plays_points_prefix(self@, i + 1);
            }
            total = total + self.plays[i].1.points() as u16;
            i = i + 1;
        }
        assert(self@.take(self@.len() as int) =~= self@);
        total
    }
}

impl Default for Trick {
    fn default() -> (t: Self)
        ensures
            t@ == Seq::<(Player, Card)>::empty(),
    {
        Self::new()
    }
}

/// The winner of a complete trick played a card that no later card beat after it took the
/// lead; in particular the winner is one of the three players of the trick.
pub proof fn lemma_trick_winner_played(t: Trick, trump: Option<Suit>, game_type: GameType)
    requires
        t@.len() == 3,
    ensures
        exists|i: int| 0 <= i < 3 && t.winner_spec(trump, game_type) == Some(#[trigger] t@[i].0),
{
    lemma_winning_position_range(t@, 3, trump, game_type);
    let w = winning_position(t@, 3, trump, game_type);
    assert(t.winner_spec(trump, game_type) == Some(t@[w].0));
}

/// The winner of a complete trick played the strongest card of the trick: no card of the
/// trick beats it.
pub proof fn lemma_trick_winner_unbeaten(t: Trick, trump: Option<Suit>, game_type: GameType)
    requires
        t@.len() == 3,
    ensures
        exists|w: int|
            0 <= w < 3 && t.winner_spec(trump, game_type) == Some(#[trigger] t@[w].0) && forall|j: int|
                0 <= j < 3 ==> !(#[trigger] t@[j].1).beats_spec(t@[w].1, trump, game_type),
{
    lemma_winning_position_unbeaten(t@, 3, trump, game_type);
    let w = winning_position(t@, 3, trump, game_type);
    assert(t.winner_spec(trump, game_type) == Some(t@[w].0));
}

} // verus!
