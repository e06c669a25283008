//! Game state, phases, and configuration for Dreierschnapsen.

use vstd::prelude::*;
use crate::classic::card::{Card, Suit};
use crate::classic::game_type::GameType;

verus! {

/// Player identifier (0, 1, or 2).
pub type PlayerId = u8;

/// Current phase of the game.
#[derive(Debug, Clone, PartialEq, Eq, Structural)]
pub enum GamePhase {
    /// Dealing cards
    Dealing,
    /// Rufer must call trump from first 3 cards
    TrumpCalling,
    /// Bidding: who wants to play which game
    Bidding,
    /// Playing tricks
    Playing,
    /// Round finished, scoring
    RoundFinished,
    /// Match finished (someone reached 24)
    MatchFinished,
}

/// A bid (game type declaration) by a player.
#[derive(Debug, Clone)]
pub struct Bid {
    pub player: PlayerId,
    pub game_type: GameType,
}

/// The card points of a pile of cards.
pub open spec fn cards_points(cards: Seq<Card>) -> nat
    decreases cards.len(),
{
    if cards.len() == 0 {
        0
    } else {
        cards_points(cards.drop_last()) + cards.last().rank.points_spec() as nat
    }
}

proof fn lemma_cards_points_prefix(cards: Seq<Card>, n: int)
    requires
        0 <= n <= cards.len(),
    ensures
        cards_points(cards.take(n)) <= cards_points(cards),
    decreases cards.len(),
{
    if n < cards.len() {
        assert(cards.take(n) =~= cards.drop_last().take(n));
        lemma_cards_points_prefix(cards.drop_last(), n);
    } else {
        assert(cards.take(n) =~= cards);
    }
}

/// A player's hand of cards.
#[derive(Debug, Clone)]
pub struct Hand {
    cards: Vec<Card>,
}

impl View for Hand {
    type V = Seq<Card>;

    closed spec fn view(&self) -> Seq<Card> {
        self.cards@
    }
}

impl Default for Hand {
    fn default() -> (h: Self)
        ensures
            h@ == Seq::<Card>::empty(),
    {
        Hand { cards: Vec::new() }
    }
}

impl Hand {
    pub fn new() -> (h: Self)
        ensures
            h@ == Seq::<Card>::empty(),
    {
        Hand { cards: Vec::with_capacity(6) }
    }

    pub fn with_capacity(n: usize) -> (h: Self)
        ensures
            h@ == Seq::<Card>::empty(),
    {
        Hand { cards: Vec::with_capacity(n) }
    }

    pub fn cards(&self) -> (c: &[Card])
        ensures
            c@ == self@,
    {
        self.cards.as_slice()
    }

    pub fn add(&mut self, card: Card)
        ensures
            final(self)@ == old(self)@.push(card),
    {
        self.cards.push(card);
    }

    /// Removes the first copy of the card; `false` when the hand lacks it.
    pub fn remove(&mut self, card: &Card) -> (removed: bool)
        ensures
            removed == old(self)@.contains(*card),
            removed ==> final(self)@ == crate::seq_facts::without_first(old(self)@, *card),
            !removed ==> final(self)@ == old(self)@,
    {
        let mut i: usize = 0;
        let mut found = false;
        while i < self.cards.len()
            invariant
                i <= self.cards@.len(),
                forall|j: int| 0 <= j < i ==> self.cards@[j] != *card,
                found ==> i < self.cards@.len() && self.cards@[i as int] == *card,
            ensures
                found ==> i < self.cards@.len() && self.cards@[i as int] == *card,
                !found ==> i == self.cards@.len(),
                forall|j: int| 0 <= j < i ==> self.cards@[j] != *card,
            decreases self.cards@.len() - i,
        {
            if self.cards[i] == *card {
                found = true;
                break;
            }
            i = i + 1;
        }
        if found {
            proof {
                crate::seq_facts::lemma_first_position(self.cards@, *card, i as int);
            }
            self.cards.remove(i);
            true
        } else {
            false
        }
    }

    pub fn contains(&self, card: &Card) -> (b: bool)
        ensures
            b == self@.contains(*card),
    {
        let mut i: usize = 0;
        while i < self.cards.len()
            invariant
                i <= self.cards@.len(),
                forall|j: int| 0 <= j < i ==> self.cards@[j] != *card,
            decreases self.cards@.len() - i,
        {
            if self.cards[i] == *card {
                return true;
            }
            i = i + 1;
        }
        false
    }

    pub fn len(&self) -> (n: usize)
        ensures
            n == self@.len(),
    {
        self.cards.len()
    }

    pub fn is_empty(&self) -> (b: bool)
        ensures
            b == (self@.len() == 0),
    {
        self.cards.len() == 0
    }

    /// The card points of the hand.
    pub fn total_points(&self) -> (p: u32)
        requires
            cards_points(self@) <= u32::MAX,
        ensures
            p == cards_points(self@),
    {
        let mut total: u32 = 0;
        let mut i: usize = 0;
        while i < self.cards.len()
            invariant
                i <= self@.len(),
                total == cards_points(self@.take(i as int)),
                cards_points(self@) <= u32::MAX,
            decreases self@.len() - i,
        {
            assert(self@.take(i + 1).drop_last() =~= self@.take(i as int));
            proof {
                lemma_cards_points_prefix(self@, i + 1);
            }
            total = total + self.cards[i].points() as u32;
            i = i + 1;
        }
        assert(self@.take(self@.len() as int) =~= self@);
        total
    }
}

/// The card points of the played cards of a trick.
pub open spec fn played_points(plays: Seq<(PlayerId, Card)>) -> nat
    decreases plays.len(),
{
    if plays.len() == 0 {
        0
    } else {
        played_points(plays.drop_last()) + plays.last().1.rank.points_spec() as nat
    }
}

proof fn lemma_played_points_prefix(plays: Seq<(PlayerId, Card)>, n: int)
    requires
        0 <= n <= plays.len(),
    ensures
        played_points(plays.take(n)) <= played_points(plays),
    decreases plays.len(),
{
    if n < plays.len() {
        assert(plays.take(n) =~= plays.drop_last().take(n));
        lemma_played_points_prefix(plays.drop_last(), n);
    } else {
        assert(plays.take(n) =~= plays);
    }
}

/// A single trick (cards played in one round).
#[derive(Debug, Clone)]
pub struct Trick {
    /// Cards played: (player_id, card)
    plays: Vec<(PlayerId, Card)>,
}

impl View for Trick {
    type V = Seq<(PlayerId, Card)>;

    closed spec fn view(&self) -> Seq<(PlayerId, Card)> {
        self.plays@
    }
}

impl Default for Trick {
    fn default() -> (t: Self)
        ensures
            t@ == Seq::<(PlayerId, Card)>::empty(),
    {
        Trick { plays: Vec::new() }
    }
}

impl Trick {
    pub fn new() -> (t: Self)
        ensures
            t@ == Seq::<(PlayerId, Card)>::empty(),
    {
        Trick { plays: Vec::with_capacity(3) }
    }

    pub fn add(&mut self, player: PlayerId, card: Card)
        ensures
            final(self)@ == old(self)@.push((player, card)),
    {
        self.plays.push((player, card));
    }

    pub fn plays(&self) -> (p: &[(PlayerId, Card)])
        ensures
            p@ == self@,
    {
        self.plays.as_slice()
    }

    pub fn len(&self) -> (n: usize)
        ensures
            n == self@.len(),
    {
        self.plays.len()
    }

    pub fn is_complete(&self) -> (b: bool)
        ensures
            b == (self@.len() == 3),
    {
        self.plays.len() == 3
    }

    pub fn lead_suit(&self) -> (s: Option<Suit>)
        ensures
            s == (if self@.len() == 0 {
                None
            } else {
                Some(self@[0].1.suit)
            }),
    {
        if self.plays.len() == 0 {
            None
        } else {
            Some(self.plays[0].1.suit)
        }
    }

    /// Total points in this trick.
    pub fn points(&self) -> (p: u32)
        requires
            played_points(self@) <= u32::MAX,
        ensures
            p == played_points(self@),
    {
        let mut total: u32 = 0;
        let mut i: usize = 0;
        while i < self.plays.len()
            invariant
                i <= self@.len(),
                total == played_points(self@.take(i as int)),
                played_points(self@) <= u32::MAX,
            decreases self@.len() - i,
        {
            assert(self@.take(i + 1).drop_last() =~= self@.take(i as int));
            proof {
                lemma_played_points_prefix(self@, i + 1);
            }
            total = total + self.plays[i].1.points() as u32;
            i = i + 1;
        }
        assert(self@.take(self@.len() as int) =~= self@);
        total
    }
}

/// Configuration for which game variants are allowed (regional rules).
#[derive(Debug, Clone, Copy, PartialEq, Eq, Structural)]
pub struct GameConfig {
    /// Allow Bettler-style games
    pub allow_bettler: bool,
    /// Allow Assenbettler
    pub allow_assenbettler: bool,
    /// Allow Ass-Bettler
    pub allow_ass_bettler: bool,
    /// Allow Zehnergang, Koenigsgang, Damengang
    pub allow_gang_variants: bool,
    /// Allow Bauernloch
    pub allow_bauernloch: bool,
    /// Allow Flecken (doubling)
    pub allow_flecken: bool,
}

impl Default for GameConfig {
    /// Everything allowed.
    fn default() -> (c: Self)
        ensures
            c == (GameConfig {
                allow_bettler: true,
                allow_assenbettler: true,
                allow_ass_bettler: true,
                allow_gang_variants: true,
                allow_bauernloch: true,
                allow_flecken: true,
            }),
    {
        GameConfig {
            allow_bettler: true,
            allow_assenbettler: true,
            allow_ass_bettler: true,
            allow_gang_variants: true,
            allow_bauernloch: true,
            allow_flecken: true,
        }
    }
}

/// State of a single round.
#[derive(Debug, Clone)]
pub struct RoundState {
    pub phase: GamePhase,
    /// Dealer (Geber) for this round
    pub dealer: PlayerId,
    /// Rufer (left of dealer) - calls trump
    pub rufer: PlayerId,
    /// Trump suit (None if not yet called or game has no trump)
    pub trump: Option<Suit>,
    /// Declared game type (None until bidding resolves)
    pub game_type: Option<GameType>,
    /// Player who declared and is playing
    pub declarer: Option<PlayerId>,
    /// Flecken multiplier: 1, 2, 4, or 8
    pub flecken_multiplier: u8,
    /// Hands for each player
    pub hands: [Hand; 3],
    /// Talon (2 cards)
    pub talon: Vec<Card>,
    /// Current trick being played
    pub current_trick: Trick,
    /// Completed tricks: (winner, trick)
    pub completed_tricks: Vec<(PlayerId, Trick)>,
    /// Points won by declarer so far this round
    pub declarer_points: u32,
    /// Points won by opponents so far
    pub opponent_points: u32,
    /// Who plays next
    pub next_to_play: PlayerId,
    /// Bids made during bidding phase
    pub bids: Vec<Bid>,
}

impl RoundState {
    /// A new round while dealing: the Rufer sits left of the dealer and plays next; no
    /// trump, game type or declarer yet; Flecken at one; everything empty.
    pub fn new(dealer: PlayerId) -> (r: Self)
        requires
            dealer < 255,
        ensures
            r.phase == GamePhase::Dealing,
            r.dealer == dealer,
            r.rufer == (dealer + 1) % 3,
            r.trump is None,
            r.game_type is None,
            r.declarer is None,
            r.flecken_multiplier == 1,
            forall|i: int| 0 <= i < 3 ==> (#[trigger] r.hands@[i])@ == Seq::<Card>::empty(),
            r.talon@ == Seq::<Card>::empty(),
            r.current_trick@ == Seq::<(PlayerId, Card)>::empty(),
            r.completed_tricks@ == Seq::<(PlayerId, Trick)>::empty(),
            r.declarer_points == 0,
            r.opponent_points == 0,
            r.next_to_play == (dealer + 1) % 3,
            r.bids@ == Seq::<Bid>::empty(),
    {
        let rufer = (dealer + 1) % 3;
        RoundState {
            phase: GamePhase::Dealing,
            dealer,
            rufer,
            trump: None,
            game_type: None,
            declarer: None,
            flecken_multiplier: 1,
            hands: [Hand::default(), Hand::default(), Hand::default()],
            talon: Vec::new(),
            current_trick: Trick::new(),
            completed_tricks: Vec::new(),
            declarer_points: 0,
            opponent_points: 0,
            next_to_play: rufer,
            bids: Vec::new(),
        }
    }
}

/// Full game state (match across rounds).
#[derive(Debug, Clone)]
pub struct GameState {
    pub config: GameConfig,
    /// Scores: 0-24 per player
    pub scores: [u8; 3],
    /// Current round (None between rounds or when match is over)
    pub round: Option<RoundState>,
}

impl GameState {
    pub fn new(config: GameConfig) -> (g: Self)
        ensures
            g.config == config,
            g.scores@ == seq![0u8, 0u8, 0u8],
            g.round is None,
    {
        GameState { config, scores: [0, 0, 0], round: None }
    }

    /// A match whose first round is being dealt by `dealer`.
    pub fn with_round(dealer: PlayerId, config: GameConfig) -> (g: Self)
        requires
            dealer < 255,
        ensures
            g.config == config,
            g.scores@ == seq![0u8, 0u8, 0u8],
            g.round matches Some(r) && r.dealer == dealer && r.phase == GamePhase::Dealing && r.rufer == (dealer + 1) % 3
                && r.next_to_play == (dealer + 1) % 3,
    {
        GameState { config, scores: [0, 0, 0], round: Some(RoundState::new(dealer)) }
    }
}

} // verus!
