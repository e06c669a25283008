use vstd::prelude::*;
use crate::model::card::{Card, Rank, Suit};
use crate::seq_facts::{lemma_filter_members, lemma_filter_take_step, lemma_take_full};

verus! {

/// Identifies a player at the table (0, 1, 2).
pub type PlayerId = usize;

/// The three seat roles, rotating each hand.
#[derive(Debug, Clone, Copy, PartialEq, Eq, Structural)]
pub enum Role {
    /// Dealer: shuffles and deals.
    Geber,
    /// Caller: determines trump; sits left of Geber.
    Rufer,
    /// Third player: sits left of Rufer.
    Third,
}

/// All supported game types, ordered by ascending point value.
#[derive(Debug, Clone, Copy, PartialEq, Eq, Hash, Structural)]
pub enum GameType {
    Normal,
    Bettler,
    Assenbettler,
    AssBettler,
    Schnapser,
    Plauderer,
    Damengang,
    Koenigsgang,
    Gang,
    Zehnergang,
    Bauernloch,
    Bauernschnapser,
    Kontraschnapser,
    Farbringerl,
    Kontrabauernschnapser,
    Herrenschnapser,
}

impl GameType {
    /// Base point value before any Spritzen doubling.
    pub open spec fn base_points_spec(self) -> nat {
        match self {
            GameType::Normal => 1,
            GameType::Bettler => 4,
            GameType::Assenbettler => 5,
            GameType::AssBettler => 5,
            GameType::Schnapser => 6,
            GameType::Plauderer => 7,
            GameType::Damengang => 7,
            GameType::Koenigsgang => 8,
            GameType::Gang => 9,
            GameType::Zehnergang => 10,
            GameType::Bauernloch => 12,
            GameType::Bauernschnapser => 12,
            GameType::Kontraschnapser => 12,
            GameType::Farbringerl => 18,
            GameType::Kontrabauernschnapser => 24,
            GameType::Herrenschnapser => 24,
        }
    }

    pub fn base_points(self) -> (p: u8)
        ensures
            p == self.base_points_spec(),
    {
        match self {
            GameType::Normal => 1,
            GameType::Bettler => 4,
            GameType::Assenbettler => 5,
            GameType::AssBettler => 5,
            GameType::Schnapser => 6,
            GameType::Plauderer => 7,
            GameType::Damengang => 7,
            GameType::Koenigsgang => 8,
            GameType::Gang => 9,
            GameType::Zehnergang => 10,
            GameType::Bauernloch => 12,
            GameType::Bauernschnapser => 12,
            GameType::Kontraschnapser => 12,
            GameType::Farbringerl => 18,
            GameType::Kontrabauernschnapser => 24,
            GameType::Herrenschnapser => 24,
        }
    }

    /// The game types in which the called trump suit counts.
    pub open spec fn has_trump_spec(self) -> bool {
        match self {
            GameType::Normal | GameType::Schnapser | GameType::Bauernloch
            | GameType::Bauernschnapser | GameType::Kontraschnapser
            | GameType::Kontrabauernschnapser | GameType::Herrenschnapser
            | GameType::Plauderer => true,
            _ => false,
        }
    }

    pub fn has_trump(self) -> (b: bool)
        ensures
            b == self.has_trump_spec(),
    {
        match self {
            GameType::Normal | GameType::Schnapser | GameType::Bauernloch
            | GameType::Bauernschnapser | GameType::Kontraschnapser
            | GameType::Kontrabauernschnapser | GameType::Herrenschnapser
            | GameType::Plauderer => true,
            _ => false,
        }
    }

    /// Only the Rufer may announce Schnapser, Bauernschnapser, Bauernloch and Herrenschnapser.
    pub open spec fn rufer_only_spec(self) -> bool {
        match self {
            GameType::Schnapser | GameType::Bauernschnapser | GameType::Bauernloch
            | GameType::Herrenschnapser => true,
            _ => false,
        }
    }

    pub fn rufer_only(self) -> (b: bool)
        ensures
            b == self.rufer_only_spec(),
    {
        match self {
            GameType::Schnapser | GameType::Bauernschnapser | GameType::Bauernloch
            | GameType::Herrenschnapser => true,
            _ => false,
        }
    }

    /// Only a non-Rufer may announce Kontraschnapser and Kontrabauernschnapser.
    pub open spec fn non_rufer_only_spec(self) -> bool {
        match self {
            GameType::Kontraschnapser | GameType::Kontrabauernschnapser => true,
            _ => false,
        }
    }

    pub fn non_rufer_only(self) -> (b: bool)
        ensures
            b == self.non_rufer_only_spec(),
    {
        match self {
            GameType::Kontraschnapser | GameType::Kontrabauernschnapser => true,
            _ => false,
        }
    }

    /// The rank ordering used to compare cards of one suit in this game type.
    pub open spec fn rank_ordering_spec(self) -> RankOrdering {
        match self {
            GameType::Assenbettler | GameType::Zehnergang | GameType::Bauernloch => RankOrdering::AceLow,
            GameType::Koenigsgang => RankOrdering::TenLow,
            GameType::Damengang => RankOrdering::KingLow,
            _ => RankOrdering::Standard,
        }
    }

    pub fn rank_ordering(self) -> (o: RankOrdering)
        ensures
            o == self.rank_ordering_spec(),
    {
        match self {
            GameType::Assenbettler | GameType::Zehnergang | GameType::Bauernloch => RankOrdering::AceLow,
            GameType::Koenigsgang => RankOrdering::TenLow,
            GameType::Damengang => RankOrdering::KingLow,
            _ => RankOrdering::Standard,
        }
    }

    /// What the announcing player must achieve.
    pub open spec fn goal_spec(self) -> GameGoal {
        match self {
            GameType::Normal | GameType::Schnapser | GameType::Kontraschnapser
            | GameType::Plauderer => GameGoal::Reach66,
            GameType::Bettler | GameType::Assenbettler | GameType::AssBettler => GameGoal::TakeNoTricks,
            _ => GameGoal::TakeAllTricks,
        }
    }

    pub fn goal(self) -> (g: GameGoal)
        ensures
            g == self.goal_spec(),
    {
        match self {
            GameType::Normal => GameGoal::Reach66,
            GameType::Bettler | GameType::Assenbettler | GameType::AssBettler => GameGoal::TakeNoTricks,
            GameType::Schnapser | GameType::Kontraschnapser => GameGoal::Reach66,
            GameType::Gang | GameType::Zehnergang | GameType::Koenigsgang | GameType::Damengang
            | GameType::Bauernschnapser | GameType::Kontrabauernschnapser | GameType::Bauernloch => {
                GameGoal::TakeAllTricks
            },
            GameType::Farbringerl | GameType::Herrenschnapser => GameGoal::TakeAllTricks,
            GameType::Plauderer => GameGoal::Reach66,
        }
    }

    pub open spec fn name_de_spec(self) -> Seq<char> {
        match self {
            GameType::Normal => "Normales Spiel"@,
            GameType::Bettler => "Bettler"@,
            GameType::Assenbettler => "Assenbettler"@,
            GameType::AssBettler => "Ass-Bettler"@,
            GameType::Schnapser => "Schnapser"@,
            GameType::Plauderer => "Plauderer"@,
            GameType::Damengang => "Damengang"@,
            GameType::Koenigsgang => "K\u{f6}nigsgang"@,
            GameType::Gang => "Gang"@,
            GameType::Zehnergang => "Zehnergang"@,
            GameType::Bauernloch => "Bauernloch"@,
            GameType::Bauernschnapser => "Bauernschnapser"@,
            GameType::Kontraschnapser => "Kontraschnapser"@,
            GameType::Farbringerl => "Farbringerl"@,
            GameType::Kontrabauernschnapser => "Kontrabauernschnapser"@,
            GameType::Herrenschnapser => "Herrenschnapser"@,
        }
    }

    /// The German name of the game type.
    pub fn name_de(self) -> (s: &'static str)
        ensures
            s@ == self.name_de_spec(),
    {
        match self {
            GameType::Normal => "Normales Spiel",
            GameType::Bettler => "Bettler",
            GameType::Assenbettler => "Assenbettler",
            GameType::AssBettler => "Ass-Bettler",
            GameType::Schnapser => "Schnapser",
            GameType::Plauderer => "Plauderer",
            GameType::Damengang => "Damengang",
            GameType::Koenigsgang => "K\u{f6}nigsgang",
            GameType::Gang => "Gang",
            GameType::Zehnergang => "Zehnergang",
            GameType::Bauernloch => "Bauernloch",
            GameType::Bauernschnapser => "Bauernschnapser",
            GameType::Kontraschnapser => "Kontraschnapser",
            GameType::Farbringerl => "Farbringerl",
            GameType::Kontrabauernschnapser => "Kontrabauernschnapser",
            GameType::Herrenschnapser => "Herrenschnapser",
        }
    }

    /// The label "name (Npts)", with the base points written in decimal.
    pub open spec fn label_spec(self) -> Seq<char> {
        self.name_de_spec() + " ("@ + crate::text::decimal_spec(self.base_points_spec()) + "pts)"@
    }

    pub fn label(self) -> (s: String)
        ensures
            s@ == self.label_spec(),
    {
        let s = String::from_str(self.name_de());
        let s = s.concat(" (");
        let n = crate::text::decimal(self.base_points() as u64);
        let s = s.concat(n.as_str());
        s.concat("pts)")
    }
}

/// Which rank ordering to use for trick comparison.
#[derive(Debug, Clone, Copy, PartialEq, Eq, Structural)]
pub enum RankOrdering {
    /// Ace > Ten > King > Queen > Jack
    Standard,
    /// Ten > King > Queen > Jack > Ace
    AceLow,
    /// King > Queen > Jack > Ace > Ten
    TenLow,
    /// Queen > Jack > Ace > Ten > King
    KingLow,
}

impl RankOrdering {
    pub open spec fn strength_spec(self, rank: Rank) -> nat {
        match self {
            RankOrdering::Standard => rank.standard_strength_spec(),
            RankOrdering::AceLow => rank.ace_low_strength_spec(),
            RankOrdering::TenLow => rank.ten_low_strength_spec(),
            RankOrdering::KingLow => rank.king_low_strength_spec(),
        }
    }

    pub fn strength(self, rank: Rank) -> (s: u8)
        ensures
            s == self.strength_spec(rank),
    {
        match self {
            RankOrdering::Standard => rank.standard_strength(),
            RankOrdering::AceLow => rank.ace_low_strength(),
            RankOrdering::TenLow => rank.ten_low_strength(),
            RankOrdering::KingLow => rank.king_low_strength(),
        }
    }
}

/// What the announcing player must achieve to win.
#[derive(Debug, Clone, Copy, PartialEq, Eq, Structural)]
pub enum GameGoal {
    /// Reach 66 card points (Normal, Schnapser, Kontraschnapser).
    Reach66,
    /// Take zero tricks (Bettler variants).
    TakeNoTricks,
    /// Win every trick (Gang variants, Bauernschnapser, and so on).
    TakeAllTricks,
}

/// Level of Spritzen (doubling) applied to the current game.
#[derive(Debug, Clone, Copy, PartialEq, Eq, Structural)]
pub enum SpritzenLevel {
    Undoubled,
    Gespritzt,
    Zurueckgespritzt,
    Re,
}

impl SpritzenLevel {
    /// The multiplier: 1, 2, 4, 8.
    pub open spec fn multiplier_spec(self) -> nat {
        match self {
            SpritzenLevel::Undoubled => 1,
            SpritzenLevel::Gespritzt => 2,
            SpritzenLevel::Zurueckgespritzt => 4,
            SpritzenLevel::Re => 8,
        }
    }

    pub fn multiplier(self) -> (m: u8)
        ensures
            m == self.multiplier_spec(),
    {
        match self {
            SpritzenLevel::Undoubled => 1,
            SpritzenLevel::Gespritzt => 2,
            SpritzenLevel::Zurueckgespritzt => 4,
            SpritzenLevel::Re => 8,
        }
    }

    pub open spec fn next_spec(self) -> Option<SpritzenLevel> {
        match self {
            SpritzenLevel::Undoubled => Some(SpritzenLevel::Gespritzt),
            SpritzenLevel::Gespritzt => Some(SpritzenLevel::Zurueckgespritzt),
            SpritzenLevel::Zurueckgespritzt => Some(SpritzenLevel::Re),
            SpritzenLevel::Re => None,
        }
    }

    /// The next level of the chain, or `None` after Re.
    pub fn next(self) -> (n: Option<SpritzenLevel>)
        ensures
            n == self.next_spec(),
    {
        match self {
            SpritzenLevel::Undoubled => Some(SpritzenLevel::Gespritzt),
            SpritzenLevel::Gespritzt => Some(SpritzenLevel::Zurueckgespritzt),
            SpritzenLevel::Zurueckgespritzt => Some(SpritzenLevel::Re),
            SpritzenLevel::Re => None,
        }
    }
}

/// Each step of the Spritzen chain doubles the multiplier, and the chain ends after Re.
pub proof fn lemma_spritzen_next_doubles(level: SpritzenLevel)
    ensures
        match level.next_spec() {
            Some(n) => n.multiplier_spec() == 2 * level.multiplier_spec(),
            None => level == SpritzenLevel::Re,
        },
{
}

/// The sum of the card points of the played cards.
pub open spec fn played_points(cards: Seq<(PlayerId, Card)>) -> nat
    decreases cards.len(),
{
    if cards.len() == 0 {
        0
    } else {
        played_points(cards.drop_last()) + cards.last().1.points_spec()
    }
}

/// Sums the card points of played cards.
pub fn sum_played_points(cards: &Vec<(PlayerId, Card)>) -> (total: u8)
    requires
        played_points(cards@) <= u8::MAX,
    ensures
        total == played_points(cards@),
{
    let mut total: u8 = 0;
    let mut i: usize = 0;
    while i < cards.len()
        invariant
            i <= cards.len(),
            total == played_points(cards@.take(i as int)),
            played_points(cards@) <= u8::MAX,
        decreases cards.len() - i,
    {
        assert(cards@.take(i + 1).drop_last() =~= cards@.take(i as int));
        proof {
            lemma_played_points_prefix_le(cards@, i as int + 1);
        }
        total = total + cards[i].1.points();
        i = i + 1;
    }
    proof {
        lemma_take_full(cards@);
    }
    total
}

/// No card is worth more than 11 points.
pub proof fn lemma_played_points_bound(cards: Seq<(PlayerId, Card)>)
    ensures
        played_points(cards) <= 11 * cards.len(),
    decreases cards.len(),
{
    if cards.len() > 0 {
        lemma_played_points_bound(cards.drop_last());
    }
}

/// The points of a prefix never exceed the points of the whole sequence.
pub proof fn lemma_played_points_prefix_le(cards: Seq<(PlayerId, Card)>, n: int)
    requires
        0 <= n <= cards.len(),
    ensures
        played_points(cards.take(n)) <= played_points(cards),
    decreases cards.len(),
{
    if n < cards.len() {
        assert(cards.take(n) =~= cards.drop_last().take(n));
        lemma_played_points_prefix_le(cards.drop_last(), n);
    } else {
        assert(cards.take(n) =~= cards);
    }
}

/// A completed trick: the cards played and who won.
#[derive(Debug, Clone)]
pub struct Trick {
    pub cards: Vec<(PlayerId, Card)>,
    pub winner: PlayerId,
}

/// A completed trick as values: the played cards and the winner.
pub struct TrickView {
    pub cards: Seq<(PlayerId, Card)>,
    pub winner: PlayerId,
}

impl View for Trick {
    type V = TrickView;

    open spec fn view(&self) -> TrickView {
        TrickView { cards: self.cards@, winner: self.winner }
    }
}

impl Trick {
    /// The card points in the trick.
    pub fn points(&self) -> (p: u8)
        requires
            played_points(self.cards@) <= u8::MAX,
        ensures
            p == played_points(self.cards@),
    {
        sum_played_points(&self.cards)
    }

    /// The suit of the first card played.
    pub fn lead_suit(&self) -> (s: Suit)
        requires
            self.cards@.len() > 0,
        ensures
            s == self.cards@[0].1.suit,
    {
        self.cards[0].1.suit
    }
}

/// A marriage announcement (Zwanziger or Vierziger).
#[derive(Debug, Clone, Copy, PartialEq, Eq, Structural)]
pub struct Marriage {
    pub suit: Suit,
    pub is_trump: bool,
}

impl Marriage {
    /// 40 for a trump marriage (Vierziger), 20 otherwise (Zwanziger).
    pub open spec fn points_spec(self) -> nat {
        if self.is_trump {
            40
        } else {
            20
        }
    }

    pub fn points(self) -> (p: u8)
        ensures
            p == self.points_spec(),
    {
        if self.is_trump {
            40
        } else {
            20
        }
    }
}

/// An action a player can take during the game.
#[derive(Debug, Clone, Copy, PartialEq, Eq, Structural)]
pub enum Action {
    /// Choose the trump suit from the first 3 cards dealt.
    CallTrump(Suit),
    /// Announce a game type during the bidding phase.
    Bid(GameType),
    /// Pass during bidding.
    Pass,
    /// Choose to play with talon (pick up and discard 2) or without.
    TakeTalon { take: bool },
    /// Discard cards after taking the talon.
    Discard(Card, Card),
    /// Play a card during trick-taking.
    PlayCard(Card),
    /// Announce a marriage (20 or 40) while playing one of its cards.
    AnnounceMarriage(Marriage, Card),
    /// Spritzen / counter-spritzen.
    Spritzen,
    /// Accept the Spritzen without counter.
    AcceptSpritzen,
}

/// Points scored for a Normal game depend on the loser's situation.
#[derive(Debug, Clone, Copy, PartialEq, Eq, Structural)]
pub enum NormalGameResult {
    /// Loser has at least 33 points: winner gets 1.
    OnePunkt,
    /// Loser has fewer than 33 points: winner gets 2.
    Schneider,
    /// Loser took no tricks: winner gets 3.
    ThreePoints,
}

impl NormalGameResult {
    pub open spec fn points_spec(self) -> nat {
        match self {
            NormalGameResult::OnePunkt => 1,
            NormalGameResult::Schneider => 2,
            NormalGameResult::ThreePoints => 3,
        }
    }

    pub fn points(self) -> (p: u8)
        ensures
            p == self.points_spec(),
    {
        match self {
            NormalGameResult::OnePunkt => 1,
            NormalGameResult::Schneider => 2,
            NormalGameResult::ThreePoints => 3,
        }
    }

    pub open spec fn from_loser_points_spec(loser_points: nat, loser_has_trick: bool) -> NormalGameResult {
        if !loser_has_trick {
            NormalGameResult::ThreePoints
        } else if loser_points < 33 {
            NormalGameResult::Schneider
        } else {
            NormalGameResult::OnePunkt
        }
    }

    /// Three points if the loser took no trick, two if the loser has under 33, else one.
    pub fn from_loser_points(loser_points: u8, loser_has_trick: bool) -> (r: Self)
        ensures
            r == Self::from_loser_points_spec(loser_points as nat, loser_has_trick),
    {
        if !loser_has_trick {
            NormalGameResult::ThreePoints
        } else if loser_points < 33 {
            NormalGameResult::Schneider
        } else {
            NormalGameResult::OnePunkt
        }
    }
}

/// The overall match scoring (Bummerl tracking).
#[derive(Debug, Clone)]
pub struct MatchScore {
    pub game_points: [u8; 3],
    pub bummerl: [u8; 3],
}

impl MatchScore {
    pub fn new() -> (m: Self)
        ensures
            m.game_points@ == seq![0u8, 0u8, 0u8],
            m.bummerl@ == seq![0u8, 0u8, 0u8],
    {
        Self { game_points: [0; 3], bummerl: [0; 3] }
    }

    /// Records a finished hand: the declarer who won gets the awarded points, else each of
    /// the two other players gets them; game points stop at 255.
    pub fn record_hand(&mut self, declarer: PlayerId, declarer_won: bool, points: u8)
        requires
            declarer < 3,
        ensures
            final(self).bummerl == old(self).bummerl,
            forall|p: int|
                0 <= p < 3 ==> #[trigger] final(self).game_points@[p] == if (p == declarer) == declarer_won {
                    saturated(old(self).game_points@[p] + points)
                } else {
                    old(self).game_points@[p]
                },
    {
        let mut p: usize = 0;
        while p < 3
            invariant
                p <= 3,
                declarer < 3,
                self.bummerl == old(self).bummerl,
                forall|q: int|
                    0 <= q < 3 ==> #[trigger] self.game_points@[q] == if q < p && (q == declarer) == declarer_won {
                        saturated(old(self).game_points@[q] + points)
                    } else {
                        old(self).game_points@[q]
                    },
            decreases 3 - p,
        {
            if (p == declarer) == declarer_won {
                let before = self.game_points[p];
                self.game_points[p] = before.saturating_add(points);
            }
            p = p + 1;
        }
    }

    /// The first player, in seat order, whose game points reached 24.
    pub fn winner(&self) -> (w: Option<PlayerId>)
        ensures
            match w {
                Some(p) => p < 3 && self.game_points@[p as int] >= 24 && forall|q: int|
                    0 <= q < p ==> self.game_points@[q] < 24,
                None => forall|q: int| 0 <= q < 3 ==> self.game_points@[q] < 24,
            },
    {
        let mut i: usize = 0;
        while i < 3
            invariant
                i <= 3,
                forall|q: int| 0 <= q < i ==> self.game_points@[q] < 24,
            decreases 3 - i,
        {
            if self.game_points[i] >= 24 {
                return Some(i);
            }
            i = i + 1;
        }
        None
    }
}

/// A number of game points, stopped at 255.
pub open spec fn saturated(n: int) -> u8 {
    if n > 255 {
        255
    } else {
        n as u8
    }
}

/// Whether the card belongs to the trump suit, if there is one.
pub open spec fn is_trump_card(card: Card, trump: Option<Suit>) -> bool {
    trump == Some(card.suit)
}

/// The suit that decides a trick among its first `n` cards: trump if a trump card is
/// among them, otherwise the suit of the first card.
pub open spec fn deciding_suit(cards: Seq<(PlayerId, Card)>, n: int, trump: Option<Suit>) -> Suit {
    match trump {
        Some(t) => if exists|j: int| 0 <= j < n && #[trigger] cards[j].1.suit == t {
            t
        } else {
            cards[0].1.suit
        },
        None => cards[0].1.suit,
    }
}

/// Card `i` wins among the first `n` cards: it is of the deciding suit, no card of that
/// suit is stronger, and every earlier card of that suit is weaker.
pub open spec fn wins_among(
    cards: Seq<(PlayerId, Card)>,
    n: int,
    i: int,
    trump: Option<Suit>,
    ordering: RankOrdering,
) -> bool {
    let d = deciding_suit(cards, n, trump);
    &&& 0 <= i < n
    &&& cards[i].1.suit == d
    &&& forall|j: int|
        0 <= j < n && #[trigger] cards[j].1.suit == d ==> ordering.strength_spec(cards[j].1.rank)
            <= ordering.strength_spec(cards[i].1.rank)
    &&& forall|j: int|
        0 <= j < i && #[trigger] cards[j].1.suit == d ==> ordering.strength_spec(cards[j].1.rank)
            < ordering.strength_spec(cards[i].1.rank)
}

/// Card `i` wins the trick.
pub open spec fn wins_trick(
    cards: Seq<(PlayerId, Card)>,
    i: int,
    trump: Option<Suit>,
    ordering: RankOrdering,
) -> bool {
    wins_among(cards, cards.len() as int, i, trump, ordering)
}

/// Some card wins among the first `n` cards, for every `n` from 1 up.
pub proof fn lemma_winner_exists(cards: Seq<(PlayerId, Card)>, n: int, trump: Option<Suit>, ordering: RankOrdering)
    requires
        1 <= n <= cards.len(),
    ensures
        exists|i: int| wins_among(cards, n, i, trump, ordering),
    decreases n,
{
    if n == 1 {
        assert(wins_among(cards, 1, 0, trump, ordering));
    } else {
        let m = n - 1;
        lemma_winner_exists(cards, m, trump, ordering);
        let b = choose|i: int| wins_among(cards, m, i, trump, ordering);
        let k = n - 1;
        let s = cards;
        let d_old = deciding_suit(s, n - 1, trump);
        let d_new = deciding_suit(s, n, trump);
        match trump {
            Some(t) => {
                if exists|j: int| 0 <= j < n - 1 && #[trigger] s[j].1.suit == t {
                    let j0 = choose|j: int| 0 <= j < n - 1 && #[trigger] s[j].1.suit == t;
                    assert(s[j0].1.suit == t);
                    assert(d_new == t);
                } else if s[k].1.suit == t {
                    assert(d_new == t);
                } else {
                    assert forall|j: int| 0 <= j < n implies #[trigger] s[j].1.suit != t by {
                        if j < n - 1 {
                        }
                    }
                    assert(d_new == s[0].1.suit);
                }
            },
            None => {},
        }
        let sb = ordering.strength_spec(s[b].1.rank);
        let sk = ordering.strength_spec(s[k].1.rank);
        if s[k].1.suit == d_new && (s[b].1.suit != d_new || sk > sb) {
            assert forall|j: int|
                0 <= j < n && #[trigger] s[j].1.suit == d_new implies ordering.strength_spec(s[j].1.rank)
                <= ordering.strength_spec(s[k].1.rank) by {
                if j < n - 1 && s[b].1.suit == d_new {
                    assert(d_old == d_new);
                }
            }
            assert(wins_among(cards, n, k, trump, ordering));
        } else {
            assert(s[b].1.suit == d_new);
            assert(d_old == d_new);
            assert(wins_among(cards, n, b, trump, ordering));
        }
    }
}

/// At most one card wins among the first `n`.
pub proof fn lemma_winner_unique(
    cards: Seq<(PlayerId, Card)>,
    n: int,
    i: int,
    k: int,
    trump: Option<Suit>,
    ordering: RankOrdering,
)
    requires
        wins_among(cards, n, i, trump, ordering),
        wins_among(cards, n, k, trump, ordering),
    ensures
        i == k,
{
    let d = deciding_suit(cards, n, trump);
    if i < k {
        assert(cards[i].1.suit == d);
    } else if k < i {
        assert(cards[k].1.suit == d);
    }
}

/// Determines which player wins a trick: the strongest trump if any trump was played,
/// otherwise the strongest card of the led suit; the earlier card wins a tie.
pub fn trick_winner(cards: &[(PlayerId, Card)], trump: Option<Suit>, ordering: RankOrdering) -> (w: PlayerId)
    requires
        cards@.len() > 0,
    ensures
        exists|i: int| wins_trick(cards@, i, trump, ordering) && w == cards@[i].0,
{
    let lead_suit = cards[0].1.suit;
    let mut best_idx: usize = 0;
    let mut best_is_trump = match trump {
        Some(t) => cards[0].1.suit == t,
        None => false,
    };
    let mut best_strength = ordering.strength(cards[0].1.rank);
    proof {
        assert(wins_among(cards@, 1, 0, trump, ordering));
    }
    let mut i: usize = 1;
    while i < cards.len()
        invariant
            1 <= i <= cards@.len(),
            lead_suit == cards@[0].1.suit,
            best_idx < i,
            best_is_trump == is_trump_card(cards@[best_idx as int].1, trump),
            best_strength == ordering.strength_spec(cards@[best_idx as int].1.rank),
            wins_among(cards@, i as int, best_idx as int, trump, ordering),
        decreases cards@.len() - i,
    {
        let card = cards[i].1;
        let is_trump = match trump {
            Some(t) => card.suit == t,
            None => false,
        };
        let strength = ordering.strength(card.rank);
        let beats_current = if is_trump && !best_is_trump {
            true
        } else if !is_trump && best_is_trump {
            false
        } else if is_trump && best_is_trump {
            strength > best_strength
        } else if card.suit == lead_suit && cards[best_idx].1.suit == lead_suit {
            strength > best_strength
        } else if card.suit == lead_suit {
            true
        } else {
            false
        };
        proof {
            let n = i as int;
            let s = cards@;
            let d_old = deciding_suit(s, n, trump);
            let d_new = deciding_suit(s, n + 1, trump);
            match trump {
                Some(t) => {
                    if exists|j: int| 0 <= j < n && #[trigger] s[j].1.suit == t {
                        let j0 = choose|j: int| 0 <= j < n && #[trigger] s[j].1.suit == t;
                        assert(s[j0].1.suit == t);
                        assert(d_new == t);
                        assert(d_old == t);
                    } else if s[n].1.suit == t {
                        assert(d_new == t);
                    } else {
                        assert forall|j: int| 0 <= j < n + 1 implies #[trigger] s[j].1.suit != t by {
                            if j < n {
                            }
                        }
                        assert(d_new == s[0].1.suit);
                    }
                },
                None => {},
            }
        }
        if beats_current {
            best_idx = i;
            best_is_trump = is_trump;
            best_strength = strength;
        }
        proof {
            let n = i as int;
            let s = cards@;
            let d_new = deciding_suit(s, n + 1, trump);
            assert(s[best_idx as int].1.suit == d_new);
            assert forall|j: int|
                0 <= j < n + 1 && #[trigger] s[j].1.suit == d_new implies ordering.strength_spec(
                s[j].1.rank,
            ) <= ordering.strength_spec(s[best_idx as int].1.rank) by {
                if j < n {
                    assert(s[j].1.suit == deciding_suit(s, n, trump) || s[j].1.suit == d_new);
                }
            }
            assert forall|j: int|
                0 <= j < best_idx && #[trigger] s[j].1.suit == d_new implies ordering.strength_spec(
                s[j].1.rank,
            ) < ordering.strength_spec(s[best_idx as int].1.rank) by {
            }
        }
        i = i + 1;
    }
    assert(wins_trick(cards@, best_idx as int, trump, ordering));
    cards[best_idx].0
}


/// The cards of one suit.
pub open spec fn of_suit(suit: Suit) -> spec_fn(Card) -> bool {
    |c: Card| c.suit == suit
}

/// The cards of one suit that are stronger than the given strength.
pub open spec fn of_suit_above(suit: Suit, ordering: RankOrdering, strength: nat) -> spec_fn(Card) -> bool {
    |c: Card| c.suit == suit && ordering.strength_spec(c.rank) > strength
}

/// The cards of `hand` of the given suit, in hand order.
pub fn cards_of_suit(hand: &[Card], suit: Suit) -> (r: Vec<Card>)
    ensures
        r@ == hand@.filter(of_suit(suit)),
{
    let mut r: Vec<Card> = Vec::new();
    let mut i: usize = 0;
    while i < hand.len()
        invariant
            i <= hand@.len(),
            r@ == hand@.take(i as int).filter(of_suit(suit)),
        decreases hand@.len() - i,
    {
        proof {
            lemma_filter_take_step(hand@, i as int, of_suit(suit));
        }
        if hand[i].suit == suit {
            r.push(hand[i]);
        }
        i = i + 1;
    }
    proof {
        lemma_take_full(hand@);
    }
    r
}

/// The cards of `hand` of the given suit that are stronger than `strength`, in hand order.
pub fn cards_of_suit_above(hand: &[Card], suit: Suit, ordering: RankOrdering, strength: u8) -> (r: Vec<Card>)
    ensures
        r@ == hand@.filter(of_suit_above(suit, ordering, strength as nat)),
{
    let mut r: Vec<Card> = Vec::new();
    let mut i: usize = 0;
    while i < hand.len()
        invariant
            i <= hand@.len(),
            r@ == hand@.take(i as int).filter(of_suit_above(suit, ordering, strength as nat)),
        decreases hand@.len() - i,
    {
        proof {
            lemma_filter_take_step(hand@, i as int, of_suit_above(suit, ordering, strength as nat));
        }
        if hand[i].suit == suit && ordering.strength(hand[i].rank) > strength {
            r.push(hand[i]);
        }
        i = i + 1;
    }
    proof {
        lemma_take_full(hand@);
    }
    r
}

/// The cards a player may play (Farb- und Stichzwang): when following, a higher card of
/// the led suit if there is one, else any card of the led suit, else a trump (when trump
/// differs from the led suit), else any card; the leader may play any card.
pub open spec fn valid_plays_spec(
    hand: Seq<Card>,
    lead: Option<(Suit, Rank)>,
    trump: Option<Suit>,
    ordering: RankOrdering,
) -> Seq<Card> {
    match lead {
        None => hand,
        Some((lead_suit, lead_rank)) => {
            let higher = hand.filter(of_suit_above(lead_suit, ordering, ordering.strength_spec(lead_rank)));
            let same = hand.filter(of_suit(lead_suit));
            if higher.len() > 0 {
                higher
            } else if same.len() > 0 {
                same
            } else {
                match trump {
                    Some(t) => if t != lead_suit && hand.filter(of_suit(t)).len() > 0 {
                        hand.filter(of_suit(t))
                    } else {
                        hand
                    },
                    None => hand,
                }
            }
        },
    }
}

/// Returns the valid cards a player can play given the current trick state.
pub fn valid_plays(hand: &[Card], lead: Option<(Suit, Rank)>, trump: Option<Suit>, ordering: RankOrdering) -> (r: Vec<Card>)
    ensures
        r@ == valid_plays_spec(hand@, lead, trump, ordering),
        forall|i: int| 0 <= i < r@.len() ==> hand@.contains(#[trigger] r@[i]),
        hand@.len() > 0 ==> r@.len() > 0,
{
    match lead {
        None => {
            let r = vstd::slice::slice_to_vec(hand);
            proof {
                assert forall|i: int| 0 <= i < r@.len() implies hand@.contains(#[trigger] r@[i]) by {
                    assert(hand@[i] == r@[i]);
                }
            }
            r
        },
        Some((lead_suit, lead_rank)) => {
            let lead_strength = ordering.strength(lead_rank);
            proof {
                lemma_filter_members(hand@, of_suit_above(lead_suit, ordering, lead_strength as nat));
                lemma_filter_members(hand@, of_suit(lead_suit));
                crate::seq_facts::lemma_filter_empty(hand@, of_suit_above(lead_suit, ordering, lead_strength as nat));
                crate::seq_facts::lemma_filter_empty(hand@, of_suit(lead_suit));
            }
            let higher_same = cards_of_suit_above(hand, lead_suit, ordering, lead_strength);
            if higher_same.len() > 0 {
                return higher_same;
            }
            let same_suit = cards_of_suit(hand, lead_suit);
            if same_suit.len() > 0 {
                return same_suit;
            }
            if let Some(trump_suit) = trump {
                if trump_suit != lead_suit {
                    let trumps = cards_of_suit(hand, trump_suit);
                    proof {
                        lemma_filter_members(hand@, of_suit(trump_suit));
                    }
                    if trumps.len() > 0 {
                        return trumps;
                    }
                }
            }
            let r = vstd::slice::slice_to_vec(hand);
            proof {
                assert forall|i: int| 0 <= i < r@.len() implies hand@.contains(#[trigger] r@[i]) by {
                    assert(hand@[i] == r@[i]);
                }
            }
            r
        },
    }
}

/// What the playable cards are, over all hands: they come from the hand and are never none
/// while the hand has cards, and the leader may play any card.
pub proof fn lemma_valid_plays_from_hand(
    hand: Seq<Card>,
    lead: Option<(Suit, Rank)>,
    trump: Option<Suit>,
    ordering: RankOrdering,
)
    ensures
        forall|c: Card| #[trigger] valid_plays_spec(hand, lead, trump, ordering).contains(c) ==> hand.contains(c),
        hand.len() > 0 ==> valid_plays_spec(hand, lead, trump, ordering).len() > 0,
        lead is None ==> valid_plays_spec(hand, lead, trump, ordering) == hand,
{
    if let Some((s, r)) = lead {
        lemma_follow_rules(hand, s, r, trump, ordering);
    }
}

/// The rules for a follower, over all hands, when a card of suit `s` and rank `r` was led:
/// one who holds the suit plays that suit (Farbzwang), a card of it above the led card when
/// there is one (Stichzwang), else any card of it; one without the suit who holds a trump
/// of another suit plays a trump (Trumpfzwang); the playable cards come from the hand.
pub proof fn lemma_follow_rules(hand: Seq<Card>, s: Suit, r: Rank, trump: Option<Suit>, ordering: RankOrdering)
    ensures
        forall|c: Card| #[trigger] valid_plays_spec(hand, Some((s, r)), trump, ordering).contains(c) ==> hand.contains(c),
        hand.len() > 0 ==> valid_plays_spec(hand, Some((s, r)), trump, ordering).len() > 0,
        (exists|k: int| 0 <= k < hand.len() && (#[trigger] hand[k]).suit == s) ==> forall|c: Card|
            #[trigger] valid_plays_spec(hand, Some((s, r)), trump, ordering).contains(c) ==> c.suit == s,
        (exists|k: int|
            0 <= k < hand.len() && (#[trigger] hand[k]).suit == s && ordering.strength_spec(hand[k].rank)
                > ordering.strength_spec(r)) ==> forall|c: Card| #[trigger] valid_plays_spec(
            hand,
            Some((s, r)),
            trump,
            ordering,
        ).contains(c) ==> c.suit == s && ordering.strength_spec(c.rank) > ordering.strength_spec(r),
        (forall|k: int| 0 <= k < hand.len() && (#[trigger] hand[k]).suit == s ==> ordering.strength_spec(hand[k].rank)
            <= ordering.strength_spec(r)) ==> forall|k: int|
            0 <= k < hand.len() && hand[k].suit == s ==> #[trigger] valid_plays_spec(
                hand,
                Some((s, r)),
                trump,
                ordering,
            ).contains(hand[k]),
        trump is Some && trump->Some_0 != s && (forall|k: int| 0 <= k < hand.len() ==> (#[trigger] hand[k]).suit != s)
            && (exists|k: int| 0 <= k < hand.len() && (#[trigger] hand[k]).suit == trump->Some_0) ==> forall|c: Card|
            #[trigger] valid_plays_spec(hand, Some((s, r)), trump, ordering).contains(c) ==> c.suit == trump->Some_0,
{
    let v = valid_plays_spec(hand, Some((s, r)), trump, ordering);
    let st = ordering.strength_spec(r);
    assert forall|k: int| 0 <= k < hand.len() implies hand.contains(#[trigger] hand[k]) by {}
    lemma_filter_members(hand, of_suit_above(s, ordering, st));
    lemma_filter_members(hand, of_suit(s));
    crate::seq_facts::lemma_filter_empty(hand, of_suit_above(s, ordering, st));
    crate::seq_facts::lemma_filter_empty(hand, of_suit(s));
    if let Some(t) = trump {
        lemma_filter_members(hand, of_suit(t));
        crate::seq_facts::lemma_filter_empty(hand, of_suit(t));
    }
    assert forall|c: Card| #[trigger] v.contains(c) implies hand.contains(c) by {
        let i = choose|i: int| 0 <= i < v.len() && v[i] == c;
    }
}

/// Whether the hand holds both King and Queen of the suit.
pub open spec fn holds_marriage(hand: Seq<Card>, suit: Suit) -> bool {
    hand.contains(Card { suit, rank: Rank::King }) && hand.contains(Card { suit, rank: Rank::Queen })
}

/// The marriages in a hand, checking the given suits in order.
pub open spec fn marriages_in(hand: Seq<Card>, trump: Option<Suit>, suits: Seq<Suit>) -> Seq<Marriage>
    decreases suits.len(),
{
    if suits.len() == 0 {
        Seq::empty()
    } else {
        let rest = marriages_in(hand, trump, suits.drop_last());
        let s = suits.last();
        if holds_marriage(hand, s) {
            rest.push(Marriage { suit: s, is_trump: trump == Some(s) })
        } else {
            rest
        }
    }
}

/// Whether the hand holds the card.
pub fn hand_has(hand: &[Card], card: Card) -> (b: bool)
    ensures
        b == hand@.contains(card),
{
    let mut i: usize = 0;
    while i < hand.len()
        invariant
            i <= hand@.len(),
            forall|j: int| 0 <= j < i ==> hand@[j] != card,
        decreases hand@.len() - i,
    {
        if hand[i] == card {
            assert(hand@[i as int] == card);
            return true;
        }
        i = i + 1;
    }
    false
}

/// Detect the marriages (King and Queen of one suit) in a hand, in suit order.
pub fn detect_marriages(hand: &[Card], trump: Option<Suit>) -> (r: Vec<Marriage>)
    ensures
        r@ == marriages_in(hand@, trump, Suit::all_spec()),
{
    let mut marriages: Vec<Marriage> = Vec::new();
    let suits = Suit::ALL;
    assert(suits@ == Suit::all_spec());
    let mut i: usize = 0;
    while i < 4
        invariant
            i <= 4,
            suits@ == Suit::all_spec(),
            marriages@ == marriages_in(hand@, trump, Suit::all_spec().take(i as int)),
        decreases 4 - i,
    {
        let suit = suits[i];
        assert(Suit::all_spec().take(i + 1).drop_last() =~= Suit::all_spec().take(i as int));
        let has_king = hand_has(hand, Card::new(suit, Rank::King));
        let has_queen = hand_has(hand, Card::new(suit, Rank::Queen));
        if has_king && has_queen {
            let is_trump = match trump {
                Some(t) => t == suit,
                None => false,
            };
            marriages.push(Marriage { suit, is_trump });
        }
        i = i + 1;
    }
    assert(Suit::all_spec().take(4) =~= Suit::all_spec());
    marriages
}

/// The position of the first occurrence of a card.
#[verifier::opaque]
pub open spec fn first_index(s: Seq<Card>, c: Card) -> int {
    choose|i: int| 0 <= i < s.len() && s[i] == c && forall|j: int| 0 <= j < i ==> s[j] != c
}

/// The sequence without the first occurrence of the card.
pub open spec fn remove_card(s: Seq<Card>, c: Card) -> Seq<Card> {
    s.remove(first_index(s, c))
}

/// The position of the first occurrence of a card in a hand, if it is there.
pub fn position_of(hand: &[Card], card: Card) -> (r: Option<usize>)
    ensures
        match r {
            Some(i) => i < hand@.len() && i == first_index(hand@, card) && hand@[i as int] == card,
            None => !hand@.contains(card),
        },
{
    let mut i: usize = 0;
    while i < hand.len()
        invariant
            i <= hand@.len(),
            forall|j: int| 0 <= j < i ==> hand@[j] != card,
        decreases hand@.len() - i,
    {
        if hand[i] == card {
            proof {
                reveal(first_index);
            }
            let ghost k = first_index(hand@, card);
            assert(0 <= i < hand@.len() && hand@[i as int] == card && forall|j: int|
                0 <= j < i ==> hand@[j] != card);
            assert(0 <= k < hand@.len() && hand@[k] == card && forall|j: int| 0 <= j < k ==> hand@[j] != card);
            proof {
                if k < i {
                    assert(hand@[k] != card);
                } else if (i as int) < k {
                    assert(hand@[i as int] != card);
                }
            }
            return Some(i);
        }
        i = i + 1;
    }
    None
}

} // verus!
