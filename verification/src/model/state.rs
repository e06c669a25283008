use vstd::prelude::*;
use crate::model::card::{Card, Suit};
use crate::model::types::RankOrdering;
use crate::model::game_type::{DoublingLevel, GameType};
use crate::model::player::{PlayerId, PlayerState, Role};
use crate::model::action::{GameAnnouncement, Winner};

verus! {

/// The high-level phase of a deal.
#[derive(Debug, Clone, PartialEq, Eq)]
pub enum Phase {
    /// Waiting for the Rufer to call trump.
    CallingTrump,
    /// Players are bidding game types.
    Bidding(BiddingState),
    /// Announcer is exchanging cards with the talon.
    TalonExchange,
    /// Cards are being played in tricks.
    Playing(PlayingState),
    /// The deal is finished.
    Finished(FinishedState),
}

/// State during the bidding phase.
#[derive(Debug, Clone, PartialEq, Eq)]
pub struct BiddingState {
    /// Who is currently being asked.
    pub current_bidder: PlayerId,
    /// Bids made so far (player, their announcement).
    pub bids: Vec<(PlayerId, GameAnnouncement)>,
    /// Players who have passed.
    pub passed: Vec<PlayerId>,
}

/// State during trick-taking play.
#[derive(Debug, Clone, PartialEq, Eq)]
pub struct PlayingState {
    /// The current trick being played.
    pub current_trick: Trick,
    /// How many tricks have been completed.
    pub tricks_completed: usize,
    /// Who leads the current trick.
    pub lead_player: PlayerId,
    /// Cards won by each side (announcer vs defenders).
    pub announcer_tricks: Vec<Vec<Card>>,
    pub defender_tricks: Vec<Vec<Card>>,
    /// Card points collected by announcer.
    pub announcer_card_points: u32,
    /// Card points collected by defenders.
    pub defender_card_points: u32,
    /// Marriages announced this deal (player, suit, point value).
    pub marriages_announced: Vec<(PlayerId, Suit, u32)>,
    /// Whether a marriage was just announced and needs to be played.
    pub pending_marriage_play: Option<Suit>,
}

/// The card points of the played cards of a trick.
pub open spec fn trick_cards_points(cards: Seq<(PlayerId, Card)>) -> nat
    decreases cards.len(),
{
    if cards.len() == 0 {
        0
    } else {
        trick_cards_points(cards.drop_last()) + cards.last().1.points_spec()
    }
}

proof fn lemma_trick_cards_points_prefix(cards: Seq<(PlayerId, Card)>, n: int)
    requires
        0 <= n <= cards.len(),
    ensures
        trick_cards_points(cards.take(n)) <= trick_cards_points(cards),
    decreases cards.len(),
{
    if n < cards.len() {
        assert(cards.take(n) =~= cards.drop_last().take(n));
        lemma_trick_cards_points_prefix(cards.drop_last(), n);
    } else {
        assert(cards.take(n) =~= cards);
    }
}

/// No card is worth more than 11 points.
pub proof fn lemma_trick_cards_points_bound(cards: Seq<(PlayerId, Card)>)
    ensures
        trick_cards_points(cards) <= 11 * cards.len(),
    decreases cards.len(),
{
    if cards.len() > 0 {
        lemma_trick_cards_points_bound(cards.drop_last());
    }
}

/// Whether `challenger` beats `current` in a trick led in `lead_suit`: a trump beats a
/// non-trump; otherwise a stronger card of the same suit wins, and a card of the led suit
/// beats one of another suit.
pub open spec fn beats_spec(current: Card, challenger: Card, lead_suit: Suit, trump: Option<Suit>, ordering: RankOrdering) -> bool {
    let current_is_trump = trump == Some(current.suit);
    let challenger_is_trump = trump == Some(challenger.suit);
    if !current_is_trump && challenger_is_trump {
        true
    } else if current_is_trump && !challenger_is_trump {
        false
    } else if challenger.suit == current.suit {
        ordering.strength_spec(challenger.rank) > ordering.strength_spec(current.rank)
    } else {
        challenger.suit == lead_suit && current.suit != lead_suit
    }
}

/// The position of the best card among the first `n` played cards, comparing each new
/// card with the best so far.
pub open spec fn best_position(
    cards: Seq<(PlayerId, Card)>,
    n: int,
    lead_suit: Suit,
    trump: Option<Suit>,
    ordering: RankOrdering,
) -> int
    decreases n,
{
    if n <= 1 {
        0
    } else {
        let b = best_position(cards, n - 1, lead_suit, trump, ordering);
        if beats_spec(cards[b].1, cards[n - 1].1, lead_suit, trump, ordering) {
            n - 1
        } else {
            b
        }
    }
}

proof fn lemma_best_position_range(
    cards: Seq<(PlayerId, Card)>,
    n: int,
    lead_suit: Suit,
    trump: Option<Suit>,
    ordering: RankOrdering,
)
    requires
        1 <= n,
    ensures
        0 <= best_position(cards, n, lead_suit, trump, ordering) < n,
    decreases n,
{
    if n > 1 {
        lemma_best_position_range(cards, n - 1, lead_suit, trump, ordering);
    }
}

/// Beating is transitive, and no card beats itself.
proof fn lemma_beats_order(a: Card, b: Card, c: Card, lead_suit: Suit, trump: Option<Suit>, ordering: RankOrdering)
    ensures
        !beats_spec(a, a, lead_suit, trump, ordering),
        beats_spec(a, b, lead_suit, trump, ordering) && beats_spec(b, c, lead_suit, trump, ordering) ==> beats_spec(
            a,
            c,
            lead_suit,
            trump,
            ordering,
        ),
{
}

/// The best of the first `n` cards is beaten by none of them.
proof fn lemma_best_position_unbeaten(
    cards: Seq<(PlayerId, Card)>,
    n: int,
    lead_suit: Suit,
    trump: Option<Suit>,
    ordering: RankOrdering,
)
    requires
        1 <= n <= cards.len(),
    ensures
        0 <= best_position(cards, n, lead_suit, trump, ordering) < n,
        forall|j: int| 0 <= j < n ==> !beats_spec(
            cards[best_position(cards, n, lead_suit, trump, ordering)].1,
            (#[trigger] cards[j]).1,
            lead_suit,
            trump,
            ordering,
        ),
    decreases n,
{
    lemma_best_position_range(cards, n, lead_suit, trump, ordering);
    let w = best_position(cards, n, lead_suit, trump, ordering);
    if n == 1 {
        lemma_beats_order(cards[0].1, cards[0].1, cards[0].1, lead_suit, trump, ordering);
    } else {
        lemma_best_position_unbeaten(cards, n - 1, lead_suit, trump, ordering);
        let v = best_position(cards, n - 1, lead_suit, trump, ordering);
        assert forall|j: int| 0 <= j < n implies !beats_spec(cards[w].1, (#[trigger] cards[j]).1, lead_suit, trump, ordering) by {
            lemma_beats_order(cards[w].1, cards[w].1, cards[w].1, lead_suit, trump, ordering);
            lemma_beats_order(cards[v].1, cards[w].1, cards[j].1, lead_suit, trump, ordering);
        }
    }
}

fn beats(current: &Card, challenger: &Card, lead_suit: Suit, trump: Option<Suit>, ordering: &RankOrdering) -> (b: bool)
    ensures
        b == beats_spec(*current, *challenger, lead_suit, trump, *ordering),
{
    let current_is_trump = match trump {
        Some(t) => current.suit == t,
        None => false,
    };
    let challenger_is_trump = match trump {
        Some(t) => challenger.suit == t,
        None => false,
    };
    match (current_is_trump, challenger_is_trump) {
        (false, true) => true,
        (true, false) => false,
        _ => {
            if challenger.suit == current.suit {
                ordering.strength(challenger.rank) > ordering.strength(current.rank)
            } else if challenger.suit == lead_suit && current.suit != lead_suit {
                true
            } else if current.suit == lead_suit && challenger.suit != lead_suit {
                false
            } else {
                false
            }
        },
    }
}

/// A single trick in progress.
#[derive(Debug, Clone, PartialEq, Eq)]
pub struct Trick {
    pub cards: Vec<(PlayerId, Card)>,
    pub lead_suit: Option<Suit>,
}

impl Trick {
    pub fn new() -> (t: Self)
        ensures
            t.cards@ == Seq::<(PlayerId, Card)>::empty(),
            t.lead_suit is None,
    {
        Self { cards: Vec::with_capacity(3), lead_suit: None }
    }

    /// Adds a card; the first card sets the led suit.
    pub fn play(&mut self, player: PlayerId, card: Card)
        ensures
            final(self).cards@ == old(self).cards@.push((player, card)),
            final(self).lead_suit == (if old(self).cards@.len() == 0 {
                Some(card.suit)
            } else {
                old(self).lead_suit
            }),
    {
        if self.cards.len() == 0 {
            self.lead_suit = Some(card.suit);
        }
        self.cards.push((player, card));
    }

    pub fn is_complete(&self) -> (b: bool)
        ensures
            b == (self.cards@.len() == 3),
    {
        self.cards.len() == 3
    }

    pub fn is_empty(&self) -> (b: bool)
        ensures
            b == (self.cards@.len() == 0),
    {
        self.cards.len() == 0
    }

    /// The winner of a complete trick, comparing the cards in playing order.
    pub open spec fn winner_spec(self, trump: Option<Suit>, ordering: RankOrdering) -> Option<PlayerId> {
        if self.cards@.len() != 3 {
            None
        } else {
            match self.lead_suit {
                None => None,
                Some(lead) => Some(self.cards@[best_position(self.cards@, 3, lead, trump, ordering)].0),
            }
        }
    }

    /// Determine the winner of this trick: `None` until three cards are played.
    pub fn winner(&self, trump: Option<Suit>, ordering: &RankOrdering) -> (w: Option<PlayerId>)
        ensures
            w == self.winner_spec(trump, *ordering),
    {
        if !self.is_complete() {
            return None;
        }
        let lead_suit = match self.lead_suit {
            Some(s) => s,
            None => {
                return None;
            },
        };
        let mut best: usize = 0;
        let mut i: usize = 1;
        while i < 3
            invariant
                1 <= i <= 3,
                self.cards@.len() == 3,
                best as int == best_position(self.cards@, i as int, lead_suit, trump, *ordering),
                best < i,
            decreases 3 - i,
        {
            if beats(&self.cards[best].1, &self.cards[i].1, lead_suit, trump, ordering) {
                best = i;
            }
            i = i + 1;
        }
        Some(self.cards[best].0)
    }

    /// The card points in the trick.
    pub fn card_points(&self) -> (p: u32)
        requires
            trick_cards_points(self.cards@) <= u32::MAX,
        ensures
            p == trick_cards_points(self.cards@),
    {
        let mut total: u32 = 0;
        let mut i: usize = 0;
        while i < self.cards.len()
            invariant
                i <= self.cards@.len(),
                total == trick_cards_points(self.cards@.take(i as int)),
                trick_cards_points(self.cards@) <= u32::MAX,
            decreases self.cards@.len() - i,
        {
            assert(self.cards@.take(i + 1).drop_last() =~= self.cards@.take(i as int));
            proof {
                lemma_trick_cards_points_prefix(self.cards@, i + 1);
            }
            total = total + self.cards[i].1.points() as u32;
            i = i + 1;
        }
        assert(self.cards@.take(self.cards@.len() as int) =~= self.cards@);
        total
    }
}

impl Default for Trick {
    fn default() -> (t: Self)
        ensures
            t.cards@ == Seq::<(PlayerId, Card)>::empty(),
            t.lead_suit is None,
    {
        Self::new()
    }
}

/// The result of a finished deal.
#[derive(Debug, Clone, PartialEq, Eq)]
pub struct FinishedState {
    pub winner: Winner,
    pub points: u32,
}

/// Complete state of one deal of Dreierschnapsen.
#[derive(Debug, Clone)]
pub struct DealState {
    /// Who is the dealer this deal.
    pub dealer: PlayerId,
    /// Who is the caller (Rufer), always left of dealer.
    pub caller: PlayerId,
    /// The third player.
    pub third: PlayerId,
    /// Player states (indexed by PlayerId).
    pub players: [PlayerState; 3],
    /// Trump suit once called.
    pub trump: Option<Suit>,
    /// The game type being played.
    pub game_type: Option<GameType>,
    /// Who announced the current game.
    pub announcer: Option<PlayerId>,
    /// Current doubling level.
    pub doubling: DoublingLevel,
    /// Who last doubled (for tracking who can re-double).
    pub last_doubler: Option<PlayerId>,
    /// The talon cards.
    pub talon: Option<[Card; 2]>,
    /// Cards discarded to talon by the announcer.
    pub discarded: Vec<Card>,
    /// Current phase of the deal.
    pub phase: Phase,
    /// First tricks of each team for visibility rule.
    pub first_trick_announcer: Option<Vec<Card>>,
    pub first_trick_defenders: Option<Vec<Card>>,
}

impl DealState {
    /// The role of a seat given the dealer: the dealer, the caller to the dealer's left,
    /// and the third seat.
    pub open spec fn role_spec(player: PlayerId, dealer: PlayerId) -> Role {
        if player == dealer {
            Role::Dealer
        } else if player.index_spec() == (dealer.index_spec() + 1) % 3 {
            Role::Caller
        } else {
            Role::Third
        }
    }

    /// A new deal: the caller sits left of the dealer, the third left of the caller; all
    /// hands empty; no trump, game type or announcer yet; waiting for the caller's trump call.
    pub fn new(dealer: PlayerId) -> (d: Self)
        ensures
            d.dealer == dealer,
            d.caller.index_spec() == (dealer.index_spec() + 1) % 3,
            d.third.index_spec() == (dealer.index_spec() + 2) % 3,
            d.caller == PlayerId::from_index_spec(dealer.index_spec() + 1),
            d.third == PlayerId::from_index_spec(dealer.index_spec() + 2),
            forall|i: int| 0 <= i < 3 ==> {
                &&& (#[trigger] d.players@[i]).id.index_spec() == i
                &&& d.players@[i].role == Self::role_spec(d.players@[i].id, dealer)
                &&& d.players@[i].hand@ == Seq::<Card>::empty()
                &&& d.players@[i].tricks_won@ == Seq::<Vec<Card>>::empty()
                &&& d.players@[i].game_points == 0
                &&& d.players@[i].bummerl == 0
            },
            d.trump is None,
            d.game_type is None,
            d.announcer is None,
            d.doubling == DoublingLevel::Undoubled,
            d.last_doubler is None,
            d.talon is None,
            d.discarded@ == Seq::<Card>::empty(),
            d.phase is CallingTrump,
            d.first_trick_announcer is None,
            d.first_trick_defenders is None,
    {
        let caller = dealer.next();
        let third = caller.next();
        let players = [
            PlayerState::new(PlayerId::Player0, Self::role_for(PlayerId::Player0, dealer)),
            PlayerState::new(PlayerId::Player1, Self::role_for(PlayerId::Player1, dealer)),
            PlayerState::new(PlayerId::Player2, Self::role_for(PlayerId::Player2, dealer)),
        ];
        Self {
            dealer,
            caller,
            third,
            players,
            trump: None,
            game_type: None,
            announcer: None,
            doubling: DoublingLevel::Undoubled,
            last_doubler: None,
            talon: None,
            discarded: Vec::new(),
            phase: Phase::CallingTrump,
            first_trick_announcer: None,
            first_trick_defenders: None,
        }
    }

    fn role_for(player: PlayerId, dealer: PlayerId) -> (r: Role)
        ensures
            r == Self::role_spec(player, dealer),
    {
        if player == dealer {
            Role::Dealer
        } else if player == dealer.next() {
            Role::Caller
        } else {
            Role::Third
        }
    }

    pub fn player(&self, id: PlayerId) -> (p: &PlayerState)
        ensures
            *p == self.players@[id.index_spec() as int],
    {
        &self.players[id.index()]
    }

    pub fn player_mut(&mut self, id: PlayerId) -> (p: &mut PlayerState)
        ensures
            *p == old(self).players@[id.index_spec() as int],
            final(self).players@ == old(self).players@.update(id.index_spec() as int, *final(p)),
            final(self).dealer == old(self).dealer,
            final(self).caller == old(self).caller,
            final(self).third == old(self).third,
            final(self).trump == old(self).trump,
            final(self).game_type == old(self).game_type,
            final(self).announcer == old(self).announcer,
            final(self).doubling == old(self).doubling,
            final(self).last_doubler == old(self).last_doubler,
            final(self).talon == old(self).talon,
            final(self).discarded == old(self).discarded,
            final(self).phase == old(self).phase,
            final(self).first_trick_announcer == old(self).first_trick_announcer,
            final(self).first_trick_defenders == old(self).first_trick_defenders,
    {
        &mut self.players[id.index()]
    }

    pub fn is_announcer(&self, id: PlayerId) -> (b: bool)
        ensures
            b == (self.announcer == Some(id)),
    {
        match self.announcer {
            Some(a) => a == id,
            None => false,
        }
    }

    /// A defender is anyone but the announcer, once there is an announcer.
    pub fn is_defender(&self, id: PlayerId) -> (b: bool)
        ensures
            b == (self.announcer is Some && self.announcer != Some(id)),
    {
        match self.announcer {
            Some(a) => a != id,
            None => false,
        }
    }

    pub open spec fn rank_ordering_spec(&self) -> RankOrdering {
        match self.game_type {
            Some(gt) => gt.rank_ordering_spec(),
            None => RankOrdering::Standard,
        }
    }

    pub fn rank_ordering(&self) -> (o: RankOrdering)
        ensures
            o == self.rank_ordering_spec(),
    {
        match self.game_type {
            Some(gt) => gt.rank_ordering(),
            None => RankOrdering::Standard,
        }
    }

    /// The trump that counts: the called trump unless the game type has no trump.
    pub open spec fn effective_trump_spec(&self) -> Option<Suit> {
        match self.game_type {
            Some(gt) => if gt.uses_trump_spec() {
                self.trump
            } else {
                None
            },
            None => self.trump,
        }
    }

    pub fn effective_trump(&self) -> (t: Option<Suit>)
        ensures
            t == self.effective_trump_spec(),
    {
        let uses = match self.game_type {
            Some(gt) => gt.uses_trump(),
            None => true,
        };
        if uses {
            self.trump
        } else {
            None
        }
    }

    pub open spec fn final_points_spec(&self) -> nat {
        let base = match self.game_type {
            Some(gt) => gt.base_points_spec(),
            None => 1,
        };
        base * self.doubling.multiplier_spec()
    }

    /// Final points for the current deal: base points times the doubling multiplier.
    pub fn final_points(&self) -> (p: u32)
        ensures
            p == self.final_points_spec(),
    {
        let base = match self.game_type {
            Some(gt) => gt.base_points(),
            None => 1,
        };
        let m = self.doubling.multiplier();
        assert(base as int * m as int <= 192) by (nonlinear_arith)
            requires
                base <= 24,
                m <= 8,
        ;
        base * m
    }
}

/// Overall match state tracking scores across multiple deals.
#[derive(Debug, Clone)]
pub struct MatchState {
    pub scores: [u32; 3],
    pub bummerl: [u32; 3],
    pub target_score: u32,
    pub current_dealer: PlayerId,
    pub current_deal: Option<DealState>,
}

impl MatchState {
    pub fn new() -> (m: Self)
        ensures
            m.scores@ == seq![0u32, 0u32, 0u32],
            m.bummerl@ == seq![0u32, 0u32, 0u32],
            m.target_score == 24,
            m.current_dealer == PlayerId::Player0,
            m.current_deal is None,
    {
        Self {
            scores: [0; 3],
            bummerl: [0; 3],
            target_score: 24,
            current_dealer: PlayerId::Player0,
            current_deal: None,
        }
    }

    /// The first seat whose score reached the target.
    pub fn winner(&self) -> (w: Option<PlayerId>)
        ensures
            match w {
                Some(p) => self.scores@[p.index_spec() as int] >= self.target_score && forall|q: int|
                    0 <= q < p.index_spec() ==> self.scores@[q] < self.target_score,
                None => forall|q: int| 0 <= q < 3 ==> self.scores@[q] < self.target_score,
            },
    {
        let ids = PlayerId::all();
        let mut i: usize = 0;
        while i < 3
            invariant
                i <= 3,
                ids@ == seq![PlayerId::Player0, PlayerId::Player1, PlayerId::Player2],
                forall|q: int| 0 <= q < i ==> self.scores@[q] < self.target_score,
            decreases 3 - i,
        {
            let id = ids[i];
            if self.scores[id.index()] >= self.target_score {
                return Some(id);
            }
            i = i + 1;
        }
        None
    }

    /// The deal passes to the next seat.
    pub fn advance_dealer(&mut self)
        ensures
            final(self).current_dealer.index_spec() == (old(self).current_dealer.index_spec() + 1) % 3,
            final(self).scores == old(self).scores,
            final(self).bummerl == old(self).bummerl,
            final(self).target_score == old(self).target_score,
            final(self).current_deal == old(self).current_deal,
    {
        self.current_dealer = self.current_dealer.next();
    }
}

impl Default for MatchState {
    fn default() -> (m: Self)
        ensures
            m.scores@ == seq![0u32, 0u32, 0u32],
            m.target_score == 24,
            m.current_dealer == PlayerId::Player0,
            m.current_deal is None,
    {
        Self::new()
    }
}

/// The winner of a complete trick with a led suit played the best card of the trick: no
/// card of the trick beats it.
pub proof fn lemma_trick_winner_unbeaten(t: Trick, trump: Option<Suit>, ordering: RankOrdering)
    requires
        t.cards@.len() == 3,
        t.lead_suit is Some,
    ensures
        exists|w: int|
            0 <= w < 3 && t.winner_spec(trump, ordering) == Some(#[trigger] t.cards@[w].0) && forall|j: int|
                0 <= j < 3 ==> !beats_spec(t.cards@[w].1, (#[trigger] t.cards@[j]).1, t.lead_suit->Some_0, trump, ordering),
{
    let lead = t.lead_suit->Some_0;
    lemma_best_position_unbeaten(t.cards@, 3, lead, trump, ordering);
    let w = best_position(t.cards@, 3, lead, trump, ordering);
    assert(t.winner_spec(trump, ordering) == Some(t.cards@[w].0));
}

} // verus!

