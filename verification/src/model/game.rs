use vstd::prelude::*;
use vstd::string::StringExecFns;
use rand::rngs::StdRng;
use crate::model::card::{Card, Rank, Suit};
use crate::model::deck::{Deck, deck_order};
use crate::model::types::{
    Action, GameGoal, GameType, Marriage, NormalGameResult, PlayerId, RankOrdering, SpritzenLevel,
    Trick, TrickView, detect_marriages, hand_has, holds_marriage, marriages_in, played_points,
    sum_played_points, trick_winner, valid_plays, valid_plays_spec, wins_trick, position_of,
};

verus! {

/// The current phase of a hand.
#[derive(Debug, Clone, PartialEq, Eq)]
pub enum Phase {
    /// Waiting for the Rufer to choose a trump suit from their first 3 cards.
    CallingTrump,
    /// Players are announcing game types (bidding).
    Bidding { bids: Vec<(PlayerId, GameType)>, passed: Vec<PlayerId>, current_bidder: PlayerId },
    /// The winning bidder decides whether to take the talon.
    TalonDecision { declarer: PlayerId, game_type: GameType },
    /// The declarer must discard 2 cards after picking up the talon.
    Discarding { declarer: PlayerId, game_type: GameType },
    /// Active trick-taking play.
    Playing { declarer: PlayerId, game_type: GameType, spritzen: SpritzenLevel },
    /// The hand is finished.
    Finished { declarer: PlayerId, game_type: GameType, declarer_won: bool, points_awarded: u8 },
}

/// A phase as values.
pub enum PhaseView {
    CallingTrump,
    Bidding { bids: Seq<(PlayerId, GameType)>, passed: Seq<PlayerId>, current_bidder: PlayerId },
    TalonDecision { declarer: PlayerId, game_type: GameType },
    Discarding { declarer: PlayerId, game_type: GameType },
    Playing { declarer: PlayerId, game_type: GameType, spritzen: SpritzenLevel },
    Finished { declarer: PlayerId, game_type: GameType, declarer_won: bool, points_awarded: u8 },
}

impl View for Phase {
    type V = PhaseView;

    open spec fn view(&self) -> PhaseView {
        match self {
            Phase::CallingTrump => PhaseView::CallingTrump,
            Phase::Bidding { bids, passed, current_bidder } => PhaseView::Bidding {
                bids: bids@,
                passed: passed@,
                current_bidder: *current_bidder,
            },
            Phase::TalonDecision { declarer, game_type } => PhaseView::TalonDecision {
                declarer: *declarer,
                game_type: *game_type,
            },
            Phase::Discarding { declarer, game_type } => PhaseView::Discarding {
                declarer: *declarer,
                game_type: *game_type,
            },
            Phase::Playing { declarer, game_type, spritzen } => PhaseView::Playing {
                declarer: *declarer,
                game_type: *game_type,
                spritzen: *spritzen,
            },
            Phase::Finished { declarer, game_type, declarer_won, points_awarded } => PhaseView::Finished {
                declarer: *declarer,
                game_type: *game_type,
                declarer_won: *declarer_won,
                points_awarded: *points_awarded,
            },
        }
    }
}

/// Complete state of a single hand (one deal).
#[derive(Debug, Clone)]
pub struct GameState {
    pub phase: Phase,
    pub hands: [Vec<Card>; 3],
    pub trump: Option<Suit>,
    pub talon: Vec<Card>,
    /// Index of the Rufer for this hand.
    pub rufer: PlayerId,
    /// Index of the Geber for this hand.
    pub geber: PlayerId,
    /// Cards in the current (incomplete) trick.
    pub current_trick: Vec<(PlayerId, Card)>,
    /// Who leads the next/current trick.
    pub trick_leader: PlayerId,
    /// Completed tricks.
    pub tricks: Vec<Trick>,
    /// Card points won by each player.
    pub card_points: [u8; 3],
    /// Number of tricks won by each player.
    pub tricks_won: [u8; 3],
    /// Marriages announced during this hand.
    pub marriages: Vec<(PlayerId, Marriage)>,
}

/// A game state as values.
#[verifier::ext_equal]
pub struct GameView {
    pub phase: PhaseView,
    pub hands: Seq<Seq<Card>>,
    pub trump: Option<Suit>,
    pub talon: Seq<Card>,
    pub rufer: PlayerId,
    pub geber: PlayerId,
    pub current_trick: Seq<(PlayerId, Card)>,
    pub trick_leader: PlayerId,
    pub tricks: Seq<TrickView>,
    pub card_points: Seq<u8>,
    pub tricks_won: Seq<u8>,
    pub marriages: Seq<(PlayerId, Marriage)>,
}

impl View for GameState {
    type V = GameView;

    open spec fn view(&self) -> GameView {
        GameView {
            phase: self.phase@,
            hands: self.hands@.map_values(|h: Vec<Card>| h@),
            trump: self.trump,
            talon: self.talon@,
            rufer: self.rufer,
            geber: self.geber,
            current_trick: self.current_trick@,
            trick_leader: self.trick_leader,
            tricks: self.tricks@.map_values(|t: Trick| t@),
            card_points: self.card_points@,
            tricks_won: self.tricks_won@,
            marriages: self.marriages@,
        }
    }
}

/// The bid that wins when every player has acted: the highest base points, and among
/// equal base points the later bid.
pub open spec fn best_bid(bids: Seq<(PlayerId, GameType)>) -> (PlayerId, GameType)
    decreases bids.len(),
{
    if bids.len() <= 1 {
        bids[0]
    } else {
        let earlier = best_bid(bids.drop_last());
        if bids.last().1.base_points_spec() >= earlier.1.base_points_spec() {
            bids.last()
        } else {
            earlier
        }
    }
}

/// The marriage points announced by a player.
pub open spec fn marriage_points_of(marriages: Seq<(PlayerId, Marriage)>, player: PlayerId) -> nat
    decreases marriages.len(),
{
    if marriages.len() == 0 {
        0
    } else {
        let rest = marriage_points_of(marriages.drop_last(), player);
        if marriages.last().0 == player {
            rest + marriages.last().1.points_spec()
        } else {
            rest
        }
    }
}

impl GameView {
    /// The player whose turn it is to act.
    pub open spec fn active_player(self) -> Option<PlayerId> {
        match self.phase {
            PhaseView::CallingTrump => Some(self.rufer),
            PhaseView::Bidding { current_bidder, .. } => Some(current_bidder),
            PhaseView::TalonDecision { declarer, .. } => Some(declarer),
            PhaseView::Discarding { declarer, .. } => Some(declarer),
            PhaseView::Playing { .. } => if self.current_trick.len() >= 3 {
                None
            } else {
                Some(((self.trick_leader + self.current_trick.len()) % 3) as PlayerId)
            },
            PhaseView::Finished { .. } => None,
        }
    }

    /// Seat numbers are below 3, and the bidding has not yet gone round.
    pub open spec fn wf(self) -> bool {
        &&& self.hands.len() == 3
        &&& self.card_points.len() == 3
        &&& self.tricks_won.len() == 3
        &&& self.rufer < 3
        &&& self.trick_leader < 3
        &&& forall|i: int| 0 <= i < self.current_trick.len() ==> #[trigger] self.current_trick[i].0 < 3
        &&& match self.phase {
            PhaseView::Bidding { bids, passed, current_bidder } => {
                &&& current_bidder < 3
                &&& bids.len() + passed.len() < 3
                &&& forall|i: int| 0 <= i < bids.len() ==> #[trigger] bids[i].0 < 3
            },
            PhaseView::TalonDecision { declarer, .. } => declarer < 3,
            PhaseView::Discarding { declarer, .. } => declarer < 3,
            PhaseView::Playing { declarer, .. } => declarer < 3,
            PhaseView::Finished { declarer, .. } => declarer < 3,
            PhaseView::CallingTrump => true,
        }
    }

    /// No player's trick count is at the top of its range.
    pub open spec fn trick_counts_fit(self) -> bool {
        forall|p: int| 0 <= p < 3 ==> #[trigger] self.tricks_won[p] < 255
    }

    pub open spec fn with_phase(self, phase: PhaseView) -> GameView {
        GameView { phase, ..self }
    }

    /// The player who leads the first trick: the Rufer in the Kontra games, else the declarer.
    pub open spec fn leader_for(self, declarer: PlayerId, game_type: GameType) -> PlayerId {
        match game_type {
            GameType::Kontraschnapser | GameType::Kontrabauernschnapser => self.rufer,
            _ => declarer,
        }
    }

    /// The bidding after `last_bidder` acted, with the bids and passes so far.
    pub open spec fn after_bidding(
        self,
        bids: Seq<(PlayerId, GameType)>,
        passed: Seq<PlayerId>,
        last_bidder: PlayerId,
    ) -> GameView {
        let next = ((last_bidder + 1) % 3) as PlayerId;
        if passed.len() == 3 {
            self.with_phase(PhaseView::TalonDecision { declarer: self.rufer, game_type: GameType::Normal })
        } else if passed.len() == 2 && bids.len() >= 1 {
            self.with_phase(PhaseView::TalonDecision { declarer: bids.last().0, game_type: bids.last().1 })
        } else if bids.len() + passed.len() == 3 {
            self.with_phase(
                PhaseView::TalonDecision { declarer: best_bid(bids).0, game_type: best_bid(bids).1 },
            )
        } else if passed.contains(next) || exists|i: int| 0 <= i < bids.len() && #[trigger] bids[i].0 == next {
            self.with_phase(
                PhaseView::Bidding { bids, passed, current_bidder: ((next + 1) % 3) as PlayerId },
            )
        } else {
            self.with_phase(PhaseView::Bidding { bids, passed, current_bidder: next })
        }
    }

    /// The trump that counts in a game type.
    pub open spec fn effective_trump(self, game_type: GameType) -> Option<Suit> {
        if game_type.has_trump_spec() {
            self.trump
        } else {
            None
        }
    }

    /// The led card of the current trick, if any card was played.
    pub open spec fn lead(self) -> Option<(Suit, Rank)> {
        if self.current_trick.len() == 0 {
            None
        } else {
            Some((self.current_trick[0].1.suit, self.current_trick[0].1.rank))
        }
    }

    /// The deal after a trick or a marriage, finished if the game is decided: a game for
    /// all tricks is lost with the first trick the declarer misses and won when all cards
    /// are played; a game for no tricks is lost with the declarer's first trick and won when
    /// all cards are played; a game to 66 is won as soon as the declarer's card points and
    /// (once the declarer has a trick) marriage points reach 66, and when all cards are
    /// played without that, the Normal game goes to the declarer if the declarer took the
    /// last trick and is lost otherwise.
    pub open spec fn after_hand_check(self, game_type: GameType) -> GameView {
        match self.phase {
            PhaseView::Playing { declarer, spritzen, .. } => {
                let all_played = forall|p: int| 0 <= p < 3 ==> #[trigger] self.hands[p].len() == 0;
                let finished: Option<bool> = match game_type.goal_spec() {
                    GameGoal::TakeAllTricks => if exists|i: int|
                        0 <= i < self.tricks.len() && #[trigger] self.tricks[i].winner != declarer {
                        Some(false)
                    } else if all_played {
                        Some(true)
                    } else {
                        None
                    },
                    GameGoal::TakeNoTricks => if self.tricks_won[declarer as int] > 0 {
                        Some(false)
                    } else if all_played {
                        Some(true)
                    } else {
                        None
                    },
                    GameGoal::Reach66 => {
                        let marriage_points = if self.tricks_won[declarer as int] > 0 {
                            marriage_points_of(self.marriages, declarer)
                        } else {
                            0
                        };
                        if self.card_points[declarer as int] + marriage_points >= 66 {
                            Some(true)
                        } else if all_played {
                            Some(game_type == GameType::Normal && self.tricks.len() > 0
                                && self.tricks.last().winner == declarer)
                        } else {
                            None
                        }
                    },
                };
                match finished {
                    None => self,
                    Some(won) => {
                        let o1 = (declarer + 1) % 3;
                        let o2 = (declarer + 2) % 3;
                        let base = if game_type == GameType::Normal && won {
                            NormalGameResult::from_loser_points_spec(
                                (self.card_points[o1] + self.card_points[o2]) as nat,
                                self.tricks_won[o1] > 0 || self.tricks_won[o2] > 0,
                            ).points_spec()
                        } else if game_type == GameType::Normal {
                            NormalGameResult::from_loser_points_spec(
                                self.card_points[declarer as int] as nat,
                                self.tricks_won[declarer as int] > 0,
                            ).points_spec()
                        } else {
                            game_type.base_points_spec()
                        };
                        self.with_phase(
                            PhaseView::Finished {
                                declarer,
                                game_type,
                                declarer_won: won,
                                points_awarded: (base * spritzen.multiplier_spec()) as u8,
                            },
                        )
                    },
                }
            },
            _ => self,
        }
    }

    /// The deal after the complete current trick goes to its winner.
    pub open spec fn after_trick(self, game_type: GameType) -> GameView {
        let trump = self.effective_trump(game_type);
        let ordering = game_type.rank_ordering_spec();
        let i = choose|i: int| wins_trick(self.current_trick, i, trump, ordering);
        let winner = self.current_trick[i].0;
        let sum = self.card_points[winner as int] + played_points(self.current_trick);
        let points = if sum > 255 { 255u8 } else { sum as u8 };
        GameView {
            card_points: self.card_points.update(winner as int, points),
            tricks_won: self.tricks_won.update(winner as int, (self.tricks_won[winner as int] + 1) as u8),
            tricks: self.tricks.push(TrickView { cards: self.current_trick, winner }),
            current_trick: Seq::empty(),
            trick_leader: winner,
            ..self
        }.after_hand_check(game_type)
    }

    /// Playing a card: it must be in hand and valid; the third card completes the trick.
    pub open spec fn after_play(self, player: PlayerId, card: Card, game_type: GameType) -> (GameView, bool) {
        let hand = self.hands[player as int];
        let valid = valid_plays_spec(
            hand,
            self.lead(),
            self.effective_trump(game_type),
            game_type.rank_ordering_spec(),
        );
        if !hand.contains(card) || !valid.contains(card) {
            (self, false)
        } else {
            let played = GameView {
                hands: self.hands.update(player as int, crate::model::types::remove_card(hand, card)),
                current_trick: self.current_trick.push((player, card)),
                ..self
            };
            if played.current_trick.len() == 3 {
                (played.after_trick(game_type), true)
            } else {
                (played, true)
            }
        }
    }

    /// Discarding two cards after taking the talon: they must be in hand; they become the
    /// talon. When the second card is missing, the first is already out of the hand.
    pub open spec fn after_discard(self, declarer: PlayerId, game_type: GameType, c1: Card, c2: Card) -> (GameView, bool) {
                        let hand = self.hands[declarer as int];
                        if !hand.contains(c1) {
                            (self, false)
                        } else {
                            let hand1 = crate::model::types::remove_card(hand, c1);
                            if !hand1.contains(c2) {
                                (GameView { hands: self.hands.update(declarer as int, hand1), ..self }, false)
                            } else {
                                (
                                    GameView {
                                        hands: self.hands.update(
                                            declarer as int,
                                            crate::model::types::remove_card(hand1, c2),
                                        ),
                                        talon: seq![c1, c2],
                                        phase: PhaseView::Playing {
                                            declarer,
                                            game_type,
                                            spritzen: SpritzenLevel::Undoubled,
                                        },
                                        trick_leader: self.leader_for(declarer, game_type),
                                        ..self
                                    },
                                    true,
                                )
                            }
                        }
    }

    /// The outcome of an action by a player: the next state, and whether it was accepted.
    /// Only the active player may act.
    pub open spec fn step(self, player: PlayerId, action: Action) -> (GameView, bool) {
        match self.active_player() {
            None => (self, false),
            Some(active) => if player != active {
                (self, false)
            } else {
                self.dispatch(player, action)
            },
        }
    }

    /// The outcome of an action by the active player, by phase.
    pub open spec fn dispatch(self, player: PlayerId, action: Action) -> (GameView, bool) {
        {
            {
                match (self.phase, action) {
                    (PhaseView::CallingTrump, Action::CallTrump(suit)) => (
                        GameView {
                            trump: Some(suit),
                            phase: PhaseView::Bidding {
                                bids: Seq::empty(),
                                passed: Seq::empty(),
                                current_bidder: self.rufer,
                            },
                            ..self
                        },
                        true,
                    ),
                    (PhaseView::Bidding { bids, passed, current_bidder }, Action::Bid(game_type)) => {
                        if game_type.rufer_only_spec() && current_bidder != self.rufer {
                            (self, false)
                        } else if game_type.non_rufer_only_spec() && current_bidder == self.rufer {
                            (self, false)
                        } else {
                            (self.after_bidding(bids.push((current_bidder, game_type)), passed, current_bidder), true)
                        }
                    },
                    (PhaseView::Bidding { bids, passed, current_bidder }, Action::Pass) => (
                        self.after_bidding(bids, passed.push(current_bidder), current_bidder),
                        true,
                    ),
                    (PhaseView::TalonDecision { declarer, game_type }, Action::TakeTalon { take }) => {
                        if take {
                            (
                                GameView {
                                    hands: self.hands.update(
                                        declarer as int,
                                        self.hands[declarer as int] + self.talon,
                                    ),
                                    talon: Seq::empty(),
                                    phase: PhaseView::Discarding { declarer, game_type },
                                    ..self
                                },
                                true,
                            )
                        } else {
                            (
                                GameView {
                                    phase: PhaseView::Playing {
                                        declarer,
                                        game_type,
                                        spritzen: SpritzenLevel::Undoubled,
                                    },
                                    trick_leader: self.leader_for(declarer, game_type),
                                    ..self
                                },
                                true,
                            )
                        }
                    },
                    (PhaseView::Discarding { declarer, game_type }, Action::Discard(c1, c2)) => {
                        self.after_discard(declarer, game_type, c1, c2)
                    },
                    (PhaseView::Playing { game_type, .. }, Action::PlayCard(card)) => self.after_play(
                        player,
                        card,
                        game_type,
                    ),
                    (PhaseView::Playing { game_type, .. }, Action::AnnounceMarriage(marriage, card)) => {
                        if player != self.trick_leader {
                            (self, false)
                        } else if !holds_marriage(self.hands[player as int], marriage.suit) {
                            (self, false)
                        } else if card.suit != marriage.suit || (card.rank != Rank::King && card.rank
                            != Rank::Queen) {
                            (self, false)
                        } else if marriage.is_trump != (self.effective_trump(game_type) == Some(marriage.suit)) {
                            (self, false)
                        } else {
                            let (played, ok) = GameView {
                                marriages: self.marriages.push((player, marriage)),
                                ..self
                            }.after_play(player, card, game_type);
                            if ok {
                                (played.after_hand_check(game_type), true)
                            } else {
                                (played, false)
                            }
                        }
                    },
                    _ => (self, false),
                }
            }
        }
    }
}

/// The cards the Rufer calls trump from: the first three of the hand.
pub open spec fn first_three(hand: Seq<Card>) -> Seq<Card> {
    if hand.len() < 3 {
        hand
    } else {
        hand.take(3)
    }
}

/// The best bid is one of the bids.
pub proof fn lemma_best_bid_member(bids: Seq<(PlayerId, GameType)>)
    requires
        bids.len() > 0,
    ensures
        exists|i: int| 0 <= i < bids.len() && bids[i] == best_bid(bids),
    decreases bids.len(),
{
    if bids.len() > 1 {
        lemma_best_bid_member(bids.drop_last());
        let i = choose|i: int| 0 <= i < bids.drop_last().len() && bids.drop_last()[i] == best_bid(bids.drop_last());
        assert(bids[i] == bids.drop_last()[i]);
        assert(bids[bids.len() - 1] == bids.last());
    } else {
        assert(bids[0] == best_bid(bids));
    }
}

/// The bidding keeps seat numbers below 3 and ends once everyone has acted.
proof fn lemma_after_bidding_wf(
    g: GameView,
    bids: Seq<(PlayerId, GameType)>,
    passed: Seq<PlayerId>,
    last: PlayerId,
)
    requires
        g.wf(),
        last < 3,
        bids.len() + passed.len() <= 3,
        forall|i: int| 0 <= i < bids.len() ==> #[trigger] bids[i].0 < 3,
    ensures
        g.after_bidding(bids, passed, last).wf(),
{
    if passed.len() != 3 && !(passed.len() == 2 && bids.len() >= 1) && bids.len() + passed.len() == 3 {
        lemma_best_bid_member(bids);
    }
    if passed.len() == 2 && bids.len() >= 1 {
        assert(bids[bids.len() - 1] == bids.last());
    }
}

/// Deciding the game keeps the state well formed.
proof fn lemma_after_hand_check_wf(g: GameView, game_type: GameType)
    requires
        g.wf(),
    ensures
        g.after_hand_check(game_type).wf(),
{
}

/// Completing a trick keeps the state well formed.
proof fn lemma_after_trick_wf(g: GameView, game_type: GameType)
    requires
        g.wf(),
        g.current_trick.len() == 3,
    ensures
        g.after_trick(game_type).wf(),
{
    let trump = g.effective_trump(game_type);
    let ordering = game_type.rank_ordering_spec();
    crate::model::types::lemma_winner_exists(g.current_trick, 3, trump, ordering);
    let i0 = choose|i: int| crate::model::types::wins_among(g.current_trick, 3, i, trump, ordering);
    assert(wins_trick(g.current_trick, i0, trump, ordering));
    let i = choose|i: int| wins_trick(g.current_trick, i, trump, ordering);
    assert(g.current_trick[i].0 < 3);
    let winner = g.current_trick[i].0;
    let sum = g.card_points[winner as int] + played_points(g.current_trick);
    let points = if sum > 255 { 255u8 } else { sum as u8 };
    let h = GameView {
        card_points: g.card_points.update(winner as int, points),
        tricks_won: g.tricks_won.update(winner as int, (g.tricks_won[winner as int] + 1) as u8),
        tricks: g.tricks.push(TrickView { cards: g.current_trick, winner }),
        current_trick: Seq::empty(),
        trick_leader: winner,
        ..g
    };
    assert(h.wf());
    lemma_after_hand_check_wf(h, game_type);
}

/// Playing a card keeps the state well formed.
proof fn lemma_after_play_wf(g: GameView, player: PlayerId, card: Card, game_type: GameType)
    requires
        g.wf(),
        player < 3,
        g.current_trick.len() < 3,
    ensures
        g.after_play(player, card, game_type).0.wf(),
{
    let hand = g.hands[player as int];
    let played = GameView {
        hands: g.hands.update(player as int, crate::model::types::remove_card(hand, card)),
        current_trick: g.current_trick.push((player, card)),
        ..g
    };
    assert(played.wf());
    if played.current_trick.len() == 3 {
        lemma_after_trick_wf(played, game_type);
    }
}

/// Every step keeps seat numbers below 3 and the bidding bounded.
pub proof fn lemma_step_wf(g: GameView, player: PlayerId, action: Action)
    requires
        g.wf(),
    ensures
        g.step(player, action).0.wf(),
{
    match g.active_player() {
        None => {},
        Some(active) => {
            if player == active {
                match (g.phase, action) {
                    (PhaseView::Bidding { bids, passed, current_bidder }, Action::Bid(game_type)) => {
                        let b2 = bids.push((current_bidder, game_type));
                        assert forall|i: int| 0 <= i < b2.len() implies #[trigger] b2[i].0 < 3 by {
                            if i < bids.len() {
                                assert(b2[i] == bids[i]);
                            }
                        }
                        lemma_after_bidding_wf(g, b2, passed, current_bidder);
                    },
                    (PhaseView::Bidding { bids, passed, current_bidder }, Action::Pass) => {
                        lemma_after_bidding_wf(g, bids, passed.push(current_bidder), current_bidder);
                    },
                    (PhaseView::Playing { game_type, .. }, Action::PlayCard(card)) => {
                        lemma_after_play_wf(g, player, card, game_type);
                    },
                    (PhaseView::Playing { game_type, .. }, Action::AnnounceMarriage(marriage, card)) => {
                        let g2 = GameView { marriages: g.marriages.push((player, marriage)), ..g };
                        lemma_after_play_wf(g2, player, card, game_type);
                        lemma_after_hand_check_wf(g2.after_play(player, card, game_type).0, game_type);
                    },
                    _ => {},
                }
            }
        },
    }
}

/// Changing one hand changes only that hand of the view.
proof fn lemma_hands_update(before: GameState, after: GameState, p: int)
    requires
        0 <= p < 3,
        forall|q: int| 0 <= q < 3 && q != p ==> after.hands@[q] == before.hands@[q],
    ensures
        after@.hands =~= before@.hands.update(p, after.hands@[p]@),
{
}

/// Changing one trick list changes only that part of the view.
proof fn lemma_tricks_push(before: Seq<Trick>, t: Trick)
    ensures
        before.push(t).map_values(|t: Trick| t@) =~= before.map_values(|t: Trick| t@).push(t@),
{
}

/// The message for an action out of turn.
pub open spec fn turn_text(player: PlayerId, active: PlayerId) -> Seq<char> {
    "not player "@ + crate::text::decimal_spec(player as nat) + "'s turn, expected "@
        + crate::text::decimal_spec(active as nat)
}

/// The message when a card is refused: it is not in the hand, or it may not be played.
pub open spec fn play_refusal(g: GameView, player: PlayerId, card: Card) -> Seq<char> {
    if !g.hands[player as int].contains(card) {
        "card not in hand"@
    } else {
        card.label_spec() + " is not a valid play"@
    }
}

/// The message when a bid is refused: the game type is for the Rufer, or for the others.
pub open spec fn bid_refusal(g: GameView, game_type: GameType) -> Seq<char> {
    let bidder = g.phase->Bidding_current_bidder;
    if game_type.rufer_only_spec() && bidder != g.rufer {
        game_type.label_spec() + " can only be announced by the Rufer"@
    } else {
        game_type.label_spec() + " can only be announced by a non-Rufer"@
    }
}

/// The message when a discard is refused: which of the two cards is missing.
pub open spec fn discard_refusal(g: GameView, declarer: PlayerId, c1: Card) -> Seq<char> {
    if !g.hands[declarer as int].contains(c1) {
        "first discard card not in hand"@
    } else {
        "second discard card not in hand"@
    }
}

/// The message when a marriage announcement is refused.
pub open spec fn marriage_refusal(
    g: GameView,
    player: PlayerId,
    marriage: Marriage,
    card: Card,
    game_type: GameType,
) -> Seq<char> {
    if player != g.trick_leader {
        "can only announce marriage when leading"@
    } else if !holds_marriage(g.hands[player as int], marriage.suit) {
        "missing king or queen for marriage"@
    } else if card.suit != marriage.suit || (card.rank != Rank::King && card.rank != Rank::Queen) {
        "must play king or queen of the marriage suit"@
    } else if marriage.is_trump != (g.effective_trump(game_type) == Some(marriage.suit)) {
        "marriage trump flag does not match the trump suit"@
    } else {
        play_refusal(g, player, card)
    }
}

/// The message of a refused action: nobody is to act, it is another player's turn, or the
/// phase's own reason.
pub open spec fn refusal_text(g: GameView, player: PlayerId, action: Action) -> Seq<char> {
    match g.active_player() {
        None => "no active player in current phase"@,
        Some(active) => if player != active {
            turn_text(player, active)
        } else {
            match (g.phase, action) {
                (PhaseView::Bidding { .. }, Action::Bid(game_type)) => bid_refusal(g, game_type),
                (PhaseView::Discarding { declarer, .. }, Action::Discard(c1, _)) => discard_refusal(g, declarer, c1),
                (PhaseView::Playing { .. }, Action::PlayCard(card)) => play_refusal(g, player, card),
                (PhaseView::Playing { game_type, .. }, Action::AnnounceMarriage(marriage, card)) => marriage_refusal(
                    g,
                    player,
                    marriage,
                    card,
                    game_type,
                ),
                _ => "invalid action for current phase"@,
            }
        },
    }
}

fn text(s: &str) -> (r: String)
    ensures
        r@ == s@,
{
    String::from_str(s)
}

fn turn_message(player: PlayerId, active: PlayerId) -> (m: String)
    requires
        player <= u64::MAX,
        active <= u64::MAX,
    ensures
        m@ == turn_text(player, active),
{
    let s = text("not player ");
    let s = s.concat(crate::text::decimal(player as u64).as_str());
    let s = s.concat("'s turn, expected ");
    s.concat(crate::text::decimal(active as u64).as_str())
}

/// Sums the marriage points announced by a player.
fn marriage_points_for(marriages: &Vec<(PlayerId, Marriage)>, player: PlayerId) -> (total: u128)
    ensures
        total == marriage_points_of(marriages@, player),
        total <= 40 * (usize::MAX as int),
{
    let mut total: u128 = 0;
    let mut i: usize = 0;
    while i < marriages.len()
        invariant
            i <= marriages@.len(),
            total == marriage_points_of(marriages@.take(i as int), player),
            total <= 40 * i,
        decreases marriages@.len() - i,
    {
        assert(marriages@.take(i + 1).drop_last() =~= marriages@.take(i as int));
        if marriages[i].0 == player {
            total = total + marriages[i].1.points() as u128;
        }
        i = i + 1;
    }
    assert(marriages@.take(marriages@.len() as int) =~= marriages@);
    assert(i <= usize::MAX);
    total
}

impl GameState {
    /// The player whose turn it is to act.
    pub fn active_player(&self) -> (r: Option<PlayerId>)
        requires
            self@.phase is Playing && self@.current_trick.len() < 3 ==> self.trick_leader
                + self@.current_trick.len() <= usize::MAX,
        ensures
            r == self@.active_player(),
    {
        match &self.phase {
            Phase::CallingTrump => Some(self.rufer),
            Phase::Bidding { current_bidder, .. } => Some(*current_bidder),
            Phase::TalonDecision { declarer, .. } => Some(*declarer),
            Phase::Discarding { declarer, .. } => Some(*declarer),
            Phase::Playing { .. } => {
                if self.current_trick.len() >= 3 {
                    None
                } else {
                    let offset = self.current_trick.len();
                    Some((self.trick_leader + offset) % 3)
                }
            },
            Phase::Finished { .. } => None,
        }
    }

    fn determine_leader(&self, declarer: PlayerId, game_type: GameType) -> (p: PlayerId)
        ensures
            p == self@.leader_for(declarer, game_type),
    {
        match game_type {
            GameType::Kontraschnapser | GameType::Kontrabauernschnapser => self.rufer,
            _ => declarer,
        }
    }

    fn advance_bidding(&mut self, bids: Vec<(PlayerId, GameType)>, passed: Vec<PlayerId>, last_bidder: PlayerId)
        requires
            last_bidder < 3,
            bids@.len() + passed@.len() <= 3,
        ensures
            final(self)@ == old(self)@.after_bidding(bids@, passed@, last_bidder),
    {
        let next = (last_bidder + 1) % 3;
        if passed.len() == 3 {
            let rufer = self.rufer;
            self.phase = Phase::TalonDecision { declarer: rufer, game_type: GameType::Normal };
            return ;
        }
        if passed.len() == 2 && bids.len() >= 1 {
            let (declarer, game_type) = bids[bids.len() - 1];
            self.phase = Phase::TalonDecision { declarer, game_type };
            return ;
        }
        let all_acted = bids.len() + passed.len() == 3;
        if all_acted {
            let mut best = bids[0];
            let mut i: usize = 1;
            assert(bids@.take(1).drop_last() =~= Seq::<(PlayerId, GameType)>::empty());
            assert(best == best_bid(bids@.take(1)));
            while i < bids.len()
                invariant
                    1 <= i <= bids@.len(),
                    best == best_bid(bids@.take(i as int)),
                decreases bids@.len() - i,
            {
                assert(bids@.take(i + 1).drop_last() =~= bids@.take(i as int));
                if bids[i].1.base_points() >= best.1.base_points() {
                    best = bids[i];
                }
                i = i + 1;
            }
            assert(bids@.take(bids@.len() as int) =~= bids@);
            self.phase = Phase::TalonDecision { declarer: best.0, game_type: best.1 };
            return ;
        }
        let mut seen = false;
        let mut i: usize = 0;
        while i < passed.len()
            invariant
                i <= passed@.len(),
                seen == exists|j: int| 0 <= j < i && passed@[j] == next,
            decreases passed@.len() - i,
        {
            if passed[i] == next {
                seen = true;
            }
            i = i + 1;
        }
        let mut j: usize = 0;
        while j < bids.len()
            invariant
                j <= bids@.len(),
                seen == ((exists|k: int| 0 <= k < passed@.len() && passed@[k] == next) || exists|k: int|
                    0 <= k < j && #[trigger] bids@[k].0 == next),
            decreases bids@.len() - j,
        {
            if bids[j].0 == next {
                seen = true;
            }
            j = j + 1;
        }
        proof {
            if exists|k: int| 0 <= k < passed@.len() && passed@[k] == next {
                let k = choose|k: int| 0 <= k < passed@.len() && passed@[k] == next;
                assert(passed@.contains(next));
            }
        }
        if seen {
            let third = (next + 1) % 3;
            self.phase = Phase::Bidding { bids, passed, current_bidder: third };
        } else {
            self.phase = Phase::Bidding { bids, passed, current_bidder: next };
        }
    }

    fn check_hand_end(&mut self, game_type: GameType)
        requires
            old(self)@.wf(),
        ensures
            final(self)@ == old(self)@.after_hand_check(game_type),
    {
        let (declarer, spritzen) = match &self.phase {
            Phase::Playing { declarer, spritzen, .. } => (*declarer, *spritzen),
            _ => {
                return ;
            },
        };
        let all_played = self.hands[0].len() == 0 && self.hands[1].len() == 0 && self.hands[2].len() == 0;
        proof {
            assert(all_played == forall|p: int| 0 <= p < 3 ==> #[trigger] self@.hands[p].len() == 0) by {
                if !all_played {
                    if self.hands[0]@.len() != 0 {
                        assert(self@.hands[0].len() != 0);
                    } else if self.hands[1]@.len() != 0 {
                        assert(self@.hands[1].len() != 0);
                    } else {
                        assert(self@.hands[2].len() != 0);
                    }
                }
            }
        }
        let finished: Option<bool> = match game_type.goal() {
            GameGoal::TakeAllTricks => {
                let mut lost = false;
                let mut i: usize = 0;
                while i < self.tricks.len()
                    invariant
                        i <= self.tricks@.len(),
                        lost == exists|k: int| 0 <= k < i && #[trigger] self.tricks@[k].winner != declarer,
                    decreases self.tricks@.len() - i,
                {
                    if self.tricks[i].winner != declarer {
                        lost = true;
                    }
                    i = i + 1;
                }
                proof {
                    if lost {
                        let k = choose|k: int| 0 <= k < self.tricks@.len() && #[trigger] self.tricks@[k].winner != declarer;
                        assert(self@.tricks[k].winner != declarer);
                    } else {
                        assert forall|k: int| 0 <= k < self@.tricks.len() implies #[trigger] self@.tricks[k].winner == declarer by {
                            assert(self.tricks@[k].winner == declarer);
                        }
                    }
                }
                if lost {
                    Some(false)
                } else if all_played {
                    Some(true)
                } else {
                    None
                }
            },
            GameGoal::TakeNoTricks => {
                if self.tricks_won[declarer] > 0 {
                    Some(false)
                } else if all_played {
                    Some(true)
                } else {
                    None
                }
            },
            GameGoal::Reach66 => {
                let marriage_points: u128 = if self.tricks_won[declarer] > 0 {
                    marriage_points_for(&self.marriages, declarer)
                } else {
                    0
                };
                let total = self.card_points[declarer] as u128 + marriage_points;
                if total >= 66 {
                    Some(true)
                } else if all_played {
                    let last_by_declarer = game_type == GameType::Normal && self.tricks.len() > 0
                        && self.tricks[self.tricks.len() - 1].winner == declarer;
                    Some(last_by_declarer)
                } else {
                    None
                }
            },
        };
        if let Some(declarer_won) = finished {
            let o1 = (declarer + 1) % 3;
            let o2 = (declarer + 2) % 3;
            let base = if game_type == GameType::Normal && declarer_won {
                let opp_points: u16 = self.card_points[o1] as u16 + self.card_points[o2] as u16;
                let opp_has_trick = self.tricks_won[o1] > 0 || self.tricks_won[o2] > 0;
                let capped: u8 = if opp_points > 255 {
                    255
                } else {
                    opp_points as u8
                };
                NormalGameResult::from_loser_points(capped, opp_has_trick).points()
            } else if game_type == GameType::Normal && !declarer_won {
                NormalGameResult::from_loser_points(self.card_points[declarer], self.tricks_won[declarer] > 0).points()
            } else {
                game_type.base_points()
            };
            let m = spritzen.multiplier();
            assert(base as int * m as int <= 192) by (nonlinear_arith)
                requires
                    base <= 24,
                    m <= 8,
            ;
            let points_awarded = base * m;
            self.phase = Phase::Finished { declarer, game_type, declarer_won, points_awarded };
        }
    }

    fn resolve_trick(&mut self, game_type: GameType)
        requires
            old(self)@.wf(),
            old(self)@.trick_counts_fit(),
            old(self)@.current_trick.len() == 3,
        ensures
            final(self)@ == old(self)@.after_trick(game_type),
    {
        let trump = if game_type.has_trump() {
            self.trump
        } else {
            None
        };
        let ordering = game_type.rank_ordering();
        let winner = trick_winner(self.current_trick.as_slice(), trump, ordering);
        proof {
            let s = self.current_trick@;
            let i0 = choose|i: int| wins_trick(s, i, trump, ordering);
            let i1 = choose|i: int| wins_trick(s, i, trump, ordering) && winner == s[i].0;
            crate::model::types::lemma_winner_unique(s, s.len() as int, i0, i1, trump, ordering);
            crate::model::types::lemma_played_points_bound(s);
        }
        let ghost before = *self;
        let mut cards: Vec<(PlayerId, Card)> = Vec::new();
        std::mem::swap(&mut cards, &mut self.current_trick);
        let trick = Trick { cards, winner };
        let pts = trick.points();
        self.card_points[winner] = self.card_points[winner].saturating_add(pts);
        self.tricks_won[winner] = self.tricks_won[winner] + 1;
        proof {
            lemma_tricks_push(self.tricks@, trick);
        }
        self.tricks.push(trick);
        self.trick_leader = winner;
        proof {
            let mid = GameView {
                card_points: before@.card_points.update(winner as int, self.card_points[winner as int]),
                tricks_won: before@.tricks_won.update(winner as int, self.tricks_won[winner as int]),
                tricks: before@.tricks.push(TrickView { cards: before@.current_trick, winner }),
                current_trick: Seq::empty(),
                trick_leader: winner,
                ..before@
            };
            assert(self@ =~= mid);
        }
        self.check_hand_end(game_type);
    }

    fn play_card(&mut self, player: PlayerId, card: Card, game_type: GameType) -> (r: Result<(), String>)
        requires
            old(self)@.wf(),
            old(self)@.trick_counts_fit(),
            player < 3,
            old(self)@.current_trick.len() < 3,
        ensures
            (final(self)@, r is Ok) == old(self)@.after_play(player, card, game_type),
            r matches Err(m) ==> m@ == play_refusal(old(self)@, player, card),
    {
        if !hand_has(self.hands[player].as_slice(), card) {
            return Err(text("card not in hand"));
        }
        let trump = if game_type.has_trump() {
            self.trump
        } else {
            None
        };
        let ordering = game_type.rank_ordering();
        let lead = if self.current_trick.len() == 0 {
            None
        } else {
            let lead_card = self.current_trick[0].1;
            Some((lead_card.suit, lead_card.rank))
        };
        let valid = valid_plays(self.hands[player].as_slice(), lead, trump, ordering);
        if !hand_has(valid.as_slice(), card) {
            return Err(card.label().concat(" is not a valid play"));
        }
        let ghost before = *self;
        match position_of(self.hands[player].as_slice(), card) {
            Some(pos) => {
                self.hands[player].remove(pos);
            },
            None => {
                return Err(text("card not in hand"));
            },
        }
        proof {
            lemma_hands_update(before, *self, player as int);
        }
        self.current_trick.push((player, card));
        if self.current_trick.len() == 3 {
            self.resolve_trick(game_type);
        }
        Ok(())
    }

    fn bid(&mut self, player: PlayerId, game_type: GameType) -> (r: Result<(), String>)
        requires
            old(self)@.wf(),
            old(self)@.phase is Bidding,
        ensures
            (final(self)@, r is Ok) == old(self)@.dispatch(player, Action::Bid(game_type)),
            r matches Err(m) ==> m@ == bid_refusal(old(self)@, game_type),
    {
        let bidder = match &self.phase {
            Phase::Bidding { current_bidder, .. } => *current_bidder,
            _ => {
                proof {
                    assert(false);
                }
                0
            },
        };
        if game_type.rufer_only() && bidder != self.rufer {
            return Err(game_type.label().concat(" can only be announced by the Rufer"));
        }
        if game_type.non_rufer_only() && bidder == self.rufer {
            return Err(game_type.label().concat(" can only be announced by a non-Rufer"));
        }
        let mut phase = Phase::CallingTrump;
        std::mem::swap(&mut phase, &mut self.phase);
        match phase {
            Phase::Bidding { mut bids, passed, .. } => {
                bids.push((bidder, game_type));
                self.advance_bidding(bids, passed, bidder);
                Ok(())
            },
            _ => {
                proof {
                    assert(false);
                }
                Ok(())
            },
        }
    }

    fn pass(&mut self, player: PlayerId) -> (r: Result<(), String>)
        requires
            old(self)@.wf(),
            old(self)@.phase is Bidding,
        ensures
            (final(self)@, r is Ok) == old(self)@.dispatch(player, Action::Pass),
    {
        let mut phase = Phase::CallingTrump;
        std::mem::swap(&mut phase, &mut self.phase);
        match phase {
            Phase::Bidding { bids, mut passed, current_bidder } => {
                passed.push(current_bidder);
                self.advance_bidding(bids, passed, current_bidder);
                Ok(())
            },
            _ => {
                proof {
                    assert(false);
                }
                Ok(())
            },
        }
    }

    fn take_talon(&mut self, player: PlayerId, take: bool) -> (r: Result<(), String>)
        requires
            old(self)@.wf(),
            old(self)@.phase is TalonDecision,
        ensures
            (final(self)@, r is Ok) == old(self)@.dispatch(player, Action::TakeTalon { take }),
    {
        let (declarer, game_type) = match &self.phase {
            Phase::TalonDecision { declarer, game_type } => (*declarer, *game_type),
            _ => {
                proof {
                    assert(false);
                }
                (0, GameType::Normal)
            },
        };
        if take {
            let ghost before = *self;
            self.hands[declarer].append(&mut self.talon);
            proof {
                lemma_hands_update(before, *self, declarer as int);
            }
            self.phase = Phase::Discarding { declarer, game_type };
        } else {
            self.phase = Phase::Playing { declarer, game_type, spritzen: SpritzenLevel::Undoubled };
            self.trick_leader = self.determine_leader(declarer, game_type);
        }
        Ok(())
    }

    /// Takes the first copy of a card out of a player's hand, if the hand holds it.
    fn take_from_hand(&mut self, player: PlayerId, card: Card) -> (found: bool)
        requires
            player < 3,
        ensures
            found == old(self)@.hands[player as int].contains(card),
            found ==> final(self)@ == (GameView {
                hands: old(self)@.hands.update(
                    player as int,
                    crate::model::types::remove_card(old(self)@.hands[player as int], card),
                ),
                ..old(self)@
            }),
            !found ==> final(self)@ == old(self)@,
    {
        let ghost before = *self;
        match position_of(self.hands[player].as_slice(), card) {
            Some(pos) => {
                self.hands[player].remove(pos);
                proof {
                    lemma_hands_update(before, *self, player as int);
                    assert(self@ =~= GameView {
                        hands: before@.hands.update(
                            player as int,
                            crate::model::types::remove_card(before@.hands[player as int], card),
                        ),
                        ..before@
                    });
                }
                true
            },
            None => false,
        }
    }

    fn discard(&mut self, c1: Card, c2: Card, Ghost(d): Ghost<PlayerId>, Ghost(g): Ghost<GameType>) -> (r: Result<(), String>)
        requires
            old(self)@.wf(),
            old(self)@.phase == (PhaseView::Discarding { declarer: d, game_type: g }),
        ensures
            (final(self)@, r is Ok) == old(self)@.after_discard(d, g, c1, c2),
            r matches Err(m) ==> m@ == discard_refusal(old(self)@, d, c1),
    {
        let (declarer, game_type) = match &self.phase {
            Phase::Discarding { declarer, game_type } => (*declarer, *game_type),
            _ => {
                proof {
                    assert(false);
                }
                (0, GameType::Normal)
            },
        };
        let ghost start = self@;
        let ghost hand = start.hands[declarer as int];
        let ghost hand1 = crate::model::types::remove_card(hand, c1);
        if !self.take_from_hand(declarer, c1) {
            assert(start.after_discard(d, g, c1, c2) == (start, false));
            return Err(text("first discard card not in hand"));
        }
        let ghost mid = self@;
        assert(mid.hands[declarer as int] == hand1);
        if !self.take_from_hand(declarer, c2) {
            assert(start.after_discard(d, g, c1, c2) == (mid, false));
            return Err(text("second discard card not in hand"));
        }
        let ghost before = *self;
        assert(before@.hands =~= start.hands.update(declarer as int, crate::model::types::remove_card(hand1, c2)));
        let mut talon: Vec<Card> = Vec::new();
        talon.push(c1);
        talon.push(c2);
        self.talon = talon;
        self.phase = Phase::Playing { declarer, game_type, spritzen: SpritzenLevel::Undoubled };
        self.trick_leader = self.determine_leader(declarer, game_type);
        proof {
            assert(self@ =~= GameView {
                talon: seq![c1, c2],
                phase: PhaseView::Playing { declarer, game_type, spritzen: SpritzenLevel::Undoubled },
                trick_leader: before@.leader_for(declarer, game_type),
                ..before@
            });
        }
        Ok(())
    }

    fn announce_marriage(&mut self, player: PlayerId, marriage: Marriage, card: Card) -> (r: Result<(), String>)
        requires
            old(self)@.wf(),
            old(self)@.trick_counts_fit(),
            old(self)@.phase is Playing,
            player < 3,
            old(self)@.current_trick.len() < 3,
        ensures
            (final(self)@, r is Ok) == old(self)@.dispatch(player, Action::AnnounceMarriage(marriage, card)),
            r matches Err(m) ==> m@ == marriage_refusal(old(self)@, player, marriage, card, old(self)@.phase->Playing_game_type),
    {
        let game_type = match &self.phase {
            Phase::Playing { game_type, .. } => *game_type,
            _ => {
                proof {
                    assert(false);
                }
                GameType::Normal
            },
        };
        if player != self.trick_leader {
            return Err(text("can only announce marriage when leading"));
        }
        let has_king = hand_has(self.hands[player].as_slice(), Card::new(marriage.suit, Rank::King));
        let has_queen = hand_has(self.hands[player].as_slice(), Card::new(marriage.suit, Rank::Queen));
        if !has_king || !has_queen {
            return Err(text("missing king or queen for marriage"));
        }
        if card.suit != marriage.suit || (card.rank != Rank::King && card.rank != Rank::Queen) {
            return Err(text("must play king or queen of the marriage suit"));
        }
        let trump = if game_type.has_trump() {
            self.trump
        } else {
            None
        };
        let trump_marriage = match trump {
            Some(t) => t == marriage.suit,
            None => false,
        };
        if marriage.is_trump != trump_marriage {
            return Err(text("marriage trump flag does not match the trump suit"));
        }
        self.marriages.push((player, marriage));
        let ghost pushed = self@;
        let r = self.play_card(player, card, game_type);
        if r.is_ok() {
            proof {
                lemma_after_play_wf(pushed, player, card, game_type);
            }
            self.check_hand_end(game_type);
        }
        r
    }

    /// Apply an action to advance the game state; `Err` for actions that are not allowed.
    pub fn apply_action(&mut self, player: PlayerId, action: Action) -> (r: Result<(), String>)
        requires
            old(self)@.wf(),
            old(self)@.trick_counts_fit(),
        ensures
            (final(self)@, r is Ok) == old(self)@.step(player, action),
            final(self)@.wf(),
            r matches Err(m) ==> m@ == refusal_text(old(self)@, player, action),
    {
        proof {
            lemma_step_wf(self@, player, action);
        }
        let active = match self.active_player() {
            Some(a) => a,
            None => {
                return Err(text("no active player in current phase"));
            },
        };
        if player != active {
            return Err(turn_message(player, active));
        }
        match (&self.phase, action) {
            (Phase::CallingTrump, Action::CallTrump(suit)) => {
                self.trump = Some(suit);
                let rufer = self.rufer;
                self.phase = Phase::Bidding { bids: Vec::new(), passed: Vec::new(), current_bidder: rufer };
                Ok(())
            },
            (Phase::Bidding { .. }, Action::Bid(game_type)) => self.bid(player, game_type),
            (Phase::Bidding { .. }, Action::Pass) => self.pass(player),
            (Phase::TalonDecision { .. }, Action::TakeTalon { take }) => self.take_talon(player, take),
            (Phase::Discarding { declarer, game_type }, Action::Discard(c1, c2)) => {
                let ghost d = *declarer;
                let ghost g = *game_type;
                self.discard(c1, c2, Ghost(d), Ghost(g))
            },
            (Phase::Playing { game_type, .. }, Action::PlayCard(card)) => {
                let game_type = *game_type;
                self.play_card(player, card, game_type)
            },
            (Phase::Playing { .. }, Action::AnnounceMarriage(marriage, card)) => {
                self.announce_marriage(player, marriage, card)
            },
            _ => Err(text("invalid action for current phase")),
        }
    }

    /// Compute total card and marriage points for a player; marriages count only once the
    /// player has taken a trick.
    pub fn total_points_for(&self, player: PlayerId) -> (total: u8)
        requires
            player < 3,
            self@.card_points[player as int] + (if self@.tricks_won[player as int] > 0 {
                marriage_points_of(self@.marriages, player)
            } else {
                0
            }) <= u8::MAX,
        ensures
            total == self@.card_points[player as int] + (if self@.tricks_won[player as int] > 0 {
                marriage_points_of(self@.marriages, player)
            } else {
                0
            }),
    {
        let marriage_pts: u128 = if self.tricks_won[player] > 0 {
            marriage_points_for(&self.marriages, player)
        } else {
            0
        };
        self.card_points[player] + marriage_pts as u8
    }

    /// Returns the list of valid actions for the active player.
    pub fn valid_actions(&self) -> (actions: Vec<Action>)
        requires
            self@.wf(),
        ensures
            actions@ == self@.valid_actions(),
    {
        let player = match self.active_player() {
            Some(p) => p,
            None => {
                return Vec::new();
            },
        };
        match &self.phase {
            Phase::CallingTrump => {
                let hand = self.hands[player].as_slice();
                let n: usize = if hand.len() < 3 {
                    hand.len()
                } else {
                    3
                };
                let suits = distinct_suits(hand, n);
                assert(hand@.take(n as int) =~= first_three(hand@));
                let mut actions: Vec<Action> = Vec::new();
                let mut i: usize = 0;
                while i < suits.len()
                    invariant
                        i <= suits@.len(),
                        actions@ == suits@.take(i as int).map_values(|s: Suit| Action::CallTrump(s)),
                    decreases suits@.len() - i,
                {
                    actions.push(Action::CallTrump(suits[i]));
                    assert(actions@ =~= suits@.take(i + 1).map_values(|s: Suit| Action::CallTrump(s)));
                    i = i + 1;
                }
                assert(suits@.take(suits@.len() as int) =~= suits@);
                actions
            },
            Phase::Bidding { .. } => {
                let mut actions: Vec<Action> = Vec::new();
                actions.push(Action::Pass);
                let types = all_game_types();
                let is_rufer = player == self.rufer;
                let mut i: usize = 0;
                while i < types.len()
                    invariant
                        i <= types@.len(),
                        types@ == all_game_types_spec(),
                        is_rufer == (player == self.rufer),
                        actions@ == seq![Action::Pass] + bid_actions(types@.take(i as int), is_rufer),
                    decreases types@.len() - i,
                {
                    let gt = types[i];
                    assert(types@.take(i + 1).drop_last() =~= types@.take(i as int));
                    if !(gt.rufer_only() && !is_rufer) && !(gt.non_rufer_only() && is_rufer) {
                        actions.push(Action::Bid(gt));
                    }
                    assert(actions@ =~= seq![Action::Pass] + bid_actions(types@.take(i + 1), is_rufer));
                    i = i + 1;
                }
                assert(types@.take(types@.len() as int) =~= types@);
                actions
            },
            Phase::TalonDecision { .. } => {
                let mut actions: Vec<Action> = Vec::new();
                actions.push(Action::TakeTalon { take: true });
                actions.push(Action::TakeTalon { take: false });
                assert(actions@ =~= seq![Action::TakeTalon { take: true }, Action::TakeTalon { take: false }]);
                actions
            },
            Phase::Discarding { declarer, .. } => discard_actions(self.hands[*declarer].as_slice()),
            Phase::Playing { game_type, .. } => {
                let trump = if game_type.has_trump() {
                    self.trump
                } else {
                    None
                };
                let ordering = game_type.rank_ordering();
                let lead = if self.current_trick.len() == 0 {
                    None
                } else {
                    let lc = self.current_trick[0].1;
                    Some((lc.suit, lc.rank))
                };
                let valid = valid_plays(self.hands[player].as_slice(), lead, trump, ordering);
                let is_leader = player == self.trick_leader && self.current_trick.len() == 0;
                let marriages = if is_leader {
                    detect_marriages(self.hands[player].as_slice(), trump)
                } else {
                    Vec::new()
                };
                let mut actions: Vec<Action> = Vec::new();
                let mut mi: usize = 0;
                while mi < marriages.len()
                    invariant
                        mi <= marriages@.len(),
                        actions@ == marriage_actions(marriages@.take(mi as int), valid@),
                    decreases marriages@.len() - mi,
                {
                    let m = marriages[mi];
                    assert(marriages@.take(mi + 1).drop_last() =~= marriages@.take(mi as int));
                    let ghost before = actions@;
                    let mut ci: usize = 0;
                    while ci < valid.len()
                        invariant
                            ci <= valid@.len(),
                            m == marriages@[mi as int],
                            actions@ == before + marriage_plays(m, valid@.take(ci as int)),
                        decreases valid@.len() - ci,
                    {
                        let card = valid[ci];
                        assert(valid@.take(ci + 1).drop_last() =~= valid@.take(ci as int));
                        if card.suit == m.suit && (card.rank == Rank::King || card.rank == Rank::Queen) {
                            actions.push(Action::AnnounceMarriage(m, card));
                        }
                        assert(actions@ =~= before + marriage_plays(m, valid@.take(ci + 1)));
                        ci = ci + 1;
                    }
                    assert(valid@.take(valid@.len() as int) =~= valid@);
                    mi = mi + 1;
                }
                assert(marriages@.take(marriages@.len() as int) =~= marriages@);
                let ghost marriage_part = actions@;
                let mut ci: usize = 0;
                while ci < valid.len()
                    invariant
                        ci <= valid@.len(),
                        actions@ == marriage_part + valid@.take(ci as int).map_values(|c: Card| Action::PlayCard(c)),
                    decreases valid@.len() - ci,
                {
                    actions.push(Action::PlayCard(valid[ci]));
                    assert(actions@ =~= marriage_part + valid@.take(ci + 1).map_values(|c: Card| Action::PlayCard(c)));
                    ci = ci + 1;
                }
                assert(valid@.take(valid@.len() as int) =~= valid@);
                actions
            },
            Phase::Finished { .. } => Vec::new(),
        }
    }
}

/// The sixteen game types in ascending order of value.
pub open spec fn all_game_types_spec() -> Seq<GameType> {
    seq![
        GameType::Normal,
        GameType::Bettler,
        GameType::Assenbettler,
        GameType::AssBettler,
        GameType::Schnapser,
        GameType::Plauderer,
        GameType::Damengang,
        GameType::Koenigsgang,
        GameType::Gang,
        GameType::Zehnergang,
        GameType::Bauernloch,
        GameType::Bauernschnapser,
        GameType::Kontraschnapser,
        GameType::Farbringerl,
        GameType::Kontrabauernschnapser,
        GameType::Herrenschnapser,
    ]
}

fn all_game_types() -> (types: Vec<GameType>)
    ensures
        types@ == all_game_types_spec(),
{
    let types = vec![
        GameType::Normal,
        GameType::Bettler,
        GameType::Assenbettler,
        GameType::AssBettler,
        GameType::Schnapser,
        GameType::Plauderer,
        GameType::Damengang,
        GameType::Koenigsgang,
        GameType::Gang,
        GameType::Zehnergang,
        GameType::Bauernloch,
        GameType::Bauernschnapser,
        GameType::Kontraschnapser,
        GameType::Farbringerl,
        GameType::Kontrabauernschnapser,
        GameType::Herrenschnapser,
    ];
    assert(types@ =~= all_game_types_spec());
    types
}

/// Whether a seat may announce the game type: Rufer-only games need the Rufer, and
/// games for non-Rufers need someone else.
pub open spec fn may_announce(game_type: GameType, is_rufer: bool) -> bool {
    !(game_type.rufer_only_spec() && !is_rufer) && !(game_type.non_rufer_only_spec() && is_rufer)
}

/// The bids a seat may make, in the order of the given game types.
pub open spec fn bid_actions(types: Seq<GameType>, is_rufer: bool) -> Seq<Action>
    decreases types.len(),
{
    if types.len() == 0 {
        Seq::empty()
    } else {
        let rest = bid_actions(types.drop_last(), is_rufer);
        if may_announce(types.last(), is_rufer) {
            rest.push(Action::Bid(types.last()))
        } else {
            rest
        }
    }
}

/// Announcing the marriage while playing one of its cards, for each valid King or Queen of its suit.
pub open spec fn marriage_plays(m: Marriage, valid: Seq<Card>) -> Seq<Action>
    decreases valid.len(),
{
    if valid.len() == 0 {
        Seq::empty()
    } else {
        let rest = marriage_plays(m, valid.drop_last());
        let c = valid.last();
        if c.suit == m.suit && (c.rank == Rank::King || c.rank == Rank::Queen) {
            rest.push(Action::AnnounceMarriage(m, c))
        } else {
            rest
        }
    }
}

/// The marriage announcements, marriage by marriage.
pub open spec fn marriage_actions(ms: Seq<Marriage>, valid: Seq<Card>) -> Seq<Action>
    decreases ms.len(),
{
    if ms.len() == 0 {
        Seq::empty()
    } else {
        marriage_actions(ms.drop_last(), valid) + marriage_plays(ms.last(), valid)
    }
}

/// The suits of a hand, each once, in order of first appearance.
pub open spec fn suits_in(hand: Seq<Card>) -> Seq<Suit>
    decreases hand.len(),
{
    if hand.len() == 0 {
        Seq::empty()
    } else {
        let rest = suits_in(hand.drop_last());
        if rest.contains(hand.last().suit) {
            rest
        } else {
            rest.push(hand.last().suit)
        }
    }
}

fn distinct_suits(hand: &[Card], n: usize) -> (suits: Vec<Suit>)
    requires
        n <= hand@.len(),
    ensures
        suits@ == suits_in(hand@.take(n as int)),
{
    let mut suits: Vec<Suit> = Vec::new();
    let mut i: usize = 0;
    while i < n
        invariant
            i <= n,
            n <= hand@.len(),
            suits@ == suits_in(hand@.take(i as int)),
        decreases n - i,
    {
        assert(hand@.take(i + 1).drop_last() =~= hand@.take(i as int));
        let s = hand[i].suit;
        let mut found = false;
        let mut j: usize = 0;
        while j < suits.len()
            invariant
                j <= suits@.len(),
                found == exists|k: int| 0 <= k < j && suits@[k] == s,
            decreases suits@.len() - j,
        {
            if suits[j] == s {
                found = true;
            }
            j = j + 1;
        }
        proof {
            if found {
                let k = choose|k: int| 0 <= k < suits@.len() && suits@[k] == s;
                assert(suits@.contains(s));
            }
        }
        if !found {
            suits.push(s);
        }
        i = i + 1;
    }
    suits
}

/// Discarding the cards at positions `i` and `j > i`, for each `j` after `i`.
pub open spec fn discard_row(hand: Seq<Card>, i: int) -> Seq<Action> {
    Seq::new((hand.len() - i - 1) as nat, |k: int| Action::Discard(hand[i], hand[i + 1 + k]))
}

/// The discard pairs whose first card is among the first `n` positions, in order.
pub open spec fn discard_rows(hand: Seq<Card>, n: int) -> Seq<Action>
    decreases n,
{
    if n <= 0 {
        Seq::empty()
    } else {
        discard_rows(hand, n - 1) + discard_row(hand, n - 1)
    }
}

fn discard_actions(hand: &[Card]) -> (actions: Vec<Action>)
    ensures
        actions@ == discard_rows(hand@, hand@.len() as int),
{
    let mut actions: Vec<Action> = Vec::new();
    let mut i: usize = 0;
    while i < hand.len()
        invariant
            i <= hand@.len(),
            actions@ == discard_rows(hand@, i as int),
        decreases hand@.len() - i,
    {
        let ghost before = actions@;
        let mut j: usize = i + 1;
        while j < hand.len()
            invariant
                i < hand@.len(),
                i + 1 <= j <= hand@.len(),
                actions@ == before + discard_row(hand@, i as int).take(j - i - 1),
            decreases hand@.len() - j,
        {
            actions.push(Action::Discard(hand[i], hand[j]));
            assert(actions@ =~= before + discard_row(hand@, i as int).take(j - i));
            j = j + 1;
        }
        assert(discard_row(hand@, i as int).take(hand@.len() - i - 1) =~= discard_row(hand@, i as int));
        i = i + 1;
    }
    actions
}

impl GameView {
    /// The actions the active player may take, in the order they are offered.
    pub open spec fn valid_actions(self) -> Seq<Action> {
        match self.active_player() {
            None => Seq::empty(),
            Some(player) => match self.phase {
                PhaseView::CallingTrump => suits_in(first_three(self.hands[player as int])).map_values(
                    |s: Suit| Action::CallTrump(s),
                ),
                PhaseView::Bidding { .. } => seq![Action::Pass] + bid_actions(
                    all_game_types_spec(),
                    player == self.rufer,
                ),
                PhaseView::TalonDecision { .. } => seq![
                    Action::TakeTalon { take: true },
                    Action::TakeTalon { take: false },
                ],
                PhaseView::Discarding { declarer, .. } => discard_rows(
                    self.hands[declarer as int],
                    self.hands[declarer as int].len() as int,
                ),
                PhaseView::Playing { game_type, .. } => {
                    let trump = self.effective_trump(game_type);
                    let valid = valid_plays_spec(
                        self.hands[player as int],
                        self.lead(),
                        trump,
                        game_type.rank_ordering_spec(),
                    );
                    let marriages = if player == self.trick_leader && self.current_trick.len() == 0 {
                        marriages_in(self.hands[player as int], trump, Suit::all_spec())
                    } else {
                        Seq::empty()
                    };
                    marriage_actions(marriages, valid) + valid.map_values(|c: Card| Action::PlayCard(c))
                },
                PhaseView::Finished { .. } => Seq::empty(),
            },
        }
    }
}

/// The deal from a deck in the given order, cards drawn from its end: three each to the
/// Rufer, the third player and the Geber, two to the talon, then three more each.
pub open spec fn dealt(geber: PlayerId, order: Seq<Card>) -> GameView {
    let rufer = ((geber + 1) % 3) as PlayerId;
    let third = ((geber + 2) % 3) as PlayerId;
    let hands = Seq::new(3, |p: int| Seq::<Card>::empty())
        .update(rufer as int, order.subrange(17, 20) + order.subrange(6, 9))
        .update(third as int, order.subrange(14, 17) + order.subrange(3, 6))
        .update(geber as int, order.subrange(11, 14) + order.subrange(0, 3));
    GameView {
        phase: PhaseView::CallingTrump,
        hands,
        trump: None,
        talon: order.subrange(9, 11),
        rufer,
        geber,
        current_trick: Seq::empty(),
        trick_leader: rufer,
        tricks: Seq::empty(),
        card_points: seq![0u8, 0u8, 0u8],
        tricks_won: seq![0u8, 0u8, 0u8],
        marriages: Seq::empty(),
    }
}

impl GameState {
    /// Deal a new hand. `geber` is the dealer index (0, 1, or 2). The deck is shuffled
    /// with `rng`; the hand is dealt from the shuffled deck as `dealt` says.
    pub fn deal(geber: PlayerId, rng: &mut StdRng) -> (state: Self)
        requires
            geber < 3,
        ensures
            exists|order: Seq<Card>|
                order.len() == 20 && order.to_multiset() == deck_order().to_multiset() && state@ == dealt(
                    geber,
                    order,
                ),
            state@.wf(),
            state@.trick_counts_fit(),
    {
        let rufer = (geber + 1) % 3;
        let third = (geber + 2) % 3;
        let mut deck = Deck::new();
        deck.shuffle(rng);
        let ghost order = deck@;
        let mut hands: [Vec<Card>; 3] = [Vec::new(), Vec::new(), Vec::new()];
        hands[rufer] = deck.draw_n(3);
        assert(hands[rufer as int]@ =~= order.subrange(17, 20));
        assert(deck@ =~= order.subrange(0, 17));
        hands[third] = deck.draw_n(3);
        assert(hands[third as int]@ =~= order.subrange(14, 17));
        assert(deck@ =~= order.subrange(0, 14));
        hands[geber] = deck.draw_n(3);
        assert(hands[geber as int]@ =~= order.subrange(11, 14));
        assert(deck@ =~= order.subrange(0, 11));
        let talon = deck.draw_n(2);
        assert(talon@ =~= order.subrange(9, 11));
        assert(deck@ =~= order.subrange(0, 9));
        let mut more = deck.draw_n(3);
        assert(more@ =~= order.subrange(6, 9));
        hands[rufer].append(&mut more);
        assert(deck@ =~= order.subrange(0, 6));
        let mut more = deck.draw_n(3);
        assert(more@ =~= order.subrange(3, 6));
        hands[third].append(&mut more);
        let mut more = deck.draw_n(3);
        assert(more@ =~= order.subrange(0, 3));
        hands[geber].append(&mut more);
        assert(hands[rufer as int]@ =~= order.subrange(17, 20) + order.subrange(6, 9));
        assert(hands[third as int]@ =~= order.subrange(14, 17) + order.subrange(3, 6));
        assert(hands[geber as int]@ =~= order.subrange(11, 14) + order.subrange(0, 3));
        let state = Self {
            phase: Phase::CallingTrump,
            hands,
            trump: None,
            talon,
            rufer,
            geber,
            current_trick: Vec::new(),
            trick_leader: rufer,
            tricks: Vec::new(),
            card_points: [0; 3],
            tricks_won: [0; 3],
            marriages: Vec::new(),
        };
        proof {
            let d = dealt(geber, order);
            assert forall|p: int| 0 <= p < 3 implies state@.hands[p] == d.hands[p] by {
                if p == rufer as int {
                } else if p == third as int {
                } else {
                    assert(p == geber as int);
                }
            }
            assert(state@.hands =~= d.hands);
            assert(state@.tricks =~= d.tricks);
            assert(state@.card_points =~= d.card_points);
            assert(state@.tricks_won =~= d.tricks_won);
            assert(state@ =~= d);
        }
        state
    }
}

} // verus!
