//! What the offered actions promise: each one is accepted when the active player takes it,
//! and in a deal whose hand sizes are in step there is always one to take while someone is
//! to act.

use vstd::prelude::*;
use vstd::multiset::Multiset;
use crate::model::card::{Card, Rank, Suit};
use crate::model::game::{
    GameView, PhaseView, bid_actions, dealt, suits_in, first_three, discard_row, discard_rows, marriage_actions, marriage_plays,
    may_announce,
};
use crate::model::types::{
    Action, GameType, Marriage, PlayerId, TrickView, first_index, holds_marriage, marriages_in, of_suit, of_suit_above,
    remove_card, valid_plays_spec,
};
use crate::seq_facts::lemma_filter_members;

verus! {

/// A bid that is offered is one the seat may announce.
proof fn lemma_bid_offered(types: Seq<GameType>, is_rufer: bool, a: Action)
    requires
        bid_actions(types, is_rufer).contains(a),
    ensures
        a matches Action::Bid(gt) && may_announce(gt, is_rufer),
    decreases types.len(),
{
    if types.len() > 0 {
        let rest = bid_actions(types.drop_last(), is_rufer);
        if may_announce(types.last(), is_rufer) {
            let k = choose|k: int| 0 <= k < rest.push(Action::Bid(types.last())).len()
                && rest.push(Action::Bid(types.last()))[k] == a;
            if k < rest.len() {
                assert(rest[k] == a);
                lemma_bid_offered(types.drop_last(), is_rufer, a);
            }
        } else {
            lemma_bid_offered(types.drop_last(), is_rufer, a);
        }
    }
}

/// A marriage play that is offered names a King or Queen of the marriage suit among the
/// valid cards.
proof fn lemma_marriage_play_offered(m: Marriage, valid: Seq<Card>, a: Action)
    requires
        marriage_plays(m, valid).contains(a),
    ensures
        a matches Action::AnnounceMarriage(m2, c) && m2 == m && valid.contains(c) && c.suit == m.suit
            && (c.rank == Rank::King || c.rank == Rank::Queen),
    decreases valid.len(),
{
    if valid.len() > 0 {
        let rest = marriage_plays(m, valid.drop_last());
        let c = valid.last();
        assert(valid[valid.len() - 1] == c);
        if c.suit == m.suit && (c.rank == Rank::King || c.rank == Rank::Queen) {
            let k = choose|k: int| 0 <= k < rest.push(Action::AnnounceMarriage(m, c)).len()
                && rest.push(Action::AnnounceMarriage(m, c))[k] == a;
            if k < rest.len() {
                assert(rest[k] == a);
                lemma_marriage_play_offered(m, valid.drop_last(), a);
                let c2 = a->AnnounceMarriage_1;
                let j = choose|j: int| 0 <= j < valid.drop_last().len() && valid.drop_last()[j] == c2;
                assert(valid[j] == c2);
            }
        } else {
            lemma_marriage_play_offered(m, valid.drop_last(), a);
            let c2 = a->AnnounceMarriage_1;
            let j = choose|j: int| 0 <= j < valid.drop_last().len() && valid.drop_last()[j] == c2;
            assert(valid[j] == c2);
        }
    }
}

/// A marriage announcement that is offered names one of the marriages and a King or Queen
/// of its suit among the valid cards.
proof fn lemma_marriage_action_offered(ms: Seq<Marriage>, valid: Seq<Card>, a: Action)
    requires
        marriage_actions(ms, valid).contains(a),
    ensures
        a matches Action::AnnounceMarriage(m, c) && ms.contains(m) && valid.contains(c) && c.suit
            == m.suit && (c.rank == Rank::King || c.rank == Rank::Queen),
    decreases ms.len(),
{
    if ms.len() > 0 {
        let left = marriage_actions(ms.drop_last(), valid);
        let right = marriage_plays(ms.last(), valid);
        let k = choose|k: int| 0 <= k < (left + right).len() && (left + right)[k] == a;
        if k < left.len() {
            assert(left[k] == a);
            lemma_marriage_action_offered(ms.drop_last(), valid, a);
            let m = a->AnnounceMarriage_0;
            let j = choose|j: int| 0 <= j < ms.drop_last().len() && ms.drop_last()[j] == m;
            assert(ms[j] == m);
        } else {
            assert(right[k - left.len()] == a);
            lemma_marriage_play_offered(ms.last(), valid, a);
            assert(ms[ms.len() - 1] == ms.last());
        }
    }
}

/// A marriage found in a hand is held there.
proof fn lemma_marriage_found_held(hand: Seq<Card>, trump: Option<Suit>, suits: Seq<Suit>, m: Marriage)
    requires
        marriages_in(hand, trump, suits).contains(m),
    ensures
        holds_marriage(hand, m.suit),
        m.is_trump == (trump == Some(m.suit)),
    decreases suits.len(),
{
    if suits.len() > 0 {
        let rest = marriages_in(hand, trump, suits.drop_last());
        let s = suits.last();
        if holds_marriage(hand, s) {
            let mk = Marriage { suit: s, is_trump: trump == Some(s) };
            let k = choose|k: int| 0 <= k < rest.push(mk).len() && rest.push(mk)[k] == m;
            if k < rest.len() {
                assert(rest[k] == m);
                lemma_marriage_found_held(hand, trump, suits.drop_last(), m);
            }
        } else {
            lemma_marriage_found_held(hand, trump, suits.drop_last(), m);
        }
    }
}

/// Every card that may be played is in the hand.
proof fn lemma_valid_play_in_hand(
    hand: Seq<Card>,
    lead: Option<(Suit, Rank)>,
    trump: Option<Suit>,
    ordering: crate::model::types::RankOrdering,
    c: Card,
)
    requires
        valid_plays_spec(hand, lead, trump, ordering).contains(c),
    ensures
        hand.contains(c),
{
    let valid = valid_plays_spec(hand, lead, trump, ordering);
    let k = choose|k: int| 0 <= k < valid.len() && valid[k] == c;
    match lead {
        None => {},
        Some((lead_suit, lead_rank)) => {
            lemma_filter_members(hand, of_suit_above(lead_suit, ordering, ordering.strength_spec(lead_rank)));
            lemma_filter_members(hand, of_suit(lead_suit));
            match trump {
                Some(t) => {
                    lemma_filter_members(hand, of_suit(t));
                },
                None => {},
            }
            assert(hand.contains(valid[k]));
        },
    }
}

/// When `c1` stands at `i` and `c2` at a later `j`, `c2` is still in the hand after `c1`
/// leaves it.
pub(crate) proof fn lemma_second_card_stays(hand: Seq<Card>, i: int, j: int)
    requires
        0 <= i < j < hand.len(),
    ensures
        remove_card(hand, hand[i]).contains(hand[j]),
{
    reveal(first_index);
    let c1 = hand[i];
    let f = first_index(hand, c1);
    crate::seq_facts::lemma_exists_first(hand, c1, i);
    assert(0 <= f < hand.len() && hand[f] == c1 && forall|y: int| 0 <= y < f ==> hand[y] != c1);
    if f > i {
        assert(hand[i] != c1);
    }
    assert(remove_card(hand, c1)[j - 1] == hand[j]);
}

/// A discard that is offered names two cards of the hand, the second of which is still
/// there once the first has gone.
proof fn lemma_discard_offered(hand: Seq<Card>, n: int, a: Action)
    requires
        0 <= n <= hand.len(),
        discard_rows(hand, n).contains(a),
    ensures
        a matches Action::Discard(c1, c2) && hand.contains(c1) && remove_card(hand, c1).contains(c2),
    decreases n,
{
    if n > 0 {
        let left = discard_rows(hand, n - 1);
        let right = discard_row(hand, n - 1);
        let k = choose|k: int| 0 <= k < (left + right).len() && (left + right)[k] == a;
        if k < left.len() {
            assert(left[k] == a);
            lemma_discard_offered(hand, n - 1, a);
        } else {
            let m = k - left.len();
            assert(right[m] == a);
            assert(a == Action::Discard(hand[n - 1], hand[n + m]));
            lemma_second_card_stays(hand, n - 1, n + m);
        }
    }
}

/// Every action offered to the active player is accepted when that player takes it.
pub proof fn lemma_offered_actions_accepted(g: GameView, action: Action)
    requires
        g.valid_actions().contains(action),
    ensures
        match g.active_player() {
            Some(p) => g.step(p, action).1,
            None => false,
        },
{
    let p = g.active_player()->Some_0;
    let offered = g.valid_actions();
    let k = choose|k: int| 0 <= k < offered.len() && offered[k] == action;
    match g.phase {
        PhaseView::CallingTrump => {
            let suits = suits_in(first_three(g.hands[p as int]));
            assert(offered[k] == Action::CallTrump(suits[k]));
        },
        PhaseView::Bidding { .. } => {
            let bids = bid_actions(crate::model::game::all_game_types_spec(), p == g.rufer);
            if k > 0 {
                assert((seq![Action::Pass] + bids)[k] == bids[k - 1]);
                assert(bids.contains(action));
                lemma_bid_offered(crate::model::game::all_game_types_spec(), p == g.rufer, action);
            }
        },
        PhaseView::TalonDecision { .. } => {},
        PhaseView::Discarding { declarer, .. } => {
            let hand = g.hands[declarer as int];
            lemma_discard_offered(hand, hand.len() as int, action);
        },
        PhaseView::Playing { game_type, .. } => {
            let trump = g.effective_trump(game_type);
            let hand = g.hands[p as int];
            let ordering = game_type.rank_ordering_spec();
            let valid = valid_plays_spec(hand, g.lead(), trump, ordering);
            let is_leader = p == g.trick_leader && g.current_trick.len() == 0;
            let ms = if is_leader {
                marriages_in(hand, trump, Suit::all_spec())
            } else {
                Seq::empty()
            };
            let left = marriage_actions(ms, valid);
            let right = valid.map_values(|c: Card| Action::PlayCard(c));
            assert(offered == left + right);
            if k < left.len() {
                assert(left[k] == action);
                lemma_marriage_action_offered(ms, valid, action);
                let m = action->AnnounceMarriage_0;
                let c = action->AnnounceMarriage_1;
                assert(is_leader);
                lemma_marriage_found_held(hand, trump, Suit::all_spec(), m);
                lemma_valid_play_in_hand(hand, g.lead(), trump, ordering, c);
                let g2 = GameView { marriages: g.marriages.push((p, m)), ..g };
                assert(g2.lead() == g.lead());
                assert(g2.hands[p as int] == hand);
            } else {
                assert(right[k - left.len()] == action);
                let c = valid[k - left.len()];
                assert(action == Action::PlayCard(c));
                assert(valid.contains(c));
                lemma_valid_play_in_hand(hand, g.lead(), trump, ordering, c);
            }
        },
        PhaseView::Finished { .. } => {},
    }
}

/// The cards a seat holds in play, counting the card it has put into the current trick:
/// `t` counts seats from the trick leader.
pub open spec fn held(g: GameView, t: int) -> int {
    g.hands[(g.trick_leader + t) % 3].len() + (if t < g.current_trick.len() {
        1int
    } else {
        0int
    })
}

/// The hand sizes a deal keeps. Before play all hands are equally long and not empty, the
/// talon holds two cards and no card is on the table; while discarding the declarer holds
/// two cards more than each of the others and the talon is empty; in play, counting the
/// card each seat has put into the unfinished trick, all seats hold the same number of
/// cards, and not none.
pub open spec fn hands_in_step(g: GameView) -> bool {
    match g.phase {
        PhaseView::CallingTrump | PhaseView::Bidding { .. } | PhaseView::TalonDecision { .. } => {
            &&& g.hands[0].len() >= 1
            &&& g.hands[1].len() == g.hands[0].len()
            &&& g.hands[2].len() == g.hands[0].len()
            &&& g.talon.len() == 2
            &&& g.current_trick.len() == 0
        },
        PhaseView::Discarding { declarer, .. } => {
            &&& g.hands[(declarer + 1) % 3].len() >= 1
            &&& g.hands[(declarer + 2) % 3].len() == g.hands[(declarer + 1) % 3].len()
            &&& g.hands[declarer as int].len() == g.hands[(declarer + 1) % 3].len() + 2
            &&& g.talon.len() == 0
            &&& g.current_trick.len() == 0
        },
        PhaseView::Playing { .. } => {
            &&& g.current_trick.len() < 3
            &&& held(g, 0) >= 1
            &&& held(g, 1) == held(g, 0)
            &&& held(g, 2) == held(g, 0)
        },
        PhaseView::Finished { .. } => true,
    }
}

/// A refused discard whose first card is in the declarer's hand and whose second card is
/// not there once the first has gone: the first card has then left the hand.
pub open spec fn loses_discard_card(g: GameView, player: PlayerId, action: Action) -> bool {
    match (g.phase, action) {
        (PhaseView::Discarding { declarer, .. }, Action::Discard(c1, c2)) => {
            &&& g.active_player() == Some(player)
            &&& g.hands[declarer as int].contains(c1)
            &&& !remove_card(g.hands[declarer as int], c1).contains(c2)
        },
        _ => false,
    }
}

/// Taking a card out of a hand that holds it shortens the hand by one.
pub(crate) proof fn lemma_remove_card_length(s: Seq<Card>, c: Card)
    requires
        s.contains(c),
    ensures
        remove_card(s, c).len() == s.len() - 1,
{
    reveal(first_index);
    let k = choose|k: int| 0 <= k < s.len() && s[k] == c;
    crate::seq_facts::lemma_exists_first(s, c, k);
    assert(0 <= first_index(s, c) < s.len());
}

/// A hand that is not empty has a suit to call.
proof fn lemma_suits_in_nonempty(hand: Seq<Card>)
    requires
        hand.len() > 0,
    ensures
        suits_in(hand).len() > 0,
{
    let rest = suits_in(hand.drop_last());
    if rest.contains(hand.last().suit) {
        assert(rest.len() > 0);
    }
}

/// A hand that is not empty has a card that may be played.
proof fn lemma_valid_plays_nonempty(
    hand: Seq<Card>,
    lead: Option<(Suit, Rank)>,
    trump: Option<Suit>,
    ordering: crate::model::types::RankOrdering,
)
    requires
        hand.len() > 0,
    ensures
        valid_plays_spec(hand, lead, trump, ordering).len() > 0,
{
}

/// A hand of two cards or more has a pair to discard.
proof fn lemma_discard_rows_len(hand: Seq<Card>, n: int)
    requires
        1 <= n <= hand.len(),
    ensures
        discard_rows(hand, n).len() >= hand.len() - 1,
    decreases n,
{
    if n > 1 {
        lemma_discard_rows_len(hand, n - 1);
    } else {
        assert(discard_rows(hand, 0).len() == 0);
    }
}

/// While someone is to act in a deal whose hand sizes are in step, there is an action to
/// offer.
pub proof fn lemma_actions_while_active(g: GameView)
    requires
        g.wf(),
        hands_in_step(g),
        g.active_player() is Some,
    ensures
        g.valid_actions().len() > 0,
{
    let p = g.active_player()->Some_0;
    match g.phase {
        PhaseView::CallingTrump => {
            lemma_suits_in_nonempty(first_three(g.hands[p as int]));
        },
        PhaseView::Bidding { .. } => {},
        PhaseView::TalonDecision { .. } => {},
        PhaseView::Discarding { declarer, .. } => {
            let hand = g.hands[declarer as int];
            lemma_discard_rows_len(hand, hand.len() as int);
        },
        PhaseView::Playing { game_type, .. } => {
            let c = g.current_trick.len() as int;
            assert(p as int == (g.trick_leader + c) % 3);
            assert(g.hands[p as int].len() == held(g, c));
            lemma_valid_plays_nonempty(
                g.hands[p as int],
                g.lead(),
                g.effective_trump(game_type),
                game_type.rank_ordering_spec(),
            );
        },
        PhaseView::Finished { .. } => {},
    }
}

/// A fresh deal has its hand sizes in step.
pub proof fn lemma_dealt_in_step(geber: PlayerId, order: Seq<Card>)
    requires
        geber < 3,
        order.len() == 20,
    ensures
        hands_in_step(dealt(geber, order)),
{
    let g = dealt(geber, order);
    assert(g.hands[0].len() == 6);
    assert(g.hands[1].len() == 6);
    assert(g.hands[2].len() == 6);
}

/// A finished trick leaves every seat with one card fewer than it held in play.
proof fn lemma_after_trick_in_step(g: GameView, game_type: GameType)
    requires
        g.wf(),
        g.phase is Playing,
        g.current_trick.len() == 3,
        held(g, 1) == held(g, 0),
        held(g, 2) == held(g, 0),
    ensures
        hands_in_step(g.after_trick(game_type)),
{
    let n = held(g, 0);
    assert forall|q: int| 0 <= q < 3 implies #[trigger] g.hands[q].len() == n - 1 by {
        if q == (g.trick_leader + 0) % 3 {
        } else if q == (g.trick_leader + 1) % 3 {
        } else {
            assert(q == (g.trick_leader + 2) % 3);
        }
    }
    let trump = g.effective_trump(game_type);
    let ordering = game_type.rank_ordering_spec();
    let i = choose|i: int| crate::model::types::wins_trick(g.current_trick, i, trump, ordering);
    let winner = g.current_trick[i].0;
    let sum = g.card_points[winner as int] + crate::model::types::played_points(g.current_trick);
    let points = if sum > 255 { 255u8 } else { sum as u8 };
    let h = GameView {
        card_points: g.card_points.update(winner as int, points),
        tricks_won: g.tricks_won.update(winner as int, (g.tricks_won[winner as int] + 1) as u8),
        tricks: g.tricks.push(crate::model::types::TrickView { cards: g.current_trick, winner }),
        current_trick: Seq::empty(),
        trick_leader: winner,
        ..g
    };
    assert(g.after_trick(game_type) == h.after_hand_check(game_type));
    assert(held(h, 0) == n - 1);
    assert(held(h, 1) == n - 1);
    assert(held(h, 2) == n - 1);
    if n - 1 == 0 {
        assert(forall|q: int| 0 <= q < 3 ==> #[trigger] h.hands[q].len() == 0);
    }
}

/// Playing a card in turn keeps the hand sizes in step.
proof fn lemma_after_play_in_step(g: GameView, player: PlayerId, card: Card, game_type: GameType)
    requires
        g.wf(),
        hands_in_step(g),
        g.phase is Playing,
        g.active_player() == Some(player),
    ensures
        hands_in_step(g.after_play(player, card, game_type).0),
{
    let hand = g.hands[player as int];
    let valid = valid_plays_spec(hand, g.lead(), g.effective_trump(game_type), game_type.rank_ordering_spec());
    if hand.contains(card) && valid.contains(card) {
        lemma_remove_card_length(hand, card);
        let c = g.current_trick.len() as int;
        let played = GameView {
            hands: g.hands.update(player as int, remove_card(hand, card)),
            current_trick: g.current_trick.push((player, card)),
            ..g
        };
        assert(player as int == (g.trick_leader + c) % 3);
        assert(held(played, 0) == held(g, 0));
        assert(held(played, 1) == held(g, 1));
        assert(held(played, 2) == held(g, 2));
        if played.current_trick.len() == 3 {
            assert(played.wf());
            lemma_after_trick_in_step(played, game_type);
        }
    }
}

/// Every step keeps the hand sizes of a deal in step, but for a refused discard that takes
/// the first card out of the declarer's hand.
pub proof fn lemma_step_in_step(g: GameView, player: PlayerId, action: Action)
    requires
        g.wf(),
        hands_in_step(g),
        !loses_discard_card(g, player, action),
    ensures
        hands_in_step(g.step(player, action).0),
{
    match g.active_player() {
        None => {},
        Some(active) => {
            if player == active {
                match (g.phase, action) {
                    (PhaseView::TalonDecision { declarer, .. }, Action::TakeTalon { take }) => {
                        if take {
                            let h = g.hands.update(declarer as int, g.hands[declarer as int] + g.talon);
                            assert(h[((declarer + 1) % 3) as int] == g.hands[((declarer + 1) % 3) as int]);
                            assert(h[((declarer + 2) % 3) as int] == g.hands[((declarer + 2) % 3) as int]);
                        }
                    },
                    (PhaseView::Discarding { declarer, game_type }, Action::Discard(c1, c2)) => {
                        let hand = g.hands[declarer as int];
                        if hand.contains(c1) {
                            let hand1 = remove_card(hand, c1);
                            lemma_remove_card_length(hand, c1);
                            lemma_remove_card_length(hand1, c2);
                            let r = g.after_discard(declarer, game_type, c1, c2).0;
                            assert(r.hands[declarer as int].len() == hand.len() - 2);
                            assert(r.hands[((declarer + 1) % 3) as int] == g.hands[((declarer + 1) % 3) as int]);
                            assert(r.hands[((declarer + 2) % 3) as int] == g.hands[((declarer + 2) % 3) as int]);
                            assert(held(r, 0) == hand.len() - 2);
                            assert(held(r, 1) == hand.len() - 2);
                            assert(held(r, 2) == hand.len() - 2);
                        }
                    },
                    (PhaseView::Playing { game_type, .. }, Action::PlayCard(card)) => {
                        lemma_after_play_in_step(g, player, card, game_type);
                    },
                    (PhaseView::Playing { game_type, .. }, Action::AnnounceMarriage(marriage, card)) => {
                        let g2 = GameView { marriages: g.marriages.push((player, marriage)), ..g };
                        assert(g2.active_player() == Some(player));
                        assert(held(g2, 0) == held(g, 0));
                        assert(held(g2, 1) == held(g, 1));
                        assert(held(g2, 2) == held(g, 2));
                        lemma_after_play_in_step(g2, player, card, game_type);
                    },
                    _ => {},
                }
            }
        },
    }
}

/// The cards of a trick's plays, in order.
pub open spec fn played(plays: Seq<(PlayerId, Card)>) -> Seq<Card> {
    plays.map_values(|pc: (PlayerId, Card)| pc.1)
}

/// The cards of the finished tricks.
pub open spec fn won_cards(tricks: Seq<TrickView>) -> Multiset<Card>
    decreases tricks.len(),
{
    if tricks.len() == 0 {
        Multiset::empty()
    } else {
        won_cards(tricks.drop_last()).add(played(tricks.last().cards).to_multiset())
    }
}

/// The cards in the three hands.
pub open spec fn hand_cards(hands: Seq<Seq<Card>>) -> Multiset<Card> {
    hands[0].to_multiset().add(hands[1].to_multiset()).add(hands[2].to_multiset())
}

/// Every card of a deal: the hands, the talon, the unfinished trick and the finished
/// tricks.
pub open spec fn deal_cards(g: GameView) -> Multiset<Card> {
    hand_cards(g.hands).add(g.talon.to_multiset()).add(played(g.current_trick).to_multiset()).add(
        won_cards(g.tricks),
    )
}

/// An empty sequence holds no cards.
proof fn lemma_no_cards(s: Seq<Card>)
    requires
        s.len() == 0,
    ensures
        s.to_multiset() == Multiset::<Card>::empty(),
{
    broadcast use vstd::multiset::group_multiset_axioms;
    assert forall|c: Card| s.to_multiset().count(c) == 0 by {
        vstd::seq_lib::to_multiset_contains(s, c);
    }
    assert(s.to_multiset() =~= Multiset::<Card>::empty());
}

/// Replacing one hand replaces its cards among the cards of the hands.
proof fn lemma_hand_cards_update(hands: Seq<Seq<Card>>, p: int, h: Seq<Card>)
    requires
        hands.len() == 3,
        0 <= p < 3,
    ensures
        hand_cards(hands.update(p, h)).add(hands[p].to_multiset()) == hand_cards(hands).add(h.to_multiset()),
{
    broadcast use vstd::multiset::group_multiset_axioms;
    assert(hand_cards(hands.update(p, h)).add(hands[p].to_multiset()) =~= hand_cards(hands).add(h.to_multiset()));
}

/// A card that is taken out of a hand that holds it is one copy fewer of it.
proof fn lemma_remove_card_multiset(s: Seq<Card>, c: Card)
    requires
        s.contains(c),
    ensures
        remove_card(s, c).to_multiset().insert(c) == s.to_multiset(),
{
    broadcast use vstd::multiset::group_multiset_axioms;
    reveal(first_index);
    let k = choose|k: int| 0 <= k < s.len() && s[k] == c;
    crate::seq_facts::lemma_exists_first(s, c, k);
    let i = first_index(s, c);
    assert(0 <= i < s.len() && s[i] == c);
    vstd::seq_lib::to_multiset_remove(s, i);
    vstd::seq_lib::to_multiset_contains(s, c);
    assert(s.to_multiset() =~= s.to_multiset().remove(c).insert(c));
}

/// Deciding whether the deal is over moves no card.
proof fn lemma_hand_check_keeps_cards(g: GameView, game_type: GameType)
    ensures
        deal_cards(g.after_hand_check(game_type)) == deal_cards(g),
{
}

/// Finishing a trick moves its cards to the finished tricks.
proof fn lemma_trick_keeps_cards(g: GameView, game_type: GameType)
    ensures
        deal_cards(g.after_trick(game_type)) == deal_cards(g),
{
    broadcast use vstd::multiset::group_multiset_axioms;
    let trump = g.effective_trump(game_type);
    let ordering = game_type.rank_ordering_spec();
    let i = choose|i: int| crate::model::types::wins_trick(g.current_trick, i, trump, ordering);
    let winner = g.current_trick[i].0;
    let sum = g.card_points[winner as int] + crate::model::types::played_points(g.current_trick);
    let points = if sum > 255 { 255u8 } else { sum as u8 };
    let t = TrickView { cards: g.current_trick, winner };
    let h = GameView {
        card_points: g.card_points.update(winner as int, points),
        tricks_won: g.tricks_won.update(winner as int, (g.tricks_won[winner as int] + 1) as u8),
        tricks: g.tricks.push(t),
        current_trick: Seq::empty(),
        trick_leader: winner,
        ..g
    };
    assert(g.after_trick(game_type) == h.after_hand_check(game_type));
    lemma_hand_check_keeps_cards(h, game_type);
    assert(h.tricks.drop_last() == g.tricks);
    assert(won_cards(h.tricks) == won_cards(g.tricks).add(played(g.current_trick).to_multiset()));
    lemma_no_cards(played(h.current_trick));
    assert(deal_cards(h) =~= deal_cards(g));
}

/// Playing a card moves it from the hand to the trick, and a full trick to the finished
/// tricks.
proof fn lemma_play_keeps_cards(g: GameView, player: PlayerId, card: Card, game_type: GameType)
    requires
        g.wf(),
        player < 3,
    ensures
        deal_cards(g.after_play(player, card, game_type).0) == deal_cards(g),
{
    broadcast use vstd::multiset::group_multiset_axioms;
    let hand = g.hands[player as int];
    let valid = valid_plays_spec(hand, g.lead(), g.effective_trump(game_type), game_type.rank_ordering_spec());
    if hand.contains(card) && valid.contains(card) {
        let nh = remove_card(hand, card);
        let played_g = GameView {
            hands: g.hands.update(player as int, nh),
            current_trick: g.current_trick.push((player, card)),
            ..g
        };
        lemma_remove_card_multiset(hand, card);
        lemma_hand_cards_update(g.hands, player as int, nh);
        assert(played(played_g.current_trick) =~= played(g.current_trick).push(card));
        vstd::seq_lib::to_multiset_build(played(g.current_trick), card);
        assert(deal_cards(played_g) =~= deal_cards(g));
        if played_g.current_trick.len() == 3 {
            lemma_trick_keeps_cards(played_g, game_type);
        }
    }
}

/// No step loses or makes a card, but for a refused discard that takes the first card
/// out of the declarer's hand: cards only move between the hands, the talon, the trick
/// and the finished tricks.
pub proof fn lemma_step_keeps_cards(g: GameView, player: PlayerId, action: Action)
    requires
        g.wf(),
        hands_in_step(g),
        !loses_discard_card(g, player, action),
    ensures
        deal_cards(g.step(player, action).0) == deal_cards(g),
{
    broadcast use vstd::multiset::group_multiset_axioms;
    match g.active_player() {
        None => {},
        Some(active) => {
            if player == active {
                match (g.phase, action) {
                    (PhaseView::TalonDecision { declarer, .. }, Action::TakeTalon { take }) => {
                        if take {
                            let hd = g.hands[declarer as int];
                            lemma_hand_cards_update(g.hands, declarer as int, hd + g.talon);
                            vstd::seq_lib::lemma_multiset_commutative(hd, g.talon);
                            let r = g.step(player, action).0;
                            lemma_no_cards(r.talon);
                            assert(deal_cards(r) =~= deal_cards(g));
                        }
                    },
                    (PhaseView::Discarding { declarer, game_type }, Action::Discard(c1, c2)) => {
                        let hand = g.hands[declarer as int];
                        if hand.contains(c1) {
                            let hand1 = remove_card(hand, c1);
                            let hand2 = remove_card(hand1, c2);
                            lemma_remove_card_multiset(hand, c1);
                            lemma_remove_card_multiset(hand1, c2);
                            lemma_hand_cards_update(g.hands, declarer as int, hand2);
                            let r = g.step(player, action).0;
                            assert(r.hands == g.hands.update(declarer as int, hand2));
                            lemma_no_cards(g.talon);
                            vstd::seq_lib::to_multiset_build(Seq::<Card>::empty().push(c1), c2);
                            vstd::seq_lib::to_multiset_build(Seq::<Card>::empty(), c1);
                            lemma_no_cards(Seq::<Card>::empty());
                            assert(r.talon == seq![c1, c2]);
                            assert(seq![c1, c2] == Seq::<Card>::empty().push(c1).push(c2));
                            assert(deal_cards(r) =~= deal_cards(g));
                        }
                    },
                    (PhaseView::Playing { game_type, .. }, Action::PlayCard(card)) => {
                        lemma_play_keeps_cards(g, player, card, game_type);
                    },
                    (PhaseView::Playing { game_type, .. }, Action::AnnounceMarriage(marriage, card)) => {
                        let g2 = GameView { marriages: g.marriages.push((player, marriage)), ..g };
                        assert(deal_cards(g2) == deal_cards(g));
                        lemma_play_keeps_cards(g2, player, card, game_type);
                    },
                    _ => {},
                }
            }
        },
    }
}

/// A fresh deal holds the twenty cards it was dealt from.
pub proof fn lemma_dealt_cards(geber: PlayerId, order: Seq<Card>)
    requires
        geber < 3,
        order.len() == 20,
    ensures
        deal_cards(dealt(geber, order)) == order.to_multiset(),
{
    broadcast use vstd::multiset::group_multiset_axioms;
    let g = dealt(geber, order);
    let rufer = (geber + 1) % 3;
    let third = (geber + 2) % 3;
    let parts = seq![
        order.subrange(0, 3), order.subrange(3, 6), order.subrange(6, 9), order.subrange(9, 11),
        order.subrange(11, 14), order.subrange(14, 17), order.subrange(17, 20)
    ];
    assert(order =~= parts[0] + parts[1] + parts[2] + parts[3] + parts[4] + parts[5] + parts[6]);
    vstd::seq_lib::lemma_multiset_commutative(parts[0] + parts[1] + parts[2] + parts[3] + parts[4] + parts[5], parts[6]);
    vstd::seq_lib::lemma_multiset_commutative(parts[0] + parts[1] + parts[2] + parts[3] + parts[4], parts[5]);
    vstd::seq_lib::lemma_multiset_commutative(parts[0] + parts[1] + parts[2] + parts[3], parts[4]);
    vstd::seq_lib::lemma_multiset_commutative(parts[0] + parts[1] + parts[2], parts[3]);
    vstd::seq_lib::lemma_multiset_commutative(parts[0] + parts[1], parts[2]);
    vstd::seq_lib::lemma_multiset_commutative(parts[0], parts[1]);
    vstd::seq_lib::lemma_multiset_commutative(parts[6], parts[2]);
    vstd::seq_lib::lemma_multiset_commutative(parts[5], parts[1]);
    vstd::seq_lib::lemma_multiset_commutative(parts[4], parts[0]);
    assert(g.hands[rufer as int] == parts[6] + parts[2]);
    assert(g.hands[third as int] == parts[5] + parts[1]);
    assert(g.hands[geber as int] == parts[4] + parts[0]);
    assert(g.talon == parts[3]);
    lemma_no_cards(played(g.current_trick));
    assert(hand_cards(g.hands) =~= g.hands[rufer as int].to_multiset().add(g.hands[third as int].to_multiset()).add(
        g.hands[geber as int].to_multiset(),
    ));
    assert(deal_cards(g) =~= order.to_multiset());
}

/// The deal after the given moves, taken one after the other from `g`.
pub open spec fn run(g: GameView, moves: Seq<(PlayerId, Action)>) -> GameView
    decreases moves.len(),
{
    if moves.len() == 0 {
        g
    } else {
        run(g, moves.drop_last()).step(moves.last().0, moves.last().1).0
    }
}

/// Each of the moves is accepted when it is taken.
pub open spec fn all_accepted(g: GameView, moves: Seq<(PlayerId, Action)>) -> bool {
    forall|i: int| 0 <= i < moves.len() ==> #[trigger] run(g, moves.take(i)).step(moves[i].0, moves[i].1).1
}

/// A discard that takes the first card out of the declarer's hand is refused.
proof fn lemma_losing_discard_refused(g: GameView, player: PlayerId, action: Action)
    requires
        loses_discard_card(g, player, action),
    ensures
        !g.step(player, action).1,
{
}

/// A fresh deal is well formed.
proof fn lemma_dealt_wf(geber: PlayerId, order: Seq<Card>)
    requires
        geber < 3,
        order.len() == 20,
    ensures
        dealt(geber, order).wf(),
{
}

/// The finished tricks hold three cards each, and the players' trick counts add up to
/// their number.
pub open spec fn tricks_counted(g: GameView) -> bool {
    &&& forall|i: int| 0 <= i < g.tricks.len() ==> (#[trigger] g.tricks[i]).cards.len() == 3
    &&& g.tricks_won[0] + g.tricks_won[1] + g.tricks_won[2] == g.tricks.len()
}

/// Tricks of three cards hold three cards each.
proof fn lemma_won_cards_len(tricks: Seq<TrickView>)
    requires
        forall|i: int| 0 <= i < tricks.len() ==> (#[trigger] tricks[i]).cards.len() == 3,
    ensures
        won_cards(tricks).len() == 3 * tricks.len(),
    decreases tricks.len(),
{
    broadcast use vstd::multiset::group_multiset_axioms;
    if tricks.len() > 0 {
        let rest = tricks.drop_last();
        assert forall|i: int| 0 <= i < rest.len() implies (#[trigger] rest[i]).cards.len() == 3 by {
            assert(rest[i] == tricks[i]);
        }
        lemma_won_cards_len(rest);
        assert(tricks[tricks.len() - 1] == tricks.last());
        vstd::seq_lib::to_multiset_len(played(tricks.last().cards));
    }
}

/// A deal of twenty cards has at most six finished tricks, so no trick count is near the
/// top of its range.
proof fn lemma_counts_fit(g: GameView)
    requires
        g.wf(),
        tricks_counted(g),
        deal_cards(g).len() == 20,
    ensures
        g.tricks.len() <= 6,
        g.trick_counts_fit(),
{
    broadcast use vstd::multiset::group_multiset_axioms;
    lemma_won_cards_len(g.tricks);
}

/// Deciding whether the deal is over leaves the tricks and counts alone.
proof fn lemma_hand_check_counts(g: GameView, game_type: GameType)
    ensures
        g.after_hand_check(game_type).tricks == g.tricks,
        g.after_hand_check(game_type).tricks_won == g.tricks_won,
{
}

/// Playing a card keeps the tricks counted.
proof fn lemma_play_counts(g: GameView, player: PlayerId, card: Card, game_type: GameType)
    requires
        g.wf(),
        player < 3,
        g.current_trick.len() < 3,
        tricks_counted(g),
        g.tricks.len() <= 6,
    ensures
        tricks_counted(g.after_play(player, card, game_type).0),
{
    let hand = g.hands[player as int];
    let valid = valid_plays_spec(hand, g.lead(), g.effective_trump(game_type), game_type.rank_ordering_spec());
    if hand.contains(card) && valid.contains(card) {
        let pg = GameView {
            hands: g.hands.update(player as int, remove_card(hand, card)),
            current_trick: g.current_trick.push((player, card)),
            ..g
        };
        if pg.current_trick.len() == 3 {
            assert(pg.wf());
            let trump = pg.effective_trump(game_type);
            let ordering = game_type.rank_ordering_spec();
            crate::model::types::lemma_winner_exists(pg.current_trick, 3, trump, ordering);
            let i0 = choose|i: int| crate::model::types::wins_among(pg.current_trick, 3, i, trump, ordering);
            assert(crate::model::types::wins_trick(pg.current_trick, i0, trump, ordering));
            let i = choose|i: int| crate::model::types::wins_trick(pg.current_trick, i, trump, ordering);
            let winner = pg.current_trick[i].0;
            assert(winner < 3);
            let sum = pg.card_points[winner as int] + crate::model::types::played_points(pg.current_trick);
            let points = if sum > 255 { 255u8 } else { sum as u8 };
            let h = GameView {
                card_points: pg.card_points.update(winner as int, points),
                tricks_won: pg.tricks_won.update(winner as int, (pg.tricks_won[winner as int] + 1) as u8),
                tricks: pg.tricks.push(TrickView { cards: pg.current_trick, winner }),
                current_trick: Seq::empty(),
                trick_leader: winner,
                ..pg
            };
            assert(pg.after_trick(game_type) == h.after_hand_check(game_type));
            lemma_hand_check_counts(h, game_type);
            assert(forall|i: int| 0 <= i < h.tricks.len() - 1 ==> h.tricks[i] == g.tricks[i]);
            assert(h.tricks[h.tricks.len() - 1].cards.len() == 3);
            assert(tricks_counted(h));
        }
    }
}

/// Every step keeps the tricks counted.
proof fn lemma_step_counts(g: GameView, player: PlayerId, action: Action)
    requires
        g.wf(),
        hands_in_step(g),
        tricks_counted(g),
        g.tricks.len() <= 6,
    ensures
        tricks_counted(g.step(player, action).0),
{
    match g.active_player() {
        None => {},
        Some(active) => {
            if player == active {
                match (g.phase, action) {
                    (PhaseView::Playing { game_type, .. }, Action::PlayCard(card)) => {
                        lemma_play_counts(g, player, card, game_type);
                    },
                    (PhaseView::Playing { game_type, .. }, Action::AnnounceMarriage(marriage, card)) => {
                        let g2 = GameView { marriages: g.marriages.push((player, marriage)), ..g };
                        lemma_play_counts(g2, player, card, game_type);
                        lemma_hand_check_counts(g2.after_play(player, card, game_type).0, game_type);
                    },
                    (PhaseView::Bidding { bids, passed, current_bidder }, _) => {
                        assert(forall|b: Seq<(PlayerId, GameType)>, q: Seq<PlayerId>, l: PlayerId|
                            #[trigger] g.after_bidding(b, q, l).tricks == g.tricks
                                && g.after_bidding(b, q, l).tricks_won == g.tricks_won);
                    },
                    _ => {},
                }
            }
        },
    }
}

/// What holds of every deal reached by accepted moves: it is well formed, its hand sizes
/// are in step, its tricks are counted, and it holds the cards it was dealt from.
proof fn lemma_reached_invariant(geber: PlayerId, order: Seq<Card>, moves: Seq<(PlayerId, Action)>)
    requires
        geber < 3,
        order.len() == 20,
        all_accepted(dealt(geber, order), moves),
    ensures
        run(dealt(geber, order), moves).wf(),
        hands_in_step(run(dealt(geber, order), moves)),
        tricks_counted(run(dealt(geber, order), moves)),
        deal_cards(run(dealt(geber, order), moves)) == order.to_multiset(),
    decreases moves.len(),
{
    let g0 = dealt(geber, order);
    if moves.len() == 0 {
        lemma_dealt_wf(geber, order);
        lemma_dealt_in_step(geber, order);
        lemma_dealt_cards(geber, order);
        assert(tricks_counted(g0));
    } else {
        let n = moves.len() - 1;
        let before = moves.drop_last();
        assert forall|i: int| 0 <= i < before.len() implies #[trigger] run(g0, before.take(i)).step(
            before[i].0,
            before[i].1,
        ).1 by {
            assert(before.take(i) == moves.take(i));
            assert(before[i] == moves[i]);
            assert(run(g0, moves.take(i)).step(moves[i].0, moves[i].1).1);
        }
        lemma_reached_invariant(geber, order, before);
        let g = run(g0, before);
        assert(moves.take(n) == before);
        assert(run(g0, moves.take(n)).step(moves[n].0, moves[n].1).1);
        let (p, a) = moves.last();
        assert(moves[n] == moves.last());
        if loses_discard_card(g, p, a) {
            lemma_losing_discard_refused(g, p, a);
        }
        crate::model::game::lemma_step_wf(g, p, a);
        lemma_step_in_step(g, p, a);
        lemma_step_keeps_cards(g, p, a);
        vstd::seq_lib::to_multiset_len(order);
        lemma_counts_fit(g);
        lemma_step_counts(g, p, a);
    }
}

/// Every deal reached from a fresh deal by accepted moves is well formed, has room in
/// every trick count, keeps its hand sizes in step and holds the twenty cards it was
/// dealt from, so `apply_action` may be called on it again; while someone is to act, that player is offered at least one action and
/// every offered action is accepted, and in play a card is offered exactly when playing it
/// is accepted; when nobody is to act, nothing is offered.
pub proof fn lemma_reached_deal(geber: PlayerId, order: Seq<Card>, moves: Seq<(PlayerId, Action)>)
    requires
        geber < 3,
        order.len() == 20,
        all_accepted(dealt(geber, order), moves),
    ensures
        run(dealt(geber, order), moves).wf(),
        run(dealt(geber, order), moves).trick_counts_fit(),
        hands_in_step(run(dealt(geber, order), moves)),
        deal_cards(run(dealt(geber, order), moves)) == order.to_multiset(),
        match run(dealt(geber, order), moves).active_player() {
            None => run(dealt(geber, order), moves).valid_actions().len() == 0,
            Some(p) => {
                &&& run(dealt(geber, order), moves).valid_actions().len() > 0
                &&& forall|a: Action| #[trigger] run(dealt(geber, order), moves).valid_actions().contains(a)
                    ==> run(dealt(geber, order), moves).step(p, a).1
                &&& run(dealt(geber, order), moves).phase is Playing ==> forall|c: Card|
                    #[trigger] run(dealt(geber, order), moves).valid_actions().contains(Action::PlayCard(c))
                        <==> run(dealt(geber, order), moves).step(p, Action::PlayCard(c)).1
            },
        },
{
    lemma_reached_invariant(geber, order, moves);
    let g = run(dealt(geber, order), moves);
    vstd::seq_lib::to_multiset_len(order);
    lemma_counts_fit(g);
    if let Some(p) = g.active_player() {
        lemma_actions_while_active(g);
        assert forall|a: Action| #[trigger] g.valid_actions().contains(a) implies g.step(p, a).1 by {
            lemma_offered_actions_accepted(g, a);
        }
        if g.phase is Playing {
            assert forall|c: Card| #[trigger] g.valid_actions().contains(Action::PlayCard(c))
                <== g.step(p, Action::PlayCard(c)).1 by {
                if g.step(p, Action::PlayCard(c)).1 {
                    lemma_played_card_offered(g, p, c);
                }
            }
        }
    }
}

/// In play, a card whose play is accepted is offered.
proof fn lemma_played_card_offered(g: GameView, p: PlayerId, c: Card)
    requires
        g.phase is Playing,
        g.active_player() == Some(p),
        g.step(p, Action::PlayCard(c)).1,
    ensures
        g.valid_actions().contains(Action::PlayCard(c)),
{
    let game_type = g.phase->Playing_game_type;
    let trump = g.effective_trump(game_type);
    let hand = g.hands[p as int];
    let valid = valid_plays_spec(hand, g.lead(), trump, game_type.rank_ordering_spec());
    let ms = if p == g.trick_leader && g.current_trick.len() == 0 {
        marriages_in(hand, trump, Suit::all_spec())
    } else {
        Seq::empty()
    };
    let left = marriage_actions(ms, valid);
    let right = valid.map_values(|x: Card| Action::PlayCard(x));
    assert(g.valid_actions() == left + right);
    assert(valid.contains(c));
    let k = choose|k: int| 0 <= k < valid.len() && valid[k] == c;
    assert((left + right)[left.len() + k] == Action::PlayCard(c));
}

} // verus!
