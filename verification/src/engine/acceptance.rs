//! The moves a random selector makes are accepted, the seat whose turn it is can always be
//! asked to move, and the facts that this rests on hold from the deal onwards.

use vstd::prelude::*;
use crate::model::action::Action;
use crate::model::card::{Card, Rank};
use crate::model::player::PlayerId;
use crate::model::state::{DealState, Phase};
use crate::model::types::{holds_marriage, of_suit, of_suit_above, remove_card};
use crate::engine::engine::{
    current_player_spec, dealt_deal, hand_of, placed, scored, selection_possible, step_rel,
    trick_full, round_over, finish_rel, next_seat,
};
use crate::engine::random::random_choice_allowed;
use crate::engine::validator::{lemma_valid_cards_nonempty, valid_cards_spec, best_strength_of_suit};
use crate::seq_facts::lemma_filter_members;

verus! {

/// The facts about a deal that its moves rely on: at the talon and in play there is an
/// announcer and a game type; in play the trick holds fewer than three cards, its led suit
/// is known once a card lies in it, and a marriage that is owed a card is held by the
/// leader of a trick that has no card yet; fewer than five tricks are done.
pub open spec fn deal_consistent(d: DealState) -> bool {
    match d.phase {
        Phase::TalonExchange => d.announcer is Some && d.game_type is Some,
        Phase::Playing(ps) => {
            &&& d.announcer is Some
            &&& d.game_type is Some
            &&& ps.current_trick.cards@.len() < 3
            &&& ps.tricks_completed < 5
            &&& ps.current_trick.cards@.len() > 0 ==> ps.current_trick.lead_suit is Some
            &&& ps.pending_marriage_play matches Some(s) ==> ps.current_trick.cards@.len() == 0
                && holds_marriage(hand_of(d, ps.lead_player), s)
        },
        _ => true,
    }
}

/// A fresh deal is consistent.
pub proof fn lemma_dealt_consistent(d: DealState, dealer: PlayerId, order: Seq<Card>)
    requires
        dealt_deal(d, dealer, order),
    ensures
        deal_consistent(d),
{
}

/// Once a card that may be played joins a consistent trick, the trick is either still
/// open or it has a winner.
proof fn lemma_placed_resolvable(d: DealState, mid: DealState, player: PlayerId, card: Card)
    requires
        deal_consistent(d),
        placed(d, mid, player, card),
    ensures
        mid.announcer == d.announcer,
        mid.game_type == d.game_type,
        mid.phase matches Phase::Playing(nps) && nps.current_trick.lead_suit is Some
            && nps.pending_marriage_play is None
            && nps.current_trick.cards@.len() <= 3 && nps.tricks_completed < 5,
        !trick_full(mid) ==> deal_consistent(mid),
        trick_full(mid) ==> mid.phase->Playing_0.current_trick.winner_spec(
            mid.effective_trump_spec(),
            mid.rank_ordering_spec(),
        ) is Some,
{
    let ps = d.phase->Playing_0;
    let nps = mid.phase->Playing_0;
    assert(nps.current_trick.cards@.len() == ps.current_trick.cards@.len() + 1);
}

/// A full trick of a consistent deal is scored, and the deal goes on consistent or is
/// finished; resolving it is never refused.
proof fn lemma_resolve_consistent(
    mid: DealState,
    s: [u32; 3],
    nd: DealState,
    ns: [u32; 3],
    ok: bool,
)
    requires
        mid.announcer is Some,
        mid.game_type is Some,
        mid.phase matches Phase::Playing(nps) && nps.pending_marriage_play is None
            && nps.tricks_completed < 5,
        trick_full(mid),
        mid.phase->Playing_0.current_trick.winner_spec(mid.effective_trump_spec(), mid.rank_ordering_spec()) is Some,
        crate::engine::engine::resolve_rel(mid, s, nd, ns, ok),
    ensures
        ok,
        deal_consistent(nd),
{
    let ps = mid.phase->Playing_0;
    let w = ps.current_trick.winner_spec(mid.effective_trump_spec(), mid.rank_ordering_spec())->Some_0;
    let mid2 = choose|mid2: DealState|
        #[trigger] scored(mid, mid2, w) && if round_over(mid2) {
            finish_rel(mid2, s, nd, ns, ok)
        } else {
            ok && nd == mid2 && ns == s
        };
    assert(scored(mid, mid2, w));
    assert(mid2.announcer == mid.announcer);
    if !round_over(mid2) {
        let nps = mid2.phase->Playing_0;
        assert(ps.tricks_completed + 1 < 5);
        assert(nps.current_trick.cards@.len() == 0);
    }
}

/// Every step keeps a deal consistent.
pub proof fn lemma_step_consistent(
    d: DealState,
    s: [u32; 3],
    nd: DealState,
    ns: [u32; 3],
    player: PlayerId,
    action: Action,
    ok: bool,
)
    requires
        deal_consistent(d),
        step_rel(d, s, nd, ns, player, action, ok),
    ensures
        deal_consistent(nd),
{
    match (d.phase, action) {
        (Phase::Playing(ps), Action::PlayCard(card)) => {
            if current_player_spec(Some(d)) == Some(player) && valid_cards_spec(d, player).contains(card) {
                let mid = choose|mid: DealState|
                    #[trigger] placed(d, mid, player, card) && if trick_full(mid) {
                        crate::engine::engine::resolve_rel(mid, s, nd, ns, ok)
                    } else {
                        ok && nd == mid && ns == s
                    };
                lemma_placed_resolvable(d, mid, player, card);
                if trick_full(mid) {
                    lemma_resolve_consistent(mid, s, nd, ns, ok);
                }
            }
        },
        (Phase::Playing(ps), Action::AnnounceMarriage(suit)) => {
            if ok {
                assert(hand_of(nd, ps.lead_player) == hand_of(d, ps.lead_player));
            }
        },
        (Phase::TalonExchange, Action::TakeTalon) => {
            if d.talon is Some {
                assert(nd.announcer == d.announcer);
            }
        },
        _ => {},
    }
}

/// A random selector's move in a consistent deal, by the seat whose turn it is, is
/// accepted: it passes while bidding, calls a suit of the hand, takes the talon or discards
/// two cards of the hand, and plays a card that may be played.
pub proof fn lemma_random_choice_accepted(
    d: DealState,
    s: [u32; 3],
    nd: DealState,
    ns: [u32; 3],
    player: PlayerId,
    action: Action,
    ok: bool,
)
    requires
        deal_consistent(d),
        current_player_spec(Some(d)) == Some(player),
        selection_possible(d, player),
        random_choice_allowed(d, player, action),
        step_rel(d, s, nd, ns, player, action, ok),
    ensures
        ok,
{
    let h = hand_of(d, player);
    match d.phase {
        Phase::TalonExchange => {
            if h.len() != 6 {
                crate::model::progress::lemma_second_card_stays(h, 0, 1);
                assert(h.contains(h[0]));
            }
        },
        Phase::Playing(ps) => {
            let v = valid_cards_spec(d, player);
            match ps.pending_marriage_play {
                Some(suit) => {
                    if ps.current_trick.cards@.len() == 0 {
                        lemma_filter_members(h, of_suit(suit));
                        let k = choose|k: int| 0 <= k < h.len() && h[k] == (Card { suit, rank: Rank::King });
                        assert(h.filter(of_suit(suit)).contains(h[k]));
                    } else {
                        lemma_valid_cards_nonempty(d, player);
                    }
                },
                None => {
                    lemma_valid_cards_nonempty(d, player);
                },
            }
            assert(v.len() > 0);
            let card = action->PlayCard_0;
            let mid = choose|mid: DealState|
                #[trigger] placed(d, mid, player, card) && if trick_full(mid) {
                    crate::engine::engine::resolve_rel(mid, s, nd, ns, ok)
                } else {
                    ok && nd == mid && ns == s
                };
            lemma_placed_resolvable(d, mid, player, card);
            if trick_full(mid) {
                lemma_resolve_consistent(mid, s, nd, ns, ok);
            }
        },
        _ => {},
    }
}

/// The seat `t` places after `l` in clockwise order, for `t` from 0 to 2.
pub open spec fn seat_after(l: PlayerId, t: int) -> PlayerId {
    if t == 0 {
        l
    } else if t == 1 {
        next_seat(l)
    } else {
        next_seat(next_seat(l))
    }
}

/// In play, the cards the seat `t` places after the trick leader holds, counting the card
/// it has put into the current trick.
pub open spec fn held_in_play(d: DealState, t: int) -> int {
    let ps = d.phase->Playing_0;
    hand_of(d, seat_after(ps.lead_player, t)).len() + (if t < ps.current_trick.cards@.len() {
        1int
    } else {
        0int
    })
}

/// The hand sizes of a deal: six cards each before the talon exchange, with the talon
/// still there; at the talon the announcer holds six cards with the talon, or eight after
/// taking it, and the others six; in play the trick's cards come from the seats in turn
/// from its leader, and every seat holds, counting its card in the trick, six cards less
/// one for each finished trick.
pub open spec fn hands_level(d: DealState) -> bool {
    match d.phase {
        Phase::CallingTrump | Phase::Bidding(_) => {
            &&& forall|p: PlayerId| #[trigger] hand_of(d, p).len() == 6
            &&& d.talon is Some
        },
        Phase::TalonExchange => {
            let a = d.announcer->Some_0;
            &&& forall|p: PlayerId| p != a ==> #[trigger] hand_of(d, p).len() == 6
            &&& hand_of(d, a).len() == if d.talon is Some {
                6nat
            } else {
                8nat
            }
        },
        Phase::Playing(ps) => {
            let c = ps.current_trick.cards@.len();
            &&& c > 0 ==> ps.current_trick.cards@[0].0 == ps.lead_player
            &&& c > 1 ==> ps.current_trick.cards@[1].0 == next_seat(ps.lead_player)
            &&& held_in_play(d, 0) + ps.tricks_completed == 6
            &&& held_in_play(d, 1) == held_in_play(d, 0)
            &&& held_in_play(d, 2) == held_in_play(d, 0)
        },
        Phase::Finished(_) => true,
    }
}

/// An accepted move that unsettles the hand sizes: a discard by the announcer whose first
/// card is in the hand while the talon has not been taken, or whose second card is not in
/// the hand once the first has gone (the first card then leaves the hand although the
/// discard is refused).
pub open spec fn upsets_hands(d: DealState, player: PlayerId, action: Action) -> bool {
    match (d.phase, action) {
        (Phase::TalonExchange, Action::DiscardToTalon(c1, c2)) => {
            &&& d.announcer == Some(player)
            &&& hand_of(d, player).contains(c1)
            &&& (d.talon is Some || !remove_card(hand_of(d, player), c1).contains(c2))
        },
        _ => false,
    }
}

/// A card that may be played is in the hand.
proof fn lemma_valid_in_hand(d: DealState, player: PlayerId, card: Card)
    requires
        d.phase is Playing,
        valid_cards_spec(d, player).contains(card),
    ensures
        hand_of(d, player).contains(card),
{
    let ps = d.phase->Playing_0;
    let hand = hand_of(d, player);
    let trick = ps.current_trick.cards@;
    let ordering = d.rank_ordering_spec();
    let v = valid_cards_spec(d, player);
    let k = choose|k: int| 0 <= k < v.len() && v[k] == card;
    if let Some(suit) = ps.pending_marriage_play {
        lemma_filter_members(hand, of_suit(suit));
    }
    if let Some(lead) = ps.current_trick.lead_suit {
        lemma_filter_members(hand, of_suit(lead));
        lemma_filter_members(hand, of_suit_above(lead, ordering, best_strength_of_suit(trick, lead, ordering)));
    }
    if let Some(t) = d.effective_trump_spec() {
        lemma_filter_members(hand, of_suit(t));
        lemma_filter_members(hand, of_suit_above(t, ordering, best_strength_of_suit(trick, t, ordering)));
    }
    assert(hand.contains(v[k]));
}

/// The three seats in turn from any seat are all the seats.
proof fn lemma_seats_in_turn(l: PlayerId, p: PlayerId)
    ensures
        p == seat_after(l, 0) || p == seat_after(l, 1) || p == seat_after(l, 2),
        seat_after(l, 0) != seat_after(l, 1),
        seat_after(l, 0) != seat_after(l, 2),
        seat_after(l, 1) != seat_after(l, 2),
        next_seat(seat_after(l, 2)) == l,
{
}

/// A fresh deal has six cards in every hand and the talon aside.
pub proof fn lemma_dealt_hands_level(d: DealState, dealer: PlayerId, order: Seq<Card>)
    requires
        dealt_deal(d, dealer, order),
        order.len() == 20,
    ensures
        hands_level(d),
{
    assert forall|p: PlayerId| #[trigger] hand_of(d, p).len() == 6 by {
        lemma_seats_in_turn(dealer, p);
    }
}

/// In a consistent deal with level hands, the seat whose turn it is can be asked to move:
/// at the talon it holds two cards to discard, in play a card to play.
pub proof fn lemma_selection_possible(d: DealState, player: PlayerId)
    requires
        deal_consistent(d),
        hands_level(d),
        current_player_spec(Some(d)) == Some(player),
    ensures
        selection_possible(d, player),
{
    if let Phase::Playing(ps) = d.phase {
        let c = ps.current_trick.cards@.len();
        if c == 0 {
            assert(player == seat_after(ps.lead_player, 0));
        } else if c == 1 {
            assert(player == seat_after(ps.lead_player, 1));
        } else {
            assert(ps.current_trick.cards@.last() == ps.current_trick.cards@[1]);
            assert(player == seat_after(ps.lead_player, 2));
        }
    }
}

/// A random selector's move, by the seat whose turn it is, never unsettles the hand
/// sizes: it takes the talon while it is there and discards two cards of its eight.
pub proof fn lemma_random_choice_keeps_hands(d: DealState, player: PlayerId, action: Action)
    requires
        deal_consistent(d),
        hands_level(d),
        current_player_spec(Some(d)) == Some(player),
        random_choice_allowed(d, player, action),
    ensures
        !upsets_hands(d, player, action),
{
    if d.phase is TalonExchange {
        let h = hand_of(d, player);
        if h.len() != 6 {
            crate::model::progress::lemma_second_card_stays(h, 0, 1);
        }
    }
}

/// Playing a card in turn keeps the hand sizes level.
proof fn lemma_play_in_turn_level(
    d: DealState,
    s: [u32; 3],
    nd: DealState,
    ns: [u32; 3],
    player: PlayerId,
    card: Card,
    ok: bool,
)
    requires
        deal_consistent(d),
        hands_level(d),
        d.phase is Playing,
        current_player_spec(Some(d)) == Some(player),
        crate::engine::engine::play_card_rel(d, s, nd, ns, player, card, ok),
    ensures
        hands_level(nd),
{
    let ps = d.phase->Playing_0;
    let l = ps.lead_player;
    let c = ps.current_trick.cards@.len();
    if valid_cards_spec(d, player).contains(card) {
        let mid = choose|mid: DealState|
            #[trigger] placed(d, mid, player, card) && if trick_full(mid) {
                crate::engine::engine::resolve_rel(mid, s, nd, ns, ok)
            } else {
                ok && nd == mid && ns == s
            };
        lemma_placed_resolvable(d, mid, player, card);
        let hand = hand_of(d, player);
        lemma_valid_in_hand(d, player, card);
        crate::model::progress::lemma_remove_card_length(hand, card);
        let nps = mid.phase->Playing_0;
        assert(nps.lead_player == l);
        assert(nps.tricks_completed == ps.tricks_completed);
        if c == 0 {
            assert(player == seat_after(l, 0));
        } else if c == 1 {
            assert(player == seat_after(l, 1));
        } else {
            assert(ps.current_trick.cards@.last() == ps.current_trick.cards@[1]);
            assert(player == seat_after(l, 2));
        }
        lemma_seats_in_turn(l, player);
        assert forall|p: PlayerId| p != player implies #[trigger] hand_of(mid, p) == hand_of(d, p) by {
            crate::model::player::lemma_seat_numbers(p, player);
        }
        assert(held_in_play(mid, 0) == held_in_play(d, 0));
        assert(held_in_play(mid, 1) == held_in_play(d, 1));
        assert(held_in_play(mid, 2) == held_in_play(d, 2));
        if trick_full(mid) {
            let n = held_in_play(d, 0);
            assert forall|p: PlayerId| #[trigger] hand_of(mid, p).len() == n - 1 by {
                lemma_seats_in_turn(l, p);
            }
            let w = nps.current_trick.winner_spec(mid.effective_trump_spec(), mid.rank_ordering_spec())->Some_0;
            let mid2 = choose|mid2: DealState|
                #[trigger] scored(mid, mid2, w) && if round_over(mid2) {
                    finish_rel(mid2, s, nd, ns, ok)
                } else {
                    ok && nd == mid2 && ns == s
                };
            assert(scored(mid, mid2, w));
            assert(mid2.players == mid.players);
            if !round_over(mid2) {
                assert(nd == mid2);
                let nps2 = mid2.phase->Playing_0;
                assert(nps2.current_trick.cards@.len() == 0);
                assert(hand_of(mid2, seat_after(nps2.lead_player, 0)).len() == n - 1);
                assert(hand_of(mid2, seat_after(nps2.lead_player, 1)).len() == n - 1);
                assert(hand_of(mid2, seat_after(nps2.lead_player, 2)).len() == n - 1);
            }
        } else {
            assert(nd == mid);
            if c == 0 {
                assert(nps.current_trick.cards@[0] == (player, card));
            } else {
                assert(nps.current_trick.cards@[0] == ps.current_trick.cards@[0]);
                assert(nps.current_trick.cards@[1] == (player, card));
            }
        }
    }
}

/// Two deals with the same seats have the same hands.
proof fn lemma_same_hands(d: DealState, nd: DealState)
    requires
        nd.players == d.players,
    ensures
        forall|p: PlayerId| #[trigger] hand_of(nd, p) == hand_of(d, p),
{
}

/// Every step that does not unsettle the hand sizes keeps them level.
pub proof fn lemma_step_hands_level(
    d: DealState,
    s: [u32; 3],
    nd: DealState,
    ns: [u32; 3],
    player: PlayerId,
    action: Action,
    ok: bool,
)
    requires
        deal_consistent(d),
        hands_level(d),
        !upsets_hands(d, player, action),
        step_rel(d, s, nd, ns, player, action, ok),
    ensures
        hands_level(nd),
{
    match (d.phase, action) {
        (Phase::CallingTrump, Action::CallTrump(_)) => {
            lemma_same_hands(d, nd);
        },
        (Phase::Bidding(_), Action::AnnounceGame(a)) => {
            lemma_same_hands(d, nd);
            assert(nd.talon == d.talon);
            if ok && a.without_talon {
                let nps = nd.phase->Playing_0;
                let l = nps.lead_player;
                assert(hand_of(nd, seat_after(l, 0)).len() == 6);
                assert(hand_of(nd, seat_after(l, 1)).len() == 6);
                assert(hand_of(nd, seat_after(l, 2)).len() == 6);
            }
        },
        (Phase::Bidding(bs), Action::Pass) => {
            lemma_same_hands(d, nd);
            assert(nd.talon == d.talon);
        },
        (Phase::TalonExchange, Action::TakeTalon) => {
            let a = d.announcer->Some_0;
            if player == a {
                if let Some(t) = d.talon {
                    let after = DealState { talon: d.talon, ..nd };
                    assert(after.players == nd.players);
                    assert forall|p: PlayerId| p != a implies #[trigger] hand_of(nd, p).len() == 6 by {
                        crate::model::player::lemma_seat_numbers(p, a);
                        assert(after.players@[p.index_spec() as int] == d.players@[p.index_spec() as int]);
                        assert(hand_of(d, p).len() == 6);
                    }
                }
            }
        },
        (Phase::TalonExchange, Action::DiscardToTalon(c1, c2)) => {
            let a = d.announcer->Some_0;
            let h = hand_of(d, a);
            if player == a && h.contains(c1) && remove_card(h, c1).contains(c2) {
                crate::model::progress::lemma_remove_card_length(h, c1);
                crate::model::progress::lemma_remove_card_length(remove_card(h, c1), c2);
                let after = DealState { discarded: d.discarded, phase: d.phase, ..nd };
                assert(after.players == nd.players);
                assert forall|p: PlayerId| #[trigger] hand_of(nd, p).len() == 6 by {
                    crate::model::player::lemma_seat_numbers(p, a);
                    if p != a {
                        assert(after.players@[p.index_spec() as int] == d.players@[p.index_spec() as int]);
                        assert(hand_of(d, p).len() == 6);
                    }
                }
                let nps = nd.phase->Playing_0;
                let l = nps.lead_player;
                assert(hand_of(nd, seat_after(l, 0)).len() == 6);
                assert(hand_of(nd, seat_after(l, 1)).len() == 6);
                assert(hand_of(nd, seat_after(l, 2)).len() == 6);
            }
        },
        (Phase::Playing(ps), Action::PlayCard(card)) => {
            if current_player_spec(Some(d)) == Some(player) && valid_cards_spec(d, player).contains(card) {
                lemma_play_in_turn_level(d, s, nd, ns, player, card, ok);
            }
        },
        (Phase::Playing(ps), Action::AnnounceMarriage(suit)) => {
            if ok {
                lemma_same_hands(d, nd);
                assert(held_in_play(nd, 0) == held_in_play(d, 0));
                assert(held_in_play(nd, 1) == held_in_play(d, 1));
                assert(held_in_play(nd, 2) == held_in_play(d, 2));
            }
        },
        (Phase::Playing(ps), Action::Spritzen) => {
            if ok {
                lemma_same_hands(d, nd);
                assert(held_in_play(nd, 0) == held_in_play(d, 0));
                assert(held_in_play(nd, 1) == held_in_play(d, 1));
                assert(held_in_play(nd, 2) == held_in_play(d, 2));
            }
        },
        _ => {},
    }
}

} // verus!
