use vstd::prelude::*;
use crate::model::card::{Card, Suit};
use crate::model::types::{RankOrdering, of_suit, of_suit_above, cards_of_suit, cards_of_suit_above, holds_marriage};
use crate::model::player::{Hand, PlayerId};
use crate::model::state::{DealState, Phase, Trick};
use crate::model::game_type::{DoublingLevel, GameType};
use crate::seq_facts::{lemma_filter_members};

verus! {

/// The highest strength among the played cards of a suit, or 0 when there is none.
pub open spec fn best_strength_of_suit(cards: Seq<(PlayerId, Card)>, suit: Suit, ordering: RankOrdering) -> nat
    decreases cards.len(),
{
    if cards.len() == 0 {
        0
    } else {
        let rest = best_strength_of_suit(cards.drop_last(), suit, ordering);
        let c = cards.last().1;
        if c.suit == suit && ordering.strength_spec(c.rank) > rest {
            ordering.strength_spec(c.rank)
        } else {
            rest
        }
    }
}

/// Whether a card of `suit` lies in the trick.
pub open spec fn suit_in_trick(trick: Seq<(PlayerId, Card)>, suit: Suit) -> bool {
    exists|i: int| 0 <= i < trick.len() && (#[trigger] trick[i]).1.suit == suit
}

/// The cards a follower may play (Farb- und Stichzwang): a card of the led suit stronger
/// than every card of that suit in the trick if there is one, else any card of the led
/// suit; with none of the led suit, a trump (when trump is not the led suit): one stronger
/// than every trump in the trick if the trick holds a trump and the hand such a card, else
/// any trump; else any card.
pub open spec fn follow_cards_spec(hand: Seq<Card>, trick: Seq<(PlayerId, Card)>, lead_suit: Option<Suit>, trump: Option<Suit>, ordering: RankOrdering) -> Seq<Card> {
    match lead_suit {
        None => hand,
        Some(lead) => {
            let same = hand.filter(of_suit(lead));
            if same.len() > 0 {
                let higher = hand.filter(of_suit_above(lead, ordering, best_strength_of_suit(trick, lead, ordering)));
                if higher.len() > 0 {
                    higher
                } else {
                    same
                }
            } else {
                match trump {
                    Some(t) => if t != lead && hand.filter(of_suit(t)).len() > 0 {
                        let higher = hand.filter(of_suit_above(t, ordering, best_strength_of_suit(trick, t, ordering)));
                        if suit_in_trick(trick, t) && higher.len() > 0 {
                            higher
                        } else {
                            hand.filter(of_suit(t))
                        }
                    } else {
                        hand
                    },
                    None => hand,
                }
            }
        },
    }
}

/// The cards a player may play in the current deal.
pub open spec fn valid_cards_spec(deal: DealState, player: PlayerId) -> Seq<Card> {
    let hand = deal.players@[player.index_spec() as int].hand@;
    match deal.phase {
        Phase::Playing(ps) => if ps.current_trick.cards@.len() == 0 {
            match ps.pending_marriage_play {
                Some(suit) => hand.filter(of_suit(suit)),
                None => hand,
            }
        } else {
            follow_cards_spec(
                hand,
                ps.current_trick.cards@,
                ps.current_trick.lead_suit,
                deal.effective_trump_spec(),
                deal.rank_ordering_spec(),
            )
        },
        _ => Seq::empty(),
    }
}

/// Returns the list of cards that a player is legally allowed to play in the current trick.
pub fn valid_cards(deal: &DealState, player: PlayerId) -> (cards: Vec<Card>)
    ensures
        cards@ == valid_cards_spec(*deal, player),
        forall|i: int| 0 <= i < cards@.len() ==> deal.players@[player.index_spec() as int].hand@.contains(#[trigger] cards@[i]),
{
    let hand = &deal.player(player).hand;
    proof {
        crate::model::player::lemma_seat_numbers(player, player);
    }
    let playing = match &deal.phase {
        Phase::Playing(ps) => ps,
        _ => {
            return Vec::new();
        },
    };
    let trick = &playing.current_trick;
    let trump = deal.effective_trump();
    let ordering = deal.rank_ordering();
    if trick.is_empty() {
        if let Some(suit) = playing.pending_marriage_play {
            proof {
                lemma_filter_members(hand@, of_suit(suit));
            }
            return cards_of_suit(hand.cards(), suit);
        }
        let r = vstd::slice::slice_to_vec(hand.cards());
        proof {
            assert forall|i: int| 0 <= i < r@.len() implies hand@.contains(#[trigger] r@[i]) by {
                assert(hand@[i] == r@[i]);
            }
        }
        return r;
    }
    legal_follow_cards(hand, trick, trump, &ordering)
}

/// Determine which cards a player may play when following in a trick.
fn legal_follow_cards(hand: &Hand, trick: &Trick, trump: Option<Suit>, ordering: &RankOrdering) -> (cards: Vec<Card>)
    ensures
        cards@ == follow_cards_spec(hand@, trick.cards@, trick.lead_suit, trump, *ordering),
        forall|i: int| 0 <= i < cards@.len() ==> hand@.contains(#[trigger] cards@[i]),
{
    let lead_suit = match trick.lead_suit {
        Some(s) => s,
        None => {
            let r = vstd::slice::slice_to_vec(hand.cards());
            proof {
                assert forall|i: int| 0 <= i < r@.len() implies hand@.contains(#[trigger] r@[i]) by {
                    assert(hand@[i] == r@[i]);
                }
            }
            return r;
        },
    };
    let cards_in_hand = hand.cards();
    let same_suit = cards_of_suit(cards_in_hand, lead_suit);
    proof {
        lemma_filter_members(hand@, of_suit(lead_suit));
    }
    if same_suit.len() > 0 {
        let current_best = trick_best_of_suit(trick, lead_suit, ordering);
        let higher = cards_of_suit_above(cards_in_hand, lead_suit, *ordering, current_best);
        proof {
            lemma_filter_members(hand@, of_suit_above(lead_suit, *ordering, current_best as nat));
        }
        if higher.len() > 0 {
            return higher;
        }
        return same_suit;
    }
    if let Some(trump_suit) = trump {
        if trump_suit != lead_suit {
            let trump_cards = cards_of_suit(cards_in_hand, trump_suit);
            proof {
                lemma_filter_members(hand@, of_suit(trump_suit));
            }
            if trump_cards.len() > 0 {
                if !trick_holds_suit(trick, trump_suit) {
                    return trump_cards;
                }
                let current_trump_best = trick_best_of_suit(trick, trump_suit, ordering);
                let higher_trump = cards_of_suit_above(cards_in_hand, trump_suit, *ordering, current_trump_best);
                proof {
                    lemma_filter_members(hand@, of_suit_above(trump_suit, *ordering, current_trump_best as nat));
                }
                if higher_trump.len() > 0 {
                    return higher_trump;
                }
                return trump_cards;
            }
        }
    }
    let r = vstd::slice::slice_to_vec(cards_in_hand);
    proof {
        assert forall|i: int| 0 <= i < r@.len() implies hand@.contains(#[trigger] r@[i]) by {
            assert(hand@[i] == r@[i]);
        }
    }
    r
}

fn trick_holds_suit(trick: &Trick, suit: Suit) -> (b: bool)
    ensures
        b == suit_in_trick(trick.cards@, suit),
{
    let mut i: usize = 0;
    while i < trick.cards.len()
        invariant
            i <= trick.cards@.len(),
            forall|j: int| 0 <= j < i ==> trick.cards@[j].1.suit != suit,
        decreases trick.cards@.len() - i,
    {
        if trick.cards[i].1.suit == suit {
            return true;
        }
        i = i + 1;
    }
    false
}

/// Find the highest strength of a given suit played in the current trick.
fn trick_best_of_suit(trick: &Trick, suit: Suit, ordering: &RankOrdering) -> (best: u8)
    ensures
        best == best_strength_of_suit(trick.cards@, suit, *ordering),
{
    let mut best: u8 = 0;
    let mut i: usize = 0;
    while i < trick.cards.len()
        invariant
            i <= trick.cards@.len(),
            best == best_strength_of_suit(trick.cards@.take(i as int), suit, *ordering),
        decreases trick.cards@.len() - i,
    {
        assert(trick.cards@.take(i + 1).drop_last() =~= trick.cards@.take(i as int));
        let c = trick.cards[i].1;
        if c.suit == suit {
            let s = ordering.strength(c.rank);
            if s > best {
                best = s;
            }
        }
        i = i + 1;
    }
    assert(trick.cards@.take(trick.cards@.len() as int) =~= trick.cards@);
    best
}

/// A marriage may be announced by the player who leads an empty trick, holding King and
/// Queen of the suit, in a Normal game, Schnapser or Kontraschnapser.
pub open spec fn can_announce_marriage_spec(deal: DealState, player: PlayerId, suit: Suit) -> bool {
    &&& deal.phase matches Phase::Playing(ps) && ps.current_trick.cards@.len() == 0 && ps.lead_player == player
    &&& holds_marriage(deal.players@[player.index_spec() as int].hand@, suit)
    &&& deal.game_type matches Some(gt) && (gt == GameType::Normal || gt == GameType::Schnapser
        || gt == GameType::Kontraschnapser)
}

/// Check if a marriage announcement is valid for the given player and suit.
pub fn can_announce_marriage(deal: &DealState, player: PlayerId, suit: Suit) -> (b: bool)
    ensures
        b == can_announce_marriage_spec(*deal, player, suit),
{
    match &deal.phase {
        Phase::Playing(ps) => {
            if !ps.current_trick.is_empty() {
                return false;
            }
            if ps.lead_player != player {
                return false;
            }
        },
        _ => {
            return false;
        },
    }
    let hand = &deal.player(player).hand;
    if !hand.has_marriage(suit) {
        return false;
    }
    let game_type = match deal.game_type {
        Some(gt) => gt,
        None => {
            return false;
        },
    };
    match game_type {
        GameType::Normal | GameType::Schnapser | GameType::Kontraschnapser => true,
        _ => false,
    }
}

/// Spritzen alternates: a defender doubles first, the announcer answers with Retour, a
/// defender with the last raise; nobody raises twice in a row, and the chain ends after
/// the third raise.
pub open spec fn can_spritzen_spec(deal: DealState, player: PlayerId) -> bool {
    let is_announcer = deal.announcer == Some(player);
    &&& deal.doubling != DoublingLevel::NochmalZurueckgespritzt
    &&& deal.last_doubler != Some(player)
    &&& match deal.doubling {
        DoublingLevel::Undoubled => !is_announcer,
        DoublingLevel::Gespritzt => is_announcer,
        DoublingLevel::Zurueckgespritzt => !is_announcer,
        DoublingLevel::NochmalZurueckgespritzt => false,
    }
}

/// Check if Spritzen is valid for the given player.
pub fn can_spritzen(deal: &DealState, player: PlayerId) -> (b: bool)
    ensures
        b == can_spritzen_spec(*deal, player),
{
    if !deal.doubling.can_raise() {
        return false;
    }
    if deal.last_doubler == Some(player) {
        return false;
    }
    let is_announcer = deal.is_announcer(player);
    match deal.doubling {
        DoublingLevel::Undoubled => !is_announcer,
        DoublingLevel::Gespritzt => is_announcer,
        DoublingLevel::Zurueckgespritzt => !is_announcer,
        DoublingLevel::NochmalZurueckgespritzt => false,
    }
}

/// A suit that is not in the trick has best strength 0.
proof fn lemma_best_zero(cards: Seq<(PlayerId, Card)>, suit: Suit, ordering: RankOrdering)
    requires
        !suit_in_trick(cards, suit),
    ensures
        best_strength_of_suit(cards, suit, ordering) == 0,
    decreases cards.len(),
{
    if cards.len() > 0 {
        let rest = cards.drop_last();
        assert(!suit_in_trick(rest, suit)) by {
            if suit_in_trick(rest, suit) {
                let i = choose|i: int| 0 <= i < rest.len() && (#[trigger] rest[i]).1.suit == suit;
                assert(cards[i] == rest[i]);
            }
        }
        lemma_best_zero(rest, suit, ordering);
        assert(cards[cards.len() - 1] == cards.last());
    }
}

/// The best strength of a suit in the trick is at least that of each of its cards of the
/// suit, and, when the trick holds the suit, that of one of them.
proof fn lemma_best_strength(cards: Seq<(PlayerId, Card)>, suit: Suit, ordering: RankOrdering)
    ensures
        forall|k: int| 0 <= k < cards.len() && (#[trigger] cards[k]).1.suit == suit ==> ordering.strength_spec(
            cards[k].1.rank,
        ) <= best_strength_of_suit(cards, suit, ordering),
        suit_in_trick(cards, suit) ==> exists|k: int|
            0 <= k < cards.len() && (#[trigger] cards[k]).1.suit == suit && ordering.strength_spec(cards[k].1.rank)
                == best_strength_of_suit(cards, suit, ordering),
    decreases cards.len(),
{
    if cards.len() > 0 {
        let rest = cards.drop_last();
        lemma_best_strength(rest, suit, ordering);
        assert forall|k: int| 0 <= k < cards.len() && (#[trigger] cards[k]).1.suit == suit implies ordering.strength_spec(
            cards[k].1.rank,
        ) <= best_strength_of_suit(cards, suit, ordering) by {
            if k < rest.len() {
                assert(rest[k] == cards[k]);
            }
        }
        if suit_in_trick(cards, suit) {
            let last = cards.len() - 1;
            if cards[last].1.suit == suit && ordering.strength_spec(cards[last].1.rank) > best_strength_of_suit(rest, suit, ordering) {
            } else if suit_in_trick(rest, suit) {
                let k = choose|k: int|
                    0 <= k < rest.len() && (#[trigger] rest[k]).1.suit == suit && ordering.strength_spec(rest[k].1.rank)
                        == best_strength_of_suit(rest, suit, ordering);
                assert(cards[k] == rest[k]);
            } else {
                let i = choose|i: int| 0 <= i < cards.len() && (#[trigger] cards[i]).1.suit == suit;
                if i < rest.len() {
                    assert(rest[i] == cards[i]);
                }
                assert(cards[last].1.suit == suit);
                lemma_best_zero(rest, suit, ordering);
            }
        }
    }
}

/// The rules for a follower, over all hands and tricks, when `lead` was led: one who holds
/// the led suit plays that suit (Farbzwang), and a card of it stronger than every card of
/// the suit in the trick when there is one (Stichzwang); one without the led suit, when a
/// trump lies in the trick and the hand holds a trump stronger than every trump in the
/// trick, plays such a trump (Trumpf- und Stichzwang).
pub proof fn lemma_follow_rules(
    hand: Seq<Card>,
    trick: Seq<(PlayerId, Card)>,
    lead: Suit,
    trump: Option<Suit>,
    ordering: RankOrdering,
)
    ensures
        (exists|h: int| 0 <= h < hand.len() && (#[trigger] hand[h]).suit == lead) ==> forall|c: Card|
            #[trigger] follow_cards_spec(hand, trick, Some(lead), trump, ordering).contains(c) ==> c.suit == lead,
        (exists|h: int|
            0 <= h < hand.len() && (#[trigger] hand[h]).suit == lead && forall|k: int|
                0 <= k < trick.len() && (#[trigger] trick[k]).1.suit == lead ==> ordering.strength_spec(hand[h].rank)
                    > ordering.strength_spec(trick[k].1.rank)) ==> forall|c: Card| #[trigger] follow_cards_spec(
            hand,
            trick,
            Some(lead),
            trump,
            ordering,
        ).contains(c) ==> c.suit == lead && forall|k: int|
            0 <= k < trick.len() && (#[trigger] trick[k]).1.suit == lead ==> ordering.strength_spec(c.rank)
                > ordering.strength_spec(trick[k].1.rank),
        trump is Some && trump->Some_0 != lead && (forall|h: int| 0 <= h < hand.len() ==> (#[trigger] hand[h]).suit != lead)
            && suit_in_trick(trick, trump->Some_0) && (exists|h: int|
            0 <= h < hand.len() && (#[trigger] hand[h]).suit == trump->Some_0 && forall|k: int|
                0 <= k < trick.len() && (#[trigger] trick[k]).1.suit == trump->Some_0 ==> ordering.strength_spec(
                    hand[h].rank,
                ) > ordering.strength_spec(trick[k].1.rank)) ==> forall|c: Card| #[trigger] follow_cards_spec(
            hand,
            trick,
            Some(lead),
            trump,
            ordering,
        ).contains(c) ==> c.suit == trump->Some_0 && forall|k: int|
            0 <= k < trick.len() && (#[trigger] trick[k]).1.suit == trump->Some_0 ==> ordering.strength_spec(c.rank)
                > ordering.strength_spec(trick[k].1.rank),
{
    let v = follow_cards_spec(hand, trick, Some(lead), trump, ordering);
    lemma_best_strength(trick, lead, ordering);
    let bl = best_strength_of_suit(trick, lead, ordering);
    lemma_filter_members(hand, of_suit(lead));
    lemma_filter_members(hand, of_suit_above(lead, ordering, bl));
    crate::seq_facts::lemma_filter_empty(hand, of_suit(lead));
    crate::seq_facts::lemma_filter_empty(hand, of_suit_above(lead, ordering, bl));
    if exists|h: int|
        0 <= h < hand.len() && (#[trigger] hand[h]).suit == lead && forall|k: int|
            0 <= k < trick.len() && (#[trigger] trick[k]).1.suit == lead ==> ordering.strength_spec(hand[h].rank)
                > ordering.strength_spec(trick[k].1.rank) {
        let h = choose|h: int|
            0 <= h < hand.len() && (#[trigger] hand[h]).suit == lead && forall|k: int|
                0 <= k < trick.len() && (#[trigger] trick[k]).1.suit == lead ==> ordering.strength_spec(hand[h].rank)
                    > ordering.strength_spec(trick[k].1.rank);
        assert(of_suit(lead)(hand[h]));
        if suit_in_trick(trick, lead) {
            let k = choose|k: int|
                0 <= k < trick.len() && (#[trigger] trick[k]).1.suit == lead && ordering.strength_spec(trick[k].1.rank)
                    == bl;
            assert(ordering.strength_spec(hand[h].rank) > bl);
            assert(of_suit_above(lead, ordering, bl)(hand[h]));
        }
        assert forall|c: Card| #[trigger] v.contains(c) implies c.suit == lead && forall|k: int|
            0 <= k < trick.len() && (#[trigger] trick[k]).1.suit == lead ==> ordering.strength_spec(c.rank)
                > ordering.strength_spec(trick[k].1.rank) by {
            let i = choose|i: int| 0 <= i < v.len() && v[i] == c;
            if !suit_in_trick(trick, lead) {
                assert forall|k: int| 0 <= k < trick.len() implies (#[trigger] trick[k]).1.suit != lead by {
                    if trick[k].1.suit == lead {
                        assert(suit_in_trick(trick, lead));
                    }
                }
            }
        }
    }
    if let Some(t) = trump {
        lemma_best_strength(trick, t, ordering);
        let bt = best_strength_of_suit(trick, t, ordering);
        lemma_filter_members(hand, of_suit(t));
        lemma_filter_members(hand, of_suit_above(t, ordering, bt));
        crate::seq_facts::lemma_filter_empty(hand, of_suit(t));
        crate::seq_facts::lemma_filter_empty(hand, of_suit_above(t, ordering, bt));
        if t != lead && (forall|h: int| 0 <= h < hand.len() ==> (#[trigger] hand[h]).suit != lead)
            && suit_in_trick(trick, t) && (exists|h: int|
            0 <= h < hand.len() && (#[trigger] hand[h]).suit == t && forall|k: int|
                0 <= k < trick.len() && (#[trigger] trick[k]).1.suit == t ==> ordering.strength_spec(hand[h].rank)
                    > ordering.strength_spec(trick[k].1.rank)) {
            let h = choose|h: int|
                0 <= h < hand.len() && (#[trigger] hand[h]).suit == t && forall|k: int|
                    0 <= k < trick.len() && (#[trigger] trick[k]).1.suit == t ==> ordering.strength_spec(hand[h].rank)
                        > ordering.strength_spec(trick[k].1.rank);
            let k = choose|k: int|
                0 <= k < trick.len() && (#[trigger] trick[k]).1.suit == t && ordering.strength_spec(trick[k].1.rank) == bt;
            assert(of_suit_above(t, ordering, bt)(hand[h]));
            assert(of_suit(t)(hand[h]));
            assert forall|c: Card| #[trigger] v.contains(c) implies c.suit == t && forall|k: int|
                0 <= k < trick.len() && (#[trigger] trick[k]).1.suit == t ==> ordering.strength_spec(c.rank)
                    > ordering.strength_spec(trick[k].1.rank) by {
                let i = choose|i: int| 0 <= i < v.len() && v[i] == c;
            }
        }
    }
    if exists|h: int| 0 <= h < hand.len() && (#[trigger] hand[h]).suit == lead {
        let h = choose|h: int| 0 <= h < hand.len() && (#[trigger] hand[h]).suit == lead;
        assert(of_suit(lead)(hand[h]));
        assert forall|c: Card| #[trigger] v.contains(c) implies c.suit == lead by {
            let i = choose|i: int| 0 <= i < v.len() && v[i] == c;
        }
    }
}

/// Whoever holds a card can follow: the cards a follower may play are never none while
/// the hand has cards, and they come from the hand.
pub proof fn lemma_follow_cards_nonempty(
    hand: Seq<Card>,
    trick: Seq<(PlayerId, Card)>,
    lead_suit: Option<Suit>,
    trump: Option<Suit>,
    ordering: RankOrdering,
)
    requires
        hand.len() > 0,
    ensures
        follow_cards_spec(hand, trick, lead_suit, trump, ordering).len() > 0,
        forall|i: int|
            0 <= i < follow_cards_spec(hand, trick, lead_suit, trump, ordering).len() ==> hand.contains(
                #[trigger] follow_cards_spec(hand, trick, lead_suit, trump, ordering)[i],
            ),
{
    assert forall|i: int| 0 <= i < hand.len() implies hand.contains(#[trigger] hand[i]) by {}
    if let Some(lead) = lead_suit {
        lemma_filter_members(hand, of_suit(lead));
        lemma_filter_members(hand, of_suit_above(lead, ordering, best_strength_of_suit(trick, lead, ordering)));
        if let Some(t) = trump {
            lemma_filter_members(hand, of_suit(t));
            lemma_filter_members(hand, of_suit_above(t, ordering, best_strength_of_suit(trick, t, ordering)));
        }
    }
}

/// During play a player with cards always has a valid card, unless a marriage was just
/// announced and the hand holds no card of its suit.
pub proof fn lemma_valid_cards_nonempty(deal: DealState, player: PlayerId)
    requires
        deal.phase is Playing,
        deal.players@[player.index_spec() as int].hand@.len() > 0,
        deal.phase->Playing_0.current_trick.cards@.len() == 0 ==> deal.phase->Playing_0.pending_marriage_play is None,
    ensures
        valid_cards_spec(deal, player).len() > 0,
{
    let ps = deal.phase->Playing_0;
    if ps.current_trick.cards@.len() > 0 {
        lemma_follow_cards_nonempty(
            deal.players@[player.index_spec() as int].hand@,
            ps.current_trick.cards@,
            ps.current_trick.lead_suit,
            deal.effective_trump_spec(),
            deal.rank_ordering_spec(),
        );
    }
}

} // verus!
