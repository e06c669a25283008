//! Move validation: all legal moves for the player to act in a round.

use vstd::prelude::*;
use crate::classic::card::{Card, Rank, Suit};
use crate::classic::game::{Bid, GameConfig, GamePhase, RoundState};
use crate::classic::game_type::{CardOrdering, GameType};
use crate::classic::moves::GameMove;
use crate::seq_facts::{lemma_filter_take_step, lemma_take_full};

verus! {

/// A rank's position counted from the highest card under an ordering.
pub open spec fn ordinal(rank: Rank, ordering: CardOrdering) -> u8 {
    match ordering {
        CardOrdering::Normal => rank.ordinal_normal_spec(),
        CardOrdering::AssLowest => rank.ordinal_ass_lowest_spec(),
        CardOrdering::ZehnerLowest => rank.ordinal_zehner_lowest_spec(),
        CardOrdering::KoenigLowest => rank.ordinal_koenig_lowest_spec(),
    }
}

fn ordinal_of(rank: Rank, ordering: CardOrdering) -> (o: u8)
    ensures
        o == ordinal(rank, ordering),
        o <= 4,
{
    match ordering {
        CardOrdering::Normal => rank.ordinal_normal(),
        CardOrdering::AssLowest => rank.ordinal_ass_lowest(),
        CardOrdering::ZehnerLowest => rank.ordinal_zehner_lowest(),
        CardOrdering::KoenigLowest => rank.ordinal_koenig_lowest(),
    }
}

/// The strength of a card in a trick: a trump of the led suit above every other trump,
/// a trump above the led suit, a card of the led suit by its rank, any other card zero.
pub open spec fn strength(card: Card, led_suit: Suit, trump: Option<Suit>, ordering: CardOrdering) -> u8 {
    let is_trump = trump == Some(card.suit);
    let is_led = card.suit == led_suit;
    let rank_ord = (5 - ordinal(card.rank, ordering)) as u8;
    if is_trump && is_led {
        (20 + rank_ord) as u8
    } else if is_trump {
        (10 + rank_ord) as u8
    } else if is_led {
        rank_ord
    } else {
        0
    }
}

fn card_strength(card: Card, led_suit: Suit, trump: Option<Suit>, ordering: CardOrdering) -> (s: u8)
    ensures
        s == strength(card, led_suit, trump, ordering),
{
    let is_trump = match trump {
        Some(t) => card.suit == t,
        None => false,
    };
    let is_led = card.suit == led_suit;
    let rank_ord = 5 - ordinal_of(card.rank, ordering);
    if is_trump && is_led {
        20 + rank_ord
    } else if is_trump {
        10 + rank_ord
    } else if is_led {
        rank_ord
    } else {
        0
    }
}

/// Whether `card` beats `other`: across suits a trump beats a non-trump and nothing else
/// wins; in one suit the card nearer the top of the ordering wins.
pub open spec fn beats_spec(card: Card, other: Card, trump: Option<Suit>, ordering: CardOrdering) -> bool {
    if card.suit != other.suit {
        match trump {
            Some(t) => card.suit == t && other.suit != t,
            None => false,
        }
    } else {
        ordinal(card.rank, ordering) < ordinal(other.rank, ordering)
    }
}

fn beats(card: Card, other: Card, led_suit: Suit, trump: Option<Suit>, ordering: CardOrdering) -> (b: bool)
    ensures
        b == beats_spec(card, other, trump, ordering),
{
    if card.suit != other.suit {
        if let Some(t) = trump {
            if card.suit == t && other.suit != t {
                return true;
            }
            if card.suit != t && other.suit == t {
                return false;
            }
        }
        return false;
    }
    let ord_c = ordinal_of(card.rank, ordering);
    let ord_o = ordinal_of(other.rank, ordering);
    ord_c < ord_o
}

/// The position of the strongest of the first `n` cards; the later one on equal strength.
pub open spec fn best_position(plays: Seq<Card>, n: int, led_suit: Suit, trump: Option<Suit>, ordering: CardOrdering) -> int
    decreases n,
{
    if n <= 1 {
        0
    } else {
        let b = best_position(plays, n - 1, led_suit, trump, ordering);
        if strength(plays[b], led_suit, trump, ordering) <= strength(plays[n - 1], led_suit, trump, ordering) {
            n - 1
        } else {
            b
        }
    }
}

proof fn lemma_best_position_range(plays: Seq<Card>, n: int, led_suit: Suit, trump: Option<Suit>, ordering: CardOrdering)
    requires
        1 <= n,
    ensures
        0 <= best_position(plays, n, led_suit, trump, ordering) < n,
    decreases n,
{
    if n > 1 {
        lemma_best_position_range(plays, n - 1, led_suit, trump, ordering);
    }
}

/// Every rank sits at one of the five places of an ordering.
proof fn lemma_ordinal_range(rank: Rank, ordering: CardOrdering)
    ensures
        ordinal(rank, ordering) <= 4,
{
}

/// In a trick a trump is stronger than any card that is not a trump, and a card of the led
/// suit stronger than any card of a third suit.
pub proof fn lemma_trump_strongest(a: Card, b: Card, led_suit: Suit, trump: Option<Suit>, ordering: CardOrdering)
    requires
        trump == Some(a.suit),
        b.suit != a.suit,
    ensures
        strength(a, led_suit, trump, ordering) > strength(b, led_suit, trump, ordering),
{
    lemma_ordinal_range(a.rank, ordering);
    lemma_ordinal_range(b.rank, ordering);
}

/// The best of the first `n` cards is at least as strong as each of them.
proof fn lemma_best_position_strongest(plays: Seq<Card>, n: int, led_suit: Suit, trump: Option<Suit>, ordering: CardOrdering)
    requires
        1 <= n <= plays.len(),
    ensures
        0 <= best_position(plays, n, led_suit, trump, ordering) < n,
        forall|j: int| 0 <= j < n ==> strength(#[trigger] plays[j], led_suit, trump, ordering) <= strength(
            plays[best_position(plays, n, led_suit, trump, ordering)],
            led_suit,
            trump,
            ordering,
        ),
    decreases n,
{
    lemma_best_position_range(plays, n, led_suit, trump, ordering);
    if n > 1 {
        lemma_best_position_strongest(plays, n - 1, led_suit, trump, ordering);
    }
}

/// The best card of a trick led with a card of `led_suit` is beaten by no card of the
/// trick: in particular a trump in the trick is the best over every card of the led suit.
pub proof fn lemma_best_card_unbeaten(plays: Seq<Card>, led_suit: Suit, trump: Option<Suit>, ordering: CardOrdering)
    requires
        plays.len() > 0,
        plays[0].suit == led_suit,
    ensures
        plays.contains(best_card(plays, led_suit, trump, ordering)),
        forall|j: int| 0 <= j < plays.len() ==> !beats_spec(
            #[trigger] plays[j],
            best_card(plays, led_suit, trump, ordering),
            trump,
            ordering,
        ),
{
    let n = plays.len() as int;
    lemma_best_position_strongest(plays, n, led_suit, trump, ordering);
    let b = best_position(plays, n, led_suit, trump, ordering);
    let best = plays[b];
    assert(plays.contains(best));
    assert(strength(plays[0], led_suit, trump, ordering) <= strength(best, led_suit, trump, ordering));
    lemma_ordinal_range(plays[0].rank, ordering);
    lemma_ordinal_range(best.rank, ordering);
    assert forall|j: int| 0 <= j < plays.len() implies !beats_spec(#[trigger] plays[j], best, trump, ordering) by {
        lemma_ordinal_range(plays[j].rank, ordering);
        assert(strength(plays[j], led_suit, trump, ordering) <= strength(best, led_suit, trump, ordering));
    }
}

/// The strongest card played so far.
pub open spec fn best_card(plays: Seq<Card>, led_suit: Suit, trump: Option<Suit>, ordering: CardOrdering) -> Card {
    plays[best_position(plays, plays.len() as int, led_suit, trump, ordering)]
}

fn best_in_trick(plays: &[Card], led_suit: Suit, trump: Option<Suit>, ordering: CardOrdering) -> (c: Card)
    requires
        plays@.len() > 0,
    ensures
        c == best_card(plays@, led_suit, trump, ordering),
{
    let mut best: usize = 0;
    let mut i: usize = 1;
    while i < plays.len()
        invariant
            1 <= i <= plays@.len(),
            best as int == best_position(plays@, i as int, led_suit, trump, ordering),
            best < i,
        decreases plays@.len() - i,
    {
        if card_strength(plays[best], led_suit, trump, ordering) <= card_strength(plays[i], led_suit, trump, ordering) {
            best = i;
        }
        i = i + 1;
    }
    plays[best]
}

/// The cards of one suit.
pub open spec fn of_suit(suit: Suit) -> spec_fn(Card) -> bool {
    |c: Card| c.suit == suit
}

/// The cards that beat `best`.
pub open spec fn beating(best: Card, trump: Option<Suit>, ordering: CardOrdering) -> spec_fn(Card) -> bool {
    |c: Card| beats_spec(c, best, trump, ordering)
}

/// Each card as a play.
pub open spec fn as_plays(cards: Seq<Card>) -> Seq<GameMove> {
    cards.map_values(|c: Card| GameMove::PlayCard(c))
}

/// The ordering of the declared game type, the normal one before a game type is declared.
pub open spec fn round_ordering(round: RoundState) -> CardOrdering {
    match round.game_type {
        Some(gt) => gt.info_spec().card_ordering,
        None => CardOrdering::Normal,
    }
}

/// The cards the player to act may play: any card when leading; following, a card of the
/// led suit that beats the best card so far, else any of the led suit; without the led
/// suit, a trump that beats the best card, else any trump; else any card.
pub open spec fn playable_cards(round: RoundState) -> Seq<Card> {
    let hand = round.hands@[round.next_to_play as int]@;
    let trick = round.current_trick@;
    let ordering = round_ordering(round);
    let trump = round.trump;
    if hand.len() == 0 {
        Seq::empty()
    } else if trick.len() == 0 {
        hand
    } else {
        let lead = trick[0].1.suit;
        let led_cards = trick.map_values(|pc: (u8, Card)| pc.1);
        let same = hand.filter(of_suit(lead));
        if same.len() > 0 {
            let best = best_card(led_cards, lead, trump, ordering);
            let winners = same.filter(beating(best, trump, ordering));
            if winners.len() > 0 {
                winners
            } else {
                same
            }
        } else {
            match trump {
                Some(t) => {
                    let trumps = hand.filter(of_suit(t));
                    if trumps.len() > 0 {
                        let best = best_card(led_cards, lead, Some(t), ordering);
                        let winners = trumps.filter(beating(best, Some(t), ordering));
                        if winners.len() > 0 {
                            winners
                        } else {
                            trumps
                        }
                    } else {
                        hand
                    }
                },
                None => hand,
            }
        }
    }
}

/// The highest base points among the bids so far.
pub open spec fn max_bid(bids: Seq<Bid>) -> Option<u8>
    decreases bids.len(),
{
    if bids.len() == 0 {
        None
    } else {
        let p = bids.last().game_type.info_spec().points;
        match max_bid(bids.drop_last()) {
            None => Some(p),
            Some(m) => Some(if p > m {
                p
            } else {
                m
            }),
        }
    }
}

/// Whether the player to act may declare `gt`: not the Normal game; the Rufer's games only
/// for the Rufer, the opponents' games only for an opponent; and only above every bid so
/// far.
pub open spec fn may_declare(round: RoundState, gt: GameType) -> bool {
    let info = gt.info_spec();
    let player = round.next_to_play;
    &&& gt != GameType::NormalesSpiel
    &&& !(info.rufer_only && player != round.rufer)
    &&& !(info.opponents_only && player == round.rufer)
    &&& match max_bid(round.bids@) {
        Some(m) => info.points > m,
        None => true,
    }
}

/// The moves while bidding: passing, then each game type the player may declare, by value.
pub open spec fn bid_moves(round: RoundState) -> Seq<GameMove> {
    seq![GameMove::Pass] + GameType::all_standard_spec().filter(|gt: GameType| may_declare(round, gt)).map_values(
        |gt: GameType| GameMove::DeclareGame(gt),
    )
}

/// The moves of the player to act: a trump call for the Rufer, the bids, or the playable
/// cards; nothing in the other phases.
pub open spec fn valid_moves_spec(round: RoundState) -> Seq<GameMove> {
    match round.phase {
        GamePhase::TrumpCalling => if round.next_to_play != round.rufer {
            Seq::empty()
        } else {
            seq![
                GameMove::CallTrump(Suit::Hearts),
                GameMove::CallTrump(Suit::Diamonds),
                GameMove::CallTrump(Suit::Spades),
                GameMove::CallTrump(Suit::Clubs),
            ]
        },
        GamePhase::Bidding => bid_moves(round),
        GamePhase::Playing => as_plays(playable_cards(round)),
        _ => Seq::empty(),
    }
}

/// Returns all valid moves for the current player in the given round state.
pub fn valid_moves(round: &RoundState) -> (moves: Vec<GameMove>)
    requires
        round.phase == GamePhase::Playing ==> round.next_to_play < 3,
    ensures
        moves@ == valid_moves_spec(*round),
{
    match &round.phase {
        GamePhase::TrumpCalling => valid_trump_calls(round),
        GamePhase::Bidding => valid_bids(round),
        GamePhase::Playing => valid_plays(round),
        _ => Vec::new(),
    }
}

fn valid_trump_calls(round: &RoundState) -> (moves: Vec<GameMove>)
    ensures
        moves@ == (if round.next_to_play != round.rufer {
            Seq::empty()
        } else {
            seq![
                GameMove::CallTrump(Suit::Hearts),
                GameMove::CallTrump(Suit::Diamonds),
                GameMove::CallTrump(Suit::Spades),
                GameMove::CallTrump(Suit::Clubs),
            ]
        }),
{
    let player = round.next_to_play;
    if player != round.rufer {
        return Vec::new();
    }
    let suits = Suit::all();
    let mut moves: Vec<GameMove> = Vec::new();
    let mut i: usize = 0;
    while i < 4
        invariant
            i <= 4,
            suits@ == seq![Suit::Hearts, Suit::Diamonds, Suit::Spades, Suit::Clubs],
            moves@ == suits@.take(i as int).map_values(|s: Suit| GameMove::CallTrump(s)),
        decreases 4 - i,
    {
        moves.push(GameMove::CallTrump(suits[i]));
        assert(suits@.take(i + 1).map_values(|s: Suit| GameMove::CallTrump(s)) =~= suits@.take(i as int).map_values(
            |s: Suit| GameMove::CallTrump(s),
        ).push(GameMove::CallTrump(suits@[i as int])));
        i = i + 1;
    }
    assert(moves@ =~= seq![
        GameMove::CallTrump(Suit::Hearts),
        GameMove::CallTrump(Suit::Diamonds),
        GameMove::CallTrump(Suit::Spades),
        GameMove::CallTrump(Suit::Clubs),
    ]);
    moves
}

fn highest_bid(bids: &Vec<Bid>) -> (m: Option<u8>)
    ensures
        m == max_bid(bids@),
{
    let mut best: Option<u8> = None;
    let mut i: usize = 0;
    while i < bids.len()
        invariant
            i <= bids@.len(),
            best == max_bid(bids@.take(i as int)),
        decreases bids@.len() - i,
    {
        assert(bids@.take(i + 1).drop_last() =~= bids@.take(i as int));
        let p = bids[i].game_type.base_points();
        best = match best {
            None => Some(p),
            Some(m) => Some(if p > m {
                p
            } else {
                m
            }),
        };
        i = i + 1;
    }
    assert(bids@.take(bids@.len() as int) =~= bids@);
    best
}

fn valid_bids(round: &RoundState) -> (moves: Vec<GameMove>)
    ensures
        moves@ == bid_moves(*round),
{
    let mut moves: Vec<GameMove> = Vec::new();
    moves.push(GameMove::Pass);
    let player = round.next_to_play;
    let config = GameConfig::default();
    let all = GameType::all_standard();
    let max_bid_points = highest_bid(&round.bids);
    let ghost pred = |gt: GameType| may_declare(*round, gt);
    let mut i: usize = 0;
    while i < all.len()
        invariant
            i <= all@.len(),
            all@ == GameType::all_standard_spec(),
            player == round.next_to_play,
            max_bid_points == max_bid(round.bids@),
            config.allow_bettler && config.allow_gang_variants,
            pred == (|gt: GameType| may_declare(*round, gt)),
            moves@ == seq![GameMove::Pass] + all@.take(i as int).filter(pred).map_values(
                |gt: GameType| GameMove::DeclareGame(gt),
            ),
        decreases all@.len() - i,
    {
        let gt = all[i];
        proof {
            lemma_filter_take_step(all@, i as int, pred);
        }
        let info = gt.info();
        let allowed = if gt == GameType::NormalesSpiel {
            false
        } else if info.rufer_only && player != round.rufer {
            false
        } else if info.opponents_only && player == round.rufer {
            false
        } else if !config.allow_bettler && (gt == GameType::Bettler || gt == GameType::Assenbettler || gt
            == GameType::AssBettler) {
            false
        } else if !config.allow_gang_variants && (gt == GameType::Zehnergang || gt == GameType::Koenigsgang
            || gt == GameType::Damengang) {
            false
        } else {
            match max_bid_points {
                Some(max) => gt.base_points() > max,
                None => true,
            }
        };
        assert(allowed == pred(gt));
        if allowed {
            moves.push(GameMove::DeclareGame(gt));
        }
        assert(all@.take(i as int + 1).filter(pred).map_values(|gt: GameType| GameMove::DeclareGame(gt))
            =~= if pred(gt) {
            all@.take(i as int).filter(pred).map_values(|gt: GameType| GameMove::DeclareGame(gt)).push(
                GameMove::DeclareGame(gt),
            )
        } else {
            all@.take(i as int).filter(pred).map_values(|gt: GameType| GameMove::DeclareGame(gt))
        });
        i = i + 1;
    }
    proof {
        lemma_take_full(all@);
    }
    moves
}

fn filter_of_suit(cards: &[Card], suit: Suit) -> (r: Vec<Card>)
    ensures
        r@ == cards@.filter(of_suit(suit)),
{
    let mut r: Vec<Card> = Vec::new();
    let mut i: usize = 0;
    while i < cards.len()
        invariant
            i <= cards@.len(),
            r@ == cards@.take(i as int).filter(of_suit(suit)),
        decreases cards@.len() - i,
    {
        proof {
            lemma_filter_take_step(cards@, i as int, of_suit(suit));
        }
        if cards[i].suit == suit {
            r.push(cards[i]);
        }
        i = i + 1;
    }
    proof {
        lemma_take_full(cards@);
    }
    r
}

fn filter_beating(cards: &[Card], best: Card, led_suit: Suit, trump: Option<Suit>, ordering: CardOrdering) -> (r: Vec<Card>)
    ensures
        r@ == cards@.filter(beating(best, trump, ordering)),
{
    let mut r: Vec<Card> = Vec::new();
    let mut i: usize = 0;
    while i < cards.len()
        invariant
            i <= cards@.len(),
            r@ == cards@.take(i as int).filter(beating(best, trump, ordering)),
        decreases cards@.len() - i,
    {
        proof {
            lemma_filter_take_step(cards@, i as int, beating(best, trump, ordering));
        }
        if beats(cards[i], best, led_suit, trump, ordering) {
            r.push(cards[i]);
        }
        i = i + 1;
    }
    proof {
        lemma_take_full(cards@);
    }
    r
}

fn to_plays(cards: &[Card]) -> (moves: Vec<GameMove>)
    ensures
        moves@ == as_plays(cards@),
{
    let mut moves: Vec<GameMove> = Vec::new();
    let mut i: usize = 0;
    while i < cards.len()
        invariant
            i <= cards@.len(),
            moves@ == as_plays(cards@.take(i as int)),
        decreases cards@.len() - i,
    {
        moves.push(GameMove::PlayCard(cards[i]));
        assert(as_plays(cards@.take(i + 1)) =~= as_plays(cards@.take(i as int)).push(GameMove::PlayCard(cards@[i as int])));
        i = i + 1;
    }
    assert(cards@.take(cards@.len() as int) =~= cards@);
    moves
}

fn led_card_list(round: &RoundState) -> (cards: Vec<Card>)
    ensures
        cards@ == round.current_trick@.map_values(|pc: (u8, Card)| pc.1),
{
    let plays = round.current_trick.plays();
    let mut cards: Vec<Card> = Vec::new();
    let mut i: usize = 0;
    while i < plays.len()
        invariant
            i <= plays@.len(),
            plays@ == round.current_trick@,
            cards@ == plays@.take(i as int).map_values(|pc: (u8, Card)| pc.1),
        decreases plays@.len() - i,
    {
        cards.push(plays[i].1);
        assert(plays@.take(i + 1).map_values(|pc: (u8, Card)| pc.1) =~= plays@.take(i as int).map_values(
            |pc: (u8, Card)| pc.1,
        ).push(plays@[i as int].1));
        i = i + 1;
    }
    assert(plays@.take(plays@.len() as int) =~= plays@);
    cards
}

fn valid_plays(round: &RoundState) -> (moves: Vec<GameMove>)
    requires
        round.next_to_play < 3,
    ensures
        moves@ == as_plays(playable_cards(*round)),
{
    let player = round.next_to_play;
    let hand = &round.hands[player as usize];
    let trick = &round.current_trick;
    if hand.is_empty() {
        return Vec::new();
    }
    let cards = hand.cards();
    if trick.len() == 0 {
        return to_plays(cards);
    }
    let ordering = match round.game_type {
        Some(gt) => gt.info().card_ordering,
        None => CardOrdering::Normal,
    };
    let trump = round.trump;
    let lead_suit = match trick.lead_suit() {
        Some(s) => s,
        None => {
            return Vec::new();
        },
    };
    let same_suit = filter_of_suit(cards, lead_suit);
    if same_suit.len() > 0 {
        let led_cards = led_card_list(round);
        let best_led = best_in_trick(led_cards.as_slice(), lead_suit, trump, ordering);
        let winners = filter_beating(same_suit.as_slice(), best_led, lead_suit, trump, ordering);
        if winners.len() > 0 {
            return to_plays(winners.as_slice());
        } else {
            return to_plays(same_suit.as_slice());
        }
    }
    if let Some(t) = trump {
        let trump_cards = filter_of_suit(cards, t);
        if trump_cards.len() > 0 {
            let led_cards = led_card_list(round);
            let best_led = best_in_trick(led_cards.as_slice(), lead_suit, Some(t), ordering);
            let winners = filter_beating(trump_cards.as_slice(), best_led, lead_suit, Some(t), ordering);
            if winners.len() > 0 {
                return to_plays(winners.as_slice());
            } else {
                return to_plays(trump_cards.as_slice());
            }
        }
    }
    to_plays(cards)
}

/// The player to act with cards in hand always has a playable card, and every playable
/// card is in the hand.
pub proof fn lemma_playable_cards_nonempty(round: RoundState)
    requires
        round.next_to_play < 3,
        round.hands@[round.next_to_play as int]@.len() > 0,
    ensures
        playable_cards(round).len() > 0,
        forall|i: int|
            0 <= i < playable_cards(round).len() ==> round.hands@[round.next_to_play as int]@.contains(
                #[trigger] playable_cards(round)[i],
            ),
{
    let hand = round.hands@[round.next_to_play as int]@;
    let trick = round.current_trick@;
    assert forall|i: int| 0 <= i < hand.len() implies hand.contains(#[trigger] hand[i]) by {}
    if trick.len() > 0 {
        let lead = trick[0].1.suit;
        let ordering = round_ordering(round);
        let led_cards = trick.map_values(|pc: (u8, Card)| pc.1);
        let same = hand.filter(of_suit(lead));
        crate::seq_facts::lemma_filter_members(hand, of_suit(lead));
        crate::seq_facts::lemma_filter_members(same, beating(best_card(led_cards, lead, round.trump, ordering), round.trump, ordering));
        if let Some(t) = round.trump {
            let trumps = hand.filter(of_suit(t));
            crate::seq_facts::lemma_filter_members(hand, of_suit(t));
            crate::seq_facts::lemma_filter_members(trumps, beating(best_card(led_cards, lead, Some(t), ordering), Some(t), ordering));
        }
    }
}

} // verus!
