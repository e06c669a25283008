//! Playing a round of the variant model: legal cards, card play with trick resolution, a
//! demo deal, a random move engine and the summary of a finished round.

use vstd::prelude::*;
use vstd::string::StringExecFns;
use vstd::multiset::Multiset;
use crate::seq_facts::{
    lemma_filter_take_step, lemma_take_full, lemma_filter_members, first_position, without_first,
    lemma_first_position,
};
use crate::variants::{
    Card, CurrentTrick, GameMove, GamePhase, GameState, GameVariant, PlayedCard, PlayerId,
    ResolvedTrick, Ruleset, Suit, TrumpSelection, RankOrder, highest_card_in_suit, highest_of_suit,
    schnapsen_deck, deck_spec, trick_winner, trick_winner_spec, lemma_trick_winner_strongest,
    player_points, PLAYER_COUNT,
};
use rand::rngs::StdRng;

verus! {

#[derive(Debug, Clone, PartialEq, Eq, Structural)]
pub enum EngineError {
    NotInPlayingPhase,
    NotPlayersTurn { expected: PlayerId, got: PlayerId },
    UnsupportedMove,
    CardNotInHand(Card),
    IllegalCardPlay(Card),
    TrickResolutionFailed,
}

impl EngineError {
    /// The text of the error.
    pub open spec fn message_spec(&self) -> Seq<char> {
        match self {
            EngineError::NotInPlayingPhase => "game is not in playing phase"@,
            EngineError::NotPlayersTurn { expected, got } => "expected player "@ + expected.label_spec() + ", got "@
                + got.label_spec(),
            EngineError::UnsupportedMove => "move type not supported by simple engine"@,
            EngineError::CardNotInHand(card) => "card "@ + card.label_spec() + " is not in player's hand"@,
            EngineError::IllegalCardPlay(card) => "card "@ + card.label_spec() + " is not legal right now"@,
            EngineError::TrickResolutionFailed => "failed to resolve trick winner"@,
        }
    }

    /// The message of the error.
    pub fn message(&self) -> (m: String)
        ensures
            m@ == self.message_spec(),
    {
        match self {
            EngineError::NotInPlayingPhase => String::from_str("game is not in playing phase"),
            EngineError::NotPlayersTurn { expected, got } => {
                let s = String::from_str("expected player ").concat(expected.label().as_str());
                s.concat(", got ").concat(got.label().as_str())
            },
            EngineError::UnsupportedMove => String::from_str("move type not supported by simple engine"),
            EngineError::CardNotInHand(card) => {
                String::from_str("card ").concat(card.label().as_str()).concat(" is not in player's hand")
            },
            EngineError::IllegalCardPlay(card) => {
                String::from_str("card ").concat(card.label().as_str()).concat(" is not legal right now")
            },
            EngineError::TrickResolutionFailed => String::from_str("failed to resolve trick winner"),
        }
    }
}

/// The cards of one suit.
pub open spec fn of_suit(suit: Suit) -> spec_fn(Card) -> bool {
    |c: Card| c.suit == suit
}

/// The cards stronger than `strength` under `order`.
pub open spec fn stronger_than(order: RankOrder, strength: u8) -> spec_fn(Card) -> bool {
    |c: Card| c.rank.strength_spec(order) > strength
}

/// The played cards of a trick, without the seats.
pub open spec fn played_cards(cards: Seq<PlayedCard>) -> Seq<Card> {
    cards.map_values(|pc: PlayedCard| pc.1)
}

/// The hand of a seat.
pub open spec fn hand_of(state: GameState, p: PlayerId) -> Seq<Card> {
    state.players@[p.index_spec() as int].hand@
}

/// The cards the active player may play: any card when leading; when following, a card of
/// the led suit stronger than the best card of that suit in the trick, else any of the led
/// suit; without the led suit a trump, else any card. Nobody else may play, and nothing
/// outside the playing phase.
pub open spec fn legal_cards_spec(state: GameState, player: PlayerId) -> Seq<Card> {
    let hand = hand_of(state, player);
    let trick = state.current_trick.cards@;
    if state.phase != GamePhase::Playing || state.active_player != player || hand.len() == 0 {
        Seq::empty()
    } else if trick.len() == 0 {
        hand
    } else {
        let lead = trick[0].1.suit;
        let order = state.variant.rank_order_spec();
        let same = hand.filter(of_suit(lead));
        if same.len() > 0 {
            let played = played_cards(trick);
            let top = highest_of_suit(played, lead, order, played.len() as int)->Some_0;
            let stronger = same.filter(stronger_than(order, top.rank.strength_spec(order)));
            if stronger.len() == 0 {
                same
            } else {
                stronger
            }
        } else {
            match state.trump {
                Some(t) => if hand.filter(of_suit(t)).len() > 0 {
                    hand.filter(of_suit(t))
                } else {
                    hand
                },
                None => hand,
            }
        }
    }
}

/// A legal card is in the player's hand.
pub proof fn lemma_legal_cards_in_hand(state: GameState, player: PlayerId)
    ensures
        forall|i: int| 0 <= i < legal_cards_spec(state, player).len() ==> hand_of(state, player).contains(
            #[trigger] legal_cards_spec(state, player)[i],
        ),
{
    let hand = hand_of(state, player);
    let trick = state.current_trick.cards@;
    if state.phase != GamePhase::Playing || state.active_player != player || hand.len() == 0 {
    } else if trick.len() == 0 {
        assert forall|i: int| 0 <= i < hand.len() implies hand.contains(#[trigger] hand[i]) by {}
    } else {
        let lead = trick[0].1.suit;
        let order = state.variant.rank_order_spec();
        let same = hand.filter(of_suit(lead));
        lemma_filter_members(hand, of_suit(lead));
        if same.len() > 0 {
            let played = played_cards(trick);
            let top = highest_of_suit(played, lead, order, played.len() as int)->Some_0;
            lemma_filter_members(same, stronger_than(order, top.rank.strength_spec(order)));
        } else {
            match state.trump {
                Some(t) => {
                    lemma_filter_members(hand, of_suit(t));
                    assert forall|i: int| 0 <= i < hand.len() implies hand.contains(#[trigger] hand[i]) by {}
                },
                None => {
                    assert forall|i: int| 0 <= i < hand.len() implies hand.contains(#[trigger] hand[i]) by {}
                },
            }
        }
    }
}

proof fn lemma_highest_of_suit_some(cards: Seq<Card>, suit: Suit, order: RankOrder, n: int)
    requires
        0 < n <= cards.len(),
        cards[0].suit == suit,
    ensures
        highest_of_suit(cards, suit, order, n) is Some,
    decreases n,
{
    if n > 1 {
        lemma_highest_of_suit_some(cards, suit, order, n - 1);
    }
}

fn filter_suit(cards: &[Card], suit: Suit) -> (r: Vec<Card>)
    ensures
        r@ == cards@.filter(of_suit(suit)),
{
    let mut r: Vec<Card> = Vec::new();
    let mut i: usize = 0;
    while i < cards.len()
        invariant
            i <= cards@.len(),
            r@ == cards@.take(i as int).filter(of_suit(suit)),
        decreases cards@.len() - i,
    {
        proof {
            lemma_filter_take_step(cards@, i as int, of_suit(suit));
        }
        if cards[i].suit == suit {
            r.push(cards[i]);
        }
        i = i + 1;
    }
    proof {
        lemma_take_full(cards@);
    }
    r
}

fn filter_stronger(cards: &[Card], order: RankOrder, strength: u8) -> (r: Vec<Card>)
    ensures
        r@ == cards@.filter(stronger_than(order, strength)),
{
    let mut r: Vec<Card> = Vec::new();
    let mut i: usize = 0;
    while i < cards.len()
        invariant
            i <= cards@.len(),
            r@ == cards@.take(i as int).filter(stronger_than(order, strength)),
        decreases cards@.len() - i,
    {
        proof {
            lemma_filter_take_step(cards@, i as int, stronger_than(order, strength));
        }
        if cards[i].strength(order) > strength {
            r.push(cards[i]);
        }
        i = i + 1;
    }
    proof {
        lemma_take_full(cards@);
    }
    r
}

fn played_card_list(cards: &[PlayedCard]) -> (r: Vec<Card>)
    ensures
        r@ == played_cards(cards@),
{
    let mut r: Vec<Card> = Vec::new();
    let mut i: usize = 0;
    while i < cards.len()
        invariant
            i <= cards@.len(),
            r@ == played_cards(cards@.take(i as int)),
        decreases cards@.len() - i,
    {
        r.push(cards[i].1);
        assert(played_cards(cards@.take(i + 1)) =~= played_cards(cards@.take(i as int)).push(cards@[i as int].1));
        i = i + 1;
    }
    assert(cards@.take(cards@.len() as int) =~= cards@);
    r
}

fn copy_cards(cards: &[Card]) -> (r: Vec<Card>)
    ensures
        r@ == cards@,
{
    vstd::slice::slice_to_vec(cards)
}

pub fn legal_cards_for_player(state: &GameState, player: PlayerId) -> (legal: Vec<Card>)
    ensures
        legal@ == legal_cards_spec(*state, player),
{
    if state.phase != GamePhase::Playing || state.active_player != player {
        return Vec::new();
    }
    let hand = &state.player(player).hand;
    if hand.len() == 0 {
        return Vec::new();
    }
    if state.current_trick.cards.len() == 0 {
        return copy_cards(hand.as_slice());
    }
    let lead_suit = state.current_trick.cards[0].1.suit;
    let rank_order = state.variant.rank_order();
    let same_suit_cards = filter_suit(hand.as_slice(), lead_suit);
    if same_suit_cards.len() > 0 {
        let played = played_card_list(state.current_trick.cards.as_slice());
        proof {
            lemma_highest_of_suit_some(played@, lead_suit, rank_order, played@.len() as int);
        }
        let highest_in_lead = match highest_card_in_suit(played.as_slice(), lead_suit, rank_order) {
            Some(c) => c,
            None => {
                return Vec::new();
            },
        };
        let stronger = filter_stronger(same_suit_cards.as_slice(), rank_order, highest_in_lead.strength(rank_order));
        return if stronger.len() == 0 {
            same_suit_cards
        } else {
            stronger
        };
    }
    if let Some(trump) = state.trump {
        let trump_cards = filter_suit(hand.as_slice(), trump);
        if trump_cards.len() > 0 {
            return trump_cards;
        }
    }
    copy_cards(hand.as_slice())
}

/// Each legal card as a move of the player.
pub open spec fn moves_spec(state: GameState, player: PlayerId) -> Seq<GameMove> {
    legal_cards_spec(state, player).map_values(|c: Card| GameMove::PlayCard { player, card: c })
}

pub fn valid_moves_for_player(state: &GameState, player: PlayerId) -> (moves: Vec<GameMove>)
    ensures
        moves@ == moves_spec(*state, player),
{
    let legal = legal_cards_for_player(state, player);
    let mut moves: Vec<GameMove> = Vec::new();
    let mut i: usize = 0;
    while i < legal.len()
        invariant
            i <= legal@.len(),
            moves@ == legal@.take(i as int).map_values(|c: Card| GameMove::PlayCard { player, card: c }),
        decreases legal@.len() - i,
    {
        moves.push(GameMove::PlayCard { player, card: legal[i] });
        assert(legal@.take(i + 1).map_values(|c: Card| GameMove::PlayCard { player, card: c })
            =~= legal@.take(i as int).map_values(|c: Card| GameMove::PlayCard { player, card: c }).push(
            GameMove::PlayCard { player, card: legal@[i as int] },
        ));
        i = i + 1;
    }
    assert(legal@.take(legal@.len() as int) =~= legal@);
    moves
}

/// The moves of the active player.
pub fn valid_moves(state: &GameState) -> (moves: Vec<GameMove>)
    ensures
        moves@ == moves_spec(*state, state.active_player),
{
    valid_moves_for_player(state, state.active_player)
}

/// `ns` differs from `s` only in the players, the trick, the completed tricks, the active
/// player and the phase.
pub open spec fn play_frame(s: GameState, ns: GameState) -> bool {
    ns == (GameState {
        players: ns.players,
        current_trick: ns.current_trick,
        completed_tricks: ns.completed_tricks,
        active_player: ns.active_player,
        phase: ns.phase,
        ..s
    })
}

/// The seats after `player` gave up `card` and, when the trick was resolved, its winner
/// took the trick's cards.
pub open spec fn players_after(s: GameState, ns: GameState, player: PlayerId, card: Card, taker: Option<(PlayerId, Seq<Card>)>) -> bool {
    forall|i: int|
        0 <= i < 3 ==> {
            let before = #[trigger] s.players@[i];
            let after = ns.players@[i];
            let gives = i == player.index_spec();
            let takes = taker matches Some(t) && t.0.index_spec() == i;
            &&& after.hand@ == if gives {
                without_first(before.hand@, card)
            } else {
                before.hand@
            }
            &&& after.won_cards@ == if takes {
                before.won_cards@ + taker->Some_0.1
            } else {
                before.won_cards@
            }
            &&& after.announced_marriages == before.announced_marriages
            &&& !gives && !takes ==> after == before
        }
}

/// Playing a card: refused outside play, out of turn, or when the card is not legal; else
/// the card leaves the hand and joins the trick, the next seat acts, and a full trick goes
/// to its winner with its cards, is recorded, and the winner leads the next; the round is
/// complete once every hand is empty.
pub open spec fn play_card_rel(s: GameState, ns: GameState, player: PlayerId, card: Card, r: Result<(), EngineError>) -> bool {
    if s.phase != GamePhase::Playing {
        r == Err::<(), EngineError>(EngineError::NotInPlayingPhase) && ns == s
    } else if s.active_player != player {
        r == Err::<(), EngineError>(EngineError::NotPlayersTurn { expected: s.active_player, got: player }) && ns == s
    } else if !legal_cards_spec(s, player).contains(card) {
        r == Err::<(), EngineError>(EngineError::IllegalCardPlay(card)) && ns == s
    } else {
        let trick = s.current_trick.cards@.push((player, card));
        &&& r == Ok::<(), EngineError>(())
        &&& play_frame(s, ns)
        &&& if trick.len() < 3 {
            &&& players_after(s, ns, player, card, None)
            &&& ns.current_trick.leader == s.current_trick.leader
            &&& ns.current_trick.cards@ == trick
            &&& ns.completed_tricks == s.completed_tricks
            &&& ns.active_player == player.next_spec()
            &&& ns.phase == s.phase
        } else {
            let w = trick_winner_spec(trick, s.trump, s.variant.rank_order_spec())->Some_0;
            &&& players_after(s, ns, player, card, Some((w, played_cards(trick))))
            &&& ns.current_trick.leader == w
            &&& ns.current_trick.cards@.len() == 0
            &&& ns.completed_tricks@.len() == s.completed_tricks@.len() + 1
            &&& ns.completed_tricks@.take(s.completed_tricks@.len() as int) == s.completed_tricks@
            &&& ns.completed_tricks@.last().leader == s.current_trick.leader
            &&& ns.completed_tricks@.last().winner == w
            &&& ns.completed_tricks@.last().cards@ == trick
            &&& ns.active_player == w
            &&& ns.phase == if forall|i: int| 0 <= i < 3 ==> (#[trigger] ns.players@[i]).hand@.len() == 0 {
                GamePhase::Completed
            } else {
                GamePhase::Playing
            }
        }
    }
}

/// Applies a move: only card plays are supported.
pub fn apply_move(state: &mut GameState, mv: GameMove) -> (r: Result<(), EngineError>)
    ensures
        match mv {
            GameMove::PlayCard { player, card } => play_card_rel(*old(state), *final(state), player, card, r),
            _ => r == Err::<(), EngineError>(EngineError::UnsupportedMove) && *final(state) == *old(state),
        },
{
    match mv {
        GameMove::PlayCard { player, card } => apply_play_card(state, player, card),
        _ => Err(EngineError::UnsupportedMove),
    }
}

fn card_position(cards: &[Card], card: Card) -> (r: Option<usize>)
    ensures
        match r {
            Some(i) => i == first_position(cards@, card) && i < cards@.len() && cards@[i as int] == card,
            None => !cards@.contains(card),
        },
{
    let mut i: usize = 0;
    while i < cards.len()
        invariant
            i <= cards@.len(),
            forall|j: int| 0 <= j < i ==> cards@[j] != card,
        decreases cards@.len() - i,
    {
        if cards[i] == card {
            proof {
                lemma_first_position(cards@, card, i as int);
            }
            return Some(i);
        }
        i = i + 1;
    }
    None
}

fn contains_card(cards: &[Card], card: Card) -> (b: bool)
    ensures
        b == cards@.contains(card),
{
    card_position(cards, card).is_some()
}

fn all_hands_empty(state: &GameState) -> (b: bool)
    ensures
        b == forall|i: int| 0 <= i < 3 ==> (#[trigger] state.players@[i]).hand@.len() == 0,
{
    state.players[0].hand.len() == 0 && state.players[1].hand.len() == 0 && state.players[2].hand.len() == 0
}

fn apply_play_card(state: &mut GameState, player: PlayerId, card: Card) -> (r: Result<(), EngineError>)
    ensures
        play_card_rel(*old(state), *final(state), player, card, r),
{
    if state.phase != GamePhase::Playing {
        return Err(EngineError::NotInPlayingPhase);
    }
    if state.active_player != player {
        return Err(EngineError::NotPlayersTurn { expected: state.active_player, got: player });
    }
    let legal_cards = legal_cards_for_player(state, player);
    if !contains_card(legal_cards.as_slice(), card) {
        return Err(EngineError::IllegalCardPlay(card));
    }
    proof {
        lemma_legal_cards_in_hand(*state, player);
        let k = choose|k: int| 0 <= k < legal_cards@.len() && legal_cards@[k] == card;
        assert(hand_of(*state, player).contains(legal_cards@[k]));
    }
    let ghost s0 = *state;
    let remove_index = match card_position(state.player(player).hand.as_slice(), card) {
        Some(i) => i,
        None => {
            return Err(EngineError::CardNotInHand(card));
        },
    };
    state.player_mut(player).hand.remove(remove_index);
    let ghost s_removed = *state;
    assert(s_removed.players@[player.index_spec() as int].hand@ == without_first(hand_of(s0, player), card));
    assert(forall|i: int| 0 <= i < 3 && i != player.index_spec() ==> s_removed.players@[i] == s0.players@[i]);
    state.current_trick.cards.push((player, card));
    let ghost trick = state.current_trick.cards@;
    if state.current_trick.cards.len() < PLAYER_COUNT {
        state.active_player = player.next_clockwise();
        proof {
            assert(players_after(s0, *state, player, card, None));
        }
        return Ok(());
    }
    proof {
        lemma_trick_winner_strongest(trick, s0.trump, s0.variant.rank_order_spec());
    }
    let winner = match trick_winner(state.current_trick.cards.as_slice(), state.trump, state.variant.rank_order()) {
        Some(w) => w,
        None => {
            return Err(EngineError::TrickResolutionFailed);
        },
    };
    let ghost s1 = *state;
    let won = played_card_list(state.current_trick.cards.as_slice());
    let mut k: usize = 0;
    while k < won.len()
        invariant
            k <= won@.len(),
            won@ == played_cards(trick),
            *state == (GameState { players: state.players, ..s1 }),
            forall|i: int| 0 <= i < 3 && i != winner.index_spec() ==> state.players@[i] == s1.players@[i],
            state.players@[winner.index_spec() as int].hand == s1.players@[winner.index_spec() as int].hand,
            state.players@[winner.index_spec() as int].announced_marriages
                == s1.players@[winner.index_spec() as int].announced_marriages,
            state.players@[winner.index_spec() as int].won_cards@
                == s1.players@[winner.index_spec() as int].won_cards@ + won@.take(k as int),
        decreases won@.len() - k,
    {
        state.player_mut(winner).won_cards.push(won[k]);
        assert(won@.take(k + 1) =~= won@.take(k as int).push(won@[k as int]));
        k = k + 1;
    }
    assert(won@.take(won@.len() as int) =~= won@);
    let mut trick_cards: Vec<PlayedCard> = Vec::new();
    std::mem::swap(&mut trick_cards, &mut state.current_trick.cards);
    let leader = state.current_trick.leader;
    state.completed_tricks.push(ResolvedTrick { leader, winner, cards: trick_cards });
    state.current_trick = CurrentTrick::new(winner);
    state.active_player = winner;
    if all_hands_empty(state) {
        state.phase = GamePhase::Completed;
    }
    proof {
        assert(state.completed_tricks@.take(s0.completed_tricks@.len() as int) =~= s0.completed_tricks@);
        let taker = Some((winner, played_cards(trick)));
        assert forall|i: int| 0 <= i < 3 implies {
            let before = #[trigger] s0.players@[i];
            let after = state.players@[i];
            let gives = i == player.index_spec();
            let takes = taker matches Some(t) && t.0.index_spec() == i;
            &&& after.hand@ == if gives {
                without_first(before.hand@, card)
            } else {
                before.hand@
            }
            &&& after.won_cards@ == if takes {
                before.won_cards@ + taker->Some_0.1
            } else {
                before.won_cards@
            }
            &&& after.announced_marriages == before.announced_marriages
            &&& !gives && !takes ==> after == before
        } by {
            assert(s1.players@[i] == s_removed.players@[i]);
        }
    }
    Ok(())
}

/// The number of tricks won by seat `i`.
pub open spec fn tricks_won_by(tricks: Seq<ResolvedTrick>, i: nat) -> nat
    decreases tricks.len(),
{
    if tricks.len() == 0 {
        0
    } else {
        tricks_won_by(tricks.drop_last(), i) + if tricks.last().winner.index_spec() == i {
            1nat
        } else {
            0nat
        }
    }
}

proof fn lemma_tricks_won_bound(tricks: Seq<ResolvedTrick>, i: nat)
    ensures
        tricks_won_by(tricks, i) <= tricks.len(),
    decreases tricks.len(),
{
    if tricks.len() > 0 {
        lemma_tricks_won_bound(tricks.drop_last(), i);
    }
}

/// The seat with the most points; the earlier seat on a tie.
pub open spec fn summary_winner(points: Seq<u16>) -> PlayerId {
    let w = if points[1] > points[0] {
        PlayerId::Two
    } else {
        PlayerId::One
    };
    if points[2] > points[w.index_spec() as int] {
        PlayerId::Three
    } else {
        w
    }
}

/// The winner of a round has the most points: at least as many as every seat, and more
/// than every earlier seat.
pub proof fn lemma_summary_winner_most(points: Seq<u16>)
    requires
        points.len() == 3,
    ensures
        summary_winner(points).index_spec() < 3,
        forall|i: int| 0 <= i < 3 ==> points[summary_winner(points).index_spec() as int] >= #[trigger] points[i],
        forall|i: int| 0 <= i < summary_winner(points).index_spec() ==> #[trigger] points[i]
            < points[summary_winner(points).index_spec() as int],
{
}

#[derive(Debug, Clone, PartialEq, Eq)]
pub struct RoundSummary {
    pub winner: PlayerId,
    pub card_points: [u16; PLAYER_COUNT],
    pub won_tricks: [usize; PLAYER_COUNT],
}

/// The summary of a finished round: each seat's points with marriages, its won tricks,
/// and the seat with the most points; nothing while the round is on.
pub fn round_summary(state: &GameState) -> (summary: Option<RoundSummary>)
    requires
        forall|i: int| 0 <= i < 3 ==> player_points(#[trigger] state.players@[i], state.trump) <= u16::MAX,
    ensures
        state.phase != GamePhase::Completed ==> summary is None,
        state.phase == GamePhase::Completed ==> (summary matches Some(s) && {
            &&& forall|i: int| 0 <= i < 3 ==> #[trigger] s.card_points@[i] == player_points(state.players@[i], state.trump)
            &&& forall|i: int| 0 <= i < 3 ==> #[trigger] s.won_tricks@[i] == tricks_won_by(state.completed_tricks@, i as nat)
            &&& s.winner == summary_winner(s.card_points@)
            &&& forall|i: int| 0 <= i < 3 ==> s.card_points@[s.winner.index_spec() as int] >= #[trigger] s.card_points@[i]
        }),
{
    if !state.is_finished() {
        return None;
    }
    let mut card_points: [u16; 3] = [0u16; 3];
    let all = PlayerId::ALL;
    let mut i: usize = 0;
    while i < 3
        invariant
            i <= 3,
            all@ == PlayerId::all_spec(),
            forall|j: int| 0 <= j < 3 ==> player_points(#[trigger] state.players@[j], state.trump) <= u16::MAX,
            forall|j: int| 0 <= j < i ==> #[trigger] card_points@[j] == player_points(state.players@[j], state.trump),
        decreases 3 - i,
    {
        let p = all[i];
        card_points[p.as_index()] = state.total_points_for_player(p);
        i = i + 1;
    }
    let mut won_tricks: [usize; 3] = [0usize; 3];
    let mut t: usize = 0;
    while t < state.completed_tricks.len()
        invariant
            t <= state.completed_tricks@.len(),
            forall|j: int| 0 <= j < 3 ==> #[trigger] won_tricks@[j] == tricks_won_by(state.completed_tricks@.take(t as int), j as nat),
        decreases state.completed_tricks@.len() - t,
    {
        let w = state.completed_tricks[t].winner.as_index();
        proof {
            assert(state.completed_tricks@.take(t + 1).drop_last() =~= state.completed_tricks@.take(t as int));
            lemma_tricks_won_bound(state.completed_tricks@.take(t as int), w as nat);
        }
        won_tricks[w] = won_tricks[w] + 1;
        t = t + 1;
    }
    assert(state.completed_tricks@.take(state.completed_tricks@.len() as int) =~= state.completed_tricks@);
    let mut winner = PlayerId::One;
    if card_points[1] > card_points[winner.as_index()] {
        winner = PlayerId::Two;
    }
    if card_points[2] > card_points[winner.as_index()] {
        winner = PlayerId::Three;
    }
    proof {
        lemma_summary_winner_most(card_points@);
    }
    Some(RoundSummary { winner, card_points, won_tricks })
}

/// The cards dealt to the seat at position `pos` of the dealing order in `n` rounds of one
/// card per seat, starting at `offset`.
pub open spec fn dealt(order: Seq<Card>, offset: int, pos: int, n: int) -> Seq<Card> {
    Seq::new(n as nat, |r: int| order[offset + 3 * r + pos])
}

fn deal_rounds(state: &mut GameState, deck: &[Card], offset: usize, seats: [PlayerId; 3])
    requires
        offset + 9 <= deck@.len(),
        seats@[0] != seats@[1],
        seats@[0] != seats@[2],
        seats@[1] != seats@[2],
    ensures
        *final(state) == (GameState { players: final(state).players, ..*old(state) }),
        forall|j: int|
            0 <= j < 3 ==> {
                let i = (#[trigger] seats@[j]).index_spec() as int;
                &&& final(state).players@[i] == (crate::variants::PlayerState { hand: final(state).players@[i].hand, ..old(state).players@[i] })
                &&& final(state).players@[i].hand@ == old(state).players@[i].hand@ + dealt(deck@, offset as int, j, 3)
            },
{
    let n = deck.len();
    let mut r: usize = 0;
    while r < 3
        invariant
            r <= 3,
            n == deck@.len(),
            offset + 9 <= deck@.len(),
            seats@[0] != seats@[1],
            seats@[0] != seats@[2],
            seats@[1] != seats@[2],
            *state == (GameState { players: state.players, ..*old(state) }),
            forall|j: int|
                0 <= j < 3 ==> {
                    let i = (#[trigger] seats@[j]).index_spec() as int;
                    &&& state.players@[i] == (crate::variants::PlayerState { hand: state.players@[i].hand, ..old(state).players@[i] })
                    &&& state.players@[i].hand@ == old(state).players@[i].hand@ + dealt(deck@, offset as int, j, r as int)
                },
        decreases 3 - r,
    {
        let ghost before = *state;
        state.player_mut(seats[0]).hand.push(deck[offset + 3 * r]);
        state.player_mut(seats[1]).hand.push(deck[offset + 3 * r + 1]);
        state.player_mut(seats[2]).hand.push(deck[offset + 3 * r + 2]);
        proof {
            assert forall|j: int| 0 <= j < 3 implies {
                let i = (#[trigger] seats@[j]).index_spec() as int;
                &&& state.players@[i] == (crate::variants::PlayerState { hand: state.players@[i].hand, ..old(state).players@[i] })
                &&& state.players@[i].hand@ == old(state).players@[i].hand@ + dealt(deck@, offset as int, j, r + 1)
            } by {
                let i = seats@[j].index_spec() as int;
                assert(dealt(deck@, offset as int, j, r + 1) =~= dealt(deck@, offset as int, j, r as int).push(deck@[offset + 3 * r + j]));
                assert(state.players@[i].hand@ =~= before.players@[i].hand@.push(deck@[offset + 3 * r + j]));
            }
        }
        r = r + 1;
    }
}

/// A demo round of a Normal game dealt from `order`: one card at a time to the caller, the
/// next and the third seat three times, two to the talon, three more rounds; the caller
/// declares, calls the suit of the first card of the hand as trump and leads.
pub open spec fn demo_round(s: GameState, order: Seq<Card>) -> bool {
    let caller = s.dealer.next_spec();
    let second = caller.next_spec();
    let third = second.next_spec();
    &&& s.ruleset.allowed_variants@ == GameVariant::all_spec()
    &&& s.ruleset.target_points == crate::variants::MATCH_TARGET_POINTS
    &&& !s.ruleset.countdown_mode
    &&& s.ruleset.allow_flecken
    &&& s.ruleset.gang_vs_zehnergang == crate::variants::GangVsZehnergangRule::HigherPointGameWins
    &&& s.caller == caller
    &&& s.declarer == caller
    &&& s.variant == GameVariant::Normal
    &&& s.active_player == caller
    &&& s.phase == GamePhase::Playing
    &&& s.doubling.level == crate::variants::DoublingLevel::Undoubled
    &&& hand_of(s, caller) == seq![order[0], order[3], order[6], order[11], order[14], order[17]]
    &&& hand_of(s, second) == seq![order[1], order[4], order[7], order[12], order[15], order[18]]
    &&& hand_of(s, third) == seq![order[2], order[5], order[8], order[13], order[16], order[19]]
    &&& forall|i: int|
        0 <= i < 3 ==> (#[trigger] s.players@[i]).won_cards@.len() == 0 && s.players@[i].announced_marriages@.len() == 0
    &&& s.talon@ == seq![order[9], order[10]]
    &&& s.trump == Some(order[0].suit)
    &&& s.trump_selection == Some(TrumpSelection::CalledFromFirstThree(order[0].suit))
    &&& s.current_trick.leader == caller
    &&& s.current_trick.cards@.len() == 0
    &&& s.completed_tricks@.len() == 0
}

/// Deals a demo Normal round: the deck is shuffled and the dealer drawn with `rng`.
pub fn setup_demo_normal_round(rng: &mut StdRng) -> (state: GameState)
    ensures
        exists|order: Seq<Card>|
            order.len() == 20 && order.to_multiset() == deck_spec().to_multiset() && #[trigger] demo_round(state, order),
{
    let mut deck = schnapsen_deck();
    crate::rng::shuffle(&mut deck, rng);
    let ghost order = deck@;
    let all = PlayerId::ALL;
    let dealer = all[crate::rng::random_below(PLAYER_COUNT, rng)];
    let mut state = GameState::empty(Ruleset::all_variants(), dealer, GameVariant::Normal);
    let caller = state.caller;
    let next = caller.next_clockwise();
    let third = next.next_clockwise();
    proof {
        crate::variants::lemma_clockwise_cycle(caller);
    }
    let deal_order = [caller, next, third];
    let ghost s0 = state;
    deal_rounds(&mut state, deck.as_slice(), 0, deal_order);
    state.talon = vec![deck[9], deck[10]];
    deal_rounds(&mut state, deck.as_slice(), 11, deal_order);
    let called_trump = if state.player(caller).hand.len() > 0 {
        state.player(caller).hand[0].suit
    } else {
        Suit::Hearts
    };
    state.phase = GamePhase::Playing;
    state.variant = GameVariant::Normal;
    state.declarer = caller;
    state.active_player = caller;
    state.current_trick = CurrentTrick::new(caller);
    state.trump = Some(called_trump);
    state.trump_selection = Some(TrumpSelection::CalledFromFirstThree(called_trump));
    proof {
        assert(deal_order@[0] == caller);
        assert(deal_order@[1] == next);
        assert(deal_order@[2] == third);
        assert(hand_of(state, caller) =~= seq![order[0], order[3], order[6], order[11], order[14], order[17]]);
        assert(hand_of(state, next) =~= seq![order[1], order[4], order[7], order[12], order[15], order[18]]);
        assert(hand_of(state, third) =~= seq![order[2], order[5], order[8], order[13], order[16], order[19]]);
        assert(state.talon@ =~= seq![order[9], order[10]]);
        assert forall|i: int| 0 <= i < 3 implies (#[trigger] state.players@[i]).won_cards@.len() == 0
            && state.players@[i].announced_marriages@.len() == 0 by {
            assert(i == caller.index_spec() || i == next.index_spec() || i == third.index_spec());
        }
        assert(demo_round(state, order));
    }
    state
}

#[derive(Debug)]
pub struct RandomMoveEngine {
    rng: StdRng,
}

impl RandomMoveEngine {
    /// The generator the engine draws from.
    pub closed spec fn generator(&self) -> StdRng {
        self.rng
    }

    /// A engine that draws from `rng`.
    pub fn new(rng: StdRng) -> (s: Self)
        ensures
            s.generator() == rng,
    {
        Self { rng }
    }

    /// One of the active player's valid moves, drawn with the engine's generator; `None`
    /// exactly when there is none.
    pub fn pick_random_valid_move(&mut self, state: &GameState) -> (m: Option<GameMove>)
        ensures
            m is None <==> moves_spec(*state, state.active_player).len() == 0,
            m matches Some(mv) ==> moves_spec(*state, state.active_player).contains(mv),
    {
        let legal = valid_moves(state);
        if legal.len() == 0 {
            None
        } else {
            let index = crate::rng::random_below(legal.len(), &mut self.rng);
            Some(legal[index])
        }
    }
}

impl Default for RandomMoveEngine {
    /// An engine whose generator the operating system seeds (the generator of a fixed seed
    /// when it gives no randomness).
    fn default() -> Self {
        Self::new(crate::rng::fresh_generator())
    }
}

/// The player to act with cards in hand always has a legal card.
pub proof fn lemma_legal_cards_nonempty(state: GameState, player: PlayerId)
    requires
        state.phase == GamePhase::Playing,
        state.active_player == player,
        hand_of(state, player).len() > 0,
    ensures
        legal_cards_spec(state, player).len() > 0,
{
    let hand = hand_of(state, player);
    let trick = state.current_trick.cards@;
    if trick.len() > 0 {
        let lead = trick[0].1.suit;
        let order = state.variant.rank_order_spec();
        lemma_filter_members(hand, of_suit(lead));
        if let Some(t) = state.trump {
            lemma_filter_members(hand, of_suit(t));
            if hand.filter(of_suit(lead)).len() == 0 && hand.filter(of_suit(t)).len() == 0 {
                assert(legal_cards_spec(state, player) == hand);
            }
        }
    }
}

/// A move offered to the active player during play is accepted: it plays a legal card of
/// that player, and playing it succeeds.
pub proof fn lemma_valid_move_accepted(s: GameState, ns: GameState, mv: GameMove, r: Result<(), EngineError>)
    requires
        s.phase == GamePhase::Playing,
        moves_spec(s, s.active_player).contains(mv),
        mv matches GameMove::PlayCard { player, card } ==> play_card_rel(s, ns, player, card, r),
    ensures
        mv matches GameMove::PlayCard { player, card } && player == s.active_player
            && legal_cards_spec(s, player).contains(card),
        r is Ok,
{
    let moves = moves_spec(s, s.active_player);
    let k = choose|k: int| 0 <= k < moves.len() && moves[k] == mv;
    let legal = legal_cards_spec(s, s.active_player);
    assert(mv == GameMove::PlayCard { player: s.active_player, card: legal[k] });
    assert(legal.contains(legal[k]));
}

/// The cards a seat holds: its hand and its won cards.
pub open spec fn seat_cards(p: crate::variants::PlayerState) -> Multiset<Card> {
    p.hand@.to_multiset().add(p.won_cards@.to_multiset())
}

/// All cards of a round in play: the seats' hands and won cards and the trick.
pub open spec fn cards_in_round(s: GameState) -> Multiset<Card> {
    seat_cards(s.players@[0]).add(seat_cards(s.players@[1])).add(seat_cards(s.players@[2])).add(
        played_cards(s.current_trick.cards@).to_multiset(),
    )
}

proof fn lemma_sum_moves(
    o0: Multiset<Card>,
    o1: Multiset<Card>,
    o2: Multiset<Card>,
    n0: Multiset<Card>,
    n1: Multiset<Card>,
    n2: Multiset<Card>,
    ot: Multiset<Card>,
    nt: Multiset<Card>,
    card: Card,
    pi: int,
    wi: int,
    taken: Multiset<Card>,
)
    requires
        0 <= pi < 3,
        0 <= wi < 3,
        pi == 0 ==> o0.count(card) > 0,
        pi == 1 ==> o1.count(card) > 0,
        pi == 2 ==> o2.count(card) > 0,
        n0 == { let b = if pi == 0 { o0.remove(card) } else { o0 }; if wi == 0 { b.add(taken) } else { b } },
        n1 == { let b = if pi == 1 { o1.remove(card) } else { o1 }; if wi == 1 { b.add(taken) } else { b } },
        n2 == { let b = if pi == 2 { o2.remove(card) } else { o2 }; if wi == 2 { b.add(taken) } else { b } },
        nt =~= Multiset::<Card>::empty(),
        taken == ot.insert(card),
    ensures
        n0.add(n1).add(n2).add(nt) == o0.add(o1).add(o2).add(ot),
{
    broadcast use vstd::multiset::group_multiset_axioms;
    assert(n0.add(n1).add(n2).add(nt) =~= o0.add(o1).add(o2).add(ot));
}

/// Playing a card moves it from the hand to the trick, and a full trick to its winner's
/// won cards: no card is lost or made.
pub proof fn lemma_play_keeps_cards(s: GameState, ns: GameState, player: PlayerId, card: Card)
    requires
        play_card_rel(s, ns, player, card, Ok::<(), EngineError>(())),
    ensures
        cards_in_round(ns) == cards_in_round(s),
{
    broadcast use vstd::multiset::group_multiset_axioms;
    lemma_legal_cards_in_hand(s, player);
    let legal = legal_cards_spec(s, player);
    let k = choose|k: int| 0 <= k < legal.len() && legal[k] == card;
    assert(hand_of(s, player).contains(legal[k]));
    let h = hand_of(s, player);
    crate::seq_facts::lemma_without_first_multiset(h, card);
    let trick = s.current_trick.cards@.push((player, card));
    assert(played_cards(trick) =~= played_cards(s.current_trick.cards@).push(card));
    vstd::seq_lib::to_multiset_build(played_cards(s.current_trick.cards@), card);
    let pi = player.index_spec() as int;
    if trick.len() < 3 {
        assert forall|i: int| 0 <= i < 3 implies #[trigger] seat_cards(ns.players@[i]) == if i == pi {
            seat_cards(s.players@[i]).remove(card)
        } else {
            seat_cards(s.players@[i])
        } by {
            if i == pi {
                assert(seat_cards(ns.players@[i]) =~= seat_cards(s.players@[i]).remove(card));
            }
        }
        assert(cards_in_round(ns) =~= cards_in_round(s));
    } else {
        let w = trick_winner_spec(trick, s.trump, s.variant.rank_order_spec())->Some_0;
        let wi = w.index_spec() as int;
        let taken = played_cards(trick);
        assert forall|i: int| 0 <= i < 3 implies #[trigger] seat_cards(ns.players@[i]) == {
            let base = if i == pi {
                seat_cards(s.players@[i]).remove(card)
            } else {
                seat_cards(s.players@[i])
            };
            if i == wi {
                base.add(taken.to_multiset())
            } else {
                base
            }
        } by {
            vstd::seq_lib::lemma_multiset_commutative(s.players@[i].won_cards@, taken);
            if i == pi && i == wi {
                assert(seat_cards(ns.players@[i]) =~= seat_cards(s.players@[i]).remove(card).add(taken.to_multiset()));
            } else if i == pi {
                assert(seat_cards(ns.players@[i]) =~= seat_cards(s.players@[i]).remove(card));
            } else if i == wi {
                assert(seat_cards(ns.players@[i]) =~= seat_cards(s.players@[i]).add(taken.to_multiset()));
            }
        }
        assert(played_cards(ns.current_trick.cards@) =~= Seq::<Card>::empty());
        played_cards(ns.current_trick.cards@).to_multiset_ensures();
        assert(played_cards(ns.current_trick.cards@).to_multiset() =~= Multiset::<Card>::empty());
        assert(h.to_multiset().count(card) > 0);
        assert(seat_cards(s.players@[pi]).count(card) > 0);
        lemma_sum_moves(
            seat_cards(s.players@[0]),
            seat_cards(s.players@[1]),
            seat_cards(s.players@[2]),
            seat_cards(ns.players@[0]),
            seat_cards(ns.players@[1]),
            seat_cards(ns.players@[2]),
            played_cards(s.current_trick.cards@).to_multiset(),
            played_cards(ns.current_trick.cards@).to_multiset(),
            card,
            pi,
            wi,
            taken.to_multiset(),
        );
        assert(cards_in_round(ns) =~= cards_in_round(s));
    }
}

} // verus!
