//! Card play in a round: the legal cards (Farbzwang and Trumpfzwang), applying a play with
//! trick resolution, dealing a round and a random move.

use vstd::prelude::*;
use vstd::string::StringExecFns;
use vstd::multiset::Multiset;
use crate::classic::card::{Card, Suit, create_deck, deck_spec};
use crate::classic::game::{GameConfig, GamePhase};
use crate::classic::game_type::GameType;
use crate::classic::player::Player;
use crate::classic::trick::{Trick, plays_points, lemma_plays_points_bound};
use crate::seq_facts::{lemma_filter_take_step, lemma_take_full, lemma_filter_members, without_first, lemma_first_position};

verus! {

/// A move of a player.
#[derive(Debug, Clone, Copy, PartialEq, Eq, Structural)]
pub enum Move {
    /// Playing a card.
    PlayCard { player: Player, card: Card },
    /// Passing; no move of the playing phase.
    Pass { player: Player },
}

/// Why a move was refused.
#[derive(Debug, Clone, PartialEq, Eq)]
pub enum GameError {
    InvalidMove(String),
    InvalidState,
}

/// The state of a round in play, as the engine sees it.
#[derive(Debug, Clone)]
pub struct GameState {
    pub config: GameConfig,
    pub phase: GamePhase,
    pub hands: [Vec<Card>; 3],
    pub talon: Vec<Card>,
    pub trump: Option<Suit>,
    pub game_type: Option<GameType>,
    pub current_player: Option<Player>,
    pub current_trick: Trick,
    pub trick_leader: Option<Player>,
    pub tricks_won: [Vec<Trick>; 3],
    pub trick_points: [u16; 3],
}

impl GameState {
    /// A round being dealt: no cards, trump, game type or player to act yet.
    pub fn new(config: GameConfig) -> (s: Self)
        ensures
            s.config == config,
            s.phase == GamePhase::Dealing,
            forall|i: int| 0 <= i < 3 ==> (#[trigger] s.hands@[i])@.len() == 0 && s.tricks_won@[i]@.len() == 0
                && s.trick_points@[i] == 0,
            s.talon@.len() == 0,
            s.trump is None,
            s.game_type is None,
            s.current_player is None,
            s.current_trick@.len() == 0,
            s.trick_leader is None,
    {
        GameState {
            config,
            phase: GamePhase::Dealing,
            hands: [Vec::new(), Vec::new(), Vec::new()],
            talon: Vec::new(),
            trump: None,
            game_type: None,
            current_player: None,
            current_trick: Trick::new(),
            trick_leader: None,
            tricks_won: [Vec::new(), Vec::new(), Vec::new()],
            trick_points: [0, 0, 0],
        }
    }

    /// The hand of a player.
    pub fn hand(&self, player: Player) -> (h: &[Card])
        ensures
            h@ == self.hands@[player.index_spec() as int]@,
    {
        self.hands[player.index()].as_slice()
    }

    /// The game type that decides the order of the cards: the declared one, else the
    /// Normal game.
    pub open spec fn effective_game_type_spec(&self) -> GameType {
        match self.game_type {
            Some(gt) => gt,
            None => GameType::NormalesSpiel,
        }
    }

    pub fn effective_game_type(&self) -> (gt: GameType)
        ensures
            gt == self.effective_game_type_spec(),
    {
        match self.game_type {
            Some(gt) => gt,
            None => GameType::NormalesSpiel,
        }
    }
}

/// The cards of one suit.
pub open spec fn of_suit(suit: Suit) -> spec_fn(Card) -> bool {
    |c: Card| c.suit == suit
}

/// Whether the hand holds a card of the suit.
pub open spec fn holds_suit(hand: Seq<Card>, suit: Suit) -> bool {
    exists|i: int| 0 <= i < hand.len() && (#[trigger] hand[i]).suit == suit
}

/// The highest order, in the game type, of the trick's cards of the suit; -1 when the
/// trick holds none.
pub open spec fn best_order(trick: Seq<(Player, Card)>, suit: Suit, game_type: GameType) -> int
    decreases trick.len(),
{
    if trick.len() == 0 {
        -1
    } else {
        let rest = best_order(trick.drop_last(), suit, game_type);
        let c = trick.last().1;
        if c.suit == suit && c.rank.order_in_game_spec(game_type) > rest {
            c.rank.order_in_game_spec(game_type) as int
        } else {
            rest
        }
    }
}

/// The cards of a suit that rank above `bound` in the game type.
pub open spec fn of_suit_above(suit: Suit, game_type: GameType, bound: int) -> spec_fn(Card) -> bool {
    |c: Card| c.suit == suit && c.rank.order_in_game_spec(game_type) > bound
}

/// The cards of a suit that must be played when the hand holds that suit (Stichzwang): those
/// that rank above every card of the suit in the trick, if there are any, else all of it.
pub open spec fn forced_of_suit(hand: Seq<Card>, trick: Seq<(Player, Card)>, suit: Suit, game_type: GameType) -> Seq<Card> {
    let higher = hand.filter(of_suit_above(suit, game_type, best_order(trick, suit, game_type)));
    if higher.len() > 0 {
        higher
    } else {
        hand.filter(of_suit(suit))
    }
}

/// The cards the player to act may play: any card when leading; else the cards of the led
/// suit if there are any (Farbzwang), and of them those that beat the led suit's best card
/// in the trick if there are any (Stichzwang); else the trumps if there are any
/// (Trumpfzwang), and of them those above any trump in the trick if there are any; else any
/// card.
pub open spec fn legal_cards(state: GameState) -> Seq<Card> {
    match state.current_player {
        None => Seq::empty(),
        Some(p) => {
            let hand = state.hands@[p.index_spec() as int]@;
            let trick = state.current_trick@;
            let game_type = state.effective_game_type_spec();
            if hand.len() == 0 {
                Seq::empty()
            } else if trick.len() == 0 {
                hand
            } else {
                let lead = trick[0].1.suit;
                if holds_suit(hand, lead) {
                    forced_of_suit(hand, trick, lead, game_type)
                } else {
                    match state.trump {
                        Some(t) => if holds_suit(hand, t) {
                            forced_of_suit(hand, trick, t, game_type)
                        } else {
                            hand
                        },
                        None => hand,
                    }
                }
            }
        },
    }
}

/// The legal cards as moves of the player to act.
pub open spec fn valid_moves_spec(state: GameState) -> Seq<Move> {
    match state.current_player {
        None => Seq::empty(),
        Some(p) => legal_cards(state).map_values(|c: Card| Move::PlayCard { player: p, card: c }),
    }
}

fn holds(hand: &[Card], suit: Suit) -> (b: bool)
    ensures
        b == holds_suit(hand@, suit),
{
    let mut i: usize = 0;
    while i < hand.len()
        invariant
            i <= hand@.len(),
            forall|j: int| 0 <= j < i ==> hand@[j].suit != suit,
        decreases hand@.len() - i,
    {
        if hand[i].suit == suit {
            return true;
        }
        i = i + 1;
    }
    false
}

fn cards_of(hand: &[Card], suit: Suit) -> (r: Vec<Card>)
    ensures
        r@ == hand@.filter(of_suit(suit)),
{
    let mut r: Vec<Card> = Vec::new();
    let mut i: usize = 0;
    while i < hand.len()
        invariant
            i <= hand@.len(),
            r@ == hand@.take(i as int).filter(of_suit(suit)),
        decreases hand@.len() - i,
    {
        proof {
            lemma_filter_take_step(hand@, i as int, of_suit(suit));
        }
        if hand[i].suit == suit {
            r.push(hand[i]);
        }
        i = i + 1;
    }
    proof {
        lemma_take_full(hand@);
    }
    r
}

fn best_order_in(trick: &Trick, suit: Suit, game_type: GameType) -> (b: i16)
    ensures
        b == best_order(trick@, suit, game_type),
        -1 <= b <= 4,
{
    let plays = trick.plays();
    let mut best: i16 = -1;
    let mut i: usize = 0;
    while i < plays.len()
        invariant
            i <= plays@.len(),
            plays@ == trick@,
            best == best_order(plays@.take(i as int), suit, game_type),
            -1 <= best <= 4,
        decreases plays@.len() - i,
    {
        assert(plays@.take(i + 1).drop_last() =~= plays@.take(i as int));
        let c = plays[i].1;
        proof {
            crate::classic::card::lemma_order_in_game_distinct(c.rank, c.rank, game_type);
        }
        if c.suit == suit {
            let o = c.rank.order_in_game(game_type) as i16;
            if o > best {
                best = o;
            }
        }
        i = i + 1;
    }
    assert(plays@.take(plays@.len() as int) =~= plays@);
    best
}

fn cards_above(hand: &[Card], suit: Suit, game_type: GameType, bound: i16) -> (r: Vec<Card>)
    ensures
        r@ == hand@.filter(of_suit_above(suit, game_type, bound as int)),
{
    let mut r: Vec<Card> = Vec::new();
    let mut i: usize = 0;
    while i < hand.len()
        invariant
            i <= hand@.len(),
            r@ == hand@.take(i as int).filter(of_suit_above(suit, game_type, bound as int)),
        decreases hand@.len() - i,
    {
        proof {
            lemma_filter_take_step(hand@, i as int, of_suit_above(suit, game_type, bound as int));
        }
        if hand[i].suit == suit && (hand[i].rank.order_in_game(game_type) as i16) > bound {
            r.push(hand[i]);
        }
        i = i + 1;
    }
    proof {
        lemma_take_full(hand@);
    }
    r
}

fn forced(hand: &[Card], trick: &Trick, suit: Suit, game_type: GameType) -> (r: Vec<Card>)
    ensures
        r@ == forced_of_suit(hand@, trick@, suit, game_type),
{
    let best = best_order_in(trick, suit, game_type);
    let higher = cards_above(hand, suit, game_type, best);
    if higher.len() > 0 {
        higher
    } else {
        cards_of(hand, suit)
    }
}

/// Get all valid moves for the current player: Farbzwang (follow suit) and Stichzwang
/// (beat the trick, or trump it, when possible).
pub fn get_valid_moves(state: &GameState) -> (moves: Vec<Move>)
    ensures
        moves@ == valid_moves_spec(*state),
{
    let current_player = match state.current_player {
        Some(p) => p,
        None => {
            return Vec::new();
        },
    };
    let hand = state.hand(current_player);
    let valid_cards: Vec<Card> = if hand.len() == 0 {
        Vec::new()
    } else {
        match state.current_trick.lead_suit() {
            None => vstd::slice::slice_to_vec(hand),
            Some(lead_suit) => {
                if holds(hand, lead_suit) {
                    forced(hand, &state.current_trick, lead_suit, state.effective_game_type())
                } else {
                    match state.trump {
                        Some(t) => if holds(hand, t) {
                            forced(hand, &state.current_trick, t, state.effective_game_type())
                        } else {
                            vstd::slice::slice_to_vec(hand)
                        },
                        None => vstd::slice::slice_to_vec(hand),
                    }
                }
            },
        }
    };
    let mut moves: Vec<Move> = Vec::new();
    let mut i: usize = 0;
    while i < valid_cards.len()
        invariant
            i <= valid_cards@.len(),
            moves@ == valid_cards@.take(i as int).map_values(|c: Card| Move::PlayCard { player: current_player, card: c }),
        decreases valid_cards@.len() - i,
    {
        moves.push(Move::PlayCard { player: current_player, card: valid_cards[i] });
        assert(valid_cards@.take(i + 1).map_values(|c: Card| Move::PlayCard { player: current_player, card: c })
            =~= valid_cards@.take(i as int).map_values(|c: Card| Move::PlayCard { player: current_player, card: c }).push(
            Move::PlayCard { player: current_player, card: valid_cards@[i as int] },
        ));
        i = i + 1;
    }
    assert(valid_cards@.take(valid_cards@.len() as int) =~= valid_cards@);
    moves
}

/// A legal card is in the hand of the player to act.
pub proof fn lemma_legal_cards_in_hand(state: GameState)
    requires
        state.current_player is Some,
    ensures
        forall|i: int|
            0 <= i < legal_cards(state).len() ==> state.hands@[state.current_player->Some_0.index_spec() as int]@.contains(
                #[trigger] legal_cards(state)[i],
            ),
{
    let p = state.current_player->Some_0;
    let hand = state.hands@[p.index_spec() as int]@;
    assert forall|i: int| 0 <= i < hand.len() implies hand.contains(#[trigger] hand[i]) by {}
    if hand.len() > 0 && state.current_trick@.len() > 0 {
        let trick = state.current_trick@;
        let gt = state.effective_game_type_spec();
        let lead = trick[0].1.suit;
        lemma_filter_members(hand, of_suit(lead));
        lemma_filter_members(hand, of_suit_above(lead, gt, best_order(trick, lead, gt)));
        if let Some(t) = state.trump {
            lemma_filter_members(hand, of_suit(t));
            lemma_filter_members(hand, of_suit_above(t, gt, best_order(trick, t, gt)));
        }
    }
}

/// The frame of a play: only the hands, the trick, its leader, the won tricks and points
/// and the player to act change.
pub open spec fn play_frame(s: GameState, ns: GameState) -> bool {
    ns == (GameState {
        hands: ns.hands,
        current_trick: ns.current_trick,
        trick_leader: ns.trick_leader,
        tricks_won: ns.tricks_won,
        trick_points: ns.trick_points,
        current_player: ns.current_player,
        ..s
    })
}

/// Applying a move: refused outside the playing phase or when the move is not valid; a
/// valid card leaves the hand and joins the trick (its first card makes the player the
/// leader); a complete trick goes to its winner with its points, and the winner leads the
/// next; otherwise the next seat plays.
pub open spec fn apply_rel(s: GameState, ns: GameState, mv: Move, ok: bool) -> bool {
    if s.phase != GamePhase::Playing || !valid_moves_spec(s).contains(mv) {
        !ok && ns == s
    } else {
        match mv {
            Move::PlayCard { player, card } => {
                let i = player.index_spec() as int;
                let trick = s.current_trick@.push((player, card));
                &&& ok
                &&& play_frame(s, ns)
                &&& forall|j: int| 0 <= j < 3 && j != i ==> ns.hands@[j] == s.hands@[j]
                &&& ns.hands@[i]@ == without_first(s.hands@[i]@, card)
                &&& if trick.len() == 3 {
                    let w = Trick::winner_spec_of(trick, s.trump, s.effective_game_type_spec());
                    let wi = w.index_spec() as int;
                    &&& ns.current_trick@.len() == 0
                    &&& ns.trick_leader is None
                    &&& ns.current_player == Some(w)
                    &&& forall|j: int| 0 <= j < 3 && j != wi ==> ns.tricks_won@[j] == s.tricks_won@[j]
                    &&& ns.tricks_won@[wi]@.len() == s.tricks_won@[wi]@.len() + 1
                    &&& ns.tricks_won@[wi]@.take(s.tricks_won@[wi]@.len() as int) == s.tricks_won@[wi]@
                    &&& ns.tricks_won@[wi]@.last()@ == trick
                    &&& ns.trick_points@ == s.trick_points@.update(wi, (s.trick_points@[wi] + plays_points(trick)) as u16)
                } else {
                    &&& ns.current_trick@ == trick
                    &&& ns.trick_leader == if s.trick_leader is None {
                        Some(player)
                    } else {
                        s.trick_leader
                    }
                    &&& ns.current_player == Some(Player::at_index(player.index_spec() + 1))
                    &&& ns.tricks_won == s.tricks_won
                    &&& ns.trick_points == s.trick_points
                }
            },
            _ => false,
        }
    }
}

/// A move offered during play is accepted.
pub proof fn lemma_valid_move_accepted(s: GameState, ns: GameState, mv: Move, ok: bool)
    requires
        s.phase == GamePhase::Playing,
        valid_moves_spec(s).contains(mv),
        apply_rel(s, ns, mv, ok),
    ensures
        ok,
{
    let moves = valid_moves_spec(s);
    let k = choose|k: int| 0 <= k < moves.len() && moves[k] == mv;
    assert(mv is PlayCard);
}

/// The cards of a trick's plays, in order.
pub open spec fn plays_cards(plays: Seq<(Player, Card)>) -> Seq<Card> {
    plays.map_values(|pc: (Player, Card)| pc.1)
}

/// The cards of a seat's won tricks.
pub open spec fn pile_cards(pile: Seq<Trick>) -> Multiset<Card>
    decreases pile.len(),
{
    if pile.len() == 0 {
        Multiset::empty()
    } else {
        pile_cards(pile.drop_last()).add(plays_cards(pile.last()@).to_multiset())
    }
}

/// Every card of a round: the hands, the talon, the trick on the table and the won tricks.
pub open spec fn round_cards(s: GameState) -> Multiset<Card> {
    s.hands@[0]@.to_multiset().add(s.hands@[1]@.to_multiset()).add(s.hands@[2]@.to_multiset()).add(
        s.talon@.to_multiset(),
    ).add(plays_cards(s.current_trick@).to_multiset()).add(pile_cards(s.tricks_won@[0]@)).add(
        pile_cards(s.tricks_won@[1]@),
    ).add(pile_cards(s.tricks_won@[2]@))
}

/// An accepted move moves its card from the hand to the trick, and a full trick to its
/// winner's won tricks: no card is lost or made.
pub proof fn lemma_move_keeps_cards(s: GameState, ns: GameState, mv: Move)
    requires
        apply_rel(s, ns, mv, true),
    ensures
        round_cards(ns) == round_cards(s),
{
    broadcast use vstd::multiset::group_multiset_axioms;
    let player = mv->PlayCard_player;
    let card = mv->PlayCard_card;
    let i = player.index_spec() as int;
    let moves = valid_moves_spec(s);
    let k = choose|k: int| 0 <= k < moves.len() && moves[k] == mv;
    lemma_legal_cards_in_hand(s);
    assert(legal_cards(s)[k] == card);
    let p = s.current_player->Some_0;
    assert(p == player);
    let hand = s.hands@[i]@;
    assert(hand.contains(card));
    crate::seq_facts::lemma_without_first_multiset(hand, card);
    let trick = s.current_trick@.push((player, card));
    assert(plays_cards(trick) =~= plays_cards(s.current_trick@).push(card));
    vstd::seq_lib::to_multiset_build(plays_cards(s.current_trick@), card);
    assert(ns.talon == s.talon);
    if trick.len() == 3 {
        let w = Trick::winner_spec_of(trick, s.trump, s.effective_game_type_spec());
        let wi = w.index_spec() as int;
        let old_pile = s.tricks_won@[wi]@;
        let new_pile = ns.tricks_won@[wi]@;
        assert(new_pile.drop_last() =~= old_pile);
        assert(pile_cards(new_pile) == pile_cards(old_pile).add(plays_cards(trick).to_multiset()));
        assert forall|c: Card| plays_cards(ns.current_trick@).to_multiset().count(c) == 0 by {
            vstd::seq_lib::to_multiset_contains(plays_cards(ns.current_trick@), c);
        }
        assert(plays_cards(ns.current_trick@).to_multiset() =~= Multiset::<Card>::empty());
        assert(round_cards(ns) =~= round_cards(s));
    } else {
        assert(round_cards(ns) =~= round_cards(s));
    }
}

fn contains_move(moves: &Vec<Move>, mv: Move) -> (b: bool)
    ensures
        b == moves@.contains(mv),
{
    let mut i: usize = 0;
    while i < moves.len()
        invariant
            i <= moves@.len(),
            forall|j: int| 0 <= j < i ==> moves@[j] != mv,
        decreases moves@.len() - i,
    {
        if moves[i] == mv {
            return true;
        }
        i = i + 1;
    }
    false
}

/// What the derived `Debug` of a move writes.
pub uninterp spec fn move_debug(mv: Move) -> Seq<char>;

/// `format!("{:?}", mv)`: the text that the derived `Debug` writes for the move, which
/// depends on the move alone.
#[verifier::external_body]
fn debug_text(mv: &Move) -> (t: String)
    ensures
        t@ == move_debug(*mv),
{
    format!("{:?}", mv)
}

fn invalid(message: &str) -> (e: GameError)
    ensures
        e matches GameError::InvalidMove(m) && m@ == message@,
{
    GameError::InvalidMove(String::from_str(message))
}

/// Apply a move to the game state.
pub fn apply_move(state: &mut GameState, mv: Move) -> (r: Result<(), GameError>)
    requires
        mv is PlayCard && old(state).current_trick@.len() == 2 ==> old(state).trick_points@[Trick::winner_spec_of(
            old(state).current_trick@.push((mv->PlayCard_player, mv->PlayCard_card)),
            old(state).trump,
            old(state).effective_game_type_spec(),
        ).index_spec() as int] <= u16::MAX - 33,
    ensures
        apply_rel(*old(state), *final(state), mv, r is Ok),
        r matches Err(e) ==> e matches GameError::InvalidMove(m) && m@ == if old(state).phase
            != GamePhase::Playing {
            "Can only play cards in Playing phase"@
        } else {
            move_debug(mv) + " is not valid"@
        },
{
    if state.phase != GamePhase::Playing {
        return Err(invalid("Can only play cards in Playing phase"));
    }
    let valid = get_valid_moves(state);
    if !contains_move(&valid, mv) {
        let msg = debug_text(&mv).concat(" is not valid");
        return Err(GameError::InvalidMove(msg));
    }
    let (player, card) = match mv {
        Move::PlayCard { player, card } => (player, card),
        _ => {
            return Err(invalid("Only PlayCard supported in Playing phase"));
        },
    };
    proof {
        lemma_legal_cards_in_hand(*state);
        let k = choose|k: int| 0 <= k < valid@.len() && valid@[k] == mv;
        let p = state.current_player->Some_0;
        assert(legal_cards(*state)[k] == card && p == player);
    }
    let ghost s0 = *state;
    let idx = player.index();
    let mut pos: usize = 0;
    let mut found = false;
    while pos < state.hands[idx].len()
        invariant
            idx == player.index_spec(),
            *state == s0,
            pos <= state.hands@[idx as int]@.len(),
            forall|j: int| 0 <= j < pos ==> state.hands@[idx as int]@[j] != card,
            found ==> pos < state.hands@[idx as int]@.len() && state.hands@[idx as int]@[pos as int] == card,
        ensures
            found ==> pos < state.hands@[idx as int]@.len() && state.hands@[idx as int]@[pos as int] == card,
            !found ==> pos == state.hands@[idx as int]@.len(),
            forall|j: int| 0 <= j < pos ==> state.hands@[idx as int]@[j] != card,
        decreases state.hands@[idx as int]@.len() - pos,
    {
        if state.hands[idx][pos] == card {
            found = true;
            break;
        }
        pos = pos + 1;
    }
    if !found {
        return Err(invalid("Card not in hand"));
    }
    proof {
        lemma_first_position(state.hands@[idx as int]@, card, pos as int);
    }
    state.hands[idx].remove(pos);
    if state.trick_leader.is_none() {
        state.trick_leader = Some(player);
    }
    state.current_trick.add(player, card);
    if state.current_trick.is_complete() {
        let ghost trick = state.current_trick@;
        let winner = match state.current_trick.winner(state.trump, state.effective_game_type()) {
            Some(w) => w,
            None => {
                return Err(GameError::InvalidState);
            },
        };
        proof {
            lemma_plays_points_bound(trick);
        }
        let points = state.current_trick.points();
        let mut finished = Trick::new();
        std::mem::swap(&mut finished, &mut state.current_trick);
        let w = winner.index();
        let ghost before = state.tricks_won@[w as int]@;
        state.tricks_won[w].push(finished);
        state.trick_points[w] = state.trick_points[w] + points;
        state.trick_leader = None;
        state.current_trick = Trick::new();
        state.current_player = Some(winner);
        proof {
            assert(state.tricks_won@[w as int]@.take(before.len() as int) =~= before);
            assert(state.trick_points@ =~= s0.trick_points@.update(w as int, (s0.trick_points@[w as int] + plays_points(trick)) as u16));
        }
    } else {
        state.current_player = Some(player.next());
    }
    Ok(())
}

/// Pick a random valid move, drawn with a generator seeded by the operating system (the
/// generator of a fixed seed when it gives no randomness). Returns None if no valid moves.
pub fn pick_random_move(state: &GameState) -> (m: Option<Move>)
    ensures
        m is None <==> valid_moves_spec(*state).len() == 0,
        m matches Some(mv) ==> valid_moves_spec(*state).contains(mv),
{
    let moves = get_valid_moves(state);
    let mut rng = crate::rng::fresh_generator();
    crate::rng::pick(moves.as_slice(), &mut rng)
}

/// A round dealt from `order`: six cards to each seat in turn and the last two to the talon.
pub open spec fn dealt_round(round: ([Vec<Card>; 3], Vec<Card>), order: Seq<Card>) -> bool {
    &&& round.0@[0]@ == order.subrange(0, 6)
    &&& round.0@[1]@ == order.subrange(6, 12)
    &&& round.0@[2]@ == order.subrange(12, 18)
    &&& round.1@ == order.subrange(18, 20)
}

/// Deals a round from a deck shuffled by a generator the operating system seeds (the
/// generator of a fixed seed when it gives no randomness).
pub fn deal_round() -> (r: ([Vec<Card>; 3], Vec<Card>))
    ensures
        exists|order: Seq<Card>|
            order.len() == 20 && order.to_multiset() == deck_spec().to_multiset() && #[trigger] dealt_round(r, order),
{
    let deck = create_deck();
    let mut cards: Vec<Card> = vstd::slice::slice_to_vec(deck.as_slice());
    let mut rng = crate::rng::fresh_generator();
    crate::rng::shuffle(&mut cards, &mut rng);
    let ghost order = cards@;
    let mut hands: [Vec<Card>; 3] = [Vec::new(), Vec::new(), Vec::new()];
    let mut talon: Vec<Card> = Vec::new();
    let mut i: usize = 0;
    while i < 20
        invariant
            i <= 20,
            cards@ == order,
            order.len() == 20,
            hands@[0]@ == order.subrange(0, if i < 6 { i as int } else { 6 }),
            hands@[1]@ == order.subrange(6, if i < 6 { 6 } else if i < 12 { i as int } else { 12 }),
            hands@[2]@ == order.subrange(12, if i < 12 { 12 } else if i < 18 { i as int } else { 18 }),
            talon@ == order.subrange(18, if i < 18 { 18 } else { i as int }),
        decreases 20 - i,
    {
        if i < 6 {
            hands[0].push(cards[i]);
        } else if i < 12 {
            hands[1].push(cards[i]);
        } else if i < 18 {
            hands[2].push(cards[i]);
        } else {
            talon.push(cards[i]);
        }
        i = i + 1;
    }
    proof {
        assert(dealt_round((hands, talon), order));
    }
    (hands, talon)
}

/// The player to act with cards in hand always has a legal card.
pub proof fn lemma_legal_cards_nonempty(state: GameState)
    requires
        state.current_player matches Some(p) && state.hands@[p.index_spec() as int]@.len() > 0,
    ensures
        legal_cards(state).len() > 0,
{
    let p = state.current_player->Some_0;
    let hand = state.hands@[p.index_spec() as int]@;
    let trick = state.current_trick@;
    if trick.len() > 0 {
        let lead = trick[0].1.suit;
        lemma_filter_members(hand, of_suit(lead));
        if holds_suit(hand, lead) {
            let i = choose|i: int| 0 <= i < hand.len() && (#[trigger] hand[i]).suit == lead;
            assert(hand.filter(of_suit(lead)).contains(hand[i]));
        } else if let Some(t) = state.trump {
            lemma_filter_members(hand, of_suit(t));
            if holds_suit(hand, t) {
                let i = choose|i: int| 0 <= i < hand.len() && (#[trigger] hand[i]).suit == t;
                assert(hand.filter(of_suit(t)).contains(hand[i]));
            }
        }
    }
}

} // verus!
