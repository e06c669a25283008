//! The deal engine: dealing, the transitions of each phase, trick resolution and the
//! scoring of a finished deal.

use vstd::prelude::*;
use vstd::string::StringExecFns;
use crate::model::action::{Action, GameAnnouncement, NormalGameOutcome, Winner};
use crate::model::card::{Card, Suit};
use crate::model::deck::Deck;
use crate::model::game_type::{Eligibility, GameGoal, GameType};
use crate::model::player::{PlayerId, PlayerState};
use crate::model::state::{
    BiddingState, DealState, FinishedState, MatchState, Phase, PlayingState, Trick,
    trick_cards_points, lemma_trick_cards_points_bound,
};
use crate::model::types::remove_card;
use crate::engine::validator::{
    valid_cards, valid_cards_spec, can_announce_marriage, can_announce_marriage_spec,
    can_spritzen, can_spritzen_spec,
};
use rand::rngs::StdRng;

verus! {

/// Chooses the action of a seat when the engine asks it to act.
pub trait MoveSelector {
    fn select_action(&mut self, deal: &DealState, player: PlayerId) -> Action
        requires
            selection_possible(*deal, player),
    ;
}

/// A seat can be asked to act: it holds two cards to discard during the talon exchange
/// and a card to play during play.
pub open spec fn selection_possible(deal: DealState, player: PlayerId) -> bool {
    let n = hand_of(deal, player).len();
    match deal.phase {
        Phase::TalonExchange => n >= 2,
        Phase::Playing(_) => n >= 1,
        _ => true,
    }
}

/// The cards in a seat's hand.
pub open spec fn hand_of(deal: DealState, p: PlayerId) -> Seq<Card> {
    deal.players@[p.index_spec() as int].hand@
}

/// The seat after `p` in clockwise order.
pub open spec fn next_seat(p: PlayerId) -> PlayerId {
    PlayerId::from_index_spec(p.index_spec() + 1)
}

/// `after` is `before` with the hand of seat `p` replaced by `h`.
pub open spec fn with_hand(before: DealState, after: DealState, p: PlayerId, h: Seq<Card>) -> bool {
    let i = p.index_spec() as int;
    &&& after == (DealState { players: after.players, ..before })
    &&& forall|j: int| 0 <= j < 3 && j != i ==> after.players@[j] == before.players@[j]
    &&& after.players@[i] == (PlayerState { hand: after.players@[i].hand, ..before.players@[i] })
    &&& after.players@[i].hand@ == h
}

/// Who leads the first trick when play starts with `lead`: the caller in game types where
/// the caller leads, else `lead`.
pub open spec fn opening_lead(game_type: Option<GameType>, caller: PlayerId, lead: PlayerId) -> PlayerId {
    match game_type {
        Some(gt) => if gt.caller_leads_spec() {
            caller
        } else {
            lead
        },
        None => lead,
    }
}

/// The phase at the start of play: an empty trick, no tricks, points or marriages yet,
/// and `lead` to lead.
pub open spec fn fresh_play(phase: Phase, lead: PlayerId) -> bool {
    &&& phase matches Phase::Playing(ps)
    &&& ps.current_trick.cards@.len() == 0
    &&& ps.current_trick.lead_suit is None
    &&& ps.tricks_completed == 0
    &&& ps.lead_player == lead
    &&& ps.announcer_tricks@.len() == 0
    &&& ps.defender_tricks@.len() == 0
    &&& ps.announcer_card_points == 0
    &&& ps.defender_card_points == 0
    &&& ps.marriages_announced@.len() == 0
    &&& ps.pending_marriage_play is None
}

/// The caller calls trump: only the caller may, and bidding starts with the caller.
pub open spec fn call_trump_rel(d: DealState, nd: DealState, player: PlayerId, suit: Suit, ok: bool) -> bool {
    &&& ok == (player == d.caller)
    &&& !ok ==> nd == d
    &&& ok ==> {
        &&& nd == (DealState { trump: Some(suit), phase: nd.phase, ..d })
        &&& nd.phase matches Phase::Bidding(bs)
        &&& bs.current_bidder == d.caller
        &&& bs.bids@.len() == 0
        &&& bs.passed@.len() == 0
    }
}

/// Whether `player` may announce `gt`, by the game type's eligibility.
pub open spec fn eligible(d: DealState, player: PlayerId, gt: GameType) -> bool {
    match gt.eligibility_spec() {
        Eligibility::CallerOnly => player == d.caller,
        Eligibility::OpponentsOnly => player != d.caller,
        Eligibility::Anyone => true,
    }
}

/// An announcement during bidding: refused when the player is not eligible; else the
/// player becomes the announcer of the game type, and play starts at once without the
/// talon, or the talon exchange follows.
pub open spec fn announce_rel(d: DealState, nd: DealState, player: PlayerId, a: GameAnnouncement, ok: bool) -> bool {
    let gt = a.game_type;
    &&& ok == eligible(d, player, gt)
    &&& !ok ==> nd == d
    &&& ok ==> if a.without_talon {
        &&& nd == (DealState { game_type: Some(gt), announcer: Some(player), phase: nd.phase, ..d })
        &&& fresh_play(nd.phase, opening_lead(Some(gt), d.caller, player))
    } else {
        nd == (DealState { game_type: Some(gt), announcer: Some(player), phase: Phase::TalonExchange, ..d })
    }
}

/// A pass during bidding: the player joins the passed players and the next seat is asked;
/// after the second pass the caller plays a Normal game and the talon exchange follows.
pub open spec fn pass_rel(d: DealState, bs: BiddingState, nd: DealState, player: PlayerId) -> bool {
    let passed = bs.passed@.push(player);
    if passed.len() >= 2 {
        nd == (DealState {
            announcer: Some(d.caller),
            game_type: Some(GameType::Normal),
            phase: Phase::TalonExchange,
            ..d
        })
    } else {
        &&& nd == (DealState { phase: nd.phase, ..d })
        &&& nd.phase matches Phase::Bidding(nbs)
        &&& nbs.passed@ == passed
        &&& nbs.current_bidder == next_seat(player)
        &&& nbs.bids == bs.bids
    }
}

/// Taking the talon: only the announcer may; the two talon cards join the hand, if the
/// talon is still there.
pub open spec fn take_talon_rel(d: DealState, nd: DealState, player: PlayerId, ok: bool) -> bool {
    match d.announcer {
        None => !ok && nd == d,
        Some(a) => if player != a {
            !ok && nd == d
        } else {
            &&& ok
            &&& match d.talon {
                None => nd == d,
                Some(t) => {
                    &&& with_hand(d, DealState { talon: d.talon, ..nd }, a, hand_of(d, a).push(t@[0]).push(t@[1]))
                    &&& nd.talon is None
                },
            }
        },
    }
}

/// Discarding two cards: only the announcer may; each card must be in the hand (the first
/// stays removed when the second is missing); then the cards are the discard and play
/// starts with the announcer.
pub open spec fn discard_rel(d: DealState, nd: DealState, player: PlayerId, c1: Card, c2: Card, ok: bool) -> bool {
    match d.announcer {
        None => !ok && nd == d,
        Some(a) => if player != a {
            !ok && nd == d
        } else {
            let h = hand_of(d, a);
            let h1 = remove_card(h, c1);
            if !h.contains(c1) {
                !ok && nd == d
            } else if !h1.contains(c2) {
                !ok && with_hand(d, nd, a, h1)
            } else {
                &&& ok
                &&& with_hand(d, DealState { discarded: d.discarded, phase: d.phase, ..nd }, a, remove_card(h1, c2))
                &&& nd.discarded@ == seq![c1, c2]
                &&& fresh_play(nd.phase, opening_lead(d.game_type, d.caller, a))
            }
        },
    }
}

/// The points of a marriage: forty in trump, else twenty.
pub open spec fn marriage_points(d: DealState, suit: Suit) -> nat {
    if d.trump == Some(suit) {
        40
    } else {
        20
    }
}

/// Announcing a marriage during play: refused unless allowed; else it is recorded, its
/// points go to the player's side, and the next card must be of its suit.
pub open spec fn marriage_rel(d: DealState, ps: PlayingState, nd: DealState, player: PlayerId, suit: Suit, ok: bool) -> bool {
    let pts = marriage_points(d, suit);
    let is_ann = d.announcer == Some(player);
    &&& ok == can_announce_marriage_spec(d, player, suit)
    &&& !ok ==> nd == d
    &&& ok ==> {
        &&& nd == (DealState { phase: nd.phase, ..d })
        &&& nd.phase matches Phase::Playing(nps)
        &&& nps == (PlayingState {
            marriages_announced: nps.marriages_announced,
            pending_marriage_play: Some(suit),
            announcer_card_points: if is_ann {
                (ps.announcer_card_points + pts) as u32
            } else {
                ps.announcer_card_points
            },
            defender_card_points: if is_ann {
                ps.defender_card_points
            } else {
                (ps.defender_card_points + pts) as u32
            },
            ..ps
        })
        &&& nps.marriages_announced@ == ps.marriages_announced@.push((player, suit, pts as u32))
    }
}

/// Spritzen: refused unless allowed; else the doubling is raised by the player.
pub open spec fn spritzen_rel(d: DealState, nd: DealState, player: PlayerId, ok: bool) -> bool {
    &&& ok == can_spritzen_spec(d, player)
    &&& !ok ==> nd == d
    &&& ok ==> match d.doubling.raise_spec() {
        Some(level) => nd == (DealState { doubling: level, last_doubler: Some(player), ..d }),
        None => nd == d,
    }
}

fn text(s: &str) -> (r: String)
    ensures
        r@ == s@,
{
    String::from_str(s)
}

/// What the derived `Debug` of an action writes.
pub uninterp spec fn action_debug(a: Action) -> Seq<char>;

/// `format!("{:?}", a)`: the text that the derived `Debug` writes for the action, which
/// depends on the action alone.
#[verifier::external_body]
fn debug_text(a: &Action) -> (t: String)
    ensures
        t@ == action_debug(*a),
{
    format!("{:?}", a)
}

/// Play starts: the lead goes to the caller in game types where the caller leads, else to
/// `lead_player`.
fn start_playing(deal: &mut DealState, lead_player: PlayerId)
    ensures
        *final(deal) == (DealState { phase: final(deal).phase, ..*old(deal) }),
        fresh_play(final(deal).phase, opening_lead(old(deal).game_type, old(deal).caller, lead_player)),
{
    let caller_leads = match deal.game_type {
        Some(gt) => gt.caller_leads(),
        None => false,
    };
    let actual_lead = if caller_leads {
        deal.caller
    } else {
        lead_player
    };
    deal.phase = Phase::Playing(
        PlayingState {
            current_trick: Trick::new(),
            tricks_completed: 0,
            lead_player: actual_lead,
            announcer_tricks: Vec::new(),
            defender_tricks: Vec::new(),
            announcer_card_points: 0,
            defender_card_points: 0,
            marriages_announced: Vec::new(),
            pending_marriage_play: None,
        },
    );
}

fn call_trump(deal: &mut DealState, player: PlayerId, suit: Suit) -> (r: Result<(), String>)
    ensures
        call_trump_rel(*old(deal), *final(deal), player, suit, r is Ok),
        r matches Err(m) ==> m@ == "Only the caller can call trump"@,
{
    if player != deal.caller {
        return Err(text("Only the caller can call trump"));
    }
    deal.trump = Some(suit);
    deal.phase = Phase::Bidding(
        BiddingState { current_bidder: deal.caller, bids: Vec::new(), passed: Vec::new() },
    );
    Ok(())
}

fn announce_game(deal: &mut DealState, player: PlayerId, announcement: GameAnnouncement) -> (r: Result<(), String>)
    ensures
        announce_rel(*old(deal), *final(deal), player, announcement, r is Ok),
        r matches Err(m) ==> m@ == if announcement.game_type.eligibility_spec() == Eligibility::CallerOnly {
            "Only the caller can announce this game"@
        } else {
            "The caller cannot announce this game"@
        },
{
    let game_type = announcement.game_type;
    match game_type.eligibility() {
        Eligibility::CallerOnly => {
            if player != deal.caller {
                return Err(text("Only the caller can announce this game"));
            }
        },
        Eligibility::OpponentsOnly => {
            if player == deal.caller {
                return Err(text("The caller cannot announce this game"));
            }
        },
        Eligibility::Anyone => {},
    }
    deal.game_type = Some(game_type);
    deal.announcer = Some(player);
    if announcement.without_talon {
        start_playing(deal, player);
    } else {
        deal.phase = Phase::TalonExchange;
    }
    Ok(())
}

fn pass(deal: &mut DealState, player: PlayerId)
    requires
        old(deal).phase is Bidding,
    ensures
        pass_rel(*old(deal), old(deal).phase->Bidding_0, *final(deal), player),
{
    let mut phase = Phase::CallingTrump;
    std::mem::swap(&mut phase, &mut deal.phase);
    match phase {
        Phase::Bidding(mut bs) => {
            bs.passed.push(player);
            bs.current_bidder = player.next();
            if bs.passed.len() >= 2 {
                deal.announcer = Some(deal.caller);
                deal.game_type = Some(GameType::Normal);
                deal.phase = Phase::TalonExchange;
            } else {
                deal.phase = Phase::Bidding(bs);
            }
        },
        other => {
            deal.phase = other;
        },
    }
}

fn take_talon(deal: &mut DealState, player: PlayerId) -> (r: Result<(), String>)
    ensures
        take_talon_rel(*old(deal), *final(deal), player, r is Ok),
        r matches Err(m) ==> m@ == if old(deal).announcer is None {
            "No announcer set"@
        } else {
            "Only the announcer can take the talon"@
        },
{
    let announcer = match deal.announcer {
        Some(a) => a,
        None => {
            return Err(text("No announcer set"));
        },
    };
    if player != announcer {
        return Err(text("Only the announcer can take the talon"));
    }
    let talon = deal.talon;
    match talon {
        Some(t) => {
            deal.talon = None;
            let ghost mid = *deal;
            deal.player_mut(announcer).hand.add(t[0]);
            deal.player_mut(announcer).hand.add(t[1]);
            proof {
                crate::model::player::lemma_seat_numbers(announcer, announcer);
            }
        },
        None => {},
    }
    Ok(())
}

fn discard(deal: &mut DealState, player: PlayerId, c1: Card, c2: Card) -> (r: Result<(), String>)
    ensures
        discard_rel(*old(deal), *final(deal), player, c1, c2, r is Ok),
        r matches Err(m) ==> m@ == if old(deal).announcer is None {
            "No announcer set"@
        } else if old(deal).announcer != Some(player) {
            "Only the announcer can discard"@
        } else {
            "Card not in hand"@
        },
{
    let announcer = match deal.announcer {
        Some(a) => a,
        None => {
            return Err(text("No announcer set"));
        },
    };
    if player != announcer {
        return Err(text("Only the announcer can discard"));
    }
    proof {
        crate::model::player::lemma_seat_numbers(announcer, announcer);
    }
    let ghost before = *deal;
    if deal.player_mut(announcer).hand.remove(&c1).is_none() {
        assert(deal.players =~= before.players);
        return Err(text("Card not in hand"));
    }
    assert(with_hand(before, *deal, announcer, remove_card(hand_of(before, announcer), c1)));
    let ghost mid = *deal;
    if deal.player_mut(announcer).hand.remove(&c2).is_none() {
        assert(deal.players =~= mid.players);
        return Err(text("Card not in hand"));
    }
    deal.discarded = vec![c1, c2];
    start_playing(deal, announcer);
    Ok(())
}

fn announce_marriage(deal: &mut DealState, player: PlayerId, suit: Suit) -> (r: Result<(), String>)
    requires
        old(deal).phase matches Phase::Playing(ps) && ps.announcer_card_points <= u32::MAX - 40
            && ps.defender_card_points <= u32::MAX - 40,
    ensures
        marriage_rel(*old(deal), old(deal).phase->Playing_0, *final(deal), player, suit, r is Ok),
        r matches Err(m) ==> m@ == "Cannot announce marriage"@,
{
    if !can_announce_marriage(deal, player, suit) {
        return Err(text("Cannot announce marriage"));
    }
    let points: u32 = if deal.trump == Some(suit) {
        40
    } else {
        20
    };
    let is_announcer = deal.is_announcer(player);
    let mut phase = Phase::CallingTrump;
    std::mem::swap(&mut phase, &mut deal.phase);
    match phase {
        Phase::Playing(mut ps) => {
            ps.marriages_announced.push((player, suit, points));
            ps.pending_marriage_play = Some(suit);
            if is_announcer {
                ps.announcer_card_points = ps.announcer_card_points + points;
            } else {
                ps.defender_card_points = ps.defender_card_points + points;
            }
            deal.phase = Phase::Playing(ps);
        },
        other => {
            deal.phase = other;
        },
    }
    Ok(())
}

fn spritzen(deal: &mut DealState, player: PlayerId) -> (r: Result<(), String>)
    ensures
        spritzen_rel(*old(deal), *final(deal), player, r is Ok),
        r matches Err(m) ==> m@ == "Cannot spritzen"@,
{
    if !can_spritzen(deal, player) {
        return Err(text("Cannot spritzen"));
    }
    if let Some(new_level) = deal.doubling.raise() {
        deal.doubling = new_level;
        deal.last_doubler = Some(player);
    }
    Ok(())
}

/// The played cards of a trick, without the seats.
pub open spec fn trick_cards_of(cards: Seq<(PlayerId, Card)>) -> Seq<Card> {
    cards.map_values(|pc: (PlayerId, Card)| pc.1)
}

/// Won tricks as values.
pub open spec fn piles(tricks: Seq<Vec<Card>>) -> Seq<Seq<Card>> {
    tricks.map_values(|t: Vec<Card>| t@)
}

/// The counters of a deal and the match scores leave room for one more step: a trick or
/// a marriage adds at most forty card points, a deal at most 192 match points.
pub open spec fn counters_fit(d: DealState, s: [u32; 3]) -> bool {
    &&& forall|i: int| 0 <= i < 3 ==> s@[i] <= u32::MAX - 192
    &&& d.phase matches Phase::Playing(ps) ==> ps.announcer_card_points <= u32::MAX - 40
        && ps.defender_card_points <= u32::MAX - 40 && ps.tricks_completed < usize::MAX
}

/// A card was played: it left the hand and joined the trick (setting the led suit when it
/// is the first card), and no marriage card is owed any more.
pub open spec fn placed(d: DealState, nd: DealState, player: PlayerId, card: Card) -> bool {
    match d.phase {
        Phase::Playing(ps) => {
            &&& with_hand(d, DealState { phase: d.phase, ..nd }, player, remove_card(hand_of(d, player), card))
            &&& nd.phase matches Phase::Playing(nps)
            &&& nps == (PlayingState { current_trick: nps.current_trick, pending_marriage_play: None, ..ps })
            &&& nps.current_trick.cards@ == ps.current_trick.cards@.push((player, card))
            &&& nps.current_trick.lead_suit == if ps.current_trick.cards@.len() == 0 {
                Some(card.suit)
            } else {
                ps.current_trick.lead_suit
            }
        },
        _ => false,
    }
}

/// Three cards lie in the trick.
pub open spec fn trick_full(d: DealState) -> bool {
    d.phase matches Phase::Playing(ps) && ps.current_trick.cards@.len() == 3
}

/// The trick went to `w`: its cards and points go to `w`'s side, each side's first won
/// trick is remembered, the trick count grows, and unless five tricks are done a new trick
/// starts, led by `w`.
pub open spec fn scored(d: DealState, nd: DealState, w: PlayerId) -> bool {
    match d.phase {
        Phase::Playing(ps) => {
            let is_ann = d.announcer == Some(w);
            let cards = trick_cards_of(ps.current_trick.cards@);
            let pts = trick_cards_points(ps.current_trick.cards@);
            let done = ps.tricks_completed + 1 >= 5;
            &&& nd == (DealState {
                first_trick_announcer: nd.first_trick_announcer,
                first_trick_defenders: nd.first_trick_defenders,
                phase: nd.phase,
                ..d
            })
            &&& if is_ann && d.first_trick_announcer is None {
                nd.first_trick_announcer matches Some(v) && v@ == cards
            } else {
                nd.first_trick_announcer == d.first_trick_announcer
            }
            &&& if !is_ann && d.first_trick_defenders is None {
                nd.first_trick_defenders matches Some(v) && v@ == cards
            } else {
                nd.first_trick_defenders == d.first_trick_defenders
            }
            &&& nd.phase matches Phase::Playing(nps)
            &&& nps == (PlayingState {
                current_trick: nps.current_trick,
                tricks_completed: (ps.tricks_completed + 1) as usize,
                lead_player: if done {
                    ps.lead_player
                } else {
                    w
                },
                announcer_tricks: nps.announcer_tricks,
                defender_tricks: nps.defender_tricks,
                announcer_card_points: if is_ann {
                    (ps.announcer_card_points + pts) as u32
                } else {
                    ps.announcer_card_points
                },
                defender_card_points: if is_ann {
                    ps.defender_card_points
                } else {
                    (ps.defender_card_points + pts) as u32
                },
                ..ps
            })
            &&& if is_ann {
                &&& piles(nps.announcer_tricks@) == piles(ps.announcer_tricks@).push(cards)
                &&& nps.defender_tricks == ps.defender_tricks
            } else {
                &&& piles(nps.defender_tricks@) == piles(ps.defender_tricks@).push(cards)
                &&& nps.announcer_tricks == ps.announcer_tricks
            }
            &&& if done {
                nps.current_trick == ps.current_trick
            } else {
                nps.current_trick.cards@.len() == 0 && nps.current_trick.lead_suit is None
            }
        },
        _ => false,
    }
}

/// In the games played to 66 (Normal, Schnapser, Kontraschnapser) the deal ends as soon as
/// a side has 66 card points.
pub open spec fn early_win(d: DealState) -> bool {
    &&& d.phase matches Phase::Playing(ps)
    &&& d.game_type == Some(GameType::Normal) || d.game_type == Some(GameType::Schnapser)
        || d.game_type == Some(GameType::Kontraschnapser)
    &&& ps.announcer_card_points >= 66 || ps.defender_card_points >= 66
}

/// The deal ends after the fifth trick or on an early win.
pub open spec fn round_over(d: DealState) -> bool {
    (d.phase matches Phase::Playing(ps) && ps.tricks_completed >= 5) || early_win(d)
}

/// Whether the announcer reached the goal of the game type.
pub open spec fn announcer_wins(gt: GameType, ps: PlayingState) -> bool {
    match gt.goal_spec() {
        GameGoal::Reach66 | GameGoal::SchnapserReach66 => ps.announcer_card_points >= 66,
        GameGoal::WinNoTricks => ps.announcer_tricks@.len() == 0,
        _ => ps.defender_tricks@.len() == 0,
    }
}

/// The match points of the deal: in a Normal game one, two or three points by the losers'
/// card points and tricks, times the doubling; else the game type's points times the
/// doubling.
pub open spec fn deal_points(d: DealState, ps: PlayingState, gt: GameType, wins: bool) -> nat {
    if gt == GameType::Normal {
        NormalGameOutcome::from_defender_points_spec(
            (if wins {
                ps.defender_card_points
            } else {
                ps.announcer_card_points
            }) as nat,
            if wins {
                ps.defender_tricks@.len() > 0
            } else {
                ps.announcer_tricks@.len() > 0
            },
        ).points_spec() * d.doubling.multiplier_spec()
    } else {
        d.final_points_spec()
    }
}

/// The two seats other than `a`, in seat order.
pub open spec fn defenders_of(a: PlayerId) -> (PlayerId, PlayerId) {
    match a {
        PlayerId::Player0 => (PlayerId::Player1, PlayerId::Player2),
        PlayerId::Player1 => (PlayerId::Player0, PlayerId::Player2),
        PlayerId::Player2 => (PlayerId::Player0, PlayerId::Player1),
    }
}

/// The announcer when the goal was reached, else the two defenders.
pub open spec fn deal_winner(a: PlayerId, wins: bool) -> Winner {
    if wins {
        Winner::Announcer(a)
    } else {
        Winner::Defenders(defenders_of(a).0, defenders_of(a).1)
    }
}

/// The scores after each winning seat got `pts`.
pub open spec fn awarded(scores: Seq<u32>, w: Winner, pts: nat) -> Seq<u32> {
    match w {
        Winner::Announcer(p) => {
            let i = p.index_spec() as int;
            scores.update(i, (scores[i] + pts) as u32)
        },
        Winner::Defenders(p, q) => {
            let i = p.index_spec() as int;
            let j = q.index_spec() as int;
            let s1 = scores.update(i, (scores[i] + pts) as u32);
            s1.update(j, (s1[j] + pts) as u32)
        },
    }
}

/// Finishing the deal: refused without an announcer or game type; else the winner and the
/// points are recorded and added to the winners' scores.
pub open spec fn finish_rel(d: DealState, s: [u32; 3], nd: DealState, ns: [u32; 3], ok: bool) -> bool {
    match (d.phase, d.announcer, d.game_type) {
        (Phase::Playing(ps), Some(a), Some(gt)) => {
            let wins = announcer_wins(gt, ps);
            let w = deal_winner(a, wins);
            let pts = deal_points(d, ps, gt, wins);
            &&& ok
            &&& nd == (DealState { phase: Phase::Finished(FinishedState { winner: w, points: pts as u32 }), ..d })
            &&& ns@ == awarded(s@, w, pts)
        },
        _ => !ok && nd == d && ns == s,
    }
}

/// Resolving a full trick: refused when no winner can be found; else the trick is scored,
/// and the deal is finished when it is over.
pub open spec fn resolve_rel(d: DealState, s: [u32; 3], nd: DealState, ns: [u32; 3], ok: bool) -> bool {
    match d.phase {
        Phase::Playing(ps) => match ps.current_trick.winner_spec(d.effective_trump_spec(), d.rank_ordering_spec()) {
            None => !ok && nd == d && ns == s,
            Some(w) => exists|mid: DealState|
                #[trigger] scored(d, mid, w) && if round_over(mid) {
                    finish_rel(mid, s, nd, ns, ok)
                } else {
                    ok && nd == mid && ns == s
                },
        },
        _ => !ok && nd == d && ns == s,
    }
}

/// Playing a card: refused unless it is the player's turn and a valid play; else it is
/// placed in the trick, and a full trick is resolved.
pub open spec fn play_card_rel(d: DealState, s: [u32; 3], nd: DealState, ns: [u32; 3], player: PlayerId, card: Card, ok: bool) -> bool {
    if current_player_spec(Some(d)) != Some(player) || !valid_cards_spec(d, player).contains(card) {
        !ok && nd == d && ns == s
    } else {
        exists|mid: DealState|
            #[trigger] placed(d, mid, player, card) && if trick_full(mid) {
                resolve_rel(mid, s, nd, ns, ok)
            } else {
                ok && nd == mid && ns == s
            }
    }
}

fn trick_card_list(trick: &Trick) -> (cards: Vec<Card>)
    ensures
        cards@ == trick_cards_of(trick.cards@),
{
    let mut cards: Vec<Card> = Vec::new();
    let mut i: usize = 0;
    while i < trick.cards.len()
        invariant
            i <= trick.cards@.len(),
            cards@ == trick_cards_of(trick.cards@.take(i as int)),
        decreases trick.cards@.len() - i,
    {
        cards.push(trick.cards[i].1);
        assert(trick_cards_of(trick.cards@.take(i + 1)) =~= trick_cards_of(trick.cards@.take(i as int)).push(trick.cards@[i as int].1));
        i = i + 1;
    }
    assert(trick.cards@.take(trick.cards@.len() as int) =~= trick.cards@);
    cards
}

fn check_early_win(deal: &DealState) -> (b: bool)
    ensures
        b == early_win(*deal),
{
    let ps = match &deal.phase {
        Phase::Playing(ps) => ps,
        _ => {
            return false;
        },
    };
    match deal.game_type {
        Some(GameType::Normal) | Some(GameType::Schnapser) | Some(GameType::Kontraschnapser) => {
            ps.announcer_card_points >= 66 || ps.defender_card_points >= 66
        },
        _ => false,
    }
}

fn defenders(announcer: PlayerId) -> (d: (PlayerId, PlayerId))
    ensures
        d == defenders_of(announcer),
{
    match announcer {
        PlayerId::Player0 => (PlayerId::Player1, PlayerId::Player2),
        PlayerId::Player1 => (PlayerId::Player0, PlayerId::Player2),
        PlayerId::Player2 => (PlayerId::Player0, PlayerId::Player1),
    }
}

fn finish_deal(deal: &mut DealState, scores: &mut [u32; 3]) -> (r: Result<(), String>)
    requires
        forall|i: int| 0 <= i < 3 ==> old(scores)@[i] <= u32::MAX - 192,
    ensures
        finish_rel(*old(deal), *old(scores), *final(deal), *final(scores), r is Ok),
        r matches Err(m) ==> m@ == if !(old(deal).phase is Playing) {
            "Not in playing phase"@
        } else if old(deal).announcer is None {
            "No announcer"@
        } else {
            "No game type"@
        },
{
    let (announcer_wins_deal, points) = match &deal.phase {
        Phase::Playing(ps) => {
            if deal.announcer.is_none() {
                return Err(text("No announcer"));
            }
            let game_type = match deal.game_type {
                Some(gt) => gt,
                None => {
                    return Err(text("No game type"));
                },
            };
            let wins = match game_type.goal() {
                GameGoal::Reach66 | GameGoal::SchnapserReach66 => ps.announcer_card_points >= 66,
                GameGoal::WinNoTricks => ps.announcer_tricks.len() == 0,
                GameGoal::WinAllTricks | GameGoal::WinAllTricksOneSuit | GameGoal::WinAllTricksTrump => {
                    ps.defender_tricks.len() == 0
                },
            };
            let points = if game_type == GameType::Normal {
                let outcome = NormalGameOutcome::from_defender_points(
                    if wins {
                        ps.defender_card_points
                    } else {
                        ps.announcer_card_points
                    },
                    if wins {
                        ps.defender_tricks.len() > 0
                    } else {
                        ps.announcer_tricks.len() > 0
                    },
                );
                let m = deal.doubling.multiplier();
                let base = outcome.points();
                assert(base * m <= 24) by (nonlinear_arith)
                    requires
                        base <= 3,
                        m <= 8,
                ;
                base * m
            } else {
                let p = deal.final_points();
                assert(p <= 192) by (nonlinear_arith)
                    requires
                        p == deal.game_type->Some_0.base_points_spec() * deal.doubling.multiplier_spec(),
                        deal.game_type->Some_0.base_points_spec() <= 24,
                        deal.doubling.multiplier_spec() <= 8,
                ;
                p
            };
            assert(points <= 192);
            (wins, points)
        },
        _ => {
            return Err(text("Not in playing phase"));
        },
    };
    let announcer = match deal.announcer {
        Some(a) => a,
        None => {
            return Err(text("No announcer"));
        },
    };
    let winner = if announcer_wins_deal {
        Winner::Announcer(announcer)
    } else {
        let (d1, d2) = defenders(announcer);
        Winner::Defenders(d1, d2)
    };
    match winner {
        Winner::Announcer(p) => {
            scores[p.index()] = scores[p.index()] + points;
        },
        Winner::Defenders(p, q) => {
            scores[p.index()] = scores[p.index()] + points;
            scores[q.index()] = scores[q.index()] + points;
        },
    }
    deal.phase = Phase::Finished(FinishedState { winner, points });
    Ok(())
}

fn resolve_trick(deal: &mut DealState, scores: &mut [u32; 3]) -> (r: Result<(), String>)
    requires
        trick_full(*old(deal)),
        counters_fit(*old(deal), *old(scores)),
    ensures
        resolve_rel(*old(deal), *old(scores), *final(deal), *final(scores), r is Ok),
        r matches Err(m) ==> m@ == if old(deal).phase->Playing_0.current_trick.lead_suit is None {
            "Cannot determine trick winner"@
        } else if old(deal).announcer is None {
            "No announcer"@
        } else {
            "No game type"@
        },
{
    let trump = deal.effective_trump();
    let ordering = deal.rank_ordering();
    let (winner, first_copy, pile, trick_points, tricks_completed) = match &deal.phase {
        Phase::Playing(ps) => {
            let w = match ps.current_trick.winner(trump, &ordering) {
                Some(w) => w,
                None => {
                    return Err(text("Cannot determine trick winner"));
                },
            };
            proof {
                lemma_trick_cards_points_bound(ps.current_trick.cards@);
            }
            let first_copy = trick_card_list(&ps.current_trick);
            let pile = trick_card_list(&ps.current_trick);
            (w, first_copy, pile, ps.current_trick.card_points(), ps.tricks_completed)
        },
        _ => {
            return Err(text("Not in playing phase"));
        },
    };
    let is_announcer = deal.is_announcer(winner);
    if is_announcer {
        if deal.first_trick_announcer.is_none() {
            deal.first_trick_announcer = Some(first_copy);
        }
    } else if deal.first_trick_defenders.is_none() {
        deal.first_trick_defenders = Some(first_copy);
    }
    let mut phase = Phase::CallingTrump;
    std::mem::swap(&mut phase, &mut deal.phase);
    let should_finish: bool;
    match phase {
        Phase::Playing(mut ps) => {
            let ghost ps0 = ps;
            if is_announcer {
                ps.announcer_card_points = ps.announcer_card_points + trick_points;
                ps.announcer_tricks.push(pile);
                assert(piles(ps.announcer_tricks@) =~= piles(ps0.announcer_tricks@).push(trick_cards_of(ps0.current_trick.cards@)));
            } else {
                ps.defender_card_points = ps.defender_card_points + trick_points;
                ps.defender_tricks.push(pile);
                assert(piles(ps.defender_tricks@) =~= piles(ps0.defender_tricks@).push(trick_cards_of(ps0.current_trick.cards@)));
            }
            ps.tricks_completed = tricks_completed + 1;
            should_finish = ps.tricks_completed >= 5;
            if !should_finish {
                ps.current_trick = Trick::new();
                ps.lead_player = winner;
            }
            deal.phase = Phase::Playing(ps);
        },
        other => {
            deal.phase = other;
            return Err(text("Not in playing phase"));
        },
    }
    assert(scored(*old(deal), *deal, winner));
    if should_finish || check_early_win(deal) {
        finish_deal(deal, scores)
    } else {
        Ok(())
    }
}

fn play_card(deal: &mut DealState, scores: &mut [u32; 3], player: PlayerId, card: Card) -> (r: Result<(), String>)
    requires
        old(deal).phase is Playing,
        counters_fit(*old(deal), *old(scores)),
    ensures
        play_card_rel(*old(deal), *old(scores), *final(deal), *final(scores), player, card, r is Ok),
        r matches Err(m) ==> m@ == play_refusal_text(*old(deal), player, card),
{
    let to_play = match &deal.phase {
        Phase::Playing(ps) => if ps.current_trick.cards.len() == 0 {
            Some(ps.lead_player)
        } else {
            let last = ps.current_trick.cards.len() - 1;
            assert(ps.current_trick.cards@[last as int] == ps.current_trick.cards@.last());
            Some(ps.current_trick.cards[last].0.next())
        },
        _ => None,
    };
    assert(to_play == current_player_spec(Some(*deal)));
    if to_play != Some(player) {
        return Err(text("Not this player's turn"));
    }
    let valid = valid_cards(deal, player);
    if !crate::model::types::hand_has(valid.as_slice(), card) {
        let msg = text("Card ").concat(card.label().as_str());
        return Err(msg.concat(" is not a valid play"));
    }
    proof {
        crate::model::player::lemma_seat_numbers(player, player);
    }
    let ghost before = *deal;
    if deal.player_mut(player).hand.remove(&card).is_none() {
        return Err(text("Card not in hand"));
    }
    assert(with_hand(before, *deal, player, remove_card(hand_of(before, player), card)));
    let mut phase = Phase::CallingTrump;
    std::mem::swap(&mut phase, &mut deal.phase);
    match phase {
        Phase::Playing(mut ps) => {
            ps.pending_marriage_play = None;
            ps.current_trick.play(player, card);
            let complete = ps.current_trick.is_complete();
            deal.phase = Phase::Playing(ps);
            assert(placed(*old(deal), *deal, player, card));
            if complete {
                resolve_trick(deal, scores)
            } else {
                Ok(())
            }
        },
        other => {
            deal.phase = other;
            Ok(())
        },
    }
}

/// What an action does to a deal and the match scores, by phase and action; any other
/// combination is refused and changes nothing.
pub open spec fn step_rel(d: DealState, s: [u32; 3], nd: DealState, ns: [u32; 3], player: PlayerId, action: Action, ok: bool) -> bool {
    match (d.phase, action) {
        (Phase::CallingTrump, Action::CallTrump(suit)) => call_trump_rel(d, nd, player, suit, ok) && ns == s,
        (Phase::Bidding(_), Action::AnnounceGame(a)) => announce_rel(d, nd, player, a, ok) && ns == s,
        (Phase::Bidding(bs), Action::Pass) => ok && pass_rel(d, bs, nd, player) && ns == s,
        (Phase::TalonExchange, Action::TakeTalon) => take_talon_rel(d, nd, player, ok) && ns == s,
        (Phase::TalonExchange, Action::DiscardToTalon(c1, c2)) => discard_rel(d, nd, player, c1, c2, ok) && ns == s,
        (Phase::Playing(_), Action::PlayCard(card)) => play_card_rel(d, s, nd, ns, player, card, ok),
        (Phase::Playing(ps), Action::AnnounceMarriage(suit)) => marriage_rel(d, ps, nd, player, suit, ok) && ns == s,
        (Phase::Playing(_), Action::Spritzen) => spritzen_rel(d, nd, player, ok) && ns == s,
        _ => !ok && nd == d && ns == s,
    }
}

/// The message when playing a card is refused: it is not the player's turn; the card is
/// not a valid play; or the full
/// trick has no led suit, so no winner; or finishing the deal finds no announcer or no
/// game type.
pub open spec fn play_refusal_text(d: DealState, player: PlayerId, card: Card) -> Seq<char> {
    if current_player_spec(Some(d)) != Some(player) {
        "Not this player's turn"@
    } else if !valid_cards_spec(d, player).contains(card) {
        "Card "@ + card.label_spec() + " is not a valid play"@
    } else if d.phase->Playing_0.current_trick.lead_suit is None {
        "Cannot determine trick winner"@
    } else if d.announcer is None {
        "No announcer"@
    } else {
        "No game type"@
    }
}

/// The message of a refused action, by phase and action.
pub open spec fn refusal_text(d: DealState, player: PlayerId, action: Action) -> Seq<char> {
    match (d.phase, action) {
        (Phase::CallingTrump, Action::CallTrump(_)) => "Only the caller can call trump"@,
        (Phase::Bidding(_), Action::AnnounceGame(a)) => if a.game_type.eligibility_spec()
            == Eligibility::CallerOnly {
            "Only the caller can announce this game"@
        } else {
            "The caller cannot announce this game"@
        },
        (Phase::TalonExchange, Action::TakeTalon) => if d.announcer is None {
            "No announcer set"@
        } else {
            "Only the announcer can take the talon"@
        },
        (Phase::TalonExchange, Action::DiscardToTalon(_, _)) => if d.announcer is None {
            "No announcer set"@
        } else if d.announcer != Some(player) {
            "Only the announcer can discard"@
        } else {
            "Card not in hand"@
        },
        (Phase::Playing(_), Action::PlayCard(card)) => play_refusal_text(d, player, card),
        (Phase::Playing(_), Action::AnnounceMarriage(_)) => "Cannot announce marriage"@,
        (Phase::Playing(_), Action::Spritzen) => "Cannot spritzen"@,
        _ => "Invalid action "@ + action_debug(action) + " in current phase"@,
    }
}

/// Who acts next: the caller while trump is called, the asked bidder, the announcer at the
/// talon, and in play the leader of an empty trick or the seat after the last card; nobody
/// once the deal is finished or when there is no deal.
pub open spec fn current_player_spec(deal: Option<DealState>) -> Option<PlayerId> {
    match deal {
        None => None,
        Some(d) => match d.phase {
            Phase::CallingTrump => Some(d.caller),
            Phase::Bidding(bs) => Some(bs.current_bidder),
            Phase::TalonExchange => d.announcer,
            Phase::Playing(ps) => if ps.current_trick.cards@.len() == 0 {
                Some(ps.lead_player)
            } else {
                Some(next_seat(ps.current_trick.cards@.last().0))
            },
            Phase::Finished(_) => None,
        },
    }
}

/// A fresh deal dealt from `order` (the last card on top): three cards each to the
/// caller, the third seat and the dealer, two to the talon, then three more each.
pub open spec fn dealt_deal(d: DealState, dealer: PlayerId, order: Seq<Card>) -> bool {
    let caller = PlayerId::from_index_spec(dealer.index_spec() + 1);
    let third = PlayerId::from_index_spec(dealer.index_spec() + 2);
    &&& d.dealer == dealer
    &&& d.caller == caller
    &&& d.third == third
    &&& forall|i: int| 0 <= i < 3 ==> {
        &&& (#[trigger] d.players@[i]).id.index_spec() == i
        &&& d.players@[i].role == DealState::role_spec(d.players@[i].id, dealer)
        &&& d.players@[i].tricks_won@ == Seq::<Vec<Card>>::empty()
        &&& d.players@[i].game_points == 0
        &&& d.players@[i].bummerl == 0
    }
    &&& hand_of(d, caller) == order.subrange(17, 20) + order.subrange(6, 9)
    &&& hand_of(d, third) == order.subrange(14, 17) + order.subrange(3, 6)
    &&& hand_of(d, dealer) == order.subrange(11, 14) + order.subrange(0, 3)
    &&& d.talon matches Some(t) && t@ == seq![order[9], order[10]]
    &&& d.trump is None
    &&& d.game_type is None
    &&& d.announcer is None
    &&& d.doubling == crate::model::game_type::DoublingLevel::Undoubled
    &&& d.last_doubler is None
    &&& d.discarded@ == Seq::<Card>::empty()
    &&& d.phase is CallingTrump
    &&& d.first_trick_announcer is None
    &&& d.first_trick_defenders is None
}

/// Manages game flow: dealing, phase transitions, and trick resolution.
pub struct GameEngine {
    pub match_state: MatchState,
}

impl GameEngine {
    pub fn new() -> (e: Self)
        ensures
            e.match_state.scores@ == seq![0u32, 0u32, 0u32],
            e.match_state.bummerl@ == seq![0u32, 0u32, 0u32],
            e.match_state.target_score == 24,
            e.match_state.current_dealer == PlayerId::Player0,
            e.match_state.current_deal is None,
    {
        Self { match_state: MatchState::new() }
    }

    /// Start a new deal with the current dealer: the deck is shuffled with `rng` and dealt
    /// as `dealt_deal` says, and the caller is to call trump.
    pub fn start_deal(&mut self, rng: &mut StdRng)
        ensures
            final(self).match_state == (MatchState { current_deal: final(self).match_state.current_deal, ..old(self).match_state }),
            final(self).match_state.current_deal matches Some(d) && exists|order: Seq<Card>|
                order.len() == 20 && order.to_multiset() == crate::model::deck::deck_order().to_multiset()
                    && #[trigger] dealt_deal(d, old(self).match_state.current_dealer, order),
    {
        let dealer = self.match_state.current_dealer;
        let mut deal = DealState::new(dealer);
        let mut deck = Deck::new();
        deck.shuffle(rng);
        let ghost order = deck@;
        proof {
            crate::model::deck::lemma_deck_complete();
        }
        let caller = dealer.next();
        let third = caller.next();
        proof {
            crate::model::player::lemma_seat_numbers(caller, third);
            crate::model::player::lemma_seat_numbers(caller, dealer);
            crate::model::player::lemma_seat_numbers(third, dealer);
        }
        let first_caller = deck.draw_n(3);
        let first_third = deck.draw_n(3);
        let first_dealer = deck.draw_n(3);
        let talon = deck.draw_n(2);
        let second_caller = deck.draw_n(3);
        let second_third = deck.draw_n(3);
        let second_dealer = deck.draw_n(3);
        assert(first_caller@ =~= order.subrange(17, 20));
        assert(first_third@ =~= order.subrange(14, 17));
        assert(first_dealer@ =~= order.subrange(11, 14));
        assert(talon@ =~= order.subrange(9, 11));
        assert(second_caller@ =~= order.subrange(6, 9));
        assert(second_third@ =~= order.subrange(3, 6));
        assert(second_dealer@ =~= order.subrange(0, 3));
        deal.player_mut(caller).hand.add_many(first_caller.as_slice());
        deal.player_mut(third).hand.add_many(first_third.as_slice());
        deal.player_mut(dealer).hand.add_many(first_dealer.as_slice());
        deal.talon = Some([talon[0], talon[1]]);
        deal.player_mut(caller).hand.add_many(second_caller.as_slice());
        deal.player_mut(third).hand.add_many(second_third.as_slice());
        deal.player_mut(dealer).hand.add_many(second_dealer.as_slice());
        deal.phase = Phase::CallingTrump;
        proof {
            assert(deal.talon->Some_0@ =~= seq![order[9], order[10]]);
            assert(dealt_deal(deal, dealer, order));
        }
        self.match_state.current_deal = Some(deal);
    }

    /// Apply an action of `player` to the current deal, as `step_rel` says; refused when
    /// there is no deal.
    pub fn apply_action(&mut self, player: PlayerId, action: Action) -> (r: Result<(), String>)
        requires
            old(self).match_state.current_deal matches Some(d) ==> counters_fit(d, old(self).match_state.scores),
        ensures
            match old(self).match_state.current_deal {
                None => r is Err && *final(self) == *old(self),
                Some(d) => {
                    &&& final(self).match_state == (MatchState {
                        current_deal: final(self).match_state.current_deal,
                        scores: final(self).match_state.scores,
                        ..old(self).match_state
                    })
                    &&& final(self).match_state.current_deal matches Some(nd)
                    &&& step_rel(d, old(self).match_state.scores, nd, final(self).match_state.scores, player, action, r is Ok)
                },
            },
            r matches Err(m) ==> m@ == match old(self).match_state.current_deal {
                None => "No active deal"@,
                Some(d) => refusal_text(d, player, action),
            },
    {
        let mut current: Option<DealState> = None;
        std::mem::swap(&mut current, &mut self.match_state.current_deal);
        let mut deal = match current {
            Some(d) => d,
            None => {
                return Err(text("No active deal"));
            },
        };
        let r = apply_to_deal(&mut deal, &mut self.match_state.scores, player, action);
        self.match_state.current_deal = Some(deal);
        r
    }

    /// Determine who should act next based on the current phase.
    pub fn current_player(&self) -> (r: Result<PlayerId, String>)
        ensures
            r is Ok <==> current_player_spec(self.match_state.current_deal) is Some,
            r matches Ok(p) ==> current_player_spec(self.match_state.current_deal) == Some(p),
            r matches Err(m) ==> m@ == match self.match_state.current_deal {
                None => "No active deal"@,
                Some(d) => if d.phase is TalonExchange {
                    "No announcer"@
                } else {
                    "Deal is finished"@
                },
            },
    {
        let deal = match &self.match_state.current_deal {
            Some(d) => d,
            None => {
                return Err(text("No active deal"));
            },
        };
        match &deal.phase {
            Phase::CallingTrump => Ok(deal.caller),
            Phase::Bidding(bs) => Ok(bs.current_bidder),
            Phase::TalonExchange => match deal.announcer {
                Some(a) => Ok(a),
                None => Err(text("No announcer")),
            },
            Phase::Playing(ps) => {
                let trick = &ps.current_trick;
                if trick.is_empty() {
                    Ok(ps.lead_player)
                } else {
                    let last = trick.cards.len() - 1;
                    Ok(trick.cards[last].0.next())
                }
            },
            Phase::Finished(_) => Err(text("Deal is finished")),
        }
    }
}

impl Default for GameEngine {
    fn default() -> (e: Self)
        ensures
            e.match_state.scores@ == seq![0u32, 0u32, 0u32],
            e.match_state.target_score == 24,
            e.match_state.current_dealer == PlayerId::Player0,
            e.match_state.current_deal is None,
    {
        Self::new()
    }
}

fn apply_to_deal(deal: &mut DealState, scores: &mut [u32; 3], player: PlayerId, action: Action) -> (r: Result<(), String>)
    requires
        counters_fit(*old(deal), *old(scores)),
    ensures
        step_rel(*old(deal), *old(scores), *final(deal), *final(scores), player, action, r is Ok),
        r matches Err(m) ==> m@ == refusal_text(*old(deal), player, action),
{
    match (&deal.phase, action) {
        (Phase::CallingTrump, Action::CallTrump(suit)) => call_trump(deal, player, suit),
        (Phase::Bidding(_), Action::AnnounceGame(announcement)) => announce_game(deal, player, announcement),
        (Phase::Bidding(_), Action::Pass) => {
            pass(deal, player);
            Ok(())
        },
        (Phase::TalonExchange, Action::TakeTalon) => take_talon(deal, player),
        (Phase::TalonExchange, Action::DiscardToTalon(c1, c2)) => discard(deal, player, c1, c2),
        (Phase::Playing(_), Action::PlayCard(card)) => play_card(deal, scores, player, card),
        (Phase::Playing(_), Action::AnnounceMarriage(suit)) => announce_marriage(deal, player, suit),
        (Phase::Playing(_), Action::Spritzen) => spritzen(deal, player),
        _ => {
            let msg = text("Invalid action ").concat(debug_text(&action).as_str());
            Err(msg.concat(" in current phase"))
        },
    }
}

} // verus!
