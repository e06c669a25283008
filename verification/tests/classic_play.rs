use std::collections::HashSet;

use schnapsen::classic::card::{create_deck, Card, Rank, Suit};
use schnapsen::classic::engine::{apply_move, deal_round, get_valid_moves, pick_random_move, GameError, GameState, Move};
use schnapsen::classic::game::{GameConfig, GamePhase, Hand, RoundState, Trick as RoundTrick};
use schnapsen::classic::game_type::GameType;
use schnapsen::classic::moves::GameMove;
use schnapsen::classic::player::Player;
use schnapsen::classic::trick::Trick;
use schnapsen::classic::validation::valid_moves;
use schnapsen::labels::{format_action, player_name, render_card_compact};
use schnapsen::model::card::{Card as DealCard, Rank as DealRank, Suit as DealSuit};
use schnapsen::model::types::{Action, Marriage};

#[test]
fn deck_has_20_cards() {
    let deck = create_deck();
    assert_eq!(deck.len(), 20);
    let unique: HashSet<_> = deck.iter().collect();
    assert_eq!(unique.len(), 20);
}

#[test]
fn same_suit_beats() {
    let higher = Card::new(Suit::Hearts, Rank::Ass);
    let lower = Card::new(Suit::Hearts, Rank::Unter);
    assert!(higher.beats(&lower, Some(Suit::Spades), GameType::NormalesSpiel));
    assert!(!lower.beats(&higher, Some(Suit::Spades), GameType::NormalesSpiel));
}

#[test]
fn trump_beats_non_trump() {
    let trump = Card::new(Suit::Hearts, Rank::Unter);
    let non_trump = Card::new(Suit::Spades, Rank::Ass);
    assert!(trump.beats(&non_trump, Some(Suit::Hearts), GameType::NormalesSpiel));
}

#[test]
fn orders_in_special_games() {
    assert_eq!(Rank::Ass.order_in_game(GameType::Zehnergang), 0);
    assert_eq!(Rank::Zehner.order_in_game(GameType::Koenigsgang), 0);
    assert_eq!(Rank::Ober.order_in_game(GameType::Bettler), 1);
    assert!(Rank::Ass > Rank::Zehner);
    assert!(!Card::new(Suit::Clubs, Rank::Ass).beats(&Card::new(Suit::Hearts, Rank::Unter), None, GameType::Gang));
    assert_eq!(Card::new(Suit::Clubs, Rank::Zehner).label(), "10♣");
    assert_eq!(Suit::Diamonds.symbol(), '♦');
}

#[test]
fn game_hand_operations() {
    let mut hand = Hand::new();
    let card = Card::new(Suit::Hearts, Rank::Ass);
    hand.add(card);
    assert!(hand.contains(&card));
    assert_eq!(hand.len(), 1);
    assert!(hand.remove(&card));
    assert!(!hand.contains(&card));
    assert_eq!(hand.len(), 0);
}

#[test]
fn game_trick_points() {
    let mut trick = RoundTrick::new();
    trick.add(0, Card::new(Suit::Hearts, Rank::Ass));
    trick.add(1, Card::new(Suit::Diamonds, Rank::Zehner));
    trick.add(2, Card::new(Suit::Spades, Rank::Konig));
    assert!(trick.is_complete());
    assert_eq!(trick.points(), 11 + 10 + 4);
}

#[test]
fn turn_order() {
    assert_eq!(Player::Rufer.next(), Player::LeftOpponent);
    assert_eq!(Player::LeftOpponent.next(), Player::RightOpponent);
    assert_eq!(Player::RightOpponent.next(), Player::Rufer);
}

#[test]
fn indices() {
    assert_eq!(Player::Rufer.index(), 0);
    assert_eq!(Player::LeftOpponent.index(), 1);
    assert_eq!(Player::RightOpponent.index(), 2);
}

#[test]
fn trick_trick_points() {
    let mut trick = Trick::new();
    trick.add(Player::Rufer, Card::new(Suit::Hearts, Rank::Ass));
    trick.add(Player::LeftOpponent, Card::new(Suit::Hearts, Rank::Unter));
    trick.add(Player::RightOpponent, Card::new(Suit::Hearts, Rank::Ober));
    assert_eq!(trick.points(), 11 + 2 + 3);
}

#[test]
fn trick_winner_takes_the_best_card() {
    let mut trick = Trick::new();
    assert_eq!(trick.winner(Some(Suit::Clubs), GameType::NormalesSpiel), None);
    trick.add(Player::Rufer, Card::new(Suit::Hearts, Rank::Zehner));
    trick.add(Player::LeftOpponent, Card::new(Suit::Hearts, Rank::Ass));
    trick.add(Player::RightOpponent, Card::new(Suit::Clubs, Rank::Unter));
    assert_eq!(trick.winner(Some(Suit::Clubs), GameType::NormalesSpiel), Some(Player::RightOpponent));
    assert_eq!(trick.winner(None, GameType::NormalesSpiel), Some(Player::LeftOpponent));
    assert_eq!(trick.lead_suit(), Some(Suit::Hearts));
    assert_eq!(trick.cards().len(), 3);
}

#[test]
fn trump_calling_only_for_rufer() {
    let mut round = RoundState::new(0);
    round.phase = GamePhase::TrumpCalling;
    round.next_to_play = 0;
    let moves = valid_moves(&round);
    assert!(moves.is_empty(), "non-rufer should have no trump calls");

    round.next_to_play = 1;
    let moves = valid_moves(&round);
    assert_eq!(moves.len(), 4, "rufer can call any of 4 suits");
}

#[test]
fn lead_any_card() {
    let mut round = RoundState::new(0);
    round.phase = GamePhase::Playing;
    round.trump = Some(Suit::Hearts);
    round.game_type = Some(GameType::NormalesSpiel);
    round.next_to_play = 0;
    round.hands[0].add(Card::new(Suit::Hearts, Rank::Ass));
    round.hands[0].add(Card::new(Suit::Diamonds, Rank::Zehner));
    let moves = valid_moves(&round);
    assert_eq!(moves.len(), 2);
}

#[test]
fn following_must_beat_or_follow() {
    let mut round = RoundState::new(0);
    round.phase = GamePhase::Playing;
    round.trump = Some(Suit::Clubs);
    round.game_type = Some(GameType::NormalesSpiel);
    round.next_to_play = 2;
    round.current_trick.add(1, Card::new(Suit::Hearts, Rank::Konig));
    round.hands[2].add(Card::new(Suit::Hearts, Rank::Unter));
    round.hands[2].add(Card::new(Suit::Hearts, Rank::Ass));
    round.hands[2].add(Card::new(Suit::Clubs, Rank::Ass));
    assert_eq!(valid_moves(&round), vec![GameMove::PlayCard(Card::new(Suit::Hearts, Rank::Ass))]);

    let mut round = RoundState::new(0);
    round.phase = GamePhase::Playing;
    round.trump = Some(Suit::Clubs);
    round.next_to_play = 2;
    round.current_trick.add(1, Card::new(Suit::Hearts, Rank::Konig));
    round.hands[2].add(Card::new(Suit::Clubs, Rank::Unter));
    round.hands[2].add(Card::new(Suit::Spades, Rank::Ass));
    assert_eq!(valid_moves(&round), vec![GameMove::PlayCard(Card::new(Suit::Clubs, Rank::Unter))]);
}

#[test]
fn bidding_offers_pass_and_the_allowed_games() {
    let mut round = RoundState::new(0);
    round.phase = GamePhase::Bidding;
    round.next_to_play = 1;
    let moves = valid_moves(&round);
    assert_eq!(moves[0], GameMove::Pass);
    assert!(moves.contains(&GameMove::DeclareGame(GameType::Schnapser)));
    assert!(!moves.contains(&GameMove::DeclareGame(GameType::Kontraschnapser)));
    assert!(!moves.contains(&GameMove::DeclareGame(GameType::NormalesSpiel)));
    round.next_to_play = 2;
    let moves = valid_moves(&round);
    assert!(moves.contains(&GameMove::DeclareGame(GameType::Kontraschnapser)));
    assert!(!moves.contains(&GameMove::DeclareGame(GameType::Schnapser)));
    round.bids.push(schnapsen::classic::game::Bid { player: 1, game_type: GameType::Farbringerl });
    let moves = valid_moves(&round);
    assert_eq!(moves, vec![GameMove::Pass, GameMove::DeclareGame(GameType::Kontrabauernschnapser)]);
}

#[test]
fn round_and_game_states_start_empty() {
    let round = RoundState::new(2);
    assert_eq!(round.rufer, 0);
    assert_eq!(round.next_to_play, 0);
    assert_eq!(round.flecken_multiplier, 1);
    let game = schnapsen::classic::game::GameState::with_round(1, GameConfig::default());
    assert_eq!(game.round.as_ref().unwrap().rufer, 2);
    assert_eq!(game.scores, [0, 0, 0]);
    assert_eq!(GameType::all_standard().len(), 16);
    assert_eq!(GameType::Zehnergang.base_points(), 10);
}

#[test]
fn leading_any_card_valid() {
    let (hands, talon) = deal_round();
    let mut state = GameState::new(GameConfig::default());
    state.hands = hands;
    state.talon = talon;
    state.phase = GamePhase::Playing;
    state.trump = Some(Suit::Hearts);
    state.game_type = None;
    state.current_player = Some(Player::Rufer);

    let moves = get_valid_moves(&state);
    assert_eq!(moves.len(), 6, "When leading, all 6 cards should be valid");
}

#[test]
fn playing_a_trick_scores_the_winner() {
    let mut state = GameState::new(GameConfig::default());
    state.hands = [
        vec![Card::new(Suit::Hearts, Rank::Zehner)],
        vec![Card::new(Suit::Hearts, Rank::Ass), Card::new(Suit::Clubs, Rank::Unter)],
        vec![Card::new(Suit::Spades, Rank::Ober)],
    ];
    state.phase = GamePhase::Playing;
    state.trump = Some(Suit::Clubs);
    state.current_player = Some(Player::Rufer);
    let r = apply_move(&mut state, Move::PlayCard { player: Player::LeftOpponent, card: Card::new(Suit::Hearts, Rank::Ass) });
    assert!(matches!(r, Err(GameError::InvalidMove(_))));
    apply_move(&mut state, Move::PlayCard { player: Player::Rufer, card: Card::new(Suit::Hearts, Rank::Zehner) }).unwrap();
    assert_eq!(state.trick_leader, Some(Player::Rufer));
    assert_eq!(get_valid_moves(&state).len(), 1);
    apply_move(&mut state, Move::PlayCard { player: Player::LeftOpponent, card: Card::new(Suit::Hearts, Rank::Ass) }).unwrap();
    apply_move(&mut state, Move::PlayCard { player: Player::RightOpponent, card: Card::new(Suit::Spades, Rank::Ober) }).unwrap();
    assert_eq!(state.current_player, Some(Player::LeftOpponent));
    assert_eq!(state.trick_points, [0, 24, 0]);
    assert_eq!(state.tricks_won[1].len(), 1);
    assert_eq!(state.trick_leader, None);
    assert!(pick_random_move(&state).is_some());
}

#[test]
fn labels_for_the_front_end() {
    assert_eq!(player_name(0), "You");
    assert_eq!(player_name(7), "???");
    assert_eq!(render_card_compact(&Card::new(Suit::Hearts, Rank::Ass)), "A♥");
    assert_eq!(format_action(&Action::Pass), "Pass");
    assert_eq!(format_action(&Action::CallTrump(DealSuit::Hearts)), "Trump: ♥ Herz");
    let king = DealCard::new(DealSuit::Spades, DealRank::King);
    assert_eq!(
        format_action(&Action::AnnounceMarriage(Marriage { suit: DealSuit::Spades, is_trump: false }, king)),
        "K♠ (20er ♠)"
    );
}

#[test]
fn refused_moves_name_the_reason() {
    let mut state = GameState::new(GameConfig::default());
    let pass = Move::Pass { player: Player::Rufer };
    let r = apply_move(&mut state, pass);
    assert_eq!(r, Err(GameError::InvalidMove("Can only play cards in Playing phase".to_string())));
    state.hands = [vec![Card::new(Suit::Hearts, Rank::Zehner)], vec![], vec![]];
    state.phase = GamePhase::Playing;
    state.current_player = Some(Player::Rufer);
    let r = apply_move(&mut state, pass);
    assert_eq!(r, Err(GameError::InvalidMove("Pass { player: Rufer } is not valid".to_string())));
}

#[test]
fn random_round_keeps_all_twenty_cards() {
    let (hands, talon) = deal_round();
    let mut state = GameState::new(GameConfig::default());
    state.hands = hands;
    state.talon = talon;
    state.phase = GamePhase::Playing;
    state.trump = Some(Suit::Hearts);
    state.current_player = Some(Player::Rufer);
    let mut moves_made = 0;
    while let Some(mv) = pick_random_move(&state) {
        apply_move(&mut state, mv).unwrap();
        moves_made += 1;
        let mut cards: Vec<Card> = Vec::new();
        for hand in state.hands.iter() {
            cards.extend(hand.iter().copied());
        }
        cards.extend(state.talon.iter().copied());
        cards.extend(state.current_trick.cards());
        for pile in state.tricks_won.iter() {
            for trick in pile.iter() {
                cards.extend(trick.cards());
            }
        }
        assert_eq!(cards.len(), 20);
        assert_eq!(cards.iter().collect::<HashSet<_>>().len(), 20);
    }
    assert_eq!(moves_made, 18);
    assert_eq!(state.trick_points.iter().map(|p| *p as u32).sum::<u32>(), 120 - state.talon.iter().map(|c| c.points() as u32).sum::<u32>());
}

#[test]
fn card_points() {
    assert_eq!(Rank::Ass.points(), 11);
    assert_eq!(Rank::Zehner.points(), 10);
    assert_eq!(Rank::Konig.points(), 4);
    assert_eq!(Rank::Ober.points(), 3);
    assert_eq!(Rank::Unter.points(), 2);
}

#[test]
fn rank_orders_follow_the_game_types() {
    assert_eq!(Rank::Ass.order_in_game(GameType::Gang), 4);
    assert_eq!(Rank::Unter.order_in_game(GameType::Gang), 0);
    assert_eq!(Rank::Ass.order_in_game(GameType::AssBettler), 4);
    assert_eq!(Rank::Ass.order_in_game(GameType::Bauernloch), 0);
    assert_eq!(Rank::Zehner.order_in_game(GameType::Bauernloch), 4);
    assert_eq!(Rank::Konig.order_in_game(GameType::Damengang), 0);
}

#[test]
fn a_follower_must_beat_the_trick_when_possible() {
    let mut state = GameState::new(GameConfig::default());
    state.hands = [
        vec![Card::new(Suit::Hearts, Rank::Konig)],
        vec![Card::new(Suit::Hearts, Rank::Unter), Card::new(Suit::Hearts, Rank::Ass), Card::new(Suit::Clubs, Rank::Ober)],
        vec![Card::new(Suit::Spades, Rank::Ober)],
    ];
    state.phase = GamePhase::Playing;
    state.trump = Some(Suit::Clubs);
    state.current_player = Some(Player::Rufer);
    apply_move(&mut state, Move::PlayCard { player: Player::Rufer, card: Card::new(Suit::Hearts, Rank::Konig) }).unwrap();
    assert_eq!(
        get_valid_moves(&state),
        vec![Move::PlayCard { player: Player::LeftOpponent, card: Card::new(Suit::Hearts, Rank::Ass) }]
    );
}
