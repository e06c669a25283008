use std::collections::HashSet;

use rand::rngs::StdRng;
use rand::SeedableRng;
use schnapsen::model::card::{Card, Rank, Suit};
use schnapsen::model::deck::Deck;
use schnapsen::model::game::{GameState, Phase};
use schnapsen::model::types::{
    detect_marriages, trick_winner, valid_plays, Action, GameType, Marriage, MatchScore,
    NormalGameResult, RankOrdering, SpritzenLevel, Trick,
};

fn c(suit: Suit, rank: Rank) -> Card {
    Card::new(suit, rank)
}

#[test]
fn card_card_points() {
    assert_eq!(Card::new(Suit::Hearts, Rank::Ace).points(), 11);
    assert_eq!(Card::new(Suit::Spades, Rank::Ten).points(), 10);
    assert_eq!(Card::new(Suit::Clubs, Rank::King).points(), 4);
    assert_eq!(Card::new(Suit::Diamonds, Rank::Queen).points(), 3);
    assert_eq!(Card::new(Suit::Hearts, Rank::Jack).points(), 2);
}

#[test]
fn total_deck_points() {
    let total: u8 = Rank::ALL.iter().map(|r| r.points()).sum::<u8>() * 4;
    assert_eq!(total, 120);
}

#[test]
fn standard_strength_ordering() {
    assert!(Rank::Ace.standard_strength() > Rank::Ten.standard_strength());
    assert!(Rank::Ten.standard_strength() > Rank::King.standard_strength());
    assert!(Rank::King.standard_strength() > Rank::Queen.standard_strength());
    assert!(Rank::Queen.standard_strength() > Rank::Jack.standard_strength());
}

#[test]
fn ace_low_strength_ordering() {
    assert!(Rank::Ten.ace_low_strength() > Rank::King.ace_low_strength());
    assert!(Rank::King.ace_low_strength() > Rank::Queen.ace_low_strength());
    assert!(Rank::Queen.ace_low_strength() > Rank::Jack.ace_low_strength());
    assert!(Rank::Jack.ace_low_strength() > Rank::Ace.ace_low_strength());
}

#[test]
fn ten_low_strength_ordering() {
    assert!(Rank::King.ten_low_strength() > Rank::Queen.ten_low_strength());
    assert!(Rank::Queen.ten_low_strength() > Rank::Jack.ten_low_strength());
    assert!(Rank::Jack.ten_low_strength() > Rank::Ace.ten_low_strength());
    assert!(Rank::Ace.ten_low_strength() > Rank::Ten.ten_low_strength());
}

#[test]
fn king_low_strength_ordering() {
    assert!(Rank::Queen.king_low_strength() > Rank::Jack.king_low_strength());
    assert!(Rank::Jack.king_low_strength() > Rank::Ace.king_low_strength());
    assert!(Rank::Ace.king_low_strength() > Rank::Ten.king_low_strength());
    assert!(Rank::Ten.king_low_strength() > Rank::King.king_low_strength());
}

#[test]
fn card_display() {
    let c = Card::new(Suit::Hearts, Rank::Ace);
    assert_eq!(c.label(), "A♥");
}

#[test]
fn suit_symbols() {
    assert_eq!(Suit::Hearts.symbol(), "♥");
    assert_eq!(Suit::Diamonds.symbol(), "♦");
    assert_eq!(Suit::Spades.symbol(), "♠");
    assert_eq!(Suit::Clubs.symbol(), "♣");
}

#[test]
fn new_deck_has_20_cards() {
    let deck = Deck::new();
    assert_eq!(deck.remaining(), 20);
}

#[test]
fn all_cards_unique() {
    let deck = Deck::new();
    let set: HashSet<_> = deck.cards().iter().collect();
    assert_eq!(set.len(), 20);
}

#[test]
fn draw_reduces_count() {
    let mut deck = Deck::new();
    let _ = deck.draw();
    assert_eq!(deck.remaining(), 19);
}

#[test]
fn draw_n_returns_correct_count() {
    let mut deck = Deck::new();
    let hand = deck.draw_n(6);
    assert_eq!(hand.len(), 6);
    assert_eq!(deck.remaining(), 14);
}

#[test]
fn shuffle_preserves_all_cards() {
    let mut deck = Deck::new();
    let mut rng = StdRng::from_os_rng();
    deck.shuffle(&mut rng);
    assert_eq!(deck.remaining(), 20);

    let set: HashSet<_> = deck.cards().iter().collect();
    assert_eq!(set.len(), 20);
}

#[test]
fn draw_all_empties_deck() {
    let mut deck = Deck::new();
    for _ in 0..20 {
        assert!(deck.draw().is_some());
    }
    assert!(deck.is_empty());
    assert!(deck.draw().is_none());
}

#[test]
fn shuffle_with_a_seed_moves_cards() {
    let mut deck = Deck::new();
    let before: Vec<Card> = deck.cards().to_vec();
    let mut rng = StdRng::seed_from_u64(42);
    deck.shuffle(&mut rng);
    let after: Vec<Card> = deck.cards().to_vec();
    assert_ne!(before, after);
    let a: HashSet<_> = before.iter().collect();
    let b: HashSet<_> = after.iter().collect();
    assert_eq!(a, b);
}

#[test]
fn draw_n_takes_the_top_cards_in_order() {
    let mut deck = Deck::new();
    let all: Vec<Card> = deck.cards().to_vec();
    let drawn = deck.draw_n(3);
    assert_eq!(drawn, all[17..20].to_vec());
    assert_eq!(deck.cards(), &all[0..17]);
    let rest = deck.draw_n(50);
    assert_eq!(rest.len(), 17);
    assert!(deck.is_empty());
}

#[test]
fn deal_gives_6_cards_each_and_2_talon() {
    let mut rng = StdRng::from_os_rng();
    let state = GameState::deal(0, &mut rng);
    for hand in &state.hands {
        assert_eq!(hand.len(), 6);
    }
    assert_eq!(state.talon.len(), 2);
}

#[test]
fn deal_uses_all_20_cards() {
    let mut rng = StdRng::from_os_rng();
    let state = GameState::deal(0, &mut rng);
    let mut all: Vec<Card> = Vec::new();
    for hand in &state.hands {
        all.extend(hand);
    }
    all.extend(&state.talon);
    assert_eq!(all.len(), 20);

    let set: HashSet<Card> = all.into_iter().collect();
    assert_eq!(set.len(), 20);
}

#[test]
fn initial_phase_is_calling_trump() {
    let mut rng = StdRng::from_os_rng();
    let state = GameState::deal(0, &mut rng);
    assert_eq!(state.phase, Phase::CallingTrump);
    assert_eq!(state.active_player(), Some(state.rufer));
}

#[test]
fn calling_trump_advances_to_bidding() {
    let mut rng = StdRng::from_os_rng();
    let mut state = GameState::deal(0, &mut rng);
    let rufer = state.rufer;
    state.apply_action(rufer, Action::CallTrump(Suit::Hearts)).unwrap();
    assert!(matches!(state.phase, Phase::Bidding { .. }));
    assert_eq!(state.trump, Some(Suit::Hearts));
}

#[test]
fn game_all_pass_leads_to_normal_game() {
    let mut rng = StdRng::from_os_rng();
    let mut state = GameState::deal(0, &mut rng);
    let rufer = state.rufer;
    state.apply_action(rufer, Action::CallTrump(Suit::Hearts)).unwrap();

    for _ in 0..3 {
        let p = state.active_player().unwrap();
        state.apply_action(p, Action::Pass).unwrap();
    }

    match &state.phase {
        Phase::TalonDecision { declarer, game_type } => {
            assert_eq!(*declarer, rufer);
            assert_eq!(*game_type, GameType::Normal);
        }
        other => panic!("expected TalonDecision, got {other:?}"),
    }
}

#[test]
fn valid_actions_always_non_empty_before_finish() {
    let mut rng = StdRng::from_os_rng();
    let state = GameState::deal(0, &mut rng);
    let actions = state.valid_actions();
    assert!(!actions.is_empty());
}

#[test]
fn out_of_turn_action_is_refused_and_changes_nothing() {
    let mut rng = StdRng::seed_from_u64(5);
    let mut state = GameState::deal(1, &mut rng);
    let other = (state.rufer + 1) % 3;
    let before = state.clone();
    assert!(state.apply_action(other, Action::CallTrump(Suit::Hearts)).is_err());
    assert_eq!(state.phase, before.phase);
    assert_eq!(state.hands, before.hands);
    assert_eq!(state.trump, None);
}

#[test]
fn random_play_to_the_end_keeps_the_cards() {
    let mut rng = StdRng::seed_from_u64(11);
    let mut state = GameState::deal(2, &mut rng);
    let mut steps = 0;
    while !matches!(state.phase, Phase::Finished { .. }) && steps < 200 {
        let actions = state.valid_actions();
        assert!(!actions.is_empty());
        let p = state.active_player().unwrap();
        state.apply_action(p, actions[0]).unwrap();
        steps += 1;
    }
    assert!(matches!(state.phase, Phase::Finished { .. }));
}

fn cards_of_the_deal(state: &GameState) -> Vec<Card> {
    let mut cards: Vec<Card> = Vec::new();
    for hand in state.hands.iter() {
        cards.extend(hand.iter().copied());
    }
    cards.extend(state.talon.iter().copied());
    cards.extend(state.current_trick.iter().map(|(_, c)| *c));
    for trick in state.tricks.iter() {
        cards.extend(trick.cards.iter().map(|(_, c)| *c));
    }
    cards
}

#[test]
fn every_offered_action_is_accepted_until_the_hand_ends() {
    for seed in 0..6u64 {
        let mut rng = StdRng::seed_from_u64(seed);
        let mut state = GameState::deal((seed % 3) as usize, &mut rng);
        let mut steps = 0;
        while let Some(p) = state.active_player() {
            let actions = state.valid_actions();
            assert!(!actions.is_empty());
            for a in actions.iter() {
                let mut trial = state.clone();
                assert!(trial.apply_action(p, *a).is_ok());
            }
            let pick = actions[(seed as usize + steps) % actions.len()];
            state.apply_action(p, pick).unwrap();
            let cards = cards_of_the_deal(&state);
            assert_eq!(cards.len(), 20);
            assert_eq!(cards.iter().collect::<HashSet<_>>().len(), 20);
            steps += 1;
            assert!(steps < 200);
        }
        assert!(matches!(state.phase, Phase::Finished { .. }));
        assert!(state.valid_actions().is_empty());
    }
}

#[test]
fn refused_deal_actions_name_the_reason() {
    let mut rng = StdRng::seed_from_u64(9);
    let mut state = GameState::deal(0, &mut rng);
    let rufer = state.rufer;
    let other = (rufer + 1) % 3;
    assert_eq!(
        state.apply_action(other, Action::Pass),
        Err(format!("not player {}'s turn, expected {}", other, rufer))
    );
    assert_eq!(state.apply_action(rufer, Action::Pass), Err("invalid action for current phase".to_string()));
    state.apply_action(rufer, Action::CallTrump(Suit::Hearts)).unwrap();
    let label = GameType::Kontraschnapser.label();
    assert_eq!(
        state.apply_action(rufer, Action::Bid(GameType::Kontraschnapser)),
        Err(format!("{} can only be announced by a non-Rufer", label))
    );
}

#[test]
fn game_type_ordering_is_consistent() {
    assert!(GameType::Bettler.base_points() < GameType::Gang.base_points());
    assert!(GameType::Gang.base_points() < GameType::Bauernschnapser.base_points());
    assert!(GameType::Bauernschnapser.base_points() < GameType::Farbringerl.base_points());
}

#[test]
fn spritzen_multipliers() {
    assert_eq!(SpritzenLevel::Undoubled.multiplier(), 1);
    assert_eq!(SpritzenLevel::Gespritzt.multiplier(), 2);
    assert_eq!(SpritzenLevel::Zurueckgespritzt.multiplier(), 4);
    assert_eq!(SpritzenLevel::Re.multiplier(), 8);
}

#[test]
fn spritzen_chain() {
    let mut level = SpritzenLevel::Undoubled;
    level = level.next().unwrap();
    assert_eq!(level, SpritzenLevel::Gespritzt);
    level = level.next().unwrap();
    assert_eq!(level, SpritzenLevel::Zurueckgespritzt);
    level = level.next().unwrap();
    assert_eq!(level, SpritzenLevel::Re);
    assert!(level.next().is_none());
}

#[test]
fn trick_winner_same_suit() {
    let cards = vec![
        (0, c(Suit::Hearts, Rank::King)),
        (1, c(Suit::Hearts, Rank::Ace)),
        (2, c(Suit::Hearts, Rank::Jack)),
    ];
    assert_eq!(trick_winner(&cards, None, RankOrdering::Standard), 1);
}

#[test]
fn trick_winner_trump_wins() {
    let cards = vec![
        (0, c(Suit::Hearts, Rank::Ace)),
        (1, c(Suit::Spades, Rank::Jack)),
        (2, c(Suit::Hearts, Rank::King)),
    ];
    assert_eq!(trick_winner(&cards, Some(Suit::Spades), RankOrdering::Standard), 1);
}

#[test]
fn trick_winner_off_suit_no_trump_loses() {
    let cards = vec![(0, c(Suit::Hearts, Rank::Jack)), (1, c(Suit::Spades, Rank::Ace))];
    assert_eq!(trick_winner(&cards, None, RankOrdering::Standard), 0);
}

#[test]
fn trick_winner_ace_low_ordering() {
    let cards = vec![(0, c(Suit::Hearts, Rank::Ace)), (1, c(Suit::Hearts, Rank::Jack))];
    assert_eq!(trick_winner(&cards, None, RankOrdering::AceLow), 1);
}

#[test]
fn valid_plays_must_follow_suit() {
    let hand = vec![c(Suit::Hearts, Rank::Ace), c(Suit::Hearts, Rank::Jack), c(Suit::Spades, Rank::King)];
    let plays = valid_plays(&hand, Some((Suit::Hearts, Rank::Queen)), None, RankOrdering::Standard);
    assert_eq!(plays, vec![c(Suit::Hearts, Rank::Ace)]);
}

#[test]
fn valid_plays_must_trump_if_no_suit() {
    let hand = vec![c(Suit::Spades, Rank::Ace), c(Suit::Clubs, Rank::King)];
    let plays = valid_plays(&hand, Some((Suit::Hearts, Rank::Queen)), Some(Suit::Clubs), RankOrdering::Standard);
    assert_eq!(plays, vec![c(Suit::Clubs, Rank::King)]);
}

#[test]
fn valid_plays_any_card_if_no_suit_no_trump() {
    let hand = vec![c(Suit::Spades, Rank::Ace), c(Suit::Clubs, Rank::King)];
    let plays = valid_plays(&hand, Some((Suit::Hearts, Rank::Queen)), Some(Suit::Diamonds), RankOrdering::Standard);
    assert_eq!(plays, hand);
}

#[test]
fn valid_plays_lead_can_play_anything() {
    let hand = vec![c(Suit::Hearts, Rank::Ace), c(Suit::Spades, Rank::King)];
    let plays = valid_plays(&hand, None, Some(Suit::Hearts), RankOrdering::Standard);
    assert_eq!(plays, hand);
}

#[test]
fn detect_marriages_basic() {
    let hand = vec![c(Suit::Hearts, Rank::King), c(Suit::Hearts, Rank::Queen), c(Suit::Spades, Rank::Ace)];
    let marriages = detect_marriages(&hand, Some(Suit::Hearts));
    assert_eq!(marriages.len(), 1);
    assert!(marriages[0].is_trump);
    assert_eq!(marriages[0].points(), 40);
}

#[test]
fn detect_marriages_non_trump() {
    let hand = vec![c(Suit::Spades, Rank::King), c(Suit::Spades, Rank::Queen), c(Suit::Hearts, Rank::Ace)];
    let marriages = detect_marriages(&hand, Some(Suit::Hearts));
    assert_eq!(marriages.len(), 1);
    assert!(!marriages[0].is_trump);
    assert_eq!(marriages[0].points(), 20);
}

#[test]
fn normal_game_result_scoring() {
    assert_eq!(NormalGameResult::from_loser_points(40, true), NormalGameResult::OnePunkt);
    assert_eq!(NormalGameResult::from_loser_points(20, true), NormalGameResult::Schneider);
    assert_eq!(NormalGameResult::from_loser_points(0, false), NormalGameResult::ThreePoints);
}

#[test]
fn match_score_winner() {
    let mut score = MatchScore::new();
    assert!(score.winner().is_none());
    score.game_points[1] = 24;
    assert_eq!(score.winner(), Some(1));
}

#[test]
fn types_trick_points() {
    let trick = Trick {
        cards: vec![(0, c(Suit::Hearts, Rank::Ace)), (1, c(Suit::Hearts, Rank::Ten)), (2, c(Suit::Hearts, Rank::King))],
        winner: 0,
    };
    assert_eq!(trick.points(), 25);
}

#[test]
fn game_type_label_writes_points() {
    assert_eq!(GameType::Bettler.label(), format!("{} (4pts)", GameType::Bettler.name_de()));
}

fn playing_hand(hands: [Vec<Card>; 3], card_points: [u8; 3], tricks_won: [u8; 3]) -> GameState {
    let mut rng = StdRng::seed_from_u64(21);
    let mut s = GameState::deal(0, &mut rng);
    s.phase = Phase::Playing { declarer: 0, game_type: GameType::Normal, spritzen: SpritzenLevel::Undoubled };
    s.trump = Some(Suit::Hearts);
    s.hands = hands;
    s.talon = Vec::new();
    s.current_trick = Vec::new();
    s.trick_leader = 0;
    s.tricks = Vec::new();
    s.card_points = card_points;
    s.tricks_won = tricks_won;
    s.marriages = Vec::new();
    s
}

#[test]
fn trump_is_called_from_the_first_three_cards() {
    for seed in 0..8u64 {
        let mut rng = StdRng::seed_from_u64(seed);
        let state = GameState::deal((seed % 3) as usize, &mut rng);
        let first: HashSet<Suit> = state.hands[state.rufer][..3].iter().map(|c| c.suit).collect();
        let offered = state.valid_actions();
        let called: HashSet<Suit> = offered
            .iter()
            .map(|a| match a {
                Action::CallTrump(s) => *s,
                other => panic!("unexpected {:?}", other),
            })
            .collect();
        assert_eq!(called, first);
        assert_eq!(offered.len(), first.len());
    }
}

#[test]
fn a_marriage_reaching_66_ends_the_game() {
    let hands = [
        vec![c(Suit::Hearts, Rank::King), c(Suit::Hearts, Rank::Queen), c(Suit::Spades, Rank::Ace)],
        vec![c(Suit::Clubs, Rank::Ace), c(Suit::Clubs, Rank::Ten), c(Suit::Diamonds, Rank::Ace)],
        vec![c(Suit::Diamonds, Rank::Ten), c(Suit::Spades, Rank::Ten), c(Suit::Clubs, Rank::King)],
    ];
    let mut s = playing_hand(hands, [30, 0, 0], [1, 0, 0]);
    let m = Marriage { suit: Suit::Hearts, is_trump: true };
    assert!(s.apply_action(0, Action::AnnounceMarriage(m, c(Suit::Hearts, Rank::King))).is_ok());
    assert!(matches!(s.phase, Phase::Finished { declarer: 0, declarer_won: true, .. }));
}

#[test]
fn a_mislabelled_marriage_is_refused() {
    let hands = [
        vec![c(Suit::Hearts, Rank::King), c(Suit::Hearts, Rank::Queen), c(Suit::Spades, Rank::Ace)],
        vec![c(Suit::Clubs, Rank::Ace), c(Suit::Clubs, Rank::Ten), c(Suit::Diamonds, Rank::Ace)],
        vec![c(Suit::Diamonds, Rank::Ten), c(Suit::Spades, Rank::Ten), c(Suit::Clubs, Rank::King)],
    ];
    let mut s = playing_hand(hands, [30, 0, 0], [1, 0, 0]);
    let m = Marriage { suit: Suit::Hearts, is_trump: false };
    assert_eq!(
        s.apply_action(0, Action::AnnounceMarriage(m, c(Suit::Hearts, Rank::King))),
        Err("marriage trump flag does not match the trump suit".to_string())
    );
    assert!(s.marriages.is_empty());
    assert_eq!(s.hands[0].len(), 3);
}

#[test]
fn the_last_trick_wins_a_normal_game() {
    let hands = [
        vec![c(Suit::Hearts, Rank::Ace)],
        vec![c(Suit::Spades, Rank::Jack)],
        vec![c(Suit::Spades, Rank::Queen)],
    ];
    let mut s = playing_hand(hands, [20, 30, 30], [2, 1, 1]);
    s.apply_action(0, Action::PlayCard(c(Suit::Hearts, Rank::Ace))).unwrap();
    s.apply_action(1, Action::PlayCard(c(Suit::Spades, Rank::Jack))).unwrap();
    s.apply_action(2, Action::PlayCard(c(Suit::Spades, Rank::Queen))).unwrap();
    assert!(matches!(s.phase, Phase::Finished { declarer: 0, declarer_won: true, .. }));
}

#[test]
fn a_finished_hand_is_recorded_in_the_match_score() {
    let mut score = MatchScore::new();
    score.record_hand(1, false, 3);
    assert_eq!(score.game_points, [3, 0, 3]);
    score.record_hand(1, true, 2);
    assert_eq!(score.game_points, [3, 2, 3]);
    score.record_hand(0, true, 255);
    assert_eq!(score.game_points, [255, 2, 3]);
    assert_eq!(score.winner(), Some(0));
}
