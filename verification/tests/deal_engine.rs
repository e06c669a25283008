use rand::rngs::StdRng;
use rand::{Rng, SeedableRng};
use schnapsen::engine::engine::{GameEngine, MoveSelector};
use schnapsen::engine::player::{Player, RandomPlayer};
use schnapsen::engine::random::RandomSelector;
use schnapsen::engine::validator::{can_spritzen, valid_cards};
use schnapsen::model::action::{Action, GameAnnouncement, NormalGameOutcome, Winner};
use schnapsen::model::card::{Card, Rank, Suit};
use schnapsen::model::game::GameState;
use schnapsen::model::game_type::{DoublingLevel, Eligibility, GameType};
use schnapsen::model::player::{Hand, PlayerId, PlayerState, Role};
use schnapsen::model::state::{DealState, MatchState, Phase, PlayingState, Trick};
use schnapsen::model::types::RankOrdering;

#[test]
fn normal_outcome_from_points() {
    assert_eq!(NormalGameOutcome::from_defender_points(0, false), NormalGameOutcome::ThreePoints);
    assert_eq!(NormalGameOutcome::from_defender_points(20, true), NormalGameOutcome::TwoPoints);
    assert_eq!(NormalGameOutcome::from_defender_points(33, true), NormalGameOutcome::OnePoint);
    assert_eq!(NormalGameOutcome::from_defender_points(50, true), NormalGameOutcome::OnePoint);
}

#[test]
fn game_announcement() {
    let ann = GameAnnouncement::new(GameType::Gang, false);
    assert_eq!(ann.game_type, GameType::Gang);
    assert!(!ann.without_talon);
}

#[test]
fn game_type_points() {
    assert_eq!(GameType::Normal.base_points(), 1);
    assert_eq!(GameType::Bettler.base_points(), 4);
    assert_eq!(GameType::Gang.base_points(), 9);
    assert_eq!(GameType::Bauernschnapser.base_points(), 12);
    assert_eq!(GameType::Herrenschnapser.base_points(), 24);
}

#[test]
fn doubling_multipliers() {
    assert_eq!(DoublingLevel::Undoubled.multiplier(), 1);
    assert_eq!(DoublingLevel::Gespritzt.multiplier(), 2);
    assert_eq!(DoublingLevel::Zurueckgespritzt.multiplier(), 4);
    assert_eq!(DoublingLevel::NochmalZurueckgespritzt.multiplier(), 8);
}

#[test]
fn doubling_raises() {
    assert_eq!(DoublingLevel::Undoubled.raise(), Some(DoublingLevel::Gespritzt));
    assert_eq!(DoublingLevel::Gespritzt.raise(), Some(DoublingLevel::Zurueckgespritzt));
    assert_eq!(DoublingLevel::Zurueckgespritzt.raise(), Some(DoublingLevel::NochmalZurueckgespritzt));
    assert_eq!(DoublingLevel::NochmalZurueckgespritzt.raise(), None);
}

#[test]
fn eligibility_rules() {
    assert_eq!(GameType::Schnapser.eligibility(), Eligibility::CallerOnly);
    assert_eq!(GameType::Kontraschnapser.eligibility(), Eligibility::OpponentsOnly);
    assert_eq!(GameType::Gang.eligibility(), Eligibility::Anyone);
}

#[test]
fn trump_usage() {
    assert!(GameType::Normal.uses_trump());
    assert!(GameType::Bauernschnapser.uses_trump());
    assert!(!GameType::Bettler.uses_trump());
    assert!(!GameType::Gang.uses_trump());
    assert!(!GameType::Farbringerl.uses_trump());
}

#[test]
fn all_by_value_is_sorted() {
    let types = GameType::all_by_value();
    for window in types.windows(2) {
        assert!(window[0].base_points() <= window[1].base_points());
    }
}

#[test]
fn player_id_rotation() {
    assert_eq!(PlayerId::Player0.next(), PlayerId::Player1);
    assert_eq!(PlayerId::Player1.next(), PlayerId::Player2);
    assert_eq!(PlayerId::Player2.next(), PlayerId::Player0);
    assert_eq!(PlayerId::Player0.prev(), PlayerId::Player2);
}

#[test]
fn player_hand_operations() {
    let mut hand = Hand::new();
    let card = Card::new(Suit::Hearts, Rank::Ace);
    hand.add(card);
    assert_eq!(hand.len(), 1);
    assert!(hand.contains(&card));

    let removed = hand.remove(&card);
    assert_eq!(removed, Some(card));
    assert!(hand.is_empty());
}

#[test]
fn hand_marriage_detection() {
    let hand = Hand::from_cards(vec![
        Card::new(Suit::Hearts, Rank::King),
        Card::new(Suit::Hearts, Rank::Queen),
        Card::new(Suit::Spades, Rank::Ace),
    ]);
    assert!(hand.has_marriage(Suit::Hearts));
    assert!(!hand.has_marriage(Suit::Spades));
    assert_eq!(hand.marriages(), vec![Suit::Hearts]);
}

#[test]
fn hand_full_suit() {
    let hand = Hand::from_cards(vec![
        Card::new(Suit::Hearts, Rank::Ace),
        Card::new(Suit::Hearts, Rank::Ten),
        Card::new(Suit::Hearts, Rank::King),
        Card::new(Suit::Hearts, Rank::Queen),
        Card::new(Suit::Hearts, Rank::Jack),
    ]);
    assert!(hand.has_full_suit(Suit::Hearts));
    assert!(!hand.has_full_suit(Suit::Spades));
}

#[test]
fn player_card_points() {
    let mut player = PlayerState::new(PlayerId::Player0, Role::Caller);
    player.tricks_won.push(vec![
        Card::new(Suit::Hearts, Rank::Ace),
        Card::new(Suit::Spades, Rank::Ten),
        Card::new(Suit::Diamonds, Rank::Jack),
    ]);
    assert_eq!(player.card_points(), 11 + 10 + 2);
}

#[test]
fn hand_sorting_orders_by_suit_then_strength() {
    let mut hand = Hand::from_cards(vec![
        Card::new(Suit::Clubs, Rank::Jack),
        Card::new(Suit::Hearts, Rank::Queen),
        Card::new(Suit::Hearts, Rank::Ace),
        Card::new(Suit::Diamonds, Rank::Ten),
    ]);
    hand.sort_by_suit_and_rank();
    assert_eq!(
        hand.cards(),
        &[
            Card::new(Suit::Hearts, Rank::Ace),
            Card::new(Suit::Hearts, Rank::Queen),
            Card::new(Suit::Diamonds, Rank::Ten),
            Card::new(Suit::Clubs, Rank::Jack),
        ]
    );
}

#[test]
fn trick_determines_winner_by_lead_suit() {
    let mut trick = Trick::new();
    trick.play(PlayerId::Player0, Card::new(Suit::Hearts, Rank::Jack));
    trick.play(PlayerId::Player1, Card::new(Suit::Hearts, Rank::Ace));
    trick.play(PlayerId::Player2, Card::new(Suit::Hearts, Rank::Ten));
    let winner = trick.winner(Some(Suit::Spades), &RankOrdering::Standard);
    assert_eq!(winner, Some(PlayerId::Player1));
}

#[test]
fn trick_trump_beats_lead_suit() {
    let mut trick = Trick::new();
    trick.play(PlayerId::Player0, Card::new(Suit::Hearts, Rank::Ace));
    trick.play(PlayerId::Player1, Card::new(Suit::Spades, Rank::Jack));
    trick.play(PlayerId::Player2, Card::new(Suit::Hearts, Rank::Ten));
    let winner = trick.winner(Some(Suit::Spades), &RankOrdering::Standard);
    assert_eq!(winner, Some(PlayerId::Player1));
}

#[test]
fn trick_higher_trump_wins() {
    let mut trick = Trick::new();
    trick.play(PlayerId::Player0, Card::new(Suit::Hearts, Rank::Ace));
    trick.play(PlayerId::Player1, Card::new(Suit::Spades, Rank::Jack));
    trick.play(PlayerId::Player2, Card::new(Suit::Spades, Rank::Ten));
    let winner = trick.winner(Some(Suit::Spades), &RankOrdering::Standard);
    assert_eq!(winner, Some(PlayerId::Player2));
}

#[test]
fn trick_no_trump_off_suit_cannot_win() {
    let mut trick = Trick::new();
    trick.play(PlayerId::Player0, Card::new(Suit::Hearts, Rank::Jack));
    trick.play(PlayerId::Player1, Card::new(Suit::Diamonds, Rank::Ace));
    trick.play(PlayerId::Player2, Card::new(Suit::Clubs, Rank::Ace));
    let winner = trick.winner(None, &RankOrdering::Standard);
    assert_eq!(winner, Some(PlayerId::Player0));
}

#[test]
fn trick_card_points() {
    let mut trick = Trick::new();
    trick.play(PlayerId::Player0, Card::new(Suit::Hearts, Rank::Ace));
    trick.play(PlayerId::Player1, Card::new(Suit::Spades, Rank::Ten));
    trick.play(PlayerId::Player2, Card::new(Suit::Diamonds, Rank::Jack));
    assert_eq!(trick.card_points(), 11 + 10 + 2);
}

#[test]
fn incomplete_trick_has_no_winner() {
    let mut trick = Trick::new();
    trick.play(PlayerId::Player0, Card::new(Suit::Hearts, Rank::Ace));
    assert_eq!(trick.winner(None, &RankOrdering::Standard), None);
    assert_eq!(trick.lead_suit, Some(Suit::Hearts));
}

#[test]
fn deal_state_roles() {
    let state = DealState::new(PlayerId::Player0);
    assert_eq!(state.player(PlayerId::Player0).role, Role::Dealer);
    assert_eq!(state.player(PlayerId::Player1).role, Role::Caller);
    assert_eq!(state.player(PlayerId::Player2).role, Role::Third);
}

#[test]
fn match_state_no_winner_at_start() {
    let state = MatchState::new();
    assert!(state.winner().is_none());
}

#[test]
fn match_state_detects_winner() {
    let mut state = MatchState::new();
    state.scores[1] = 24;
    assert_eq!(state.winner(), Some(PlayerId::Player1));
}

#[test]
fn ace_low_ordering_in_trick() {
    let mut trick = Trick::new();
    trick.play(PlayerId::Player0, Card::new(Suit::Hearts, Rank::Ace));
    trick.play(PlayerId::Player1, Card::new(Suit::Hearts, Rank::Jack));
    trick.play(PlayerId::Player2, Card::new(Suit::Hearts, Rank::Ten));
    let winner = trick.winner(None, &RankOrdering::AceLow);
    assert_eq!(winner, Some(PlayerId::Player2));
}

fn setup_playing_deal(
    hand_cards: Vec<Card>,
    trick_cards: Vec<(PlayerId, Card)>,
    trump: Option<Suit>,
    game_type: GameType,
    lead_player: PlayerId,
) -> DealState {
    let mut deal = DealState::new(PlayerId::Player2);
    deal.trump = trump;
    deal.game_type = Some(game_type);
    deal.announcer = Some(PlayerId::Player1);
    deal.player_mut(PlayerId::Player1).hand = Hand::from_cards(hand_cards);
    let mut trick = Trick::new();
    for (pid, card) in trick_cards {
        trick.play(pid, card);
    }
    deal.phase = Phase::Playing(PlayingState {
        current_trick: trick,
        tricks_completed: 0,
        lead_player,
        announcer_tricks: Vec::new(),
        defender_tricks: Vec::new(),
        announcer_card_points: 0,
        defender_card_points: 0,
        marriages_announced: Vec::new(),
        pending_marriage_play: None,
    });
    deal
}

#[test]
fn must_follow_suit_with_higher_card() {
    let deal = setup_playing_deal(
        vec![Card::new(Suit::Hearts, Rank::King), Card::new(Suit::Hearts, Rank::Ace), Card::new(Suit::Spades, Rank::Ten)],
        vec![(PlayerId::Player0, Card::new(Suit::Hearts, Rank::Ten))],
        Some(Suit::Spades),
        GameType::Normal,
        PlayerId::Player0,
    );
    let valid = valid_cards(&deal, PlayerId::Player1);
    assert_eq!(valid, vec![Card::new(Suit::Hearts, Rank::Ace)]);
}

#[test]
fn must_follow_suit_with_lower_if_no_higher() {
    let deal = setup_playing_deal(
        vec![Card::new(Suit::Hearts, Rank::Jack), Card::new(Suit::Spades, Rank::Ten)],
        vec![(PlayerId::Player0, Card::new(Suit::Hearts, Rank::Ace))],
        Some(Suit::Spades),
        GameType::Normal,
        PlayerId::Player0,
    );
    let valid = valid_cards(&deal, PlayerId::Player1);
    assert_eq!(valid, vec![Card::new(Suit::Hearts, Rank::Jack)]);
}

#[test]
fn must_trump_if_no_suit_cards() {
    let deal = setup_playing_deal(
        vec![Card::new(Suit::Spades, Rank::Jack), Card::new(Suit::Spades, Rank::King), Card::new(Suit::Clubs, Rank::Ace)],
        vec![(PlayerId::Player0, Card::new(Suit::Hearts, Rank::Ace))],
        Some(Suit::Spades),
        GameType::Normal,
        PlayerId::Player0,
    );
    let valid = valid_cards(&deal, PlayerId::Player1);
    assert_eq!(valid.len(), 2);
    assert!(valid.iter().all(|c| c.suit == Suit::Spades));
}

#[test]
fn can_play_anything_if_no_suit_no_trump() {
    let deal = setup_playing_deal(
        vec![Card::new(Suit::Clubs, Rank::Jack), Card::new(Suit::Diamonds, Rank::King)],
        vec![(PlayerId::Player0, Card::new(Suit::Hearts, Rank::Ace))],
        None,
        GameType::Bettler,
        PlayerId::Player0,
    );
    let valid = valid_cards(&deal, PlayerId::Player1);
    assert_eq!(valid.len(), 2);
}

#[test]
fn leading_player_can_play_any_card() {
    let deal = setup_playing_deal(
        vec![Card::new(Suit::Hearts, Rank::Ace), Card::new(Suit::Spades, Rank::Ten), Card::new(Suit::Clubs, Rank::King)],
        vec![],
        Some(Suit::Hearts),
        GameType::Normal,
        PlayerId::Player1,
    );
    let valid = valid_cards(&deal, PlayerId::Player1);
    assert_eq!(valid.len(), 3);
}

#[test]
fn no_cards_outside_playing_phase() {
    let deal = DealState::new(PlayerId::Player0);
    let valid = valid_cards(&deal, PlayerId::Player1);
    assert!(valid.is_empty());
}

#[test]
fn spritzen_alternates_between_the_sides() {
    let mut deal = setup_playing_deal(vec![], vec![], Some(Suit::Hearts), GameType::Normal, PlayerId::Player1);
    assert!(!can_spritzen(&deal, PlayerId::Player1));
    assert!(can_spritzen(&deal, PlayerId::Player0));
    deal.doubling = DoublingLevel::Gespritzt;
    deal.last_doubler = Some(PlayerId::Player0);
    assert!(can_spritzen(&deal, PlayerId::Player1));
    assert!(!can_spritzen(&deal, PlayerId::Player0));
}

#[test]
fn engine_starts_deal() {
    let mut engine = GameEngine::new();
    let mut rng = StdRng::from_os_rng();
    engine.start_deal(&mut rng);
    let deal = engine.match_state.current_deal.as_ref().unwrap();
    assert!(matches!(deal.phase, Phase::CallingTrump));
    for pid in PlayerId::all() {
        assert_eq!(deal.player(pid).hand.len(), 6);
    }
}

#[test]
fn call_trump_transitions_to_bidding() {
    let mut engine = GameEngine::new();
    let mut rng = StdRng::from_os_rng();
    engine.start_deal(&mut rng);
    let caller = engine.match_state.current_deal.as_ref().unwrap().caller;
    engine.apply_action(caller, Action::CallTrump(Suit::Hearts)).unwrap();
    let deal = engine.match_state.current_deal.as_ref().unwrap();
    assert!(matches!(deal.phase, Phase::Bidding(_)));
    assert_eq!(deal.trump, Some(Suit::Hearts));
}

#[test]
fn engine_all_pass_leads_to_normal_game() {
    let mut engine = GameEngine::new();
    let mut rng = StdRng::from_os_rng();
    engine.start_deal(&mut rng);
    let deal = engine.match_state.current_deal.as_ref().unwrap();
    let caller = deal.caller;
    let p2 = caller.next();
    engine.apply_action(caller, Action::CallTrump(Suit::Hearts)).unwrap();
    engine.apply_action(caller, Action::Pass).unwrap();
    engine.apply_action(p2, Action::Pass).unwrap();
    let deal = engine.match_state.current_deal.as_ref().unwrap();
    assert_eq!(deal.game_type, Some(GameType::Normal));
    assert!(matches!(deal.phase, Phase::TalonExchange));
}

#[test]
fn current_player_follows_phase() {
    let mut engine = GameEngine::new();
    let mut rng = StdRng::from_os_rng();
    engine.start_deal(&mut rng);
    let caller = engine.match_state.current_deal.as_ref().unwrap().caller;
    assert_eq!(engine.current_player().unwrap(), caller);
}

#[test]
fn actions_without_a_deal_are_refused() {
    let mut engine = GameEngine::new();
    assert!(engine.apply_action(PlayerId::Player0, Action::Pass).is_err());
    assert!(engine.current_player().is_err());
}

#[test]
fn only_the_caller_calls_trump() {
    let mut engine = GameEngine::new();
    let mut rng = StdRng::seed_from_u64(3);
    engine.start_deal(&mut rng);
    let caller = engine.match_state.current_deal.as_ref().unwrap().caller;
    let r = engine.apply_action(caller.next(), Action::CallTrump(Suit::Clubs));
    assert_eq!(r, Err("Only the caller can call trump".to_string()));
    let deal = engine.match_state.current_deal.as_ref().unwrap();
    assert!(matches!(deal.phase, Phase::CallingTrump));
    assert_eq!(deal.trump, None);
}

#[test]
fn start_deal_gives_the_talon_and_the_whole_deck() {
    let mut engine = GameEngine::new();
    let mut rng = StdRng::seed_from_u64(9);
    engine.start_deal(&mut rng);
    let deal = engine.match_state.current_deal.as_ref().unwrap();
    let mut all: Vec<Card> = Vec::new();
    for pid in PlayerId::all() {
        all.extend(deal.player(pid).hand.cards());
    }
    all.extend(deal.talon.unwrap());
    let set: std::collections::HashSet<Card> = all.into_iter().collect();
    assert_eq!(set.len(), 20);
    assert_eq!(deal.dealer, PlayerId::Player0);
    assert_eq!(deal.caller, PlayerId::Player1);
}

fn play_deal(engine: &mut GameEngine, rng: &mut StdRng, selectors: &mut [&mut dyn MoveSelector; 3]) -> Result<(), String> {
    engine.start_deal(rng);
    loop {
        let deal = engine.match_state.current_deal.as_ref().ok_or("No active deal")?;
        if matches!(deal.phase, Phase::Finished(_)) {
            break;
        }
        let current_player = engine.current_player()?;
        let deal_ref = engine.match_state.current_deal.as_ref().unwrap();
        let action = selectors[current_player.index()].select_action(deal_ref, current_player);
        engine.apply_action(current_player, action)?;
    }
    engine.match_state.advance_dealer();
    Ok(())
}

#[test]
fn random_selector_completes_deal() {
    let mut rng = StdRng::seed_from_u64(42);
    let mut engine = GameEngine::new();
    let mut s0 = RandomSelector::new(StdRng::seed_from_u64(1));
    let mut s1 = RandomSelector::new(StdRng::seed_from_u64(2));
    let mut s2 = RandomSelector::new(StdRng::seed_from_u64(3));
    let result = play_deal(&mut engine, &mut rng, &mut [&mut s0, &mut s1, &mut s2]);
    assert!(result.is_ok(), "Deal should complete without errors: {:?}", result);
    let deal = engine.match_state.current_deal.as_ref().unwrap();
    assert!(matches!(deal.phase, Phase::Finished(_)));
}

#[test]
fn random_selector_multiple_deals() {
    let mut rng = StdRng::seed_from_u64(100);
    let mut engine = GameEngine::new();
    for _ in 0..10 {
        let mut s0 = RandomSelector::new(StdRng::seed_from_u64(rng.random()));
        let mut s1 = RandomSelector::new(StdRng::seed_from_u64(rng.random()));
        let mut s2 = RandomSelector::new(StdRng::seed_from_u64(rng.random()));
        let result = play_deal(&mut engine, &mut rng, &mut [&mut s0, &mut s1, &mut s2]);
        assert!(result.is_ok(), "Deal {} should complete: {:?}", engine.match_state.current_dealer.index(), result);
    }
    let total_score: u32 = engine.match_state.scores.iter().sum();
    assert!(total_score > 0, "Some points should have been scored");
}

#[test]
fn finished_deal_awards_the_winners() {
    let mut rng = StdRng::seed_from_u64(77);
    let mut engine = GameEngine::new();
    let mut s0 = RandomSelector::new(StdRng::seed_from_u64(4));
    let mut s1 = RandomSelector::new(StdRng::seed_from_u64(5));
    let mut s2 = RandomSelector::new(StdRng::seed_from_u64(6));
    play_deal(&mut engine, &mut rng, &mut [&mut s0, &mut s1, &mut s2]).unwrap();
    let deal = engine.match_state.current_deal.as_ref().unwrap();
    match &deal.phase {
        Phase::Finished(f) => {
            let total: u32 = engine.match_state.scores.iter().sum();
            match f.winner {
                Winner::Announcer(p) => {
                    assert_eq!(engine.match_state.scores[p.index()], f.points);
                    assert_eq!(total, f.points);
                }
                Winner::Defenders(p, q) => {
                    assert_ne!(p, q);
                    assert_eq!(total, 2 * f.points);
                }
            }
        }
        _ => panic!("deal not finished"),
    }
}

#[test]
fn random_player_returns_valid_action() {
    let mut rng = StdRng::from_os_rng();
    let state = GameState::deal(0, &mut rng);
    let mut player = RandomPlayer::new("TestBot");
    let action = player.choose_action(&state);
    let valid = state.valid_actions();
    assert!(valid.contains(&action));
}

#[test]
fn random_player_name() {
    let player = RandomPlayer::new("Alice");
    assert_eq!(player.name(), "Alice");
}

#[test]
fn refused_engine_actions_name_the_reason() {
    let mut engine = GameEngine::new();
    assert_eq!(engine.apply_action(PlayerId::Player0, Action::Pass), Err("No active deal".to_string()));
    assert_eq!(engine.current_player(), Err("No active deal".to_string()));
    let mut rng = StdRng::seed_from_u64(3);
    engine.start_deal(&mut rng);
    let caller = engine.match_state.current_deal.as_ref().unwrap().caller;
    assert_eq!(
        engine.apply_action(caller, Action::Pass),
        Err("Invalid action Pass in current phase".to_string())
    );
    assert_eq!(
        engine.apply_action(caller.next(), Action::CallTrump(Suit::Hearts)),
        Err("Only the caller can call trump".to_string())
    );
    engine.apply_action(caller, Action::CallTrump(Suit::Hearts)).unwrap();
    assert_eq!(
        engine.apply_action(caller.next(), Action::AnnounceGame(GameAnnouncement::new(GameType::Schnapser, false))),
        Err("Only the caller can announce this game".to_string())
    );
    assert_eq!(
        engine.apply_action(caller, Action::AnnounceGame(GameAnnouncement::new(GameType::Kontraschnapser, false))),
        Err("The caller cannot announce this game".to_string())
    );
}

#[test]
fn only_the_seat_to_act_may_play_a_card() {
    let mut engine = GameEngine::new();
    let mut rng = StdRng::seed_from_u64(17);
    engine.start_deal(&mut rng);
    let caller = engine.match_state.current_deal.as_ref().unwrap().caller;
    engine.apply_action(caller, Action::CallTrump(Suit::Hearts)).unwrap();
    engine.apply_action(caller, Action::AnnounceGame(GameAnnouncement::new(GameType::Gang, true))).unwrap();
    let to_act = engine.current_player().unwrap();
    let other = to_act.next();
    let deal = engine.match_state.current_deal.as_ref().unwrap();
    let card = deal.player(other).hand.cards()[0];
    let before = engine.match_state.current_deal.clone().unwrap();
    assert_eq!(engine.apply_action(other, Action::PlayCard(card)), Err("Not this player's turn".to_string()));
    let after = engine.match_state.current_deal.as_ref().unwrap();
    assert_eq!(after.player(other).hand.cards(), before.player(other).hand.cards());
}
