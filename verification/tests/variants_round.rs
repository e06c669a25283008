use std::cmp::Ordering;
use std::collections::HashSet;

use rand::rngs::StdRng;
use rand::SeedableRng;
use schnapsen::round::{
    apply_move, legal_cards_for_player, round_summary, setup_demo_normal_round, valid_moves,
    EngineError, RandomMoveEngine,
};
use schnapsen::variants::{
    marriage_value, schnapsen_deck, trick_winner, highest_card_in_suit, Card, CurrentTrick,
    DeclarerRestriction, DoublingCall, DoublingState, GameAnnouncement, GameMove, GamePhase,
    GameState, GameVariant, GangVsZehnergangRule, PlayerId, PlayerRole, PlayerState, Rank,
    RankOrder, Ruleset, Suit, TrumpPolicy,
};

#[test]
fn deck_has_20_unique_cards() {
    let deck = schnapsen_deck();
    assert_eq!(deck.len(), 20);
    let unique = deck.into_iter().collect::<HashSet<_>>();
    assert_eq!(unique.len(), 20);
}

#[test]
fn variant_specs_map_expected_properties() {
    let zehnergang = GameVariant::Zehnergang.spec();
    assert_eq!(zehnergang.base_points, 10);
    assert_eq!(zehnergang.trump_policy, TrumpPolicy::NoTrump);
    assert_eq!(zehnergang.rank_order, RankOrder::AceLow);

    let kontra = GameVariant::Kontraschnapser.spec();
    assert_eq!(kontra.base_points, 12);
    assert_eq!(kontra.declarer_restriction, DeclarerRestriction::DefenderOnly);
    assert!(GameVariant::Kontraschnapser.can_be_declared_by(PlayerRole::Defender));
    assert!(!GameVariant::Kontraschnapser.can_be_declared_by(PlayerRole::Caller));
}

#[test]
fn trick_winner_uses_trump_when_present() {
    let cards = vec![
        (PlayerId::One, Card::new(Suit::Hearts, Rank::Ace)),
        (PlayerId::Two, Card::new(Suit::Hearts, Rank::Ten)),
        (PlayerId::Three, Card::new(Suit::Clubs, Rank::Under)),
    ];
    let winner = trick_winner(&cards, Some(Suit::Clubs), RankOrder::Standard);
    assert_eq!(winner, Some(PlayerId::Three));
}

#[test]
fn trick_winner_respects_ace_low_order() {
    let cards = vec![
        (PlayerId::One, Card::new(Suit::Spades, Rank::Ace)),
        (PlayerId::Two, Card::new(Suit::Spades, Rank::Under)),
        (PlayerId::Three, Card::new(Suit::Spades, Rank::Ten)),
    ];
    let winner = trick_winner(&cards, None, RankOrder::AceLow);
    assert_eq!(winner, Some(PlayerId::Three));
}

#[test]
fn doubling_multiplier_progression() {
    let mut state = DoublingState::default();
    assert_eq!(state.multiplier(), 1);
    assert!(state.register_call(DoublingCall::Spritzen));
    assert_eq!(state.multiplier(), 2);
    assert!(state.register_call(DoublingCall::Retour));
    assert_eq!(state.multiplier(), 4);
    assert!(state.register_call(DoublingCall::Re));
    assert_eq!(state.multiplier(), 8);
    assert!(!state.register_call(DoublingCall::Re));
}

#[test]
fn out_of_order_doubling_call_is_refused() {
    let mut state = DoublingState::new();
    assert!(!state.register_call(DoublingCall::Re));
    assert_eq!(state.multiplier(), 1);
}

#[test]
fn trick_winner_of_no_cards_and_highest_card() {
    assert_eq!(trick_winner(&[], Some(Suit::Clubs), RankOrder::Standard), None);
    let cards = [Card::new(Suit::Hearts, Rank::King), Card::new(Suit::Spades, Rank::Ace), Card::new(Suit::Hearts, Rank::Ten)];
    assert_eq!(highest_card_in_suit(&cards, Suit::Hearts, RankOrder::Standard), Some(Card::new(Suit::Hearts, Rank::Ten)));
    assert_eq!(highest_card_in_suit(&cards, Suit::Clubs, RankOrder::Standard), None);
    assert_eq!(Card::new(Suit::Hearts, Rank::Ober).label(), "OH");
    assert_eq!(PlayerId::Two.label(), "P2");
    assert_eq!(marriage_value(Suit::Hearts, Some(Suit::Hearts)), 40);
    assert_eq!(marriage_value(Suit::Clubs, Some(Suit::Hearts)), 20);
}

#[test]
fn rulesets_and_announcement_order() {
    let classic = Ruleset::classic();
    assert!(classic.is_variant_allowed(GameVariant::Gang));
    assert!(!classic.is_variant_allowed(GameVariant::Zehnergang));
    let all = Ruleset::all_variants();
    assert_eq!(all.allowed_variants.len(), 16);
    assert!(all.is_variant_allowed(GameVariant::Zehnergang));
    let gang = GameAnnouncement { player: PlayerId::One, variant: GameVariant::Gang, without_talon: false };
    let zehner = GameAnnouncement { player: PlayerId::Two, variant: GameVariant::Zehnergang, without_talon: false };
    assert_eq!(classic.compare_announcements(&gang, &zehner, PlayerId::One), Ordering::Less);
    let mut priority = Ruleset::classic();
    priority.gang_vs_zehnergang = GangVsZehnergangRule::GangHasPriority;
    assert_eq!(priority.compare_announcements(&gang, &zehner, PlayerId::Three), Ordering::Greater);
    let gang2 = GameAnnouncement { player: PlayerId::Two, variant: GameVariant::Gang, without_talon: false };
    assert_eq!(classic.compare_announcements(&gang, &gang2, PlayerId::One), Ordering::Greater);
    assert_eq!(classic.compare_announcements(&gang, &gang2, PlayerId::Three), Ordering::Equal);
    let gang_bare = GameAnnouncement { player: PlayerId::Two, variant: GameVariant::Gang, without_talon: true };
    assert_eq!(classic.compare_announcements(&gang, &gang_bare, PlayerId::One), Ordering::Less);
}

fn playing_state_with_hands(
    active_player: PlayerId,
    leader: PlayerId,
    trump: Option<Suit>,
    hands: [Vec<Card>; 3],
    trick_cards: Vec<(PlayerId, Card)>,
) -> GameState {
    let dealer = PlayerId::Three;
    let mut state = GameState::empty(Ruleset::classic(), dealer, GameVariant::Normal);
    state.phase = GamePhase::Playing;
    state.active_player = active_player;
    state.current_trick = CurrentTrick { leader, cards: trick_cards };
    state.trump = trump;
    state.variant = GameVariant::Normal;
    state.players = hands.map(|hand| PlayerState { hand, ..PlayerState::default() });
    state
}

#[test]
fn legal_cards_enforce_higher_same_suit_if_possible() {
    let state = playing_state_with_hands(
        PlayerId::Two,
        PlayerId::One,
        Some(Suit::Clubs),
        [
            vec![],
            vec![Card::new(Suit::Hearts, Rank::Ace), Card::new(Suit::Hearts, Rank::Under), Card::new(Suit::Spades, Rank::Ace)],
            vec![],
        ],
        vec![(PlayerId::One, Card::new(Suit::Hearts, Rank::King))],
    );
    let legal = legal_cards_for_player(&state, PlayerId::Two);
    assert_eq!(legal, vec![Card::new(Suit::Hearts, Rank::Ace)]);
}

#[test]
fn legal_cards_force_trump_if_no_lead_suit() {
    let state = playing_state_with_hands(
        PlayerId::Two,
        PlayerId::One,
        Some(Suit::Clubs),
        [vec![], vec![Card::new(Suit::Clubs, Rank::Under), Card::new(Suit::Spades, Rank::Ace)], vec![]],
        vec![(PlayerId::One, Card::new(Suit::Hearts, Rank::King))],
    );
    let legal = legal_cards_for_player(&state, PlayerId::Two);
    assert_eq!(legal, vec![Card::new(Suit::Clubs, Rank::Under)]);
}

#[test]
fn apply_move_resolves_trick_and_completes_round() {
    let mut state = playing_state_with_hands(
        PlayerId::One,
        PlayerId::One,
        Some(Suit::Clubs),
        [
            vec![Card::new(Suit::Hearts, Rank::King)],
            vec![Card::new(Suit::Hearts, Rank::Under)],
            vec![Card::new(Suit::Clubs, Rank::Ace)],
        ],
        vec![],
    );
    apply_move(&mut state, GameMove::PlayCard { player: PlayerId::One, card: Card::new(Suit::Hearts, Rank::King) })
        .expect("first card should be legal");
    apply_move(&mut state, GameMove::PlayCard { player: PlayerId::Two, card: Card::new(Suit::Hearts, Rank::Under) })
        .expect("second card should be legal");
    apply_move(&mut state, GameMove::PlayCard { player: PlayerId::Three, card: Card::new(Suit::Clubs, Rank::Ace) })
        .expect("third card should be legal");
    assert!(matches!(state.phase, GamePhase::Completed));
    assert_eq!(state.completed_tricks.len(), 1);
    assert_eq!(state.completed_tricks[0].winner, PlayerId::Three);
    assert_eq!(state.player(PlayerId::Three).won_cards.len(), 3);

    let summary = round_summary(&state).unwrap();
    assert_eq!(summary.winner, PlayerId::Three);
    assert_eq!(summary.card_points, [0, 0, 17]);
    assert_eq!(summary.won_tricks, [0, 0, 1]);
}

#[test]
fn engine_errors_name_the_problem() {
    let mut state = playing_state_with_hands(
        PlayerId::One,
        PlayerId::One,
        None,
        [vec![Card::new(Suit::Hearts, Rank::King)], vec![Card::new(Suit::Hearts, Rank::Under)], vec![]],
        vec![],
    );
    let r = apply_move(&mut state, GameMove::PlayCard { player: PlayerId::Two, card: Card::new(Suit::Hearts, Rank::Under) });
    assert_eq!(r, Err(EngineError::NotPlayersTurn { expected: PlayerId::One, got: PlayerId::Two }));
    let r = apply_move(&mut state, GameMove::PlayCard { player: PlayerId::One, card: Card::new(Suit::Clubs, Rank::Ace) });
    assert_eq!(r, Err(EngineError::IllegalCardPlay(Card::new(Suit::Clubs, Rank::Ace))));
    let r = apply_move(&mut state, GameMove::Pass { player: PlayerId::One });
    assert_eq!(r, Err(EngineError::UnsupportedMove));
    assert_eq!(
        EngineError::NotPlayersTurn { expected: PlayerId::One, got: PlayerId::Two }.message(),
        "expected player P1, got P2"
    );
    state.phase = GamePhase::Completed;
    let r = apply_move(&mut state, GameMove::PlayCard { player: PlayerId::One, card: Card::new(Suit::Hearts, Rank::King) });
    assert_eq!(r, Err(EngineError::NotInPlayingPhase));
    assert_eq!(state.player(PlayerId::One).hand.len(), 1);
}

#[test]
fn summary_only_for_finished_rounds() {
    let state = GameState::empty(Ruleset::classic(), PlayerId::One, GameVariant::Normal);
    assert!(round_summary(&state).is_none());
    assert_eq!(state.caller, PlayerId::Two);
    assert_eq!(state.active_player, PlayerId::Two);
}

#[test]
fn random_engine_returns_legal_move() {
    let mut rng = StdRng::seed_from_u64(7);
    let state = setup_demo_normal_round(&mut rng);
    let legal = valid_moves(&state);
    assert!(!legal.is_empty());
    let mut engine = RandomMoveEngine::new(rng);
    let picked = engine.pick_random_valid_move(&state).expect("at least one legal move should exist");
    assert!(legal.contains(&picked));
}

#[test]
fn demo_round_deals_the_whole_deck() {
    let mut rng = StdRng::seed_from_u64(21);
    let state = setup_demo_normal_round(&mut rng);
    let mut all: Vec<Card> = Vec::new();
    for p in PlayerId::ALL {
        assert_eq!(state.player(p).hand.len(), 6);
        all.extend(state.player(p).hand.iter());
    }
    all.extend(state.talon.iter());
    let set: HashSet<Card> = all.into_iter().collect();
    assert_eq!(set.len(), 20);
    assert_eq!(state.trump, Some(state.player(state.caller).hand[0].suit));
    assert_eq!(state.active_player, state.caller);
}

#[test]
fn the_plauderer_is_played_with_trump() {
    assert_eq!(GameVariant::Plauderer.trump_policy(), TrumpPolicy::CalledTrump);
    assert_eq!(GameVariant::Gang.trump_policy(), TrumpPolicy::NoTrump);
}
