use schnapsen::rules::scoring::{
    normal_game_base_points, score_round, BummerlMark, MatchScore, MatchScoringMode, PlayerId,
    PointAward, RoundScoringInput, RoundWinnerSide, Spritzen,
};
use schnapsen::rules::variant::{
    DeclarerConstraint, GameDeclaration, RankOrder, RegionalOptions, RoundObjective, TrumpRule,
};

#[test]
fn normal_game_points_respect_thresholds() {
    assert_eq!(normal_game_base_points(40, 1), 1);
    assert_eq!(normal_game_base_points(32, 1), 2);
    assert_eq!(normal_game_base_points(0, 0), 3);
}

#[test]
fn spritzen_doubles_points() {
    let doubled = Spritzen::new().raise();
    assert_eq!(doubled.multiplier(), 2);
    assert_eq!(doubled.apply(9), 18);
}

#[test]
fn defenders_get_both_awards_when_declarer_loses() {
    let awards = score_round(RoundScoringInput {
        declarer: PlayerId::P0,
        declaration: GameDeclaration::Gang,
        winner_side: RoundWinnerSide::Defenders,
        normal_game_defender_points: None,
        normal_game_defender_tricks: None,
        spritzen: Spritzen::new(),
    });
    assert_eq!(awards.len(), 2);
    assert!(awards.iter().all(|award| award.points == 9));
}

#[test]
fn declarer_win_in_a_normal_game_uses_the_defenders_points() {
    let awards = score_round(RoundScoringInput {
        declarer: PlayerId::P1,
        declaration: GameDeclaration::Normal,
        winner_side: RoundWinnerSide::Declarer,
        normal_game_defender_points: Some(20),
        normal_game_defender_tricks: Some(2),
        spritzen: Spritzen::new().raise().raise(),
    });
    assert_eq!(awards, vec![PointAward { player: PlayerId::P1, points: 8 }]);
    let missing = score_round(RoundScoringInput {
        declarer: PlayerId::P2,
        declaration: GameDeclaration::Normal,
        winner_side: RoundWinnerSide::Defenders,
        normal_game_defender_points: None,
        normal_game_defender_tricks: None,
        spritzen: Spritzen::default(),
    });
    assert_eq!(
        missing,
        vec![PointAward { player: PlayerId::P0, points: 1 }, PointAward { player: PlayerId::P1, points: 1 }]
    );
}

#[test]
fn spritzen_levels_and_saturation() {
    let mut s = Spritzen::new();
    assert_eq!(s.level(), 0);
    assert_eq!(s.multiplier(), 1);
    for _ in 0..300 {
        s = s.raise();
    }
    assert_eq!(s.level(), 255);
    assert_eq!(BummerlMark::Bummerl.bummerl_units(), 1);
    assert_eq!(BummerlMark::Schneider.bummerl_units(), 2);
    assert_eq!(BummerlMark::Retourschneider.bummerl_units(), 4);
}

#[test]
fn match_score_counts_up_and_down() {
    let mut up = MatchScore::new(MatchScoringMode::CountUpTo(10));
    assert_eq!(up.points, [0, 0, 0]);
    up.apply_awards(&[PointAward { player: PlayerId::P2, points: 6 }, PointAward { player: PlayerId::P2, points: 4 }]);
    assert_eq!(up.points, [0, 0, 10]);
    assert_eq!(up.winner(), Some(PlayerId::P2));

    let mut down = MatchScore::new(MatchScoringMode::CountDownFrom(7));
    assert_eq!(down.points, [7, 7, 7]);
    assert_eq!(down.winner(), None);
    down.apply_awards(&[PointAward { player: PlayerId::P1, points: 7 }, PointAward { player: PlayerId::P0, points: 3 }]);
    assert_eq!(down.points, [4, 0, 7]);
    assert_eq!(down.winner(), Some(PlayerId::P1));
}

#[test]
fn declarations_have_non_zero_points() {
    for declaration in GameDeclaration::ALL {
        if declaration == GameDeclaration::Normal {
            continue;
        }
        assert!(declaration.base_points() > 0);
    }
}

#[test]
fn normal_game_uses_standard_order_and_trump() {
    let info = GameDeclaration::Normal.info();
    assert_eq!(info.rank_order, RankOrder::Standard);
    assert_eq!(info.trump_rule, TrumpRule::CalledTrump);
}

#[test]
fn regional_options_gate_regional_declarations() {
    let options = RegionalOptions::default();
    assert!(!options.is_allowed(GameDeclaration::Assenbettler));
    assert!(options.is_allowed(GameDeclaration::Gang));
}

#[test]
fn declaration_table_entries() {
    let info = GameDeclaration::Kontraschnapser.info();
    assert_eq!(info.base_points, 12);
    assert_eq!(info.objective, RoundObjective::SchnapserObjective);
    assert_eq!(info.declarer_constraint, DeclarerConstraint::DefenderOnly);
    assert!(!info.regional_only);
    assert_eq!(GameDeclaration::Koenigsgang.rank_order(), RankOrder::Koenigsgang);
    assert_eq!(GameDeclaration::Bauernloch.trump_rule(), TrumpRule::CalledTrump);
    assert_eq!(GameDeclaration::Farbenringerl.objective(), RoundObjective::SuitCollectionObjective);
    let mut options = RegionalOptions::default();
    options.allow_assenbettler = true;
    assert!(options.is_allowed(GameDeclaration::Assenbettler));
    assert!(!options.is_allowed(GameDeclaration::Plauderer));
}
