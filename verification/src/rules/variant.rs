//! Declared game types and their metadata, with the regional switches.

use vstd::prelude::*;

verus! {

/// The order of the ranks within a suit in a declaration: the standard order, the order
/// with the Ace lowest, and the orders of the Koenigsgang and the Damengang.
#[derive(Clone, Copy, Debug, Eq, PartialEq, Hash, Structural)]
pub enum RankOrder {
    Standard,
    AceLow,
    Koenigsgang,
    Damengang,
}

/// Declared game types in Dreierschnapsen and common regional variants.
#[derive(Clone, Copy, Debug, Eq, PartialEq, Hash, Structural)]
pub enum GameDeclaration {
    Normal,
    Bettler,
    Assenbettler,
    AssBettler,
    Schnapser,
    Plauderer,
    Damengang,
    Koenigsgang,
    Gang,
    Zehnergang,
    Bauernloch,
    Bauernschnapser,
    Kontraschnapser,
    Farbenringerl,
    Kontrabauernschnapser,
    Herrenschnapser,
}

impl GameDeclaration {
    pub const ALL: [GameDeclaration; 16] = [
        GameDeclaration::Normal,
        GameDeclaration::Bettler,
        GameDeclaration::Assenbettler,
        GameDeclaration::AssBettler,
        GameDeclaration::Schnapser,
        GameDeclaration::Plauderer,
        GameDeclaration::Damengang,
        GameDeclaration::Koenigsgang,
        GameDeclaration::Gang,
        GameDeclaration::Zehnergang,
        GameDeclaration::Bauernloch,
        GameDeclaration::Bauernschnapser,
        GameDeclaration::Kontraschnapser,
        GameDeclaration::Farbenringerl,
        GameDeclaration::Kontrabauernschnapser,
        GameDeclaration::Herrenschnapser,
    ];

    /// The declarations in the order of `ALL`.
    pub open spec fn all_spec() -> Seq<GameDeclaration> {
        seq![
            GameDeclaration::Normal,
        GameDeclaration::Bettler,
        GameDeclaration::Assenbettler,
        GameDeclaration::AssBettler,
        GameDeclaration::Schnapser,
        GameDeclaration::Plauderer,
        GameDeclaration::Damengang,
        GameDeclaration::Koenigsgang,
        GameDeclaration::Gang,
        GameDeclaration::Zehnergang,
        GameDeclaration::Bauernloch,
        GameDeclaration::Bauernschnapser,
        GameDeclaration::Kontraschnapser,
        GameDeclaration::Farbenringerl,
        GameDeclaration::Kontrabauernschnapser,
        GameDeclaration::Herrenschnapser,
        ]
    }

    /// All metadata of the declaration.
    pub open spec fn info_spec(self) -> DeclarationInfo {
        DeclarationInfo {
            declaration: self,
            base_points: self.base_points_spec(),
            objective: self.objective_spec(),
            trump_rule: self.trump_rule_spec(),
            rank_order: self.rank_order_spec(),
            declarer_constraint: self.declarer_constraint_spec(),
            regional_only: self.regional_only_spec(),
        }
    }

    pub fn info(self) -> (r: DeclarationInfo)
        ensures
            r == self.info_spec(),
    {
        DeclarationInfo {
            declaration: self,
            base_points: self.base_points(),
            objective: self.objective(),
            trump_rule: self.trump_rule(),
            rank_order: self.rank_order(),
            declarer_constraint: self.declarer_constraint(),
            regional_only: self.regional_only(),
        }
    }

    /// The base match points of the declaration.
    pub open spec fn base_points_spec(self) -> u8 {
        match self {
            GameDeclaration::Normal => 1,
            GameDeclaration::Bettler => 4,
            GameDeclaration::Assenbettler => 5,
            GameDeclaration::AssBettler => 5,
            GameDeclaration::Schnapser => 6,
            GameDeclaration::Plauderer => 7,
            GameDeclaration::Damengang => 7,
            GameDeclaration::Koenigsgang => 8,
            GameDeclaration::Gang => 9,
            GameDeclaration::Zehnergang => 10,
            GameDeclaration::Bauernloch => 12,
            GameDeclaration::Bauernschnapser => 12,
            GameDeclaration::Kontraschnapser => 12,
            GameDeclaration::Farbenringerl => 18,
            GameDeclaration::Kontrabauernschnapser => 24,
            GameDeclaration::Herrenschnapser => 24,
        }
    }

    pub fn base_points(self) -> (r: u8)
        ensures
            r == self.base_points_spec(),
    {
        match self {
            GameDeclaration::Normal => 1,
            GameDeclaration::Bettler => 4,
            GameDeclaration::Assenbettler => 5,
            GameDeclaration::AssBettler => 5,
            GameDeclaration::Schnapser => 6,
            GameDeclaration::Plauderer => 7,
            GameDeclaration::Damengang => 7,
            GameDeclaration::Koenigsgang => 8,
            GameDeclaration::Gang => 9,
            GameDeclaration::Zehnergang => 10,
            GameDeclaration::Bauernloch => 12,
            GameDeclaration::Bauernschnapser => 12,
            GameDeclaration::Kontraschnapser => 12,
            GameDeclaration::Farbenringerl => 18,
            GameDeclaration::Kontrabauernschnapser => 24,
            GameDeclaration::Herrenschnapser => 24,
        }
    }
    /// What the declarer must achieve.
    pub open spec fn objective_spec(self) -> RoundObjective {
        match self {
            GameDeclaration::Normal => RoundObjective::Reach66OrLastTrick,
            GameDeclaration::Bettler => RoundObjective::LoseEveryTrick,
            GameDeclaration::Assenbettler => RoundObjective::LoseEveryTrick,
            GameDeclaration::AssBettler => RoundObjective::LoseEveryTrick,
            GameDeclaration::Schnapser => RoundObjective::SchnapserObjective,
            GameDeclaration::Plauderer => RoundObjective::VariantSpecific,
            GameDeclaration::Damengang => RoundObjective::WinEveryTrick,
            GameDeclaration::Koenigsgang => RoundObjective::WinEveryTrick,
            GameDeclaration::Gang => RoundObjective::WinEveryTrick,
            GameDeclaration::Zehnergang => RoundObjective::WinEveryTrick,
            GameDeclaration::Bauernloch => RoundObjective::WinEveryTrick,
            GameDeclaration::Bauernschnapser => RoundObjective::WinEveryTrick,
            GameDeclaration::Kontraschnapser => RoundObjective::SchnapserObjective,
            GameDeclaration::Farbenringerl => RoundObjective::SuitCollectionObjective,
            GameDeclaration::Kontrabauernschnapser => RoundObjective::WinEveryTrick,
            GameDeclaration::Herrenschnapser => RoundObjective::SuitCollectionObjective,
        }
    }

    pub fn objective(self) -> (r: RoundObjective)
        ensures
            r == self.objective_spec(),
    {
        match self {
            GameDeclaration::Normal => RoundObjective::Reach66OrLastTrick,
            GameDeclaration::Bettler => RoundObjective::LoseEveryTrick,
            GameDeclaration::Assenbettler => RoundObjective::LoseEveryTrick,
            GameDeclaration::AssBettler => RoundObjective::LoseEveryTrick,
            GameDeclaration::Schnapser => RoundObjective::SchnapserObjective,
            GameDeclaration::Plauderer => RoundObjective::VariantSpecific,
            GameDeclaration::Damengang => RoundObjective::WinEveryTrick,
            GameDeclaration::Koenigsgang => RoundObjective::WinEveryTrick,
            GameDeclaration::Gang => RoundObjective::WinEveryTrick,
            GameDeclaration::Zehnergang => RoundObjective::WinEveryTrick,
            GameDeclaration::Bauernloch => RoundObjective::WinEveryTrick,
            GameDeclaration::Bauernschnapser => RoundObjective::WinEveryTrick,
            GameDeclaration::Kontraschnapser => RoundObjective::SchnapserObjective,
            GameDeclaration::Farbenringerl => RoundObjective::SuitCollectionObjective,
            GameDeclaration::Kontrabauernschnapser => RoundObjective::WinEveryTrick,
            GameDeclaration::Herrenschnapser => RoundObjective::SuitCollectionObjective,
        }
    }
    /// Whether the called trump counts.
    pub open spec fn trump_rule_spec(self) -> TrumpRule {
        match self {
            GameDeclaration::Normal => TrumpRule::CalledTrump,
            GameDeclaration::Bettler => TrumpRule::NoTrump,
            GameDeclaration::Assenbettler => TrumpRule::NoTrump,
            GameDeclaration::AssBettler => TrumpRule::NoTrump,
            GameDeclaration::Schnapser => TrumpRule::CalledTrump,
            GameDeclaration::Plauderer => TrumpRule::CalledTrump,
            GameDeclaration::Damengang => TrumpRule::NoTrump,
            GameDeclaration::Koenigsgang => TrumpRule::NoTrump,
            GameDeclaration::Gang => TrumpRule::NoTrump,
            GameDeclaration::Zehnergang => TrumpRule::NoTrump,
            GameDeclaration::Bauernloch => TrumpRule::CalledTrump,
            GameDeclaration::Bauernschnapser => TrumpRule::CalledTrump,
            GameDeclaration::Kontraschnapser => TrumpRule::CalledTrump,
            GameDeclaration::Farbenringerl => TrumpRule::NoTrump,
            GameDeclaration::Kontrabauernschnapser => TrumpRule::CalledTrump,
            GameDeclaration::Herrenschnapser => TrumpRule::CalledTrump,
        }
    }

    pub fn trump_rule(self) -> (r: TrumpRule)
        ensures
            r == self.trump_rule_spec(),
    {
        match self {
            GameDeclaration::Normal => TrumpRule::CalledTrump,
            GameDeclaration::Bettler => TrumpRule::NoTrump,
            GameDeclaration::Assenbettler => TrumpRule::NoTrump,
            GameDeclaration::AssBettler => TrumpRule::NoTrump,
            GameDeclaration::Schnapser => TrumpRule::CalledTrump,
            GameDeclaration::Plauderer => TrumpRule::CalledTrump,
            GameDeclaration::Damengang => TrumpRule::NoTrump,
            GameDeclaration::Koenigsgang => TrumpRule::NoTrump,
            GameDeclaration::Gang => TrumpRule::NoTrump,
            GameDeclaration::Zehnergang => TrumpRule::NoTrump,
            GameDeclaration::Bauernloch => TrumpRule::CalledTrump,
            GameDeclaration::Bauernschnapser => TrumpRule::CalledTrump,
            GameDeclaration::Kontraschnapser => TrumpRule::CalledTrump,
            GameDeclaration::Farbenringerl => TrumpRule::NoTrump,
            GameDeclaration::Kontrabauernschnapser => TrumpRule::CalledTrump,
            GameDeclaration::Herrenschnapser => TrumpRule::CalledTrump,
        }
    }
    /// The order of the ranks within a suit.
    pub open spec fn rank_order_spec(self) -> RankOrder {
        match self {
            GameDeclaration::Normal => RankOrder::Standard,
            GameDeclaration::Bettler => RankOrder::Standard,
            GameDeclaration::Assenbettler => RankOrder::AceLow,
            GameDeclaration::AssBettler => RankOrder::Standard,
            GameDeclaration::Schnapser => RankOrder::Standard,
            GameDeclaration::Plauderer => RankOrder::Standard,
            GameDeclaration::Damengang => RankOrder::Damengang,
            GameDeclaration::Koenigsgang => RankOrder::Koenigsgang,
            GameDeclaration::Gang => RankOrder::Standard,
            GameDeclaration::Zehnergang => RankOrder::AceLow,
            GameDeclaration::Bauernloch => RankOrder::AceLow,
            GameDeclaration::Bauernschnapser => RankOrder::Standard,
            GameDeclaration::Kontraschnapser => RankOrder::Standard,
            GameDeclaration::Farbenringerl => RankOrder::Standard,
            GameDeclaration::Kontrabauernschnapser => RankOrder::Standard,
            GameDeclaration::Herrenschnapser => RankOrder::Standard,
        }
    }

    pub fn rank_order(self) -> (r: RankOrder)
        ensures
            r == self.rank_order_spec(),
    {
        match self {
            GameDeclaration::Normal => RankOrder::Standard,
            GameDeclaration::Bettler => RankOrder::Standard,
            GameDeclaration::Assenbettler => RankOrder::AceLow,
            GameDeclaration::AssBettler => RankOrder::Standard,
            GameDeclaration::Schnapser => RankOrder::Standard,
            GameDeclaration::Plauderer => RankOrder::Standard,
            GameDeclaration::Damengang => RankOrder::Damengang,
            GameDeclaration::Koenigsgang => RankOrder::Koenigsgang,
            GameDeclaration::Gang => RankOrder::Standard,
            GameDeclaration::Zehnergang => RankOrder::AceLow,
            GameDeclaration::Bauernloch => RankOrder::AceLow,
            GameDeclaration::Bauernschnapser => RankOrder::Standard,
            GameDeclaration::Kontraschnapser => RankOrder::Standard,
            GameDeclaration::Farbenringerl => RankOrder::Standard,
            GameDeclaration::Kontrabauernschnapser => RankOrder::Standard,
            GameDeclaration::Herrenschnapser => RankOrder::Standard,
        }
    }
    /// Who may declare it.
    pub open spec fn declarer_constraint_spec(self) -> DeclarerConstraint {
        match self {
            GameDeclaration::Normal => DeclarerConstraint::AnyPlayer,
            GameDeclaration::Bettler => DeclarerConstraint::AnyPlayer,
            GameDeclaration::Assenbettler => DeclarerConstraint::AnyPlayer,
            GameDeclaration::AssBettler => DeclarerConstraint::AnyPlayer,
            GameDeclaration::Schnapser => DeclarerConstraint::CallerOnly,
            GameDeclaration::Plauderer => DeclarerConstraint::AnyPlayer,
            GameDeclaration::Damengang => DeclarerConstraint::AnyPlayer,
            GameDeclaration::Koenigsgang => DeclarerConstraint::AnyPlayer,
            GameDeclaration::Gang => DeclarerConstraint::AnyPlayer,
            GameDeclaration::Zehnergang => DeclarerConstraint::AnyPlayer,
            GameDeclaration::Bauernloch => DeclarerConstraint::CallerOnly,
            GameDeclaration::Bauernschnapser => DeclarerConstraint::CallerOnly,
            GameDeclaration::Kontraschnapser => DeclarerConstraint::DefenderOnly,
            GameDeclaration::Farbenringerl => DeclarerConstraint::AnyPlayer,
            GameDeclaration::Kontrabauernschnapser => DeclarerConstraint::DefenderOnly,
            GameDeclaration::Herrenschnapser => DeclarerConstraint::CallerOnly,
        }
    }

    pub fn declarer_constraint(self) -> (r: DeclarerConstraint)
        ensures
            r == self.declarer_constraint_spec(),
    {
        match self {
            GameDeclaration::Normal => DeclarerConstraint::AnyPlayer,
            GameDeclaration::Bettler => DeclarerConstraint::AnyPlayer,
            GameDeclaration::Assenbettler => DeclarerConstraint::AnyPlayer,
            GameDeclaration::AssBettler => DeclarerConstraint::AnyPlayer,
            GameDeclaration::Schnapser => DeclarerConstraint::CallerOnly,
            GameDeclaration::Plauderer => DeclarerConstraint::AnyPlayer,
            GameDeclaration::Damengang => DeclarerConstraint::AnyPlayer,
            GameDeclaration::Koenigsgang => DeclarerConstraint::AnyPlayer,
            GameDeclaration::Gang => DeclarerConstraint::AnyPlayer,
            GameDeclaration::Zehnergang => DeclarerConstraint::AnyPlayer,
            GameDeclaration::Bauernloch => DeclarerConstraint::CallerOnly,
            GameDeclaration::Bauernschnapser => DeclarerConstraint::CallerOnly,
            GameDeclaration::Kontraschnapser => DeclarerConstraint::DefenderOnly,
            GameDeclaration::Farbenringerl => DeclarerConstraint::AnyPlayer,
            GameDeclaration::Kontrabauernschnapser => DeclarerConstraint::DefenderOnly,
            GameDeclaration::Herrenschnapser => DeclarerConstraint::CallerOnly,
        }
    }
    /// Whether it is played only in some regions.
    pub open spec fn regional_only_spec(self) -> bool {
        match self {
            GameDeclaration::Normal => false,
            GameDeclaration::Bettler => false,
            GameDeclaration::Assenbettler => true,
            GameDeclaration::AssBettler => true,
            GameDeclaration::Schnapser => false,
            GameDeclaration::Plauderer => true,
            GameDeclaration::Damengang => true,
            GameDeclaration::Koenigsgang => true,
            GameDeclaration::Gang => false,
            GameDeclaration::Zehnergang => true,
            GameDeclaration::Bauernloch => true,
            GameDeclaration::Bauernschnapser => false,
            GameDeclaration::Kontraschnapser => false,
            GameDeclaration::Farbenringerl => false,
            GameDeclaration::Kontrabauernschnapser => false,
            GameDeclaration::Herrenschnapser => false,
        }
    }

    pub fn regional_only(self) -> (r: bool)
        ensures
            r == self.regional_only_spec(),
    {
        match self {
            GameDeclaration::Normal => false,
            GameDeclaration::Bettler => false,
            GameDeclaration::Assenbettler => true,
            GameDeclaration::AssBettler => true,
            GameDeclaration::Schnapser => false,
            GameDeclaration::Plauderer => true,
            GameDeclaration::Damengang => true,
            GameDeclaration::Koenigsgang => true,
            GameDeclaration::Gang => false,
            GameDeclaration::Zehnergang => true,
            GameDeclaration::Bauernloch => true,
            GameDeclaration::Bauernschnapser => false,
            GameDeclaration::Kontraschnapser => false,
            GameDeclaration::Farbenringerl => false,
            GameDeclaration::Kontrabauernschnapser => false,
            GameDeclaration::Herrenschnapser => false,
        }
    }
}

/// Role restrictions for who is allowed to declare a game.
#[derive(Clone, Copy, Debug, Eq, PartialEq, Hash, Structural)]
pub enum DeclarerConstraint {
    AnyPlayer,
    CallerOnly,
    DefenderOnly,
}

/// Trump handling in a declaration.
#[derive(Clone, Copy, Debug, Eq, PartialEq, Hash, Structural)]
pub enum TrumpRule {
    CalledTrump,
    NoTrump,
}

/// High-level objective category.
#[derive(Clone, Copy, Debug, Eq, PartialEq, Hash, Structural)]
pub enum RoundObjective {
    Reach66OrLastTrick,
    LoseEveryTrick,
    WinEveryTrick,
    SchnapserObjective,
    SuitCollectionObjective,
    VariantSpecific,
}

/// Metadata for one declaration type.
#[derive(Clone, Copy, Debug, Eq, PartialEq, Hash, Structural)]
pub struct DeclarationInfo {
    pub declaration: GameDeclaration,
    pub base_points: u8,
    pub objective: RoundObjective,
    pub trump_rule: TrumpRule,
    pub rank_order: RankOrder,
    pub declarer_constraint: DeclarerConstraint,
    pub regional_only: bool,
}

/// Tie-break differences when Gang and Zehnergang collide.
#[derive(Clone, Copy, Debug, Eq, PartialEq, Hash, Structural)]
pub enum GangTieBreak {
    GangWins,
    ZehnergangWins,
}

/// Switches for optional regional declarations and preferences.
#[derive(Clone, Debug, Eq, PartialEq, Structural)]
pub struct RegionalOptions {
    pub allow_assenbettler: bool,
    pub allow_ass_bettler: bool,
    pub allow_plauderer: bool,
    pub allow_zehnergang: bool,
    pub allow_koenigsgang: bool,
    pub allow_damengang: bool,
    pub allow_bauernloch: bool,
    pub gang_tiebreak: GangTieBreak,
}

impl Default for RegionalOptions {
    /// Every regional declaration switched off; Gang wins the tie-break.
    fn default() -> (o: Self)
        ensures
            o == (RegionalOptions {
                allow_assenbettler: false,
                allow_ass_bettler: false,
                allow_plauderer: false,
                allow_zehnergang: false,
                allow_koenigsgang: false,
                allow_damengang: false,
                allow_bauernloch: false,
                gang_tiebreak: GangTieBreak::GangWins,
            }),
    {
        Self {
            allow_assenbettler: false,
            allow_ass_bettler: false,
            allow_plauderer: false,
            allow_zehnergang: false,
            allow_koenigsgang: false,
            allow_damengang: false,
            allow_bauernloch: false,
            gang_tiebreak: GangTieBreak::GangWins,
        }
    }
}

impl RegionalOptions {
    /// A regional declaration is allowed when its switch is on; the others always are.
    pub open spec fn is_allowed_spec(&self, declaration: GameDeclaration) -> bool {
        match declaration {
            GameDeclaration::Assenbettler => self.allow_assenbettler,
            GameDeclaration::AssBettler => self.allow_ass_bettler,
            GameDeclaration::Plauderer => self.allow_plauderer,
            GameDeclaration::Zehnergang => self.allow_zehnergang,
            GameDeclaration::Koenigsgang => self.allow_koenigsgang,
            GameDeclaration::Damengang => self.allow_damengang,
            GameDeclaration::Bauernloch => self.allow_bauernloch,
            _ => true,
        }
    }

    pub fn is_allowed(&self, declaration: GameDeclaration) -> (b: bool)
        ensures
            b == self.is_allowed_spec(declaration),
    {
        match declaration {
            GameDeclaration::Assenbettler => self.allow_assenbettler,
            GameDeclaration::AssBettler => self.allow_ass_bettler,
            GameDeclaration::Plauderer => self.allow_plauderer,
            GameDeclaration::Zehnergang => self.allow_zehnergang,
            GameDeclaration::Koenigsgang => self.allow_koenigsgang,
            GameDeclaration::Damengang => self.allow_damengang,
            GameDeclaration::Bauernloch => self.allow_bauernloch,
            _ => true,
        }
    }
}

/// Every declaration but the Normal game is worth points of its own, and the regional
/// switches gate exactly the declarations marked regional.
pub proof fn lemma_declarations_well_formed(d: GameDeclaration, options: RegionalOptions)
    ensures
        d != GameDeclaration::Normal ==> d.base_points_spec() > 0,
        d.base_points_spec() >= 1,
        !d.regional_only_spec() ==> options.is_allowed_spec(d),
{
}

} // verus!
