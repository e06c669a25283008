//! Game types (Spiele) and their metadata.

use vstd::prelude::*;

verus! {

/// Card ordering variant for special games.
#[derive(Debug, Clone, Copy, PartialEq, Eq, Structural)]
pub enum CardOrdering {
    /// Normal: Ass > Zehner > Koenig > Ober > Unter
    Normal,
    /// Ass lowest: Zehner > Koenig > Ober > Unter > Ass
    AssLowest,
    /// Zehner lowest: Koenig > Ober > Unter > Ass > Zehner
    ZehnerLowest,
    /// Koenig lowest: Ober > Unter > Ass > Zehner > Koenig
    KoenigLowest,
}

/// All declarable game variants in Dreierschnapsen.
#[derive(Debug, Clone, Copy, PartialEq, Eq, Hash, Structural)]
pub enum GameType {
    NormalesSpiel,
    Bettler,
    Assenbettler,
    AssBettler,
    Schnapser,
    Plauderer,
    Damengang,
    Koenigsgang,
    Gang,
    Zehnergang,
    Bauernloch,
    Bauernschnapser,
    Kontraschnapser,
    Farbringerl,
    Kontrabauernschnapser,
    Herrenschnapser,
}

/// Metadata for a game type.
#[derive(Debug, Clone, Copy, PartialEq, Eq, Structural)]
pub struct GameTypeInfo {
    /// Base points for winning this game.
    pub points: u8,
    /// Whether trump applies.
    pub uses_trump: bool,
    /// Whether only the Rufer can declare.
    pub rufer_only: bool,
    /// Whether only opponents of the Rufer can declare.
    pub opponents_only: bool,
    /// Card ordering variant (for games like Assenbettler).
    pub card_ordering: CardOrdering,
    /// Goal: no tricks, all tricks, or 66 points.
    pub goal: GameGoal,
}

/// What the declarer must achieve to win.
#[derive(Debug, Clone, Copy, PartialEq, Eq, Structural)]
pub enum GameGoal {
    /// Reach 66 points (or last trick); normal scoring (1-3 pts).
    SixtySix,
    /// Make no tricks (Bettler variants).
    NoTricks,
    /// Make all tricks.
    AllTricks,
    /// Schnapser/Kontraschnapser: 2 stich+Vierziger or 3 stich+Zwanziger or 4 stich.
    SchnapserVariants,
}

impl GameType {
    /// The metadata table of the game types.
    pub open spec fn info_spec(self) -> GameTypeInfo {
        match self {
            GameType::NormalesSpiel => GameTypeInfo {
                points: 1,
                uses_trump: true,
                rufer_only: false,
                opponents_only: false,
                card_ordering: CardOrdering::Normal,
                goal: GameGoal::SixtySix,
            },
            GameType::Bettler => GameTypeInfo {
                points: 4,
                uses_trump: false,
                rufer_only: false,
                opponents_only: false,
                card_ordering: CardOrdering::Normal,
                goal: GameGoal::NoTricks,
            },
            GameType::Assenbettler => GameTypeInfo {
                points: 5,
                uses_trump: false,
                rufer_only: false,
                opponents_only: false,
                card_ordering: CardOrdering::AssLowest,
                goal: GameGoal::NoTricks,
            },
            GameType::AssBettler => GameTypeInfo {
                points: 5,
                uses_trump: false,
                rufer_only: false,
                opponents_only: false,
                card_ordering: CardOrdering::Normal,
                goal: GameGoal::NoTricks,
            },
            GameType::Schnapser => GameTypeInfo {
                points: 6,
                uses_trump: true,
                rufer_only: true,
                opponents_only: false,
                card_ordering: CardOrdering::Normal,
                goal: GameGoal::SchnapserVariants,
            },
            GameType::Plauderer => GameTypeInfo {
                points: 7,
                uses_trump: true,
                rufer_only: false,
                opponents_only: false,
                card_ordering: CardOrdering::Normal,
                goal: GameGoal::SixtySix,
            },
            GameType::Damengang => GameTypeInfo {
                points: 7,
                uses_trump: false,
                rufer_only: false,
                opponents_only: false,
                card_ordering: CardOrdering::KoenigLowest,
                goal: GameGoal::AllTricks,
            },
            GameType::Koenigsgang => GameTypeInfo {
                points: 8,
                uses_trump: false,
                rufer_only: false,
                opponents_only: false,
                card_ordering: CardOrdering::ZehnerLowest,
                goal: GameGoal::AllTricks,
            },
            GameType::Gang => GameTypeInfo {
                points: 9,
                uses_trump: false,
                rufer_only: false,
                opponents_only: false,
                card_ordering: CardOrdering::Normal,
                goal: GameGoal::AllTricks,
            },
            GameType::Zehnergang => GameTypeInfo {
                points: 10,
                uses_trump: false,
                rufer_only: false,
                opponents_only: false,
                card_ordering: CardOrdering::AssLowest,
                goal: GameGoal::AllTricks,
            },
            GameType::Bauernloch => GameTypeInfo {
                points: 12,
                uses_trump: true,
                rufer_only: true,
                opponents_only: false,
                card_ordering: CardOrdering::AssLowest,
                goal: GameGoal::AllTricks,
            },
            GameType::Bauernschnapser => GameTypeInfo {
                points: 12,
                uses_trump: true,
                rufer_only: true,
                opponents_only: false,
                card_ordering: CardOrdering::Normal,
                goal: GameGoal::AllTricks,
            },
            GameType::Kontraschnapser => GameTypeInfo {
                points: 12,
                uses_trump: true,
                rufer_only: false,
                opponents_only: true,
                card_ordering: CardOrdering::Normal,
                goal: GameGoal::SchnapserVariants,
            },
            GameType::Farbringerl => GameTypeInfo {
                points: 18,
                uses_trump: false,
                rufer_only: false,
                opponents_only: false,
                card_ordering: CardOrdering::Normal,
                goal: GameGoal::AllTricks,
            },
            GameType::Kontrabauernschnapser => GameTypeInfo {
                points: 24,
                uses_trump: true,
                rufer_only: false,
                opponents_only: true,
                card_ordering: CardOrdering::Normal,
                goal: GameGoal::AllTricks,
            },
            GameType::Herrenschnapser => GameTypeInfo {
                points: 24,
                uses_trump: true,
                rufer_only: true,
                opponents_only: false,
                card_ordering: CardOrdering::Normal,
                goal: GameGoal::AllTricks,
            },
        }
    }

    /// Returns metadata for this game type.
    pub fn info(self) -> (i: GameTypeInfo)
        ensures
            i == self.info_spec(),
    {
        match self {
            GameType::NormalesSpiel => GameTypeInfo {
                points: 1,
                uses_trump: true,
                rufer_only: false,
                opponents_only: false,
                card_ordering: CardOrdering::Normal,
                goal: GameGoal::SixtySix,
            },
            GameType::Bettler => GameTypeInfo {
                points: 4,
                uses_trump: false,
                rufer_only: false,
                opponents_only: false,
                card_ordering: CardOrdering::Normal,
                goal: GameGoal::NoTricks,
            },
            GameType::Assenbettler => GameTypeInfo {
                points: 5,
                uses_trump: false,
                rufer_only: false,
                opponents_only: false,
                card_ordering: CardOrdering::AssLowest,
                goal: GameGoal::NoTricks,
            },
            GameType::AssBettler => GameTypeInfo {
                points: 5,
                uses_trump: false,
                rufer_only: false,
                opponents_only: false,
                card_ordering: CardOrdering::Normal,
                goal: GameGoal::NoTricks,
            },
            GameType::Schnapser => GameTypeInfo {
                points: 6,
                uses_trump: true,
                rufer_only: true,
                opponents_only: false,
                card_ordering: CardOrdering::Normal,
                goal: GameGoal::SchnapserVariants,
            },
            GameType::Plauderer => GameTypeInfo {
                points: 7,
                uses_trump: true,
                rufer_only: false,
                opponents_only: false,
                card_ordering: CardOrdering::Normal,
                goal: GameGoal::SixtySix,
            },
            GameType::Damengang => GameTypeInfo {
                points: 7,
                uses_trump: false,
                rufer_only: false,
                opponents_only: false,
                card_ordering: CardOrdering::KoenigLowest,
                goal: GameGoal::AllTricks,
            },
            GameType::Koenigsgang => GameTypeInfo {
                points: 8,
                uses_trump: false,
                rufer_only: false,
                opponents_only: false,
                card_ordering: CardOrdering::ZehnerLowest,
                goal: GameGoal::AllTricks,
            },
            GameType::Gang => GameTypeInfo {
                points: 9,
                uses_trump: false,
                rufer_only: false,
                opponents_only: false,
                card_ordering: CardOrdering::Normal,
                goal: GameGoal::AllTricks,
            },
            GameType::Zehnergang => GameTypeInfo {
                points: 10,
                uses_trump: false,
                rufer_only: false,
                opponents_only: false,
                card_ordering: CardOrdering::AssLowest,
                goal: GameGoal::AllTricks,
            },
            GameType::Bauernloch => GameTypeInfo {
                points: 12,
                uses_trump: true,
                rufer_only: true,
                opponents_only: false,
                card_ordering: CardOrdering::AssLowest,
                goal: GameGoal::AllTricks,
            },
            GameType::Bauernschnapser => GameTypeInfo {
                points: 12,
                uses_trump: true,
                rufer_only: true,
                opponents_only: false,
                card_ordering: CardOrdering::Normal,
                goal: GameGoal::AllTricks,
            },
            GameType::Kontraschnapser => GameTypeInfo {
                points: 12,
                uses_trump: true,
                rufer_only: false,
                opponents_only: true,
                card_ordering: CardOrdering::Normal,
                goal: GameGoal::SchnapserVariants,
            },
            GameType::Farbringerl => GameTypeInfo {
                points: 18,
                uses_trump: false,
                rufer_only: false,
                opponents_only: false,
                card_ordering: CardOrdering::Normal,
                goal: GameGoal::AllTricks,
            },
            GameType::Kontrabauernschnapser => GameTypeInfo {
                points: 24,
                uses_trump: true,
                rufer_only: false,
                opponents_only: true,
                card_ordering: CardOrdering::Normal,
                goal: GameGoal::AllTricks,
            },
            GameType::Herrenschnapser => GameTypeInfo {
                points: 24,
                uses_trump: true,
                rufer_only: true,
                opponents_only: false,
                card_ordering: CardOrdering::Normal,
                goal: GameGoal::AllTricks,
            },
        }
    }

    /// Base point value (before Flecken multiplier).
    pub fn base_points(self) -> (p: u8)
        ensures
            p == self.info_spec().points,
    {
        self.info().points
    }

    /// The game types in order of value.
    pub open spec fn all_standard_spec() -> Seq<GameType> {
        seq![
            GameType::NormalesSpiel,
            GameType::Bettler,
            GameType::Assenbettler,
            GameType::AssBettler,
            GameType::Schnapser,
            GameType::Plauderer,
            GameType::Damengang,
            GameType::Koenigsgang,
            GameType::Gang,
            GameType::Zehnergang,
            GameType::Bauernloch,
            GameType::Bauernschnapser,
            GameType::Kontraschnapser,
            GameType::Farbringerl,
            GameType::Kontrabauernschnapser,
            GameType::Herrenschnapser,
        ]
    }

    /// All standard game types in approximate order of value.
    pub fn all_standard() -> (v: Vec<GameType>)
        ensures
            v@ == Self::all_standard_spec(),
    {
        vec![
            GameType::NormalesSpiel,
            GameType::Bettler,
            GameType::Assenbettler,
            GameType::AssBettler,
            GameType::Schnapser,
            GameType::Plauderer,
            GameType::Damengang,
            GameType::Koenigsgang,
            GameType::Gang,
            GameType::Zehnergang,
            GameType::Bauernloch,
            GameType::Bauernschnapser,
            GameType::Kontraschnapser,
            GameType::Farbringerl,
            GameType::Kontrabauernschnapser,
            GameType::Herrenschnapser,
        ]
    }

    pub open spec fn name_spec(self) -> Seq<char> {
        match self {
            GameType::NormalesSpiel => "Normales Spiel"@,
            GameType::Bettler => "Bettler"@,
            GameType::Assenbettler => "Assenbettler"@,
            GameType::AssBettler => "Ass-Bettler"@,
            GameType::Schnapser => "Schnapser"@,
            GameType::Plauderer => "Plauderer"@,
            GameType::Damengang => "Damengang"@,
            GameType::Koenigsgang => "K\u{f6}nigsgang"@,
            GameType::Gang => "Gang"@,
            GameType::Zehnergang => "Zehnergang"@,
            GameType::Bauernloch => "Bauernloch"@,
            GameType::Bauernschnapser => "Bauernschnapser"@,
            GameType::Kontraschnapser => "Kontraschnapser"@,
            GameType::Farbringerl => "Farbringerl"@,
            GameType::Kontrabauernschnapser => "Kontrabauernschnapser"@,
            GameType::Herrenschnapser => "Herrenschnapser"@,
        }
    }

    /// The name of the game type.
    pub fn name(self) -> (s: &'static str)
        ensures
            s@ == self.name_spec(),
    {
        match self {
            GameType::NormalesSpiel => "Normales Spiel",
            GameType::Bettler => "Bettler",
            GameType::Assenbettler => "Assenbettler",
            GameType::AssBettler => "Ass-Bettler",
            GameType::Schnapser => "Schnapser",
            GameType::Plauderer => "Plauderer",
            GameType::Damengang => "Damengang",
            GameType::Koenigsgang => "K\u{f6}nigsgang",
            GameType::Gang => "Gang",
            GameType::Zehnergang => "Zehnergang",
            GameType::Bauernloch => "Bauernloch",
            GameType::Bauernschnapser => "Bauernschnapser",
            GameType::Kontraschnapser => "Kontraschnapser",
            GameType::Farbringerl => "Farbringerl",
            GameType::Kontrabauernschnapser => "Kontrabauernschnapser",
            GameType::Herrenschnapser => "Herrenschnapser",
        }
    }
}

/// The standard list runs by value: no game type is worth less than the one before it,
/// and each game type is in it once.
pub proof fn lemma_all_standard_by_value()
    ensures
        forall|i: int, j: int|
            0 <= i < j < 16 ==> (#[trigger] GameType::all_standard_spec()[i]).info_spec().points
                <= (#[trigger] GameType::all_standard_spec()[j]).info_spec().points,
        forall|i: int, j: int|
            0 <= i < j < 16 ==> GameType::all_standard_spec()[i] != GameType::all_standard_spec()[j],
        GameType::all_standard_spec().len() == 16,
{
}

} // verus!
