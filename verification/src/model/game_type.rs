use vstd::prelude::*;
use vstd::string::StringExecFns;
use crate::model::types::RankOrdering;

verus! {

/// All possible game types in Dreierschnapsen.
#[derive(Debug, Clone, Copy, PartialEq, Eq, Hash, Structural)]
pub enum GameType {
    Normal,
    Bettler,
    Assenbettler,
    AssBettler,
    Schnapser,
    Plauderer,
    Damengang,
    Koenigsgang,
    Gang,
    Zehnergang,
    Bauernloch,
    Bauernschnapser,
    Kontraschnapser,
    Farbringerl,
    Kontrabauernschnapser,
    Herrenschnapser,
}

/// Who is allowed to announce a given game type.
#[derive(Debug, Clone, Copy, PartialEq, Eq, Structural)]
pub enum Eligibility {
    /// Only the Rufer (caller) can play this.
    CallerOnly,
    /// Only opponents of the Rufer can play this.
    OpponentsOnly,
    /// Any player can play this.
    Anyone,
}

/// The goal the announcing player must achieve.
#[derive(Debug, Clone, Copy, PartialEq, Eq, Structural)]
pub enum GameGoal {
    /// Reach 66 card points (normal game).
    Reach66,
    /// Win zero tricks.
    WinNoTricks,
    /// Win all 5 tricks.
    WinAllTricks,
    /// Reach 66 in the Schnapser ways.
    SchnapserReach66,
    /// Win all tricks using only cards of one non-trump suit.
    WinAllTricksOneSuit,
    /// Win all tricks using only trump cards.
    WinAllTricksTrump,
}

impl GameType {
    pub open spec fn base_points_spec(self) -> nat {
        match self {
            GameType::Normal => 1,
            GameType::Bettler => 4,
            GameType::Assenbettler => 5,
            GameType::AssBettler => 5,
            GameType::Schnapser => 6,
            GameType::Plauderer => 7,
            GameType::Damengang => 7,
            GameType::Koenigsgang => 8,
            GameType::Gang => 9,
            GameType::Zehnergang => 10,
            GameType::Bauernloch => 12,
            GameType::Bauernschnapser => 12,
            GameType::Kontraschnapser => 12,
            GameType::Farbringerl => 18,
            GameType::Kontrabauernschnapser => 24,
            GameType::Herrenschnapser => 24,
        }
    }

    pub fn base_points(&self) -> (p: u32)
        ensures
            p == self.base_points_spec(),
    {
        match self {
            GameType::Normal => 1,
            GameType::Bettler => 4,
            GameType::Assenbettler => 5,
            GameType::AssBettler => 5,
            GameType::Schnapser => 6,
            GameType::Plauderer => 7,
            GameType::Damengang => 7,
            GameType::Koenigsgang => 8,
            GameType::Gang => 9,
            GameType::Zehnergang => 10,
            GameType::Bauernloch => 12,
            GameType::Bauernschnapser => 12,
            GameType::Kontraschnapser => 12,
            GameType::Farbringerl => 18,
            GameType::Kontrabauernschnapser => 24,
            GameType::Herrenschnapser => 24,
        }
    }

    pub open spec fn eligibility_spec(self) -> Eligibility {
        match self {
            GameType::Schnapser | GameType::Bauernschnapser | GameType::Bauernloch
            | GameType::Herrenschnapser => Eligibility::CallerOnly,
            GameType::Kontraschnapser | GameType::Kontrabauernschnapser => Eligibility::OpponentsOnly,
            _ => Eligibility::Anyone,
        }
    }

    pub fn eligibility(&self) -> (e: Eligibility)
        ensures
            e == self.eligibility_spec(),
    {
        match self {
            GameType::Schnapser | GameType::Bauernschnapser | GameType::Bauernloch
            | GameType::Herrenschnapser => Eligibility::CallerOnly,
            GameType::Kontraschnapser | GameType::Kontrabauernschnapser => Eligibility::OpponentsOnly,
            _ => Eligibility::Anyone,
        }
    }

    pub open spec fn uses_trump_spec(self) -> bool {
        match self {
            GameType::Normal | GameType::Schnapser | GameType::Bauernschnapser | GameType::Bauernloch
            | GameType::Kontraschnapser | GameType::Kontrabauernschnapser | GameType::Herrenschnapser
            | GameType::Plauderer => true,
            _ => false,
        }
    }

    pub fn uses_trump(&self) -> (b: bool)
        ensures
            b == self.uses_trump_spec(),
    {
        match self {
            GameType::Normal | GameType::Schnapser | GameType::Bauernschnapser | GameType::Bauernloch
            | GameType::Kontraschnapser | GameType::Kontrabauernschnapser | GameType::Herrenschnapser
            | GameType::Plauderer => true,
            GameType::Bettler | GameType::Assenbettler | GameType::AssBettler | GameType::Gang
            | GameType::Zehnergang | GameType::Koenigsgang | GameType::Damengang
            | GameType::Farbringerl => false,
        }
    }

    pub open spec fn goal_spec(self) -> GameGoal {
        match self {
            GameType::Normal => GameGoal::Reach66,
            GameType::Bettler | GameType::Assenbettler | GameType::AssBettler => GameGoal::WinNoTricks,
            GameType::Schnapser | GameType::Kontraschnapser => GameGoal::SchnapserReach66,
            GameType::Farbringerl => GameGoal::WinAllTricksOneSuit,
            GameType::Herrenschnapser => GameGoal::WinAllTricksTrump,
            _ => GameGoal::WinAllTricks,
        }
    }

    pub fn goal(&self) -> (g: GameGoal)
        ensures
            g == self.goal_spec(),
    {
        match self {
            GameType::Normal => GameGoal::Reach66,
            GameType::Bettler | GameType::Assenbettler | GameType::AssBettler => GameGoal::WinNoTricks,
            GameType::Schnapser | GameType::Kontraschnapser => GameGoal::SchnapserReach66,
            GameType::Gang | GameType::Zehnergang | GameType::Koenigsgang | GameType::Damengang
            | GameType::Bauernschnapser | GameType::Kontrabauernschnapser | GameType::Bauernloch
            | GameType::Plauderer => GameGoal::WinAllTricks,
            GameType::Farbringerl => GameGoal::WinAllTricksOneSuit,
            GameType::Herrenschnapser => GameGoal::WinAllTricksTrump,
        }
    }

    pub open spec fn rank_ordering_spec(self) -> RankOrdering {
        match self {
            GameType::Assenbettler | GameType::Zehnergang | GameType::Bauernloch => RankOrdering::AceLow,
            GameType::Koenigsgang => RankOrdering::TenLow,
            GameType::Damengang => RankOrdering::KingLow,
            _ => RankOrdering::Standard,
        }
    }

    pub fn rank_ordering(&self) -> (o: RankOrdering)
        ensures
            o == self.rank_ordering_spec(),
    {
        match self {
            GameType::Assenbettler | GameType::Zehnergang | GameType::Bauernloch => RankOrdering::AceLow,
            GameType::Koenigsgang => RankOrdering::TenLow,
            GameType::Damengang => RankOrdering::KingLow,
            _ => RankOrdering::Standard,
        }
    }

    /// Whether the caller leads the first trick (as opposed to the announcer).
    pub open spec fn caller_leads_spec(self) -> bool {
        match self {
            GameType::Normal | GameType::Schnapser | GameType::Kontraschnapser
            | GameType::Kontrabauernschnapser => true,
            _ => false,
        }
    }

    pub fn caller_leads(&self) -> (b: bool)
        ensures
            b == self.caller_leads_spec(),
    {
        match self {
            GameType::Normal | GameType::Schnapser | GameType::Kontraschnapser
            | GameType::Kontrabauernschnapser => true,
            _ => false,
        }
    }

    pub open spec fn german_name_spec(self) -> Seq<char> {
        match self {
            GameType::Normal => "Normales Spiel (Rufer)"@,
            GameType::Bettler => "Bettler"@,
            GameType::Assenbettler => "Assenbettler"@,
            GameType::AssBettler => "Ass-Bettler"@,
            GameType::Schnapser => "Schnapser"@,
            GameType::Plauderer => "Plauderer"@,
            GameType::Damengang => "Damengang"@,
            GameType::Koenigsgang => "K\u{f6}nigsgang"@,
            GameType::Gang => "Gang"@,
            GameType::Zehnergang => "Zehnergang"@,
            GameType::Bauernloch => "Bauernloch"@,
            GameType::Bauernschnapser => "Bauernschnapser"@,
            GameType::Kontraschnapser => "Kontraschnapser"@,
            GameType::Farbringerl => "Farbringerl"@,
            GameType::Kontrabauernschnapser => "Kontrabauernschnapser"@,
            GameType::Herrenschnapser => "Herrenschnapser"@,
        }
    }

    pub fn german_name(&self) -> (s: &'static str)
        ensures
            s@ == self.german_name_spec(),
    {
        match self {
            GameType::Normal => "Normales Spiel (Rufer)",
            GameType::Bettler => "Bettler",
            GameType::Assenbettler => "Assenbettler",
            GameType::AssBettler => "Ass-Bettler",
            GameType::Schnapser => "Schnapser",
            GameType::Plauderer => "Plauderer",
            GameType::Damengang => "Damengang",
            GameType::Koenigsgang => "K\u{f6}nigsgang",
            GameType::Gang => "Gang",
            GameType::Zehnergang => "Zehnergang",
            GameType::Bauernloch => "Bauernloch",
            GameType::Bauernschnapser => "Bauernschnapser",
            GameType::Kontraschnapser => "Kontraschnapser",
            GameType::Farbringerl => "Farbringerl",
            GameType::Kontrabauernschnapser => "Kontrabauernschnapser",
            GameType::Herrenschnapser => "Herrenschnapser",
        }
    }

    /// The label "name (Npts)".
    pub fn label(&self) -> (s: String)
        ensures
            s@ == self.german_name_spec() + " ("@ + crate::text::decimal_spec(self.base_points_spec()) + "pts)"@,
    {
        let s = String::from_str(self.german_name()).concat(" (");
        let s = s.concat(crate::text::decimal(self.base_points() as u64).as_str());
        s.concat("pts)")
    }

    /// The game types in declaration order.
    pub open spec fn declared_order() -> Seq<GameType> {
        seq![
            GameType::Normal,
            GameType::Bettler,
            GameType::Assenbettler,
            GameType::AssBettler,
            GameType::Schnapser,
            GameType::Plauderer,
            GameType::Damengang,
            GameType::Koenigsgang,
            GameType::Gang,
            GameType::Zehnergang,
            GameType::Bauernloch,
            GameType::Bauernschnapser,
            GameType::Kontraschnapser,
            GameType::Farbringerl,
            GameType::Kontrabauernschnapser,
            GameType::Herrenschnapser,
        ]
    }

    /// Returns all game types sorted by ascending point value, for bidding resolution;
    /// the declaration order is already sorted, and a stable sort keeps it.
    pub fn all_by_value() -> (types: Vec<GameType>)
        ensures
            types@ == Self::declared_order(),
            forall|i: int, j: int|
                0 <= i < j < types@.len() ==> types@[i].base_points_spec() <= types@[j].base_points_spec(),
    {
        let types = vec![
            GameType::Normal,
            GameType::Bettler,
            GameType::Assenbettler,
            GameType::AssBettler,
            GameType::Schnapser,
            GameType::Plauderer,
            GameType::Damengang,
            GameType::Koenigsgang,
            GameType::Gang,
            GameType::Zehnergang,
            GameType::Bauernloch,
            GameType::Bauernschnapser,
            GameType::Kontraschnapser,
            GameType::Farbringerl,
            GameType::Kontrabauernschnapser,
            GameType::Herrenschnapser,
        ];
        assert(types@ =~= Self::declared_order());
        assert forall|i: int, j: int|
            0 <= i < j < types@.len() implies types@[i].base_points_spec() <= types@[j].base_points_spec() by {
            assert(forall|k: int| 0 <= k < 15 ==> #[trigger] types@[k].base_points_spec() <= types@[k + 1].base_points_spec());
            lemma_sorted_by_neighbours(types@, i, j);
        }
        types
    }
}

proof fn lemma_sorted_by_neighbours(s: Seq<GameType>, i: int, j: int)
    requires
        0 <= i < j < s.len(),
        forall|k: int| 0 <= k < s.len() - 1 ==> #[trigger] s[k].base_points_spec() <= s[k + 1].base_points_spec(),
    ensures
        s[i].base_points_spec() <= s[j].base_points_spec(),
    decreases j - i,
{
    if j > i + 1 {
        lemma_sorted_by_neighbours(s, i, j - 1);
        assert(s[j - 1].base_points_spec() <= s[j].base_points_spec());
    }
}

/// Tracks the current doubling level (Spritzen).
#[derive(Debug, Clone, Copy, PartialEq, Eq, Structural)]
pub enum DoublingLevel {
    Undoubled,
    Gespritzt,
    Zurueckgespritzt,
    NochmalZurueckgespritzt,
}

impl DoublingLevel {
    pub open spec fn multiplier_spec(self) -> nat {
        match self {
            DoublingLevel::Undoubled => 1,
            DoublingLevel::Gespritzt => 2,
            DoublingLevel::Zurueckgespritzt => 4,
            DoublingLevel::NochmalZurueckgespritzt => 8,
        }
    }

    pub fn multiplier(&self) -> (m: u32)
        ensures
            m == self.multiplier_spec(),
    {
        match self {
            DoublingLevel::Undoubled => 1,
            DoublingLevel::Gespritzt => 2,
            DoublingLevel::Zurueckgespritzt => 4,
            DoublingLevel::NochmalZurueckgespritzt => 8,
        }
    }

    /// Every level but the last can be raised.
    pub fn can_raise(&self) -> (b: bool)
        ensures
            b == (*self != DoublingLevel::NochmalZurueckgespritzt),
    {
        !matches!(self, DoublingLevel::NochmalZurueckgespritzt)
    }

    pub open spec fn raise_spec(self) -> Option<DoublingLevel> {
        match self {
            DoublingLevel::Undoubled => Some(DoublingLevel::Gespritzt),
            DoublingLevel::Gespritzt => Some(DoublingLevel::Zurueckgespritzt),
            DoublingLevel::Zurueckgespritzt => Some(DoublingLevel::NochmalZurueckgespritzt),
            DoublingLevel::NochmalZurueckgespritzt => None,
        }
    }

    pub fn raise(self) -> (r: Option<DoublingLevel>)
        ensures
            r == self.raise_spec(),
    {
        match self {
            DoublingLevel::Undoubled => Some(DoublingLevel::Gespritzt),
            DoublingLevel::Gespritzt => Some(DoublingLevel::Zurueckgespritzt),
            DoublingLevel::Zurueckgespritzt => Some(DoublingLevel::NochmalZurueckgespritzt),
            DoublingLevel::NochmalZurueckgespritzt => None,
        }
    }
}

/// Raising doubles the multiplier, and only the last level cannot be raised.
pub proof fn lemma_raise_doubles(level: DoublingLevel)
    ensures
        match level.raise_spec() {
            Some(next) => next.multiplier_spec() == 2 * level.multiplier_spec(),
            None => level == DoublingLevel::NochmalZurueckgespritzt,
        },
{
}

} // verus!
