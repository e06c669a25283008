//! Scoring of a round (one declarer against two defenders) and of a whole match.

use vstd::prelude::*;
use vstd::arithmetic::power2::{pow2, lemma_pow2_pos, lemma2_to64};
use crate::rules::variant::GameDeclaration;

verus! {

/// A seat at the table.
#[derive(Clone, Copy, Debug, Eq, PartialEq, Hash, Structural)]
pub enum PlayerId {
    P0,
    P1,
    P2,
}

impl PlayerId {
    pub const ALL: [PlayerId; 3] = [PlayerId::P0, PlayerId::P1, PlayerId::P2];

    /// The seat number 0, 1 or 2.
    pub open spec fn index_spec(self) -> nat {
        match self {
            PlayerId::P0 => 0,
            PlayerId::P1 => 1,
            PlayerId::P2 => 2,
        }
    }

    pub fn index(self) -> (i: usize)
        ensures
            i == self.index_spec(),
    {
        match self {
            PlayerId::P0 => 0,
            PlayerId::P1 => 1,
            PlayerId::P2 => 2,
        }
    }
}

/// Match scoring progression mode.
#[derive(Clone, Copy, Debug, Eq, PartialEq, Structural)]
pub enum MatchScoringMode {
    /// Typical mode: first player to target points wins.
    CountUpTo(i32),
    /// Regional mode: all players start at a value and count down to zero.
    CountDownFrom(i32),
}

/// Penalties tracked at match level.
#[derive(Clone, Copy, Debug, Eq, PartialEq, Hash, Structural)]
pub enum BummerlMark {
    Bummerl,
    Schneider,
    Retourschneider,
}

impl BummerlMark {
    /// A Bummerl counts one, a Schneider two, a Retourschneider four.
    pub fn bummerl_units(self) -> (u: u8)
        ensures
            u == match self {
                BummerlMark::Bummerl => 1u8,
                BummerlMark::Schneider => 2u8,
                BummerlMark::Retourschneider => 4u8,
            },
    {
        match self {
            BummerlMark::Bummerl => 1,
            BummerlMark::Schneider => 2,
            BummerlMark::Retourschneider => 4,
        }
    }
}

/// Multiplier chain from Spritzen/Retour/Re.
#[derive(Clone, Copy, Debug, Eq, PartialEq, Hash)]
pub struct Spritzen {
    doublings: u8,
}

impl Spritzen {
    /// How many times the stakes were doubled.
    pub closed spec fn doublings_spec(self) -> u8 {
        self.doublings
    }

    pub fn new() -> (s: Self)
        ensures
            s.doublings_spec() == 0,
    {
        Self { doublings: 0 }
    }

    pub fn level(self) -> (l: u8)
        ensures
            l == self.doublings_spec(),
    {
        self.doublings
    }

    /// Two to the power of the doublings.
    pub fn multiplier(self) -> (m: u32)
        requires
            self.doublings_spec() < 32,
        ensures
            m == pow2(self.doublings_spec() as nat),
    {
        let d = self.doublings as u32;
        proof {
            vstd::bits::lemma_u32_pow2_no_overflow(d as nat);
            vstd::bits::lemma_u32_shl_is_mul(1u32, d);
        }
        1u32 << d
    }

    /// Raises the multiplier one level (x2 each step); the count stops at 255.
    pub fn raise(self) -> (s: Self)
        ensures
            s.doublings_spec() == if self.doublings_spec() < 255 {
                self.doublings_spec() + 1
            } else {
                255
            },
    {
        Self { doublings: self.doublings.saturating_add(1) }
    }

    /// The base points times the multiplier.
    pub fn apply(self, base_points: u8) -> (p: u32)
        requires
            self.doublings_spec() < 32,
            pow2(self.doublings_spec() as nat) * base_points <= u32::MAX,
        ensures
            p == pow2(self.doublings_spec() as nat) * base_points,
    {
        let m = self.multiplier();
        m * (base_points as u32)
    }
}

impl Default for Spritzen {
    fn default() -> (s: Self)
        ensures
            s.doublings_spec() == 0,
    {
        Self::new()
    }
}

#[derive(Clone, Copy, Debug, Eq, PartialEq, Hash, Structural)]
pub enum SpritzenAction {
    Spritzen,
    Retour,
    Re,
}

/// Winning side in a 1-vs-2 round.
#[derive(Clone, Copy, Debug, Eq, PartialEq, Hash, Structural)]
pub enum RoundWinnerSide {
    Declarer,
    Defenders,
}

/// Input model for scoring a round.
#[derive(Clone, Copy, Debug, Eq, PartialEq)]
pub struct RoundScoringInput {
    pub declarer: PlayerId,
    pub declaration: GameDeclaration,
    pub winner_side: RoundWinnerSide,
    /// Required for a normal game if fine-grained 1/2/3 scoring is needed.
    pub normal_game_defender_points: Option<u8>,
    /// Required for a normal game to detect "no trick".
    pub normal_game_defender_tricks: Option<u8>,
    pub spritzen: Spritzen,
}

/// Awarded points to a single player.
#[derive(Clone, Copy, Debug, Eq, PartialEq, Structural)]
pub struct PointAward {
    pub player: PlayerId,
    pub points: u32,
}

/// Three points when the defenders took no trick, two below 33 card points, else one.
pub open spec fn normal_base_spec(defender_card_points: u8, defender_tricks: u8) -> u8 {
    if defender_tricks == 0 {
        3
    } else if defender_card_points < 33 {
        2
    } else {
        1
    }
}

/// Point conversion for normal game outcomes.
pub fn normal_game_base_points(defender_card_points: u8, defender_tricks: u8) -> (p: u8)
    ensures
        p == normal_base_spec(defender_card_points, defender_tricks),
{
    if defender_tricks == 0 {
        3
    } else if defender_card_points < 33 {
        2
    } else {
        1
    }
}

/// The base points of a round: a Normal game by the defenders' card points and tricks
/// (taken as 33 points and one trick when not given), else the declaration's points.
pub open spec fn round_base_points(input: RoundScoringInput) -> u8 {
    if input.declaration == GameDeclaration::Normal {
        let points = match input.normal_game_defender_points {
            Some(p) => p,
            None => 33u8,
        };
        let tricks = match input.normal_game_defender_tricks {
            Some(t) => t,
            None => 1u8,
        };
        normal_base_spec(points, tricks)
    } else {
        input.declaration.base_points_spec()
    }
}

/// The two seats other than `p`, in seat order.
pub open spec fn others_of(p: PlayerId) -> (PlayerId, PlayerId) {
    match p {
        PlayerId::P0 => (PlayerId::P1, PlayerId::P2),
        PlayerId::P1 => (PlayerId::P0, PlayerId::P2),
        PlayerId::P2 => (PlayerId::P0, PlayerId::P1),
    }
}

/// The awards of a round: the round's points times the Spritzen multiplier, to the
/// declarer alone or to each of the two defenders in seat order.
pub open spec fn round_awards(input: RoundScoringInput) -> Seq<PointAward> {
    let total = (pow2(input.spritzen.doublings_spec() as nat) * round_base_points(input)) as u32;
    match input.winner_side {
        RoundWinnerSide::Declarer => seq![PointAward { player: input.declarer, points: total }],
        RoundWinnerSide::Defenders => seq![
            PointAward { player: others_of(input.declarer).0, points: total },
            PointAward { player: others_of(input.declarer).1, points: total },
        ],
    }
}

spec fn awards_to_others(declarer: PlayerId, total: u32, n: nat) -> Seq<PointAward>
    decreases n,
{
    if n == 0 {
        Seq::empty()
    } else {
        let prev = awards_to_others(declarer, total, (n - 1) as nat);
        let p = seat_at((n - 1) as nat);
        if p != declarer {
            prev.push(PointAward { player: p, points: total })
        } else {
            prev
        }
    }
}

spec fn seat_at(i: nat) -> PlayerId {
    if i == 0 {
        PlayerId::P0
    } else if i == 1 {
        PlayerId::P1
    } else {
        PlayerId::P2
    }
}

/// Computes 1-vs-2 awards.
pub fn score_round(input: RoundScoringInput) -> (awards: Vec<PointAward>)
    requires
        input.spritzen.doublings_spec() < 32,
        pow2(input.spritzen.doublings_spec() as nat) * round_base_points(input) <= u32::MAX,
    ensures
        awards@ == round_awards(input),
{
    let base_points = if input.declaration == GameDeclaration::Normal {
        let defender_points = match input.normal_game_defender_points {
            Some(p) => p,
            None => 33,
        };
        let defender_tricks = match input.normal_game_defender_tricks {
            Some(t) => t,
            None => 1,
        };
        normal_game_base_points(defender_points, defender_tricks)
    } else {
        input.declaration.base_points()
    };
    let total = input.spritzen.apply(base_points);
    match input.winner_side {
        RoundWinnerSide::Declarer => {
            let mut awards = Vec::new();
            awards.push(PointAward { player: input.declarer, points: total });
            awards
        },
        RoundWinnerSide::Defenders => {
            let all = PlayerId::ALL;
            let mut awards: Vec<PointAward> = Vec::new();
            let mut i: usize = 0;
            while i < 3
                invariant
                    i <= 3,
                    all@ == seq![PlayerId::P0, PlayerId::P1, PlayerId::P2],
                    awards@ == awards_to_others(input.declarer, total, i as nat),
                decreases 3 - i,
            {
                let p = all[i];
                assert(p == seat_at(i as nat));
                if p != input.declarer {
                    awards.push(PointAward { player: p, points: total });
                }
                i = i + 1;
            }
            proof {
                reveal_with_fuel(awards_to_others, 4);
            }
            awards
        },
    }
}

/// The points awarded to seat `i` by the awards.
pub open spec fn award_total(awards: Seq<PointAward>, i: nat) -> nat
    decreases awards.len(),
{
    if awards.len() == 0 {
        0
    } else {
        award_total(awards.drop_last(), i) + if awards.last().player.index_spec() == i {
            awards.last().points as nat
        } else {
            0
        }
    }
}

proof fn lemma_award_total_prefix(awards: Seq<PointAward>, n: int, i: nat)
    requires
        0 <= n <= awards.len(),
    ensures
        award_total(awards.take(n), i) <= award_total(awards, i),
    decreases awards.len(),
{
    if n < awards.len() {
        assert(awards.take(n) =~= awards.drop_last().take(n));
        lemma_award_total_prefix(awards.drop_last(), n, i);
    } else {
        assert(awards.take(n) =~= awards);
    }
}

/// A seat's score after the awards: added when counting up, subtracted when counting down.
pub open spec fn score_after(mode: MatchScoringMode, start: i32, total: nat) -> int {
    match mode {
        MatchScoringMode::CountUpTo(_) => start + total,
        MatchScoringMode::CountDownFrom(_) => start - total,
    }
}

/// Whether a seat's score ends the match: the target reached when counting up, zero
/// reached when counting down.
pub open spec fn has_won(mode: MatchScoringMode, score: i32) -> bool {
    match mode {
        MatchScoringMode::CountUpTo(target) => score >= target,
        MatchScoringMode::CountDownFrom(_) => score <= 0,
    }
}

/// Score accumulator for a whole match.
#[derive(Clone, Debug, Eq, PartialEq)]
pub struct MatchScore {
    pub mode: MatchScoringMode,
    pub points: [i32; 3],
}

impl MatchScore {
    /// Everyone starts at zero when counting up, at the start value when counting down.
    pub fn new(mode: MatchScoringMode) -> (s: Self)
        ensures
            s.mode == mode,
            s.points@ == match mode {
                MatchScoringMode::CountUpTo(_) => seq![0i32, 0i32, 0i32],
                MatchScoringMode::CountDownFrom(start) => seq![start, start, start],
            },
    {
        let points = match mode {
            MatchScoringMode::CountUpTo(_) => [0, 0, 0],
            MatchScoringMode::CountDownFrom(start) => [start, start, start],
        };
        Self { mode, points }
    }

    /// Adds (counting up) or subtracts (counting down) each award to its seat.
    pub fn apply_awards(&mut self, awards: &[PointAward])
        requires
            forall|k: int| 0 <= k < awards@.len() ==> (#[trigger] awards@[k]).points <= i32::MAX,
            forall|i: int|
                0 <= i < 3 ==> i32::MIN <= #[trigger] score_after(
                    old(self).mode,
                    old(self).points@[i],
                    award_total(awards@, i as nat),
                ) <= i32::MAX,
        ensures
            final(self).mode == old(self).mode,
            forall|i: int|
                0 <= i < 3 ==> #[trigger] final(self).points@[i] == score_after(
                    old(self).mode,
                    old(self).points@[i],
                    award_total(awards@, i as nat),
                ),
    {
        let ghost start = self.points@;
        let mut k: usize = 0;
        while k < awards.len()
            invariant
                k <= awards@.len(),
                self.mode == old(self).mode,
                start == old(self).points@,
                forall|j: int| 0 <= j < awards@.len() ==> (#[trigger] awards@[j]).points <= i32::MAX,
                forall|i: int|
                    0 <= i < 3 ==> i32::MIN <= #[trigger] score_after(self.mode, start[i], award_total(awards@, i as nat))
                        <= i32::MAX,
                forall|i: int|
                    0 <= i < 3 ==> #[trigger] self.points@[i] == score_after(
                        self.mode,
                        start[i],
                        award_total(awards@.take(k as int), i as nat),
                    ),
            decreases awards@.len() - k,
        {
            let award = awards[k];
            let idx = award.player.index();
            proof {
                assert(awards@.take(k + 1).drop_last() =~= awards@.take(k as int));
                lemma_award_total_prefix(awards@, k + 1, idx as nat);
                assert(self.points@[idx as int] == score_after(self.mode, start[idx as int], award_total(awards@.take(k as int), idx as nat)));
                assert(i32::MIN <= score_after(self.mode, start[idx as int], award_total(awards@, idx as nat)) <= i32::MAX);
            }
            match self.mode {
                MatchScoringMode::CountUpTo(_) => {
                    self.points[idx] = self.points[idx] + award.points as i32;
                },
                MatchScoringMode::CountDownFrom(_) => {
                    self.points[idx] = self.points[idx] - award.points as i32;
                },
            }
            proof {
                assert forall|i: int| 0 <= i < 3 implies #[trigger] self.points@[i] == score_after(
                    self.mode,
                    start[i],
                    award_total(awards@.take(k + 1), i as nat),
                ) by {
                    assert(awards@.take(k + 1).drop_last() =~= awards@.take(k as int));
                }
            }
            k = k + 1;
        }
        assert(awards@.take(awards@.len() as int) =~= awards@);
    }

    /// The first seat, in seat order, whose score ends the match.
    pub fn winner(&self) -> (w: Option<PlayerId>)
        ensures
            match w {
                Some(p) => has_won(self.mode, self.points@[p.index_spec() as int]) && forall|q: int|
                    0 <= q < p.index_spec() ==> !has_won(self.mode, #[trigger] self.points@[q]),
                None => forall|q: int| 0 <= q < 3 ==> !has_won(self.mode, #[trigger] self.points@[q]),
            },
    {
        let all = PlayerId::ALL;
        let mut i: usize = 0;
        while i < 3
            invariant
                i <= 3,
                all@ == seq![PlayerId::P0, PlayerId::P1, PlayerId::P2],
                forall|q: int| 0 <= q < i ==> !has_won(self.mode, #[trigger] self.points@[q]),
            decreases 3 - i,
        {
            let p = all[i];
            let score = self.points[p.index()];
            let won = match self.mode {
                MatchScoringMode::CountUpTo(target) => score >= target,
                MatchScoringMode::CountDownFrom(_) => score <= 0,
            };
            if won {
                return Some(p);
            }
            i = i + 1;
        }
        None
    }
}

} // verus!
