//! The order of two announcements in bidding.

use vstd::prelude::*;
use std::cmp::Ordering;
use crate::variants::{GameAnnouncement, PlayerId, Ruleset};

verus! {

/// The order of two announcements: the higher variant priority wins; on a tie the one
/// without talon; then the caller's own announcement.
pub open spec fn announcement_order(rules: Ruleset, left: GameAnnouncement, right: GameAnnouncement, caller: PlayerId) -> Ordering {
    if rules.variant_priority_spec(left.variant) < rules.variant_priority_spec(right.variant) {
        Ordering::Less
    } else if rules.variant_priority_spec(left.variant) > rules.variant_priority_spec(right.variant) {
        Ordering::Greater
    } else if !left.without_talon && right.without_talon {
        Ordering::Less
    } else if left.without_talon && !right.without_talon {
        Ordering::Greater
    } else if left.player == caller && right.player != caller {
        Ordering::Greater
    } else if right.player == caller && left.player != caller {
        Ordering::Less
    } else {
        Ordering::Equal
    }
}

/// Comparing the other way round gives the opposite answer, and every announcement is
/// equal to itself.
pub proof fn lemma_announcement_order_antisymmetric(rules: Ruleset, a: GameAnnouncement, b: GameAnnouncement, caller: PlayerId)
    ensures
        (announcement_order(rules, a, b, caller) == Ordering::Less) == (announcement_order(rules, b, a, caller) == Ordering::Greater),
        (announcement_order(rules, a, b, caller) == Ordering::Equal) == (announcement_order(rules, b, a, caller) == Ordering::Equal),
        announcement_order(rules, a, a, caller) == Ordering::Equal,
{
}

impl Ruleset {
    /// Compares two announcements: the higher variant priority wins; on a tie the one
    /// without talon; then the caller's own announcement.
    pub fn compare_announcements(&self, left: &GameAnnouncement, right: &GameAnnouncement, caller: PlayerId) -> (o: Ordering)
        ensures
            o == announcement_order(*self, *left, *right, caller),
    {
        let left_priority = self.variant_priority(left.variant);
        let right_priority = self.variant_priority(right.variant);
        if left_priority < right_priority {
            return Ordering::Less;
        }
        if left_priority > right_priority {
            return Ordering::Greater;
        }
        if !left.without_talon && right.without_talon {
            return Ordering::Less;
        }
        if left.without_talon && !right.without_talon {
            return Ordering::Greater;
        }
        if left.player == caller && right.player != caller {
            Ordering::Greater
        } else if right.player == caller && left.player != caller {
            Ordering::Less
        } else {
            Ordering::Equal
        }
    }
}

} // verus!
