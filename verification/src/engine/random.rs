//! A move selector that picks a random valid move.

use vstd::prelude::*;
use crate::model::action::Action;
use crate::model::card::Suit;
use crate::model::player::PlayerId;
use crate::model::state::{DealState, Phase};
use crate::engine::engine::{MoveSelector, hand_of, selection_possible};
use crate::engine::validator::{valid_cards, valid_cards_spec};
use rand::rngs::StdRng;

verus! {

/// What a random selector may answer: a suit of the hand as trump (Hearts with an empty
/// hand); a pass while bidding or after the deal; at the talon, taking it with six cards
/// in hand, else discarding the first two cards; in play, a valid card (the first card of
/// the hand when none is valid).
pub open spec fn random_choice_allowed(deal: DealState, player: PlayerId, a: Action) -> bool {
    let h = hand_of(deal, player);
    match deal.phase {
        Phase::CallingTrump => a matches Action::CallTrump(s) && if h.len() == 0 {
            s == Suit::Hearts
        } else {
            exists|i: int| 0 <= i < h.len() && (#[trigger] h[i]).suit == s
        },
        Phase::Bidding(_) => a == Action::Pass,
        Phase::TalonExchange => if h.len() == 6 {
            a == Action::TakeTalon
        } else {
            a == Action::DiscardToTalon(h[0], h[1])
        },
        Phase::Playing(_) => {
            let v = valid_cards_spec(deal, player);
            a matches Action::PlayCard(c) && if v.len() == 0 {
                c == h[0]
            } else {
                v.contains(c)
            }
        },
        Phase::Finished(_) => a == Action::Pass,
    }
}

/// A move selector that always picks a random valid move.
pub struct RandomSelector {
    rng: StdRng,
}

impl RandomSelector {
    /// The generator the selector draws from.
    pub closed spec fn generator(&self) -> StdRng {
        self.rng
    }

    /// A selector that draws from `rng`.
    pub fn new(rng: StdRng) -> (s: Self)
        ensures
            s.generator() == rng,
    {
        Self { rng }
    }
}

impl MoveSelector for RandomSelector {
    fn select_action(&mut self, deal: &DealState, player: PlayerId) -> (a: Action)
        ensures
            random_choice_allowed(*deal, player, a),
    {
        proof {
            crate::model::player::lemma_seat_numbers(player, player);
        }
        match &deal.phase {
            Phase::CallingTrump => {
                let cards = deal.player(player).hand.cards();
                let mut suits: Vec<Suit> = Vec::new();
                let mut i: usize = 0;
                while i < cards.len()
                    invariant
                        i <= cards@.len(),
                        suits@.len() == i,
                        forall|j: int| 0 <= j < i ==> suits@[j] == (#[trigger] cards@[j]).suit,
                    decreases cards@.len() - i,
                {
                    suits.push(cards[i].suit);
                    i = i + 1;
                }
                let suit = match crate::rng::pick(suits.as_slice(), &mut self.rng) {
                    Some(s) => {
                        let ghost k = choose|k: int| 0 <= k < suits@.len() && suits@[k] == s;
                        assert(cards@[k].suit == s);
                        s
                    },
                    None => Suit::Hearts,
                };
                Action::CallTrump(suit)
            },
            Phase::Bidding(_) => Action::Pass,
            Phase::TalonExchange => {
                let cards = deal.player(player).hand.cards();
                if cards.len() == 6 {
                    Action::TakeTalon
                } else {
                    Action::DiscardToTalon(cards[0], cards[1])
                }
            },
            Phase::Playing(_) => {
                let valid = valid_cards(deal, player);
                match crate::rng::pick(valid.as_slice(), &mut self.rng) {
                    Some(card) => Action::PlayCard(card),
                    None => Action::PlayCard(deal.player(player).hand.cards()[0]),
                }
            },
            Phase::Finished(_) => Action::Pass,
        }
    }
}

} // verus!
