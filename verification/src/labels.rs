//! The texts a front end shows for seats, actions and cards.

use vstd::prelude::*;
use vstd::string::StringExecFns;
use crate::model::types::Action;

verus! {

/// The name shown for a seat: the human at seat 0 and two bots.
pub open spec fn player_name_spec(id: usize) -> Seq<char> {
    if id == 0 {
        "You"@
    } else if id == 1 {
        "Bot B"@
    } else if id == 2 {
        "Bot C"@
    } else {
        "???"@
    }
}

pub fn player_name(id: usize) -> (s: &'static str)
    ensures
        s@ == player_name_spec(id),
{
    match id {
        0 => "You",
        1 => "Bot B",
        2 => "Bot C",
        _ => "???",
    }
}

/// The text of an action in the log.
pub open spec fn action_text(action: Action) -> Seq<char> {
    match action {
        Action::CallTrump(suit) => "Trump: "@ + suit.symbol_spec() + " "@ + suit.name_de_spec(),
        Action::Bid(gt) => "Bid: "@ + gt.label_spec(),
        Action::Pass => "Pass"@,
        Action::TakeTalon { take } => if take {
            "Take talon"@
        } else {
            "Play without talon"@
        },
        Action::Discard(c1, c2) => "Discard: "@ + c1.label_spec() + " "@ + c2.label_spec(),
        Action::PlayCard(card) => card.label_spec(),
        Action::AnnounceMarriage(m, card) => card.label_spec() + " ("@ + (if m.is_trump {
            "40er"@
        } else {
            "20er"@
        }) + " "@ + m.suit.symbol_spec() + ")"@,
        Action::Spritzen => "Spritzen!"@,
        Action::AcceptSpritzen => "Accept"@,
    }
}

pub fn format_action(action: &Action) -> (s: String)
    ensures
        s@ == action_text(*action),
{
    match action {
        Action::CallTrump(suit) => {
            String::from_str("Trump: ").concat(suit.symbol()).concat(" ").concat(suit.name_de())
        },
        Action::Bid(gt) => String::from_str("Bid: ").concat(gt.label().as_str()),
        Action::Pass => String::from_str("Pass"),
        Action::TakeTalon { take } => if *take {
            String::from_str("Take talon")
        } else {
            String::from_str("Play without talon")
        },
        Action::Discard(c1, c2) => {
            String::from_str("Discard: ").concat(c1.label().as_str()).concat(" ").concat(c2.label().as_str())
        },
        Action::PlayCard(card) => card.label(),
        Action::AnnounceMarriage(m, card) => {
            let kind = if m.is_trump {
                "40er"
            } else {
                "20er"
            };
            card.label().concat(" (").concat(kind).concat(" ").concat(m.suit.symbol()).concat(")")
        },
        Action::Spritzen => String::from_str("Spritzen!"),
        Action::AcceptSpritzen => String::from_str("Accept"),
    }
}

/// A card in two or three characters: the rank's short name and the suit symbol.
pub fn render_card_compact(card: &crate::classic::card::Card) -> (s: String)
    ensures
        s@ == card.label_spec(),
{
    card.label()
}

} // verus!
