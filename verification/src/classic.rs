//! The classic model with German rank names: cards, seats, tricks, game types and the
//! state of a round, with move validation and card play.

pub mod game_type;
pub mod card;
pub mod player;
pub mod trick;
pub mod game;
pub mod moves;
pub mod validation;
pub mod engine;
