//! The deal-level model: cards, deck, game types, players, tricks and scoring.

pub mod card;
pub mod types;
pub mod deck;
pub mod game;
pub mod progress;
pub mod player;
pub mod game_type;
pub mod action;
pub mod state;
