//! Dreierschnapsen (three-player Schnapsen): cards, game types, trick rules,
//! scoring and the state machines that drive a deal, with their contracts.

mod seq_facts;
mod text;
mod rng;
pub mod model;
pub mod engine;
pub mod rules;
pub mod variants;
pub mod round;
pub mod classic;
pub mod labels;
