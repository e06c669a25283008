//! The engine: legality of moves, the flow of a deal and simple players.

pub mod validator;
pub mod engine;
pub mod random;
pub mod acceptance;
pub mod player;
