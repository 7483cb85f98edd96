//! Chess rules glue, a resumable game-tree search and the state of a chess
//! playground: game timeline, move list, board editor and opponent settings.

pub mod types;
pub mod board;
pub mod rules;
pub mod eval;
pub mod engine;
pub mod state;
pub mod store;
pub mod view;
