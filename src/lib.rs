//! A chess position engine with a depth-limited minimax search.
//!
//! `pos` holds board coordinates, `chess` the pieces, the game state and its move generator,
//! `rules` the mathematical model that the generator and the evaluator are proved against, and
//! `computer` the alpha-beta search together with its proof of agreement with plain minimax.

pub mod chess;
pub mod computer;
pub mod pos;
pub mod rules;
