//! Hand-strength classification and pre-flop range resolution for
//! heads-up poker analysis.
//!
//! The crate classifies made hands and draws from a set of cards, and maps
//! an observed (position, opponent, action) triple to a named pre-flop range.

pub mod card;
pub mod text;
pub mod position;
pub mod action;
pub mod madehand;
pub mod straight;
pub mod seqs;
pub mod drawhand;
pub mod tally;
pub mod classify;
pub mod cards;
pub mod combos;
pub mod range;
pub mod hand_wrapper;
pub mod player;
pub mod board;
pub mod duel;
pub mod hand;
