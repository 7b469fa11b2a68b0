//! A falling-block puzzle: the field, the seven pieces, and the rules by which
//! a piece moves, turns, lands and clears rows.

pub mod block;
pub mod control;
pub mod field;
pub mod game;
pub mod laws;
pub mod placement;
