//! The rules of a falling-block puzzle: piece shapes and wall kicks, the
//! falling piece, the field of settled cells with line clearing, and the game
//! state that ties them together.

pub mod shapes;
pub mod piece;
pub mod grid;
pub mod game;
