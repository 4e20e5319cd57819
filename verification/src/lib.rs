//! A falling-block puzzle engine: the board, the active piece, collision
//! detection, locking, line clearing, scoring and the game-over condition.

pub mod bits;
pub mod block;
mod chance;
pub mod clock;
pub mod colour;
pub mod control;
pub mod game;
pub mod laws;
pub mod model;
pub mod palette;
pub mod rotation;
pub mod shapes;
pub mod text;
