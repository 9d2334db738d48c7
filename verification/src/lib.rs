//! A falling-block puzzle engine: the playfield, the active piece, collision
//! and rotation rules, line clearing, scoring and the game-over cycle.
//!
//! Every operation is a plain state query or state mutation.  Rendering,
//! sound, input mapping and windowing belong to the program that embeds the
//! engine; it drives [`game::Game::tick`] once per frame and carries out the
//! [`game::Effects`] that come back.

pub mod board;
mod chance;
pub mod game;
pub mod piece;
pub mod scoring;
pub mod shape;
