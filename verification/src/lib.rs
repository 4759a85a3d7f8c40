//! A verified simulation core for a grid snake game.
//!
//! The crate owns the whole game state: the snake body, the travel
//! direction, the food cell, the lifecycle state and the score. Every
//! command a presentation layer can issue (steering, pausing, advancing
//! one tick, restarting) is a verified operation whose contract pins the
//! outcome down over a mathematical view of the state.

pub mod game;
pub mod laws;
mod rng;
