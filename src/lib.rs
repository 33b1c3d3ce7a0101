//! A falling-block puzzle engine with a quiz-driven penalty rule.
//!
//! - [`grid`]: the piece catalog and the engine, whose operations are proved
//!   against the model in [`model`].
//! - [`laws`]: properties that hold across the engine's operations.
//! - [`random`]: the random draws the engine makes.
//! - [`quiz`] and [`game`]: quiz records and the game session that ties a
//!   quiz pool, key presses and the engine together.
//! - [`layout`]: screen placement and text wrapping.

pub mod grid;
pub mod model;
pub mod laws;
pub mod random;
pub mod quiz;
pub mod game;
pub mod layout;
