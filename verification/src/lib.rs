//! Wave and combat simulation for a grid-based tower-defense game.
//!
//! Enemies spawn in timed waves, walk a fixed path over a grid and are shot
//! at by towers the player places. Every quantity is an integer: lengths are
//! thousandths of a world unit, durations are milliseconds, and damage,
//! health, rates and multipliers are thousandths.

pub mod units;
pub mod audio;
pub mod text;
pub mod geometry;
mod rng;
pub mod timer;
pub mod state;
pub mod grid;
pub mod enemies;
pub mod gameplay;
pub mod tower;
pub mod inventory;
pub mod ui;
pub mod world;
