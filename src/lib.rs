//! Gameplay rules of a "collect the stars, dodge the enemies" arcade game.
//!
//! The playfield uses integer coordinates: one unit is a thousandth of a
//! pixel, and time is counted in nanoseconds. Every rule of the game (timers,
//! movement, confinement, collisions, scoring and the state machine that spawns
//! and clears the entities) is stated and proved over these values.
pub mod geometry;
pub mod timer;
pub mod random;
pub mod world;
pub mod people;
