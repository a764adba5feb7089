//! Core of a small terminal arcade game: a player dodges falling objects
//! inside a rectangular play area while an energy meter depletes on
//! collision.  This crate holds the simulation itself — rectangles,
//! falling objects, the spawn/advance/retire lifecycle, player movement
//! clamping, collision handling and the per-tick game-state step — each
//! with a verified contract.  Rendering and input polling live outside.

pub mod game;
pub mod objects;
pub mod player;
