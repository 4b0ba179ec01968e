//! Runtime core of a small 2D engine: a stack of game states driven one frame
//! at a time, a frame-coherent render instruction pipeline, and the entity
//! logic that feeds it.
//!
//! Everything here works on plain values. Floating-point simulation, window
//! handling and GPU submission live with the program that embeds the library.

pub mod events;
pub mod geometry;
pub mod input;
pub mod kei;
pub mod movement;
pub mod physics;
pub mod render;
pub mod screens;
pub mod state;
pub mod util;
