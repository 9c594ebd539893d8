//! A library of terminal mini-game state machines driven by one shared
//! real-time loop contract.
//!
//! The heart of the crate is the falling-block puzzle in [`tetris`]: shape
//! rotation, collision resolution, placement, line clearing, scoring and
//! level-driven gravity. Around it stand the loop/dispatch contract in
//! [`engine`], the sound-event vocabulary in [`audio`], and the state machines
//! of the other games. Terminal rendering, audio playback and persistence
//! are left to the embedding application.

pub mod audio;
pub mod engine;
pub mod game2048;
pub mod gameoflife;
pub mod minesweeper;
pub mod snake;
mod rng;
pub mod tetris;
