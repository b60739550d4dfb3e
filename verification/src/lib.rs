//! Core of an interactive Conway's Game of Life simulator: the stepping
//! engine over a fixed-size board, a camera that maps between grid and screen
//! coordinates, a bounded history of past boards for stepping backward, and a
//! time-paced playback controller. Rendering and input capture are left to
//! the surrounding application; this crate owns the logic and its proofs.

pub mod camera;
pub mod frac;
pub mod game;
pub mod history;
pub mod playback;
