//! Keyboard-driven pointer navigation over a grid of display regions.
//!
//! Each display is divided into a 4x4 grid of regions, and each region into a
//! 5x3 grid of cells, so that any pixel is reachable with two key strokes.
//! The crate provides the spatial addressing model, the key-binding table with
//! its canonical key-name resolution, the armed-key debounce classifier, and
//! the navigation state machine that turns classified input into pointer
//! action requests.  Display enumeration, input polling, pointer injection
//! and on-screen painting are left to the embedding program.

pub mod bindings;
pub mod classifier;
pub mod geometry;
pub mod keys;
pub mod machine;
