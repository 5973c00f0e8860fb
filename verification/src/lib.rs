//! Core logic of a small interactive demo: a shape is moved around the
//! screen with arrow keys, its velocity decaying geometrically when no
//! key is held.  This crate holds the per-frame simulation logic — the
//! velocity/position arithmetic, the key-event bookkeeping and the
//! frame-pacing computation — with machine-checked contracts.  Window
//! creation, drawing and clock reads live in the surrounding binary.
//!
//! All coordinates are exact rational numbers (`frac::Frac`), so every
//! contract pins the result of a step down to the exact value.

pub mod frac;
pub mod frame;
pub mod input;
pub mod pacing;
pub mod physics;
