//! A 2D canvas renderer core: an interactive camera (panning, cursor-anchored
//! zooming) over exact rational coordinates, the orthographic projection it
//! induces, per-shape instance collections, and the pointer-event routing
//! that drives them. The GPU and windowing plumbing lives outside this
//! library; everything here is plain in-memory computation.

pub mod camera;
pub mod instance;
pub mod rat;
pub mod state;
pub mod weighted;

pub use rat::Rat;
