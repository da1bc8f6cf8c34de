//! A declarative one-dimensional cell-layout allocator for an immediate-mode
//! UI surface.
//!
//! Given an ordered list of size requests (exact, relative share, ranged, or
//! "remaining space"), the sizing resolver partitions an available length
//! into concrete pixel lengths, and the strip machinery streams UI-drawing
//! callbacks into the resulting cells in order, one direction (row or
//! column) at a time. All lengths are integer pixel units.

pub mod size;
pub mod sizing;
pub mod layout;
pub mod strip;
