//! Filename normalization for a single directory: a protection check,
//! a fixed text pipeline that computes canonical names, and the per-entry
//! decision gate that says when a rename may happen.

pub mod text;
pub mod outside;
pub mod normalize;
pub mod gate;
