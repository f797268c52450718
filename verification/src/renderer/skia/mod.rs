//! The native Skia backend's decisions.

pub mod renderer;
