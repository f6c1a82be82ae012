//! The core of a fast, minimal PDF viewer.

pub mod app;
pub mod cache;
pub mod geometry;
pub mod laws;
pub mod layout;
pub mod model;
pub mod outline;
pub mod path;
pub mod pixels;
pub mod render;
pub mod testing;
pub mod text;
pub mod viewer;
