//! What the application shows.
pub mod template;
