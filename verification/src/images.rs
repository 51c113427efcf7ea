//! Stored images.

pub mod actions;
pub mod models;

pub use models::ImageSize;
