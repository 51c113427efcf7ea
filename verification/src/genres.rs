//! Genres.

pub mod actions;
pub mod models;

pub use actions::get_all_genres;
pub use models::Genre;
