//! Characters: who plays whom in a film.

pub mod models;

pub use models::Character;
