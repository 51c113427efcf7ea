//! Persons: actors and directors.

pub mod actions;
pub mod models;

pub use actions::get_all_persons;
pub use models::{Country, Gender, Person};
