//! Languages.

pub mod actions;
pub mod models;

pub use actions::get_all_languages;
pub use models::Language;
