//! Keywords.

pub mod actions;
pub mod models;

pub use actions::get_all_keywords;
pub use models::Keyword;
