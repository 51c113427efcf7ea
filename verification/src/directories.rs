//! Directories.

pub mod actions;
pub mod models;

pub use actions::get_all_directories;
pub use models::Directory;
