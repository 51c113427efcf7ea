//! Scraping a film page and storing what it yields.

pub mod actions;
pub mod cast;
pub mod entities;
pub mod fetch;
pub mod ingest;
pub mod json;
pub mod laws;
pub mod merge;
pub mod models;
pub mod normalize;
pub mod page;
pub mod run;

pub use models::{ScrapedDirector, ScrapedFilm, ScrapedStar};
