//! A personal film catalog: scraping film pages, normalising what they hold
//! and merging it into the catalog.

pub mod characters;
pub mod database;
pub mod directories;
pub mod error;
pub mod films;
pub mod genres;
pub mod images;
pub mod keywords;
pub mod languages;
pub mod persons;
pub mod scrapers;
pub mod server;
pub mod text;
