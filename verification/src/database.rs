//! The catalog store: its tables, and the statements that ingestion runs
//! against it.

use vstd::prelude::*;

pub mod catalog;
pub mod films;
pub mod links;
pub mod names;
pub mod persons;
pub mod tables;

pub use catalog::{Catalog, Lookup, Outcome, Statement};

verus! {

/// A catalog with every table made and none filled. The first film added
/// to it gets the identifier 1.
pub fn initialize_database() -> (catalog: Catalog)
    ensures
        catalog.wf(),
        catalog@ == catalog::CatalogView::empty(),
        catalog.next_film_id() == 1,
{
    Catalog::new()
}

} // verus!
