//! Reading the genres of the catalog.

use vstd::prelude::*;

use super::models::{beyond_u32, from_rows, shows, Genre};
use crate::database::catalog::{Catalog, Lookup};
use crate::database::names::law_name_listed_once;
use crate::error::{AppError, AppErrorView};

verus! {

/// The message of a row whose identifier is no `u32`.
pub open spec fn out_of_range() -> Seq<char> {
    "Integer out of range"@
}

/// Every genre of the catalog. It fails, with a `DatabaseError`, where
/// a row's identifier is no `u32`.
pub fn get_all_genres(catalog: &Catalog) -> (result: Result<Vec<Genre>, AppError>)
    requires
        catalog.wf(),
    ensures
        match result {
            Ok(items) => shows(items@, catalog@.genres) && !beyond_u32(catalog@.genres),
            Err(error) => beyond_u32(catalog@.genres) && error@ == AppErrorView::DatabaseError(
                out_of_range(),
            ),
        },
{
    proof {
        catalog.lemma_view_wf();
    }
    let rows = catalog.names(Lookup::Genres);
    match from_rows(&rows) {
        Some(items) => {
            assert(shows(items@, catalog@.genres));
            proof {
                assert forall|key: Seq<char>| catalog@.genres.has(key) implies #[trigger] catalog@.genres.ids[key]
                    <= u32::MAX by {
                    law_name_listed_once(rows@, catalog@.genres, key);
                    let i = choose|i: int| 0 <= i < rows@.len() && (#[trigger] rows@[i]).name@ == key;
                    assert(items@[i].id == rows@[i].id);
                }
            }
            Ok(items)
        },
        None => {
            proof {
                let i = choose|i: int|
                    0 <= i < rows@.len() && !(0 <= (#[trigger] rows@[i]).id <= u32::MAX);
                assert(catalog@.genres.has(rows@[i].name@));
            }
            Err(AppError::DatabaseError("Integer out of range".to_owned()))
        },
    }
}

} // verus!
