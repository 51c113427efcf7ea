//! Reading the languages of the catalog.

use vstd::prelude::*;

use super::models::{beyond_u32, from_rows, shows, Language};
use crate::database::catalog::{Catalog, Lookup};
use crate::database::names::law_name_listed_once;
use crate::error::{AppError, AppErrorView};

verus! {

/// The message of a row whose identifier is no `u32`.
pub open spec fn out_of_range() -> Seq<char> {
    "Integer out of range"@
}

/// Every language of the catalog. It fails, with a `DatabaseError`, where
/// a row's identifier is no `u32`.
pub fn get_all_languages(catalog: &Catalog) -> (result: Result<Vec<Language>, AppError>)
    requires
        catalog.wf(),
    ensures
        match result {
            Ok(items) => shows(items@, catalog@.languages) && !beyond_u32(catalog@.languages),
            Err(error) => beyond_u32(catalog@.languages) && error@ == AppErrorView::DatabaseError(
                out_of_range(),
            ),
        },
{
    proof {
        catalog.lemma_view_wf();
    }
    let rows = catalog.names(Lookup::Languages);
    match from_rows(&rows) {
        Some(items) => {
            assert(shows(items@, catalog@.languages));
            proof {
                assert forall|key: Seq<char>| catalog@.languages.has(key) implies #[trigger] catalog@.languages.ids[key]
                    <= u32::MAX by {
                    law_name_listed_once(rows@, catalog@.languages, key);
                    let i = choose|i: int| 0 <= i < rows@.len() && (#[trigger] rows@[i]).name@ == key;
                    assert(items@[i].id == rows@[i].id);
                }
            }
            Ok(items)
        },
        None => {
            proof {
                let i = choose|i: int|
                    0 <= i < rows@.len() && !(0 <= (#[trigger] rows@[i]).id <= u32::MAX);
                assert(catalog@.languages.has(rows@[i].name@));
            }
            Err(AppError::DatabaseError("Integer out of range".to_owned()))
        },
    }
}

} // verus!
