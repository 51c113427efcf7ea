//! Reading the directories of the catalog.

use vstd::prelude::*;

use super::models::{beyond_u32, from_rows, shows, Directory};
use crate::database::catalog::{Catalog};
use crate::database::names::law_name_listed_once;
use crate::error::{AppError, AppErrorView};

verus! {

/// The message of a row whose identifier is no `u32`.
pub open spec fn out_of_range() -> Seq<char> {
    "Integer out of range"@
}

/// Every directory of the catalog. It fails, with a `DatabaseError`, where
/// a row's identifier is no `u32`.
pub fn get_all_directories(catalog: &Catalog) -> (result: Result<Vec<Directory>, AppError>)
    requires
        catalog.wf(),
    ensures
        match result {
            Ok(items) => shows(items@, catalog@.directories) && !beyond_u32(catalog@.directories),
            Err(error) => beyond_u32(catalog@.directories) && error@ == AppErrorView::DatabaseError(
                out_of_range(),
            ),
        },
{
    proof {
        catalog.lemma_view_wf();
    }
    let rows = catalog.directories();
    match from_rows(&rows) {
        Some(items) => {
            assert(shows(items@, catalog@.directories));
            proof {
                assert forall|key: Seq<char>| catalog@.directories.has(key) implies #[trigger] catalog@.directories.ids[key]
                    <= u32::MAX by {
                    law_name_listed_once(rows@, catalog@.directories, key);
                    let i = choose|i: int| 0 <= i < rows@.len() && (#[trigger] rows@[i]).name@ == key;
                    assert(items@[i].id == rows@[i].id);
                }
            }
            Ok(items)
        },
        None => {
            proof {
                let i = choose|i: int|
                    0 <= i < rows@.len() && !(0 <= (#[trigger] rows@[i]).id <= u32::MAX);
                assert(catalog@.directories.has(rows@[i].name@));
            }
            Err(AppError::DatabaseError("Integer out of range".to_owned()))
        },
    }
}

} // verus!
