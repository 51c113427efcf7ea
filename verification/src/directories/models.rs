//! Directories as the catalog shows them.

use vstd::prelude::*;

use crate::database::names::{NameRow, NamesView};

verus! {

/// A directory of the catalog.
#[derive(Clone, Debug, PartialEq, Eq)]
pub struct Directory {
    pub id: u32,
    pub path: String,
}

/// `items` shows what the table holds: every row of the table, once.
pub open spec fn shows(items: Seq<Directory>, table: NamesView) -> bool {
    &&& items.len() == table.count()
    &&& forall|i: int|
        0 <= i < items.len() ==> table.has(#[trigger] items[i].path@) && table.ids[items[i].path@]
            == items[i].id
    &&& forall|i: int, j: int| 0 <= i < j < items.len() ==> items[i].path@ != items[j].path@
}

/// Some row of the table has an identifier that is no `u32`.
pub open spec fn beyond_u32(table: NamesView) -> bool {
    exists|key: Seq<char>| table.has(key) && #[trigger] table.ids[key] > u32::MAX
}

/// The rows of the table as directories. It fails where a row's identifier is
/// no `u32`.
pub fn from_rows(rows: &Vec<NameRow>) -> (items: Option<Vec<Directory>>)
    ensures
        match items {
            Some(list) => {
                &&& list@.len() == rows@.len()
                &&& forall|i: int|
                    0 <= i < list@.len() ==> list@[i].id == rows@[i].id && list@[i].path@
                        == rows@[i].name@
            },
            None => exists|i: int|
                0 <= i < rows@.len() && !(0 <= (#[trigger] rows@[i]).id <= u32::MAX),
        },
{
    let mut list: Vec<Directory> = Vec::new();
    let mut i: usize = 0;
    while i < rows.len()
        invariant
            i <= rows@.len(),
            list@.len() == i,
            forall|j: int|
                0 <= j < i ==> list@[j].id == rows@[j].id && list@[j].path@ == rows@[j].name@,
        decreases rows@.len() - i,
    {
        let id: i64 = rows[i].id;
        if id < 0 || id > 0xffff_ffff {
            return None;
        }
        list.push(Directory { id: id as u32, path: rows[i].name.clone() });
        i += 1;
    }
    Some(list)
}

} // verus!
