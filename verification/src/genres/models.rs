//! Genres as the catalog shows them.

use vstd::prelude::*;

use crate::database::names::{NameRow, NamesView};
use crate::text::{decimal_u32, kept, lemma_kept_next, parse_u32, split, split_text, texts};

verus! {

/// A genre of the catalog.
#[derive(Clone, Debug, PartialEq, Eq)]
pub struct Genre {
    pub id: u32,
    pub name: String,
}

/// `items` shows what the table holds: every row of the table, once.
pub open spec fn shows(items: Seq<Genre>, table: NamesView) -> bool {
    &&& items.len() == table.count()
    &&& forall|i: int|
        0 <= i < items.len() ==> table.has(#[trigger] items[i].name@) && table.ids[items[i].name@]
            == items[i].id
    &&& forall|i: int, j: int| 0 <= i < j < items.len() ==> items[i].name@ != items[j].name@
}

/// Some row of the table has an identifier that is no `u32`.
pub open spec fn beyond_u32(table: NamesView) -> bool {
    exists|key: Seq<char>| table.has(key) && #[trigger] table.ids[key] > u32::MAX
}

/// The rows of the table as genres. It fails where a row's identifier is
/// no `u32`.
pub fn from_rows(rows: &Vec<NameRow>) -> (items: Option<Vec<Genre>>)
    ensures
        match items {
            Some(list) => {
                &&& list@.len() == rows@.len()
                &&& forall|i: int|
                    0 <= i < list@.len() ==> list@[i].id == rows@[i].id && list@[i].name@
                        == rows@[i].name@
            },
            None => exists|i: int|
                0 <= i < rows@.len() && !(0 <= (#[trigger] rows@[i]).id <= u32::MAX),
        },
{
    let mut list: Vec<Genre> = Vec::new();
    let mut i: usize = 0;
    while i < rows.len()
        invariant
            i <= rows@.len(),
            list@.len() == i,
            forall|j: int|
                0 <= j < i ==> list@[j].id == rows@[j].id && list@[j].name@ == rows@[j].name@,
        decreases rows@.len() - i,
    {
        let id: i64 = rows[i].id;
        if id < 0 || id > 0xffff_ffff {
            return None;
        }
        list.push(Genre { id: id as u32, name: rows[i].name.clone() });
        i += 1;
    }
    Some(list)
}

/// The mathematical content of a `Genre`.
pub struct GenreContent {
    pub id: u32,
    pub name: Seq<char>,
}

impl View for Genre {
    type V = GenreContent;

    open spec fn view(&self) -> GenreContent {
        GenreContent { id: self.id, name: self.name@ }
    }
}

/// The views of a list, in order.
pub open spec fn contents(items: Seq<Genre>) -> Seq<GenreContent> {
    Seq::new(items.len(), |i: int| items[i]@)
}

/// The genre that a list of fields describes: the identifier, which
/// has to be a `u32` in decimal, then the name.
pub open spec fn described(parts: Seq<Seq<char>>) -> Option<GenreContent> {
    if parts.len() < 2 {
        None
    } else {
        match decimal_u32(parts[0]) {
            Ok(id) => Some(GenreContent { id: id as u32, name: parts[1] }),
            Err(_) => None,
        }
    }
}

/// The genres that a text lists: between commas stands one each, as
/// identifier, colon, name. A piece that describes none is passed over.
pub open spec fn listed(text: Seq<char>) -> Seq<GenreContent> {
    kept(split(text, ','), |piece: Seq<char>| described(split(piece, ':')))
}

impl Genre {
    /// Reads a genre from a list of fields.
    pub fn from_parts(parts: &[String]) -> (found: Option<Genre>)
        ensures
            match found {
                Some(item) => described(texts(parts@)) == Some(item@),
                None => described(texts(parts@)) is None,
            },
    {
        if parts.len() < 2 {
            return None;
        }
        match parse_u32(parts[0].as_str()) {
            Ok(id) => Some(Genre { id, name: parts[1].clone() }),
            Err(_) => None,
        }
    }

    /// Reads the genres that a text lists.
    pub fn from_list(text: &str) -> (items: Vec<Genre>)
        ensures
            contents(items@) == listed(text@),
    {
        let pieces = split_text(text, ',');
        let mut items: Vec<Genre> = Vec::new();
        let mut i: usize = 0;
        assert(texts(pieces@).take(0).len() == 0);
        while i < pieces.len()
            invariant
                i <= pieces@.len(),
                texts(pieces@) == split(text@, ','),
                contents(items@) == kept(
                    texts(pieces@).take(i as int),
                    |piece: Seq<char>| described(split(piece, ':')),
                ),
            decreases pieces@.len() - i,
        {
            proof {
                lemma_kept_next(
                    texts(pieces@),
                    |piece: Seq<char>| described(split(piece, ':')),
                    i as int,
                );
            }
            let parts = split_text(pieces[i].as_str(), ':');
            match Genre::from_parts(parts.as_slice()) {
                Some(item) => {
                    let ghost before = contents(items@);
                    items.push(item);
                    assert(contents(items@) == before.push(item@));
                },
                None => {},
            }
            i += 1;
        }
        assert(texts(pieces@).take(pieces@.len() as int) == texts(pieces@));
        items
    }
}

} // verus!
