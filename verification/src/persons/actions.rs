//! Reading the persons of the catalog.

use vstd::prelude::*;

use super::models::{country_of, gender_of, map_birthplace, map_gender, Person, PersonContent};
use crate::database::catalog::Catalog;
use crate::database::persons::{lists_persons, PersonRow, PersonView, PersonsView};
use crate::error::{AppError, AppErrorView};
use crate::text::{lemma_text_le_total, text_le, text_precedes};

verus! {

/// The message of a row whose identifier is no `u32`.
pub open spec fn out_of_range() -> Seq<char> {
    "Integer out of range"@
}

/// The person that a row of the table shows as: the codes of gender and
/// birthplace turned into what they stand for.
pub open spec fn shown(imdb_id: Seq<char>, row: PersonView) -> PersonContent {
    PersonContent {
        id: row.id as u32,
        imdb_id: Some(imdb_id),
        name: Some(row.name),
        age: row.age,
        gender: match row.gender {
            Some(code) => gender_of(code as int),
            None => None,
        },
        birthplace: match row.birthplace {
            Some(code) => Some(country_of(code as int)),
            None => None,
        },
    }
}

/// The person is one of the table, shown as the table's row has them.
pub open spec fn shows_person(person: PersonContent, table: PersonsView) -> bool {
    match person.imdb_id {
        Some(imdb_id) => table.has(imdb_id) && person == shown(imdb_id, table.rows[imdb_id]),
        None => false,
    }
}

/// The name by which a person is put in order.
pub open spec fn sort_name(person: PersonContent) -> Seq<char> {
    match person.name {
        Some(name) => name,
        None => Seq::empty(),
    }
}

/// `items` shows what the table holds: every person of the table, once,
/// in the order of their names.
pub open spec fn shows(items: Seq<Person>, table: PersonsView) -> bool {
    &&& items.len() == table.count()
    &&& forall|i: int| 0 <= i < items.len() ==> shows_person((#[trigger] items[i])@, table)
    &&& forall|i: int, j: int|
        0 <= i < j < items.len() ==> (#[trigger] items[i])@.imdb_id != (#[trigger] items[j])@.imdb_id
    &&& forall|i: int|
        0 <= i < items.len() - 1 ==> text_le(sort_name((#[trigger] items[i])@), sort_name(items[i + 1]@))
}

/// Some row of the table has an identifier that is no `u32`.
pub open spec fn beyond_u32(table: PersonsView) -> bool {
    exists|imdb_id: Seq<char>| table.has(imdb_id) && (#[trigger] table.rows[imdb_id]).id > u32::MAX
}

/// The name of a person, for putting them in order.
fn name_of(person: &Person) -> (name: &str)
    ensures
        name@ == sort_name(person@),
{
    proof {
        reveal_strlit("");
        assert(""@ =~= Seq::<char>::empty());
    }
    match &person.name {
        Some(name) => name.as_str(),
        None => "",
    }
}

/// The persons gathered so far are persons of the table, each from one of
/// the first `done` rows, no two the same, and in the order of their
/// names.
pub open spec fn gathered(
    items: Seq<Person>,
    rows: Seq<PersonRow>,
    done: int,
    table: PersonsView,
) -> bool {
    &&& forall|k: int| 0 <= k < items.len() ==> shows_person((#[trigger] items[k])@, table)
    &&& forall|k: int|
        0 <= k < items.len() ==> exists|j: int|
            0 <= j < done && (#[trigger] items[k])@.imdb_id == Some((#[trigger] rows[j]).imdb_id@)
    &&& forall|a: int, b: int|
        0 <= a < b < items.len() ==> (#[trigger] items[a])@.imdb_id != (#[trigger] items[b])@.imdb_id
    &&& forall|k: int|
        0 <= k < items.len() - 1 ==> text_le(sort_name((#[trigger] items[k])@), sort_name(items[k + 1]@))
}

/// A person of the next row, put in at the place that their name asks
/// for, keeps the persons gathered in order.
proof fn lemma_gathered_next(
    before: Seq<Person>,
    rows: Seq<PersonRow>,
    done: int,
    table: PersonsView,
    person: Person,
    at: int,
)
    requires
        gathered(before, rows, done, table),
        lists_persons(rows, table),
        0 <= done < rows.len(),
        0 <= at <= before.len(),
        shows_person(person@, table),
        person@.imdb_id == Some(rows[done].imdb_id@),
        forall|k: int| 0 <= k < at ==> text_le(sort_name((#[trigger] before[k])@), sort_name(person@)),
        at < before.len() ==> !text_le(sort_name(before[at]@), sort_name(person@)),
    ensures
        gathered(before.insert(at, person), rows, done + 1, table),
{
    let after = before.insert(at, person);
    if at < before.len() {
        lemma_text_le_total(sort_name(before[at]@), sort_name(person@));
    }
    assert forall|k: int| 0 <= k < before.len() implies (#[trigger] before[k])@.imdb_id
        != person@.imdb_id by {
        let j = choose|j: int|
            0 <= j < done && before[k]@.imdb_id == Some((#[trigger] rows[j]).imdb_id@);
        assert(rows[j].imdb_id@ != rows[done].imdb_id@);
    }
    assert forall|k: int| 0 <= k < after.len() implies shows_person((#[trigger] after[k])@, table) by {
        if k < at {
            assert(after[k] == before[k]);
        } else if k > at {
            assert(after[k] == before[k - 1]);
        }
    }
    assert forall|k: int| 0 <= k < after.len() implies exists|j: int|
        0 <= j < done + 1 && (#[trigger] after[k])@.imdb_id == Some(
            (#[trigger] rows[j]).imdb_id@,
        ) by {
        if k < at {
            assert(after[k] == before[k]);
            let j = choose|j: int|
                0 <= j < done && before[k]@.imdb_id == Some((#[trigger] rows[j]).imdb_id@);
            assert(after[k]@.imdb_id == Some(rows[j].imdb_id@));
        } else if k > at {
            assert(after[k] == before[k - 1]);
            let j = choose|j: int|
                0 <= j < done && before[k - 1]@.imdb_id == Some((#[trigger] rows[j]).imdb_id@);
            assert(after[k]@.imdb_id == Some(rows[j].imdb_id@));
        } else {
            assert(after[k]@.imdb_id == Some(rows[done].imdb_id@));
        }
    }
    assert forall|a: int, b: int| 0 <= a < b < after.len() implies (#[trigger] after[a])@.imdb_id
        != (#[trigger] after[b])@.imdb_id by {
        let x = if a < at {
            a
        } else {
            a - 1
        };
        let y = if b < at {
            b
        } else {
            b - 1
        };
        if a != at && b != at {
            assert(after[a] == before[x] && after[b] == before[y]);
        } else if a == at {
            assert(after[b] == before[y]);
        } else {
            assert(after[a] == before[x]);
        }
    }
    assert forall|k: int| 0 <= k < after.len() - 1 implies text_le(
        sort_name((#[trigger] after[k])@),
        sort_name(after[k + 1]@),
    ) by {
        if k + 1 < at {
            assert(after[k] == before[k] && after[k + 1] == before[k + 1]);
        } else if k + 1 == at {
            assert(after[k] == before[k]);
        } else if k == at {
            assert(after[k + 1] == before[k]);
        } else {
            assert(after[k] == before[k - 1] && after[k + 1] == before[k]);
        }
    }
}

/// Every person of the catalog, in the order of their names. It fails,
/// with a `DatabaseError`, where a row's identifier is no `u32`.
pub fn get_all_persons(catalog: &Catalog) -> (result: Result<Vec<Person>, AppError>)
    requires
        catalog.wf(),
    ensures
        match result {
            Ok(items) => shows(items@, catalog@.persons),
            Err(error) => beyond_u32(catalog@.persons) && error@ == AppErrorView::DatabaseError(
                out_of_range(),
            ),
        },
{
    proof {
        catalog.lemma_view_wf();
    }
    let ghost table = catalog@.persons;
    let rows = catalog.persons();
    let mut sorted: Vec<Person> = Vec::new();
    let mut i: usize = 0;
    while i < rows.len()
        invariant
            i <= rows@.len(),
            table == catalog@.persons,
            table.wf(),
            lists_persons(rows@, table),
            sorted@.len() == i,
            gathered(sorted@, rows@, i as int, table),
        decreases rows@.len() - i,
    {
        let row = &rows[i];
        assert(table.has(rows@[i as int].imdb_id@));
        assert(table.rows[rows@[i as int].imdb_id@].id == row.id);
        let id: i64 = row.id;
        if id < 0 || id > 0xffff_ffff {
            assert(beyond_u32(table));
            return Err(AppError::DatabaseError("Integer out of range".to_owned()));
        }
        let person = Person {
            id: id as u32,
            imdb_id: Some(row.imdb_id.clone()),
            name: Some(row.name.clone()),
            age: row.age,
            gender: match row.gender {
                Some(code) => map_gender(code),
                None => None,
            },
            birthplace: match row.birthplace {
                Some(code) => Some(map_birthplace(code)),
                None => None,
            },
        };
        assert(shows_person(person@, table));
        let mut at: usize = 0;
        while at < sorted.len() && text_precedes(name_of(&sorted[at]), name_of(&person))
            invariant
                at <= sorted@.len(),
                forall|k: int|
                    0 <= k < at ==> text_le(sort_name((#[trigger] sorted@[k])@), sort_name(person@)),
            decreases sorted@.len() - at,
        {
            at += 1;
        }
        proof {
            lemma_gathered_next(sorted@, rows@, i as int, table, person, at as int);
        }
        sorted.insert(at, person);
        i += 1;
    }
    Ok(sorted)
}

} // verus!
