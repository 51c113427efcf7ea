//! The table of persons. A person is known by their IMDb identifier.

use vstd::prelude::*;

use super::names::{ascending, last_id, MAX_ID};
use super::tables::{
    distinct_keys, has_key, lemma_table_keys, lemma_table_len, lemma_table_push, lemma_table_row,
    table,
};

verus! {

/// One row of the table of persons. Age, gender and birthplace are the
/// stored codes; ingestion leaves them empty.
#[derive(Clone, Debug, PartialEq, Eq)]
pub struct PersonRow {
    pub id: i64,
    pub imdb_id: String,
    pub name: String,
    pub age: Option<u32>,
    pub gender: Option<i32>,
    pub birthplace: Option<i32>,
}

/// What a row holds besides its key.
pub struct PersonView {
    pub id: int,
    pub name: Seq<char>,
    pub age: Option<u32>,
    pub gender: Option<i32>,
    pub birthplace: Option<i32>,
}

/// The birthplace code, where there is one, is one of the codes from 1 to
/// 12, which stand for a country.
pub open spec fn code_known(birthplace: Option<i32>) -> bool {
    match birthplace {
        Some(code) => 1 <= code <= 12,
        None => true,
    }
}

/// A row's IMDb identifier, which is its key.
pub open spec fn person_key() -> spec_fn(PersonRow) -> Seq<char> {
    |row: PersonRow| row.imdb_id@
}

/// What a row holds besides its key.
pub open spec fn person_value() -> spec_fn(PersonRow) -> PersonView {
    |row: PersonRow|
        PersonView {
            id: row.id as int,
            name: row.name@,
            age: row.age,
            gender: row.gender,
            birthplace: row.birthplace,
        }
}

/// A row's identifier.
pub open spec fn person_id() -> spec_fn(PersonRow) -> int {
    |row: PersonRow| row.id as int
}

/// What the table holds: the row of each IMDb identifier, and the last row
/// identifier given out (0 before the first).
pub struct PersonsView {
    pub rows: Map<Seq<char>, PersonView>,
    pub last: int,
}

impl PersonsView {
    /// The table without a row.
    pub open spec fn empty() -> PersonsView {
        PersonsView { rows: Map::empty(), last: 0 }
    }

    /// The table has a person with this IMDb identifier.
    pub open spec fn has(self, imdb_id: Seq<char>) -> bool {
        self.rows.dom().contains(imdb_id)
    }

    /// Some row has the identifier `id`.
    pub open spec fn has_id(self, id: int) -> bool {
        exists|imdb_id: Seq<char>| self.has(imdb_id) && (#[trigger] self.rows[imdb_id]).id == id
    }

    /// No identifier is left for a new row.
    pub open spec fn full(self) -> bool {
        self.last >= MAX_ID
    }

    /// The number of rows.
    pub open spec fn count(self) -> nat {
        self.rows.dom().len()
    }

    /// Finitely many rows, each with an identifier from 1 up to the last one
    /// given out, and with a birthplace code that stands for a country, or
    /// none.
    pub open spec fn wf(self) -> bool {
        &&& self.rows.dom().finite()
        &&& 0 <= self.last <= MAX_ID
        &&& forall|imdb_id: Seq<char>|
            self.has(imdb_id) ==> 1 <= (#[trigger] self.rows[imdb_id]).id <= self.last
                && code_known(self.rows[imdb_id].birthplace)
    }

    /// The table after an insert that ignores a conflict: a person who is
    /// there keeps their row, name included; a new one gets the next
    /// identifier and the given name; a full table stays as it is.
    pub open spec fn insert(self, imdb_id: Seq<char>, name: Seq<char>) -> PersonsView {
        if self.has(imdb_id) || self.full() {
            self
        } else {
            PersonsView {
                rows: self.rows.insert(
                    imdb_id,
                    PersonView {
                        id: self.last + 1,
                        name: name,
                        age: None,
                        gender: None,
                        birthplace: None,
                    },
                ),
                last: self.last + 1,
            }
        }
    }

    /// Whether that insert goes through: it fails only where a new person
    /// meets a full table.
    pub open spec fn accepts(self, imdb_id: Seq<char>) -> bool {
        self.has(imdb_id) || !self.full()
    }
}

/// The table of persons.
pub struct PersonTable {
    rows: Vec<PersonRow>,
}

impl View for PersonTable {
    type V = PersonsView;

    closed spec fn view(&self) -> PersonsView {
        PersonsView {
            rows: table(self.rows@, person_key(), person_value()),
            last: last_id(self.rows@, person_id()),
        }
    }
}

impl PersonTable {
    /// The rows have distinct IMDb identifiers and ascending identifiers.
    pub closed spec fn wf(&self) -> bool {
        &&& distinct_keys(self.rows@, person_key())
        &&& ascending(self.rows@, person_id())
        &&& forall|i: int| 0 <= i < self.rows@.len() ==> code_known((#[trigger] self.rows@[i]).birthplace)
    }

    /// The rows, oldest first.
    pub closed spec fn rows(&self) -> Seq<PersonRow> {
        self.rows@
    }

    /// A well-formed table has a well-formed view.
    pub proof fn lemma_view_wf(&self)
        requires
            self.wf(),
        ensures
            self@.wf(),
            self@.count() == self.rows().len(),
    {
        let rows = self.rows@;
        lemma_table_keys(rows, person_key(), person_value());
        lemma_table_len(rows, person_key(), person_value());
        assert forall|imdb_id: Seq<char>| self@.has(imdb_id) implies 1 <= (
        #[trigger] self@.rows[imdb_id]).id <= self@.last && code_known(
            self@.rows[imdb_id].birthplace,
        ) by {
            let i = choose|i: int|
                0 <= i < rows.len() && person_key()(#[trigger] rows[i]) == imdb_id;
            lemma_table_row(rows, person_key(), person_value(), i);
            assert(rows[rows.len() - 1] == rows.last());
        }
    }

    /// A table without rows.
    pub fn new() -> (empty: PersonTable)
        ensures
            empty.wf(),
            empty@ == PersonsView::empty(),
    {
        PersonTable { rows: Vec::new() }
    }

    /// The position of the row of `imdb_id`.
    fn find(&self, imdb_id: &String) -> (found: Option<usize>)
        ensures
            match found {
                Some(i) => i < self.rows@.len() && self.rows@[i as int].imdb_id@ == imdb_id@,
                None => !has_key(self.rows@, person_key(), imdb_id@),
            },
    {
        let mut i: usize = 0;
        while i < self.rows.len()
            invariant
                i <= self.rows@.len(),
                forall|j: int| 0 <= j < i ==> self.rows@[j].imdb_id@ != imdb_id@,
            decreases self.rows@.len() - i,
        {
            if self.rows[i].imdb_id == *imdb_id {
                return Some(i);
            }
            i += 1;
        }
        None
    }

    /// The row identifier of the person with this IMDb identifier.
    pub fn id_of(&self, imdb_id: &String) -> (found: Option<i64>)
        requires
            self.wf(),
        ensures
            match found {
                Some(id) => self@.has(imdb_id@) && self@.rows[imdb_id@].id == id,
                None => !self@.has(imdb_id@),
            },
    {
        proof {
            lemma_table_keys(self.rows@, person_key(), person_value());
        }
        match self.find(imdb_id) {
            Some(i) => {
                proof {
                    lemma_table_row(self.rows@, person_key(), person_value(), i as int);
                }
                Some(self.rows[i].id)
            },
            None => None,
        }
    }

    /// Whether some row has the identifier `id`.
    pub fn has_id(&self, id: i64) -> (found: bool)
        requires
            self.wf(),
        ensures
            found == self@.has_id(id as int),
    {
        let mut i: usize = 0;
        while i < self.rows.len()
            invariant
                self.wf(),
                i <= self.rows@.len(),
                forall|j: int| 0 <= j < i ==> self.rows@[j].id != id,
            decreases self.rows@.len() - i,
        {
            if self.rows[i].id == id {
                proof {
                    lemma_table_row(self.rows@, person_key(), person_value(), i as int);
                    assert(self@.has(self.rows@[i as int].imdb_id@));
                }
                return true;
            }
            i += 1;
        }
        proof {
            lemma_table_keys(self.rows@, person_key(), person_value());
            if self@.has_id(id as int) {
                let imdb_id = choose|imdb_id: Seq<char>|
                    self@.has(imdb_id) && (#[trigger] self@.rows[imdb_id]).id == id;
                let j = choose|j: int|
                    0 <= j < self.rows@.len() && person_key()(#[trigger] self.rows@[j]) == imdb_id;
                lemma_table_row(self.rows@, person_key(), person_value(), j);
            }
        }
        false
    }

    /// Inserts a person unless they are there. Tells whether the table took
    /// them: it does not where the person is new and no identifier is left.
    pub fn insert(&mut self, imdb_id: &String, name: &String) -> (accepted: bool)
        requires
            old(self).wf(),
        ensures
            final(self).wf(),
            final(self)@ == old(self)@.insert(imdb_id@, name@),
            accepted == old(self)@.accepts(imdb_id@),
    {
        proof {
            lemma_table_keys(self.rows@, person_key(), person_value());
        }
        match self.find(imdb_id) {
            Some(_) => true,
            None => {
                let n: usize = self.rows.len();
                let last: i64 = if n == 0 {
                    0
                } else {
                    self.rows[n - 1].id
                };
                assert(last == self@.last);
                if last >= MAX_ID {
                    false
                } else {
                    let row = PersonRow {
                        id: last + 1,
                        imdb_id: imdb_id.clone(),
                        name: name.clone(),
                        age: None,
                        gender: None,
                        birthplace: None,
                    };
                    proof {
                        lemma_table_push(self.rows@, person_key(), person_value(), row);
                        let after = self.rows@.push(row);
                        assert(after.last() == row);
                        assert forall|i: int, j: int| 0 <= i < j < after.len() implies person_key()(
                            #[trigger] after[i],
                        ) != person_key()(#[trigger] after[j]) by {
                            if j == after.len() - 1 {
                                assert(after[i] == self.rows@[i]);
                            }
                        }
                        assert forall|i: int| 0 <= i < after.len() implies code_known(
                            (#[trigger] after[i]).birthplace,
                        ) by {
                            if i < after.len() - 1 {
                                assert(after[i] == self.rows@[i]);
                            }
                        }
                        assert forall|i: int, j: int| 0 <= i < j < after.len() implies person_id()(
                            #[trigger] after[i],
                        ) < person_id()(#[trigger] after[j]) by {
                            if j == after.len() - 1 {
                                assert(after[i] == self.rows@[i]);
                                if i < n - 1 {
                                    assert(person_id()(self.rows@[i]) < person_id()(
                                        self.rows@[n - 1],
                                    ));
                                }
                            }
                        }
                    }
                    self.rows.push(row);
                    true
                }
            },
        }
    }

    /// A copy of the rows, oldest first.
    pub fn all(&self) -> (rows: Vec<PersonRow>)
        requires
            self.wf(),
        ensures
            lists_persons(rows@, self@),
    {
        let mut rows: Vec<PersonRow> = Vec::new();
        let mut i: usize = 0;
        while i < self.rows.len()
            invariant
                i <= self.rows@.len(),
                rows@.len() == i,
                forall|j: int|
                    0 <= j < i ==> person_key()(rows@[j]) == person_key()(self.rows@[j])
                        && person_value()(rows@[j]) == person_value()(self.rows@[j]),
            decreases self.rows@.len() - i,
        {
            rows.push(
                PersonRow {
                    id: self.rows[i].id,
                    imdb_id: self.rows[i].imdb_id.clone(),
                    name: self.rows[i].name.clone(),
                    age: self.rows[i].age,
                    gender: self.rows[i].gender,
                    birthplace: self.rows[i].birthplace,
                },
            );
            i += 1;
        }
        proof {
            self.lemma_view_wf();
            assert forall|k: int| 0 <= k < rows@.len() implies self@.has(
                #[trigger] rows@[k].imdb_id@,
            ) && self@.rows[rows@[k].imdb_id@] == person_value()(rows@[k]) by {
                lemma_table_row(self.rows@, person_key(), person_value(), k);
                assert(person_key()(rows@[k]) == rows@[k].imdb_id@);
            }
            assert forall|a: int, b: int| 0 <= a < b < rows@.len() implies rows@[a].imdb_id@
                != rows@[b].imdb_id@ by {
                assert(person_key()(self.rows@[a]) != person_key()(self.rows@[b]));
                assert(person_key()(rows@[a]) == rows@[a].imdb_id@);
                assert(person_key()(rows@[b]) == rows@[b].imdb_id@);
            }
        }
        rows
    }
}

/// `rows` lists what the table of persons holds: every row, once.
pub open spec fn lists_persons(rows: Seq<PersonRow>, persons: PersonsView) -> bool {
    &&& rows.len() == persons.count()
    &&& forall|i: int|
        0 <= i < rows.len() ==> persons.has(#[trigger] rows[i].imdb_id@)
            && persons.rows[rows[i].imdb_id@] == person_value()(rows[i])
    &&& forall|i: int, j: int| 0 <= i < j < rows.len() ==> rows[i].imdb_id@ != rows[j].imdb_id@
}

} // verus!
