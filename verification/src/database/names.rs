//! A lookup table of names: genres, languages or keywords. Each name
//! stands once, under the identifier it got when it first came.

use vstd::prelude::*;

use super::tables::{
    distinct_keys, has_key, lemma_table_keys, lemma_table_len, lemma_table_push, lemma_table_row,
    table,
};

verus! {

/// The largest identifier that a row can have.
pub const MAX_ID: i64 = 0x7fff_ffff_ffff_ffff;

/// One row of a lookup table.
#[derive(Clone, Debug, PartialEq, Eq)]
pub struct NameRow {
    pub id: i64,
    pub name: String,
}

/// A row's name, which is its key.
pub open spec fn name_key() -> spec_fn(NameRow) -> Seq<char> {
    |row: NameRow| row.name@
}

/// A row's identifier.
pub open spec fn name_id() -> spec_fn(NameRow) -> int {
    |row: NameRow| row.id as int
}

/// What a lookup table holds: the identifier of each name, and the last
/// identifier given out (0 before the first).
pub struct NamesView {
    pub ids: Map<Seq<char>, int>,
    pub last: int,
}

impl NamesView {
    /// The table without a row.
    pub open spec fn empty() -> NamesView {
        NamesView { ids: Map::empty(), last: 0 }
    }

    /// The table has a row for `name`.
    pub open spec fn has(self, name: Seq<char>) -> bool {
        self.ids.dom().contains(name)
    }

    /// Some row has the identifier `id`.
    pub open spec fn has_id(self, id: int) -> bool {
        exists|name: Seq<char>| self.has(name) && #[trigger] self.ids[name] == id
    }

    /// No identifier is left for a new row.
    pub open spec fn full(self) -> bool {
        self.last >= MAX_ID
    }

    /// The number of rows.
    pub open spec fn count(self) -> nat {
        self.ids.dom().len()
    }

    /// Finitely many rows, each with an identifier from 1 up to the last one
    /// given out.
    pub open spec fn wf(self) -> bool {
        &&& self.ids.dom().finite()
        &&& 0 <= self.last <= MAX_ID
        &&& forall|name: Seq<char>| self.has(name) ==> 1 <= #[trigger] self.ids[name] <= self.last
    }

    /// The table after an insert that ignores a conflict: a name that is
    /// there keeps its row, a new name gets the next identifier, and a full
    /// table stays as it is.
    pub open spec fn insert(self, name: Seq<char>) -> NamesView {
        if self.has(name) || self.full() {
            self
        } else {
            NamesView { ids: self.ids.insert(name, self.last + 1), last: self.last + 1 }
        }
    }

    /// Whether that insert goes through: it fails only where a new name
    /// meets a full table.
    pub open spec fn accepts(self, name: Seq<char>) -> bool {
        self.has(name) || !self.full()
    }
}

/// The rows' identifiers ascend, starting from 1 or above.
pub open spec fn ascending<R>(rows: Seq<R>, id: spec_fn(R) -> int) -> bool {
    &&& forall|i: int, j: int| 0 <= i < j < rows.len() ==> id(#[trigger] rows[i]) < id(#[trigger] rows[j])
    &&& forall|i: int| 0 <= i < rows.len() ==> 1 <= id(#[trigger] rows[i])
}

/// The identifier of the last row; 0 without rows.
pub open spec fn last_id<R>(rows: Seq<R>, id: spec_fn(R) -> int) -> int {
    if rows.len() == 0 {
        0
    } else {
        id(rows.last())
    }
}

/// A lookup table.
pub struct NameTable {
    rows: Vec<NameRow>,
}

impl View for NameTable {
    type V = NamesView;

    closed spec fn view(&self) -> NamesView {
        NamesView {
            ids: table(self.rows@, name_key(), name_id()),
            last: last_id(self.rows@, name_id()),
        }
    }
}

impl NameTable {
    /// The rows have distinct names and ascending identifiers.
    pub closed spec fn wf(&self) -> bool {
        &&& distinct_keys(self.rows@, name_key())
        &&& ascending(self.rows@, name_id())
    }

    /// A well-formed table has a well-formed view.
    pub proof fn lemma_view_wf(&self)
        requires
            self.wf(),
        ensures
            self@.wf(),
            self@.count() == self.rows().len(),
    {
        let rows = self.rows@;
        lemma_table_keys(rows, name_key(), name_id());
        lemma_table_len(rows, name_key(), name_id());
        assert forall|name: Seq<char>| self@.has(name) implies 1 <= #[trigger] self@.ids[name]
            <= self@.last by {
            let i = choose|i: int| 0 <= i < rows.len() && name_key()(#[trigger] rows[i]) == name;
            lemma_table_row(rows, name_key(), name_id(), i);
            assert(rows[rows.len() - 1] == rows.last());
        }
    }

    /// The rows, oldest first.
    pub closed spec fn rows(&self) -> Seq<NameRow> {
        self.rows@
    }

    /// A table without rows.
    pub fn new() -> (empty: NameTable)
        ensures
            empty.wf(),
            empty@ == NamesView::empty(),
    {
        NameTable { rows: Vec::new() }
    }

    /// The position of the row for `name`.
    fn find(&self, name: &String) -> (found: Option<usize>)
        ensures
            match found {
                Some(i) => i < self.rows@.len() && self.rows@[i as int].name@ == name@,
                None => !has_key(self.rows@, name_key(), name@),
            },
    {
        let mut i: usize = 0;
        while i < self.rows.len()
            invariant
                i <= self.rows@.len(),
                forall|j: int| 0 <= j < i ==> self.rows@[j].name@ != name@,
            decreases self.rows@.len() - i,
        {
            if self.rows[i].name == *name {
                return Some(i);
            }
            i += 1;
        }
        None
    }

    /// The identifier of `name`, if the table has it.
    pub fn id_of(&self, name: &String) -> (found: Option<i64>)
        requires
            self.wf(),
        ensures
            match found {
                Some(id) => self@.has(name@) && self@.ids[name@] == id,
                None => !self@.has(name@),
            },
    {
        proof {
            lemma_table_keys(self.rows@, name_key(), name_id());
        }
        match self.find(name) {
            Some(i) => {
                proof {
                    lemma_table_row(self.rows@, name_key(), name_id(), i as int);
                }
                Some(self.rows[i].id)
            },
            None => None,
        }
    }

    /// Whether some row has the identifier `id`.
    pub fn has_id(&self, id: i64) -> (found: bool)
        requires
            self.wf(),
        ensures
            found == self@.has_id(id as int),
    {
        let mut i: usize = 0;
        while i < self.rows.len()
            invariant
                self.wf(),
                i <= self.rows@.len(),
                forall|j: int| 0 <= j < i ==> self.rows@[j].id != id,
            decreases self.rows@.len() - i,
        {
            if self.rows[i].id == id {
                proof {
                    lemma_table_row(self.rows@, name_key(), name_id(), i as int);
                    assert(self@.has(self.rows@[i as int].name@));
                }
                return true;
            }
            i += 1;
        }
        proof {
            lemma_table_keys(self.rows@, name_key(), name_id());
            if self@.has_id(id as int) {
                let name = choose|name: Seq<char>| self@.has(name) && #[trigger] self@.ids[name] == id;
                let j = choose|j: int|
                    0 <= j < self.rows@.len() && name_key()(#[trigger] self.rows@[j]) == name;
                lemma_table_row(self.rows@, name_key(), name_id(), j);
            }
        }
        false
    }

    /// Inserts `name` unless it is there. Tells whether the table took it:
    /// it does not where the name is new and no identifier is left.
    pub fn insert(&mut self, name: &String) -> (accepted: bool)
        requires
            old(self).wf(),
        ensures
            final(self).wf(),
            final(self)@ == old(self)@.insert(name@),
            accepted == old(self)@.accepts(name@),
    {
        proof {
            lemma_table_keys(self.rows@, name_key(), name_id());
        }
        match self.find(name) {
            Some(_) => true,
            None => {
                let n: usize = self.rows.len();
                let last: i64 = if n == 0 {
                    0
                } else {
                    self.rows[n - 1].id
                };
                assert(last == self@.last);
                if last >= MAX_ID {
                    false
                } else {
                    let row = NameRow { id: last + 1, name: name.clone() };
                    proof {
                        lemma_table_push(self.rows@, name_key(), name_id(), row);
                        let after = self.rows@.push(row);
                        assert(after.last() == row);
                        assert forall|i: int, j: int| 0 <= i < j < after.len() implies name_key()(
                            #[trigger] after[i],
                        ) != name_key()(#[trigger] after[j]) by {
                            if j == after.len() - 1 {
                                assert(after[i] == self.rows@[i]);
                            }
                        }
                        assert forall|i: int, j: int| 0 <= i < j < after.len() implies name_id()(
                            #[trigger] after[i],
                        ) < name_id()(#[trigger] after[j]) by {
                            if j == after.len() - 1 {
                                assert(after[i] == self.rows@[i]);
                                if i < n - 1 {
                                    assert(name_id()(self.rows@[i]) < name_id()(self.rows@[n - 1]));
                                }
                            }
                        }
                    }
                    self.rows.push(row);
                    true
                }
            },
        }
    }

    /// A copy of the rows, oldest first.
    pub fn all(&self) -> (rows: Vec<NameRow>)
        requires
            self.wf(),
        ensures
            lists(rows@, self@),
    {
        let mut rows: Vec<NameRow> = Vec::new();
        let mut i: usize = 0;
        while i < self.rows.len()
            invariant
                i <= self.rows@.len(),
                rows@.len() == i,
                forall|j: int|
                    0 <= j < i ==> rows@[j].id == self.rows@[j].id && rows@[j].name@
                        == self.rows@[j].name@,
            decreases self.rows@.len() - i,
        {
            rows.push(NameRow { id: self.rows[i].id, name: self.rows[i].name.clone() });
            i += 1;
        }
        proof {
            self.lemma_view_wf();
            assert forall|k: int| 0 <= k < rows@.len() implies self@.has(#[trigger] rows@[k].name@)
                && self@.ids[rows@[k].name@] == rows@[k].id by {
                lemma_table_row(self.rows@, name_key(), name_id(), k);
            }
            assert forall|a: int, b: int| 0 <= a < b < rows@.len() implies rows@[a].name@
                != rows@[b].name@ by {
                assert(name_key()(self.rows@[a]) != name_key()(self.rows@[b]));
            }
        }
        rows
    }
}

/// `rows` lists what a lookup table holds: every row of the table, once.
pub open spec fn lists(rows: Seq<NameRow>, names: NamesView) -> bool {
    &&& rows.len() == names.count()
    &&& forall|i: int|
        0 <= i < rows.len() ==> names.has(#[trigger] rows[i].name@) && names.ids[rows[i].name@]
            == rows[i].id
    &&& forall|i: int, j: int| 0 <= i < j < rows.len() ==> rows[i].name@ != rows[j].name@
}

/// A listing of a lookup table has exactly one row for each name that the
/// table holds.
pub proof fn law_name_listed_once(rows: Seq<NameRow>, names: NamesView, name: Seq<char>)
    requires
        names.wf(),
        lists(rows, names),
        names.has(name),
    ensures
        exists|i: int| 0 <= i < rows.len() && (#[trigger] rows[i]).name@ == name,
        forall|i: int, j: int|
            0 <= i < rows.len() && 0 <= j < rows.len() && (#[trigger] rows[i]).name@ == name && (
            #[trigger] rows[j]).name@ == name ==> i == j,
{
    let listed = Seq::new(rows.len(), |i: int| rows[i].name@);
    assert forall|i: int, j: int| 0 <= i < listed.len() && 0 <= j < listed.len() && i
        != j implies listed[i] != listed[j] by {
        if i < j {
            assert(rows[i].name@ != rows[j].name@);
        } else {
            assert(rows[j].name@ != rows[i].name@);
        }
    }
    listed.unique_seq_to_set();
    assert forall|key: Seq<char>| listed.to_set().contains(key) implies names.ids.dom().contains(
        key,
    ) by {
        let i = choose|i: int| 0 <= i < listed.len() && listed[i] == key;
        assert(names.has(rows[i].name@));
    }
    vstd::set_lib::lemma_len_subset(listed.to_set(), names.ids.dom());
    vstd::set_lib::lemma_subset_equality(listed.to_set(), names.ids.dom());
    assert(listed.to_set().contains(name));
    let i = choose|i: int| 0 <= i < listed.len() && listed[i] == name;
    assert(rows[i].name@ == name);
    assert forall|a: int, b: int|
        0 <= a < rows.len() && 0 <= b < rows.len() && (#[trigger] rows[a]).name@ == name && (
        #[trigger] rows[b]).name@ == name implies a == b by {
        if a < b {
            assert(rows[a].name@ != rows[b].name@);
        } else if b < a {
            assert(rows[b].name@ != rows[a].name@);
        }
    }
}

} // verus!
