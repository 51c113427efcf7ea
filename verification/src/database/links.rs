//! The tables that tie a film to something else: the junction tables, which
//! hold pairs of identifiers, and the table of characters, which holds a
//! description for each pair of film and actor.

use vstd::prelude::*;

use super::tables::{
    distinct_keys, has_key, lemma_table_keys, lemma_table_len, lemma_table_push, lemma_table_row,
    table,
};

verus! {

/// One row of a junction table: a film and what it is tied to.
#[derive(Clone, Copy, Debug, PartialEq, Eq)]
pub struct LinkRow {
    pub film_id: u32,
    pub other_id: i64,
}

/// A row's pair of identifiers, which is its key.
pub open spec fn link_key() -> spec_fn(LinkRow) -> (int, int) {
    |row: LinkRow| (row.film_id as int, row.other_id as int)
}

/// A junction row holds nothing besides its key.
pub open spec fn link_value() -> spec_fn(LinkRow) -> () {
    |row: LinkRow| ()
}

/// A junction table.
pub struct LinkTable {
    rows: Vec<LinkRow>,
}

impl View for LinkTable {
    type V = Set<(int, int)>;

    closed spec fn view(&self) -> Set<(int, int)> {
        table(self.rows@, link_key(), link_value()).dom()
    }
}

impl LinkTable {
    /// No pair stands twice.
    pub closed spec fn wf(&self) -> bool {
        distinct_keys(self.rows@, link_key())
    }

    /// The rows, oldest first.
    pub closed spec fn rows(&self) -> Seq<LinkRow> {
        self.rows@
    }

    /// The view of a well-formed table is finite and has one pair for
    /// each row.
    pub proof fn lemma_view_wf(&self)
        requires
            self.wf(),
        ensures
            self@.finite(),
            self@.len() == self.rows().len(),
    {
        lemma_table_len(self.rows@, link_key(), link_value());
    }

    /// A table without rows.
    pub fn new() -> (empty: LinkTable)
        ensures
            empty.wf(),
            empty@ == Set::<(int, int)>::empty(),
    {
        let empty = LinkTable { rows: Vec::new() };
        assert(empty@ =~= Set::<(int, int)>::empty());
        empty
    }

    /// Whether the pair is in the table.
    pub fn has(&self, film_id: u32, other_id: i64) -> (found: bool)
        ensures
            found == self@.contains((film_id as int, other_id as int)),
    {
        let mut i: usize = 0;
        while i < self.rows.len()
            invariant
                i <= self.rows@.len(),
                forall|j: int|
                    0 <= j < i ==> link_key()(#[trigger] self.rows@[j]) != (
                        film_id as int,
                        other_id as int,
                    ),
            decreases self.rows@.len() - i,
        {
            if self.rows[i].film_id == film_id && self.rows[i].other_id == other_id {
                proof {
                    lemma_table_keys(self.rows@, link_key(), link_value());
                    assert(link_key()(self.rows@[i as int]) == (film_id as int, other_id as int));
                    assert(has_key(self.rows@, link_key(), (film_id as int, other_id as int)));
                }
                return true;
            }
            i += 1;
        }
        proof {
            lemma_table_keys(self.rows@, link_key(), link_value());
        }
        false
    }

    /// Puts the pair in, unless it is there.
    pub fn insert(&mut self, film_id: u32, other_id: i64)
        requires
            old(self).wf(),
        ensures
            final(self).wf(),
            final(self)@ == old(self)@.insert((film_id as int, other_id as int)),
    {
        if !self.has(film_id, other_id) {
            let row = LinkRow { film_id, other_id };
            proof {
                lemma_table_keys(self.rows@, link_key(), link_value());
                lemma_table_push(self.rows@, link_key(), link_value(), row);
                let after = self.rows@.push(row);
                assert forall|i: int, j: int| 0 <= i < j < after.len() implies link_key()(
                    #[trigger] after[i],
                ) != link_key()(#[trigger] after[j]) by {
                    if j == after.len() - 1 {
                        assert(after[i] == self.rows@[i]);
                        assert(has_key(self.rows@, link_key(), link_key()(self.rows@[i])));
                    }
                }
                assert(table(after, link_key(), link_value()).dom() =~= self@.insert(
                    (film_id as int, other_id as int),
                ));
            }
            self.rows.push(row);
        } else {
            assert(self@ =~= self@.insert((film_id as int, other_id as int)));
        }
    }

    /// A copy of the rows, oldest first.
    pub fn all(&self) -> (rows: Vec<LinkRow>)
        requires
            self.wf(),
        ensures
            lists_links(rows@, self@),
    {
        let mut rows: Vec<LinkRow> = Vec::new();
        let mut i: usize = 0;
        while i < self.rows.len()
            invariant
                i <= self.rows@.len(),
                rows@ == self.rows@.take(i as int),
            decreases self.rows@.len() - i,
        {
            rows.push(self.rows[i]);
            assert(self.rows@.take(i + 1) == self.rows@.take(i as int).push(self.rows@[i as int]));
            i += 1;
        }
        proof {
            assert(self.rows@.take(self.rows@.len() as int) == self.rows@);
            self.lemma_view_wf();
            assert forall|k: int| 0 <= k < rows@.len() implies self@.contains(
                link_key()(#[trigger] rows@[k]),
            ) by {
                lemma_table_row(self.rows@, link_key(), link_value(), k);
            }
        }
        rows
    }
}

/// `rows` lists what a junction table holds: every pair, once.
pub open spec fn lists_links(rows: Seq<LinkRow>, links: Set<(int, int)>) -> bool {
    &&& rows.len() == links.len()
    &&& forall|i: int| 0 <= i < rows.len() ==> links.contains(link_key()(#[trigger] rows[i]))
    &&& distinct_keys(rows, link_key())
}

/// One row of the table of characters: the part that an actor plays in a
/// film.
#[derive(Clone, Debug, PartialEq, Eq)]
pub struct CharacterRow {
    pub film_id: u32,
    pub description: String,
    pub actor: i64,
}

/// A row's film and actor, which are its key.
pub open spec fn character_key() -> spec_fn(CharacterRow) -> (int, int) {
    |row: CharacterRow| (row.film_id as int, row.actor as int)
}

/// A row's description.
pub open spec fn character_value() -> spec_fn(CharacterRow) -> Seq<char> {
    |row: CharacterRow| row.description@
}

/// The table of characters.
pub struct CharacterTable {
    rows: Vec<CharacterRow>,
}

impl View for CharacterTable {
    type V = Map<(int, int), Seq<char>>;

    closed spec fn view(&self) -> Map<(int, int), Seq<char>> {
        table(self.rows@, character_key(), character_value())
    }
}

impl CharacterTable {
    /// No pair of film and actor stands twice.
    pub closed spec fn wf(&self) -> bool {
        distinct_keys(self.rows@, character_key())
    }

    /// The rows, oldest first.
    pub closed spec fn rows(&self) -> Seq<CharacterRow> {
        self.rows@
    }

    /// The view of a well-formed table is finite and has one entry for
    /// each row.
    pub proof fn lemma_view_wf(&self)
        requires
            self.wf(),
        ensures
            self@.dom().finite(),
            self@.dom().len() == self.rows().len(),
    {
        lemma_table_len(self.rows@, character_key(), character_value());
    }

    /// A table without rows.
    pub fn new() -> (empty: CharacterTable)
        ensures
            empty.wf(),
            empty@ == Map::<(int, int), Seq<char>>::empty(),
    {
        CharacterTable { rows: Vec::new() }
    }

    /// The position of the row of this film and actor.
    fn find(&self, film_id: u32, actor: i64) -> (found: Option<usize>)
        ensures
            match found {
                Some(i) => i < self.rows@.len() && character_key()(self.rows@[i as int]) == (
                    film_id as int,
                    actor as int,
                ),
                None => !has_key(self.rows@, character_key(), (film_id as int, actor as int)),
            },
    {
        let mut i: usize = 0;
        while i < self.rows.len()
            invariant
                i <= self.rows@.len(),
                forall|j: int|
                    0 <= j < i ==> character_key()(#[trigger] self.rows@[j]) != (
                        film_id as int,
                        actor as int,
                    ),
            decreases self.rows@.len() - i,
        {
            if self.rows[i].film_id == film_id && self.rows[i].actor == actor {
                return Some(i);
            }
            i += 1;
        }
        None
    }

    /// The description of the part that `actor` plays in the film, if the
    /// table has it.
    pub fn description_of(&self, film_id: u32, actor: i64) -> (found: Option<String>)
        requires
            self.wf(),
        ensures
            match found {
                Some(text) => self@.dom().contains((film_id as int, actor as int)) && self@[(
                    film_id as int,
                    actor as int,
                )] == text@,
                None => !self@.dom().contains((film_id as int, actor as int)),
            },
    {
        proof {
            lemma_table_keys(self.rows@, character_key(), character_value());
        }
        match self.find(film_id, actor) {
            Some(i) => {
                proof {
                    lemma_table_row(self.rows@, character_key(), character_value(), i as int);
                }
                Some(self.rows[i].description.clone())
            },
            None => None,
        }
    }

    /// Puts the part in, unless the table has one for this film and actor:
    /// then that one stays.
    pub fn insert(&mut self, film_id: u32, description: &String, actor: i64)
        requires
            old(self).wf(),
        ensures
            final(self).wf(),
            final(self)@ == if old(self)@.dom().contains((film_id as int, actor as int)) {
                old(self)@
            } else {
                old(self)@.insert((film_id as int, actor as int), description@)
            },
    {
        proof {
            lemma_table_keys(self.rows@, character_key(), character_value());
        }
        match self.find(film_id, actor) {
            Some(_) => {},
            None => {
                let row = CharacterRow { film_id, description: description.clone(), actor };
                proof {
                    lemma_table_push(self.rows@, character_key(), character_value(), row);
                    let after = self.rows@.push(row);
                    assert forall|i: int, j: int| 0 <= i < j < after.len() implies character_key()(
                        #[trigger] after[i],
                    ) != character_key()(#[trigger] after[j]) by {
                        if j == after.len() - 1 {
                            assert(after[i] == self.rows@[i]);
                            assert(has_key(
                                self.rows@,
                                character_key(),
                                character_key()(self.rows@[i]),
                            ));
                        }
                    }
                }
                self.rows.push(row);
            },
        }
    }

    /// A copy of the rows, oldest first.
    pub fn all(&self) -> (rows: Vec<CharacterRow>)
        requires
            self.wf(),
        ensures
            lists_characters(rows@, self@),
    {
        let mut rows: Vec<CharacterRow> = Vec::new();
        let mut i: usize = 0;
        while i < self.rows.len()
            invariant
                i <= self.rows@.len(),
                rows@.len() == i,
                forall|j: int|
                    0 <= j < i ==> character_key()(rows@[j]) == character_key()(self.rows@[j])
                        && rows@[j].description@ == self.rows@[j].description@,
            decreases self.rows@.len() - i,
        {
            rows.push(
                CharacterRow {
                    film_id: self.rows[i].film_id,
                    description: self.rows[i].description.clone(),
                    actor: self.rows[i].actor,
                },
            );
            i += 1;
        }
        proof {
            self.lemma_view_wf();
            assert forall|k: int| 0 <= k < rows@.len() implies self@.dom().contains(
                character_key()(#[trigger] rows@[k]),
            ) && self@[character_key()(rows@[k])] == rows@[k].description@ by {
                lemma_table_row(self.rows@, character_key(), character_value(), k);
            }
            assert forall|a: int, b: int| 0 <= a < b < rows@.len() implies character_key()(
                #[trigger] rows@[a],
            ) != character_key()(#[trigger] rows@[b]) by {
                assert(character_key()(self.rows@[a]) != character_key()(self.rows@[b]));
            }
        }
        rows
    }
}

/// `rows` lists what the table of characters holds: every part, once.
pub open spec fn lists_characters(
    rows: Seq<CharacterRow>,
    characters: Map<(int, int), Seq<char>>,
) -> bool {
    &&& rows.len() == characters.dom().len()
    &&& forall|i: int|
        0 <= i < rows.len() ==> characters.dom().contains(character_key()(#[trigger] rows[i]))
            && characters[character_key()(rows[i])] == rows[i].description@
    &&& distinct_keys(rows, character_key())
}

} // verus!
