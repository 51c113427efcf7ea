//! The table of films. A film's row is made when its file is found;
//! ingestion fills it in.

use vstd::prelude::*;

use super::names::{ascending, last_id};
use super::tables::{
    distinct_keys, has_key, lemma_table_keys, lemma_table_len, lemma_table_push, lemma_table_row,
    lemma_table_update, table,
};
use crate::text::opt_text;

verus! {

/// One row of the table of films. `rating` holds the bits of an IEEE 754
/// double, `run_time` a number of seconds.
#[derive(Clone, Debug, PartialEq, Eq)]
pub struct FilmRow {
    pub id: u32,
    pub file: String,
    pub imdb_id: Option<String>,
    pub title: Option<String>,
    pub release_date: Option<String>,
    pub plot: Option<String>,
    pub run_time: Option<i64>,
    pub has_color: Option<bool>,
    pub rating: Option<u64>,
    pub has_watched: bool,
    pub left_off_point: u32,
    pub registered: bool,
}

/// What a film's row holds besides its identifier.
pub struct FilmView {
    pub file: Seq<char>,
    pub imdb_id: Option<Seq<char>>,
    pub title: Option<Seq<char>>,
    pub release_date: Option<Seq<char>>,
    pub plot: Option<Seq<char>>,
    pub run_time: Option<i64>,
    pub has_color: Option<bool>,
    pub rating: Option<u64>,
    pub has_watched: bool,
    pub left_off_point: u32,
    pub registered: bool,
}

/// What ingestion writes into a film's row.
#[derive(Clone, Debug, PartialEq, Eq)]
pub struct FilmUpdate {
    pub id: u32,
    pub imdb_id: String,
    pub title: Option<String>,
    pub release_date: Option<String>,
    pub plot: Option<String>,
    pub run_time: Option<i64>,
    pub has_color: Option<bool>,
    pub rating: Option<u64>,
}

/// The mathematical content of a `FilmUpdate`.
pub struct FilmUpdateView {
    pub id: u32,
    pub imdb_id: Seq<char>,
    pub title: Option<Seq<char>>,
    pub release_date: Option<Seq<char>>,
    pub plot: Option<Seq<char>>,
    pub run_time: Option<i64>,
    pub has_color: Option<bool>,
    pub rating: Option<u64>,
}

impl View for FilmUpdate {
    type V = FilmUpdateView;

    open spec fn view(&self) -> FilmUpdateView {
        FilmUpdateView {
            id: self.id,
            imdb_id: self.imdb_id@,
            title: opt_text(self.title),
            release_date: opt_text(self.release_date),
            plot: opt_text(self.plot),
            run_time: self.run_time,
            has_color: self.has_color,
            rating: self.rating,
        }
    }
}

impl FilmView {
    /// The row of a film that has only been found: its file, and nothing
    /// known of it yet.
    pub open spec fn found(file: Seq<char>) -> FilmView {
        FilmView {
            file: file,
            imdb_id: None,
            title: None,
            release_date: None,
            plot: None,
            run_time: None,
            has_color: None,
            rating: None,
            has_watched: false,
            left_off_point: 0,
            registered: false,
        }
    }

    /// The row after ingestion wrote into it: the scraped values replace
    /// the old ones, the film counts as registered, and the file and what
    /// was watched stay.
    pub open spec fn updated(self, update: FilmUpdateView) -> FilmView {
        FilmView {
            file: self.file,
            imdb_id: Some(update.imdb_id),
            title: update.title,
            release_date: update.release_date,
            plot: update.plot,
            run_time: update.run_time,
            has_color: update.has_color,
            rating: update.rating,
            has_watched: self.has_watched,
            left_off_point: self.left_off_point,
            registered: true,
        }
    }
}

/// A row's identifier, which is its key.
pub open spec fn film_key() -> spec_fn(FilmRow) -> int {
    |row: FilmRow| row.id as int
}

/// What a row holds besides its identifier.
pub open spec fn film_value() -> spec_fn(FilmRow) -> FilmView {
    |row: FilmRow|
        FilmView {
            file: row.file@,
            imdb_id: opt_text(row.imdb_id),
            title: opt_text(row.title),
            release_date: opt_text(row.release_date),
            plot: opt_text(row.plot),
            run_time: row.run_time,
            has_color: row.has_color,
            rating: row.rating,
            has_watched: row.has_watched,
            left_off_point: row.left_off_point,
            registered: row.registered,
        }
}

/// An owned copy of an optional text.
pub fn clone_text(text: &Option<String>) -> (copy: Option<String>)
    ensures
        copy == *text,
{
    match text {
        Some(inner) => Some(inner.clone()),
        None => None,
    }
}

/// An owned copy of a row.
pub fn clone_film(row: &FilmRow) -> (copy: FilmRow)
    ensures
        copy == *row,
{
    FilmRow {
        id: row.id,
        file: row.file.clone(),
        imdb_id: clone_text(&row.imdb_id),
        title: clone_text(&row.title),
        release_date: clone_text(&row.release_date),
        plot: clone_text(&row.plot),
        run_time: row.run_time,
        has_color: row.has_color,
        rating: row.rating,
        has_watched: row.has_watched,
        left_off_point: row.left_off_point,
        registered: row.registered,
    }
}

/// The table of films.
pub struct FilmTable {
    rows: Vec<FilmRow>,
}

impl View for FilmTable {
    type V = Map<int, FilmView>;

    closed spec fn view(&self) -> Map<int, FilmView> {
        table(self.rows@, film_key(), film_value())
    }
}

impl FilmTable {
    /// The rows have ascending identifiers.
    pub closed spec fn wf(&self) -> bool {
        &&& distinct_keys(self.rows@, film_key())
        &&& ascending(self.rows@, film_key())
    }

    /// The rows, oldest first.
    pub closed spec fn rows(&self) -> Seq<FilmRow> {
        self.rows@
    }

    /// The identifier that the next new film gets.
    pub closed spec fn next_id(&self) -> int {
        last_id(self.rows@, film_key()) + 1
    }

    /// The view of a well-formed table is finite and has one entry for
    /// each row; the next identifier is not in use.
    pub proof fn lemma_view_wf(&self)
        requires
            self.wf(),
        ensures
            self@.dom().finite(),
            self@.dom().len() == self.rows().len(),
            !self@.dom().contains(self.next_id()),
    {
        let rows = self.rows@;
        lemma_table_len(rows, film_key(), film_value());
        lemma_table_keys(rows, film_key(), film_value());
        if has_key(rows, film_key(), self.next_id()) {
            let i = choose|i: int| 0 <= i < rows.len() && film_key()(#[trigger] rows[i]) == self.next_id();
            assert(rows[rows.len() - 1] == rows.last());
        }
    }

    /// A table without rows. The first film added to it gets the
    /// identifier 1.
    pub fn new() -> (empty: FilmTable)
        ensures
            empty.wf(),
            empty@ == Map::<int, FilmView>::empty(),
            empty.next_id() == 1,
    {
        FilmTable { rows: Vec::new() }
    }

    /// The position of the row of film `id`.
    fn find(&self, id: u32) -> (found: Option<usize>)
        ensures
            match found {
                Some(i) => i < self.rows@.len() && self.rows@[i as int].id == id,
                None => !has_key(self.rows@, film_key(), id as int),
            },
    {
        let mut i: usize = 0;
        while i < self.rows.len()
            invariant
                i <= self.rows@.len(),
                forall|j: int| 0 <= j < i ==> film_key()(#[trigger] self.rows@[j]) != id,
            decreases self.rows@.len() - i,
        {
            if self.rows[i].id == id {
                return Some(i);
            }
            i += 1;
        }
        None
    }

    /// Whether the table has film `id`.
    pub fn has(&self, id: u32) -> (found: bool)
        ensures
            found == self@.dom().contains(id as int),
    {
        proof {
            lemma_table_keys(self.rows@, film_key(), film_value());
        }
        match self.find(id) {
            Some(i) => {
                assert(film_key()(self.rows@[i as int]) == id);
                true
            },
            None => false,
        }
    }

    /// A copy of the row of film `id`.
    pub fn get(&self, id: u32) -> (found: Option<FilmRow>)
        requires
            self.wf(),
        ensures
            match found {
                Some(row) => row.id == id && self@.dom().contains(id as int) && self@[id as int]
                    == film_value()(row),
                None => !self@.dom().contains(id as int),
            },
    {
        proof {
            lemma_table_keys(self.rows@, film_key(), film_value());
        }
        match self.find(id) {
            Some(i) => {
                proof {
                    lemma_table_row(self.rows@, film_key(), film_value(), i as int);
                }
                Some(clone_film(&self.rows[i]))
            },
            None => None,
        }
    }

    /// Adds the row of a film that was found at `file`, and gives its
    /// identifier. It fails only where no identifier is left.
    pub fn add(&mut self, file: &String) -> (added: Option<u32>)
        requires
            old(self).wf(),
        ensures
            final(self).wf(),
            match added {
                Some(id) => id == old(self).next_id() && final(self)@ == old(self)@.insert(
                    id as int,
                    FilmView::found(file@),
                ),
                None => old(self).next_id() > u32::MAX && final(self)@ == old(self)@,
            },
    {
        let n: usize = self.rows.len();
        let last: u32 = if n == 0 {
            0
        } else {
            self.rows[n - 1].id
        };
        if last == u32::MAX {
            None
        } else {
            let row = FilmRow {
                id: last + 1,
                file: file.clone(),
                imdb_id: None,
                title: None,
                release_date: None,
                plot: None,
                run_time: None,
                has_color: None,
                rating: None,
                has_watched: false,
                left_off_point: 0,
                registered: false,
            };
            proof {
                lemma_table_push(self.rows@, film_key(), film_value(), row);
                let after = self.rows@.push(row);
                assert(after.last() == row);
                assert forall|i: int, j: int| 0 <= i < j < after.len() implies film_key()(
                    #[trigger] after[i],
                ) < film_key()(#[trigger] after[j]) by {
                    if j == after.len() - 1 {
                        assert(after[i] == self.rows@[i]);
                        if i < n - 1 {
                            assert(film_key()(self.rows@[i]) < film_key()(self.rows@[n - 1]));
                        }
                    }
                }
            }
            self.rows.push(row);
            Some(last + 1)
        }
    }

    /// Writes the scraped values into the row of the film that `update`
    /// names. Without such a row nothing changes.
    pub fn update(&mut self, update: &FilmUpdate)
        requires
            old(self).wf(),
        ensures
            final(self).wf(),
            final(self).next_id() == old(self).next_id(),
            final(self)@ == if old(self)@.dom().contains(update.id as int) {
                old(self)@.insert(update.id as int, old(self)@[update.id as int].updated(update@))
            } else {
                old(self)@
            },
    {
        proof {
            lemma_table_keys(self.rows@, film_key(), film_value());
        }
        match self.find(update.id) {
            Some(i) => {
                let row = FilmRow {
                    id: update.id,
                    file: self.rows[i].file.clone(),
                    imdb_id: Some(update.imdb_id.clone()),
                    title: clone_text(&update.title),
                    release_date: clone_text(&update.release_date),
                    plot: clone_text(&update.plot),
                    run_time: update.run_time,
                    has_color: update.has_color,
                    rating: update.rating,
                    has_watched: self.rows[i].has_watched,
                    left_off_point: self.rows[i].left_off_point,
                    registered: true,
                };
                proof {
                    lemma_table_row(self.rows@, film_key(), film_value(), i as int);
                    lemma_table_update(self.rows@, film_key(), film_value(), i as int, row);
                    let after = self.rows@.update(i as int, row);
                    assert forall|a: int, b: int| 0 <= a < b < after.len() implies film_key()(
                        #[trigger] after[a],
                    ) < film_key()(#[trigger] after[b]) by {
                        assert(film_key()(after[a]) == film_key()(self.rows@[a]));
                        assert(film_key()(after[b]) == film_key()(self.rows@[b]));
                    }
                    assert forall|a: int| 0 <= a < after.len() implies 1 <= film_key()(
                        #[trigger] after[a],
                    ) by {
                        assert(film_key()(after[a]) == film_key()(self.rows@[a]));
                    }
                    assert(film_key()(after.last()) == film_key()(self.rows@.last()));
                }
                self.rows.set(i, row);
            },
            None => {},
        }
    }

    /// A copy of the rows, oldest first.
    pub fn all(&self) -> (rows: Vec<FilmRow>)
        requires
            self.wf(),
        ensures
            lists_films(rows@, self@),
    {
        let mut rows: Vec<FilmRow> = Vec::new();
        let mut i: usize = 0;
        while i < self.rows.len()
            invariant
                i <= self.rows@.len(),
                rows@ == self.rows@.take(i as int),
            decreases self.rows@.len() - i,
        {
            rows.push(clone_film(&self.rows[i]));
            assert(self.rows@.take(i + 1) == self.rows@.take(i as int).push(self.rows@[i as int]));
            i += 1;
        }
        proof {
            assert(self.rows@.take(self.rows@.len() as int) == self.rows@);
            self.lemma_view_wf();
            assert forall|k: int| 0 <= k < rows@.len() implies self@.dom().contains(
                film_key()(#[trigger] rows@[k]),
            ) && self@[film_key()(rows@[k])] == film_value()(rows@[k]) by {
                lemma_table_row(self.rows@, film_key(), film_value(), k);
            }
        }
        rows
    }
}

/// `rows` lists what the table of films holds: every film, once.
pub open spec fn lists_films(rows: Seq<FilmRow>, films: Map<int, FilmView>) -> bool {
    &&& rows.len() == films.dom().len()
    &&& forall|i: int|
        0 <= i < rows.len() ==> films.dom().contains(film_key()(#[trigger] rows[i])) && films[film_key()(
            rows[i],
        )] == film_value()(rows[i])
    &&& distinct_keys(rows, film_key())
}

} // verus!
