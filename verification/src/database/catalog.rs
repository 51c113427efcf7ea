//! The whole catalog, and the statements that ingestion runs against it.

use vstd::prelude::*;

use super::films::{lists_films, film_value, FilmRow, FilmTable, FilmUpdate, FilmUpdateView, FilmView};
use super::links::{
    lists_characters, lists_links, CharacterRow, CharacterTable, LinkRow, LinkTable,
};
use super::names::{lists, NameRow, NameTable, NamesView};
use super::persons::{lists_persons, PersonRow, PersonTable, PersonsView};
use crate::error::{AppError, AppErrorView};

verus! {

/// The three lookup tables that ingestion fills by name.
#[derive(Clone, Copy, Debug, PartialEq, Eq, Structural)]
pub enum Lookup {
    Genres,
    Languages,
    Keywords,
}

/// One statement of an ingestion. Every insert ignores a conflict on the
/// key of its table.
#[derive(Clone, Debug, PartialEq, Eq)]
pub enum Statement {
    /// Write the scraped values into the film's row and mark it registered.
    UpdateFilm(FilmUpdate),
    /// Insert a name into a lookup table.
    InsertName { table: Lookup, name: String },
    /// Ask a lookup table for the identifier of a name.
    SelectName { table: Lookup, name: String },
    /// Tie a film to a row of a lookup table.
    LinkName { table: Lookup, film_id: u32, id: i64 },
    /// Insert a person, known by their IMDb identifier.
    InsertPerson { imdb_id: String, name: String },
    /// Ask for the row identifier of a person.
    SelectPerson { imdb_id: String },
    /// Tie a film to the person who directed it.
    LinkDirector { film_id: u32, person_id: i64 },
    /// Insert the part that an actor plays in a film.
    InsertCharacter { film_id: u32, description: String, actor: i64 },
    /// Make everything since the start permanent.
    Commit,
}

/// The mathematical content of a `Statement`.
pub enum StatementView {
    UpdateFilm(FilmUpdateView),
    InsertName { table: Lookup, name: Seq<char> },
    SelectName { table: Lookup, name: Seq<char> },
    LinkName { table: Lookup, film_id: int, id: int },
    InsertPerson { imdb_id: Seq<char>, name: Seq<char> },
    SelectPerson { imdb_id: Seq<char> },
    LinkDirector { film_id: int, person_id: int },
    InsertCharacter { film_id: int, description: Seq<char>, actor: int },
    Commit,
}

impl View for Statement {
    type V = StatementView;

    open spec fn view(&self) -> StatementView {
        match self {
            Statement::UpdateFilm(update) => StatementView::UpdateFilm(update@),
            Statement::InsertName { table, name } => StatementView::InsertName {
                table: *table,
                name: name@,
            },
            Statement::SelectName { table, name } => StatementView::SelectName {
                table: *table,
                name: name@,
            },
            Statement::LinkName { table, film_id, id } => StatementView::LinkName {
                table: *table,
                film_id: *film_id as int,
                id: *id as int,
            },
            Statement::InsertPerson { imdb_id, name } => StatementView::InsertPerson {
                imdb_id: imdb_id@,
                name: name@,
            },
            Statement::SelectPerson { imdb_id } => StatementView::SelectPerson { imdb_id: imdb_id@ },
            Statement::LinkDirector { film_id, person_id } => StatementView::LinkDirector {
                film_id: *film_id as int,
                person_id: *person_id as int,
            },
            Statement::InsertCharacter { film_id, description, actor } => {
                StatementView::InsertCharacter {
                    film_id: *film_id as int,
                    description: description@,
                    actor: *actor as int,
                }
            },
            Statement::Commit => StatementView::Commit,
        }
    }
}

/// How a statement ended: done, done with the identifier asked for, or
/// failed, with the store's message.
#[derive(Clone, Debug, PartialEq, Eq)]
pub enum Outcome {
    Done,
    Id(i64),
    Failed(String),
}

/// The mathematical content of an `Outcome`.
pub enum OutcomeView {
    Done,
    Id(int),
    Failed(Seq<char>),
}

impl View for Outcome {
    type V = OutcomeView;

    open spec fn view(&self) -> OutcomeView {
        match self {
            Outcome::Done => OutcomeView::Done,
            Outcome::Id(id) => OutcomeView::Id(*id as int),
            Outcome::Failed(message) => OutcomeView::Failed(message@),
        }
    }
}

/// The message of an insert that found no identifier left.
pub open spec fn table_full() -> Seq<char> {
    "no row identifier is left"@
}

/// The message of a query that found no row.
pub open spec fn no_rows() -> Seq<char> {
    "Query returned no rows"@
}

/// The message of an insert whose row would refer to a row that is not
/// there.
pub open spec fn foreign_key() -> Seq<char> {
    "FOREIGN KEY constraint failed"@
}

/// The message of an insert whose key is in the table already.
pub open spec fn not_unique() -> Seq<char> {
    "UNIQUE constraint failed"@
}

/// What the catalog holds, table by table.
pub struct CatalogView {
    pub directories: NamesView,
    pub films: Map<int, FilmView>,
    pub genres: NamesView,
    pub languages: NamesView,
    pub keywords: NamesView,
    pub persons: PersonsView,
    pub characters: Map<(int, int), Seq<char>>,
    pub film_genres: Set<(int, int)>,
    pub film_languages: Set<(int, int)>,
    pub film_keywords: Set<(int, int)>,
    pub film_directors: Set<(int, int)>,
}

impl CatalogView {
    /// The catalog with every table empty.
    pub open spec fn empty() -> CatalogView {
        CatalogView {
            directories: NamesView::empty(),
            films: Map::empty(),
            genres: NamesView::empty(),
            languages: NamesView::empty(),
            keywords: NamesView::empty(),
            persons: PersonsView::empty(),
            characters: Map::empty(),
            film_genres: Set::empty(),
            film_languages: Set::empty(),
            film_keywords: Set::empty(),
            film_directors: Set::empty(),
        }
    }

    /// One of the three lookup tables.
    pub open spec fn names(self, table: Lookup) -> NamesView {
        match table {
            Lookup::Genres => self.genres,
            Lookup::Languages => self.languages,
            Lookup::Keywords => self.keywords,
        }
    }

    /// The junction table between films and one of the lookup tables.
    pub open spec fn links(self, table: Lookup) -> Set<(int, int)> {
        match table {
            Lookup::Genres => self.film_genres,
            Lookup::Languages => self.film_languages,
            Lookup::Keywords => self.film_keywords,
        }
    }

    /// The catalog with one lookup table replaced.
    pub open spec fn with_names(self, table: Lookup, names: NamesView) -> CatalogView {
        match table {
            Lookup::Genres => CatalogView { genres: names, ..self },
            Lookup::Languages => CatalogView { languages: names, ..self },
            Lookup::Keywords => CatalogView { keywords: names, ..self },
        }
    }

    /// The catalog with one junction table replaced.
    pub open spec fn with_links(self, table: Lookup, links: Set<(int, int)>) -> CatalogView {
        match table {
            Lookup::Genres => CatalogView { film_genres: links, ..self },
            Lookup::Languages => CatalogView { film_languages: links, ..self },
            Lookup::Keywords => CatalogView { film_keywords: links, ..self },
        }
    }

    /// The catalog has a row for film `id`.
    pub open spec fn has_film(self, id: int) -> bool {
        self.films.dom().contains(id)
    }

    /// Every table is finite, every identifier was given out by its table,
    /// and every row that refers to another refers to one that is there.
    pub open spec fn wf(self) -> bool {
        &&& self.directories.wf()
        &&& self.films.dom().finite()
        &&& self.genres.wf()
        &&& self.languages.wf()
        &&& self.keywords.wf()
        &&& self.persons.wf()
        &&& self.characters.dom().finite()
        &&& self.film_genres.finite()
        &&& self.film_languages.finite()
        &&& self.film_keywords.finite()
        &&& self.film_directors.finite()
        &&& forall|table: Lookup, film: int, id: int| #[trigger]
            self.links(table).contains((film, id)) ==> self.has_film(film) && self.names(
                table,
            ).has_id(id)
        &&& forall|film: int, person: int| #[trigger]
            self.film_directors.contains((film, person)) ==> self.has_film(film)
                && self.persons.has_id(person)
        &&& forall|film: int, actor: int| #[trigger]
            self.characters.dom().contains((film, actor)) ==> self.has_film(film)
                && self.persons.has_id(actor)
    }

    /// The catalog after a film's row was written.
    pub open spec fn update_film(self, update: FilmUpdateView) -> CatalogView {
        if self.has_film(update.id as int) {
            CatalogView {
                films: self.films.insert(
                    update.id as int,
                    self.films[update.id as int].updated(update),
                ),
                ..self
            }
        } else {
            self
        }
    }

    /// A film with this identifier, and a row of the lookup table with that
    /// one, are both there.
    pub open spec fn can_link(self, table: Lookup, film_id: int, id: int) -> bool {
        self.has_film(film_id) && self.names(table).has_id(id)
    }

    /// A film with this identifier, and a person with that one, are both
    /// there.
    pub open spec fn can_cast(self, film_id: int, person_id: int) -> bool {
        self.has_film(film_id) && self.persons.has_id(person_id)
    }

    /// The catalog after a statement.
    pub open spec fn after(self, statement: StatementView) -> CatalogView {
        match statement {
            StatementView::UpdateFilm(update) => self.update_film(update),
            StatementView::InsertName { table, name } => self.with_names(
                table,
                self.names(table).insert(name),
            ),
            StatementView::SelectName { table, name } => self,
            StatementView::LinkName { table, film_id, id } => if self.can_link(table, film_id, id) {
                self.with_links(table, self.links(table).insert((film_id, id)))
            } else {
                self
            },
            StatementView::InsertPerson { imdb_id, name } => CatalogView {
                persons: self.persons.insert(imdb_id, name),
                ..self
            },
            StatementView::SelectPerson { imdb_id } => self,
            StatementView::LinkDirector { film_id, person_id } => if self.can_cast(
                film_id,
                person_id,
            ) {
                CatalogView { film_directors: self.film_directors.insert((film_id, person_id)), ..self }
            } else {
                self
            },
            StatementView::InsertCharacter { film_id, description, actor } => if self.can_cast(
                film_id,
                actor,
            ) && !self.characters.dom().contains((film_id, actor)) {
                CatalogView {
                    characters: self.characters.insert((film_id, actor), description),
                    ..self
                }
            } else {
                self
            },
            StatementView::Commit => self,
        }
    }

    /// How a statement ends.
    pub open spec fn outcome(self, statement: StatementView) -> OutcomeView {
        match statement {
            StatementView::UpdateFilm(update) => OutcomeView::Done,
            StatementView::InsertName { table, name } => if self.names(table).accepts(name) {
                OutcomeView::Done
            } else {
                OutcomeView::Failed(table_full())
            },
            StatementView::SelectName { table, name } => if self.names(table).has(name) {
                OutcomeView::Id(self.names(table).ids[name])
            } else {
                OutcomeView::Failed(no_rows())
            },
            StatementView::LinkName { table, film_id, id } => if self.can_link(table, film_id, id) {
                OutcomeView::Done
            } else {
                OutcomeView::Failed(foreign_key())
            },
            StatementView::InsertPerson { imdb_id, name } => if self.persons.accepts(imdb_id) {
                OutcomeView::Done
            } else {
                OutcomeView::Failed(table_full())
            },
            StatementView::SelectPerson { imdb_id } => if self.persons.has(imdb_id) {
                OutcomeView::Id(self.persons.rows[imdb_id].id)
            } else {
                OutcomeView::Failed(no_rows())
            },
            StatementView::LinkDirector { film_id, person_id } => if self.can_cast(
                film_id,
                person_id,
            ) {
                OutcomeView::Done
            } else {
                OutcomeView::Failed(foreign_key())
            },
            StatementView::InsertCharacter { film_id, description, actor } => if self.can_cast(
                film_id,
                actor,
            ) {
                OutcomeView::Done
            } else {
                OutcomeView::Failed(foreign_key())
            },
            StatementView::Commit => OutcomeView::Done,
        }
    }
}

impl NamesView {
    /// An insert keeps the table well formed, and keeps every row that was
    /// there.
    pub proof fn lemma_insert(self, name: Seq<char>)
        requires
            self.wf(),
        ensures
            self.insert(name).wf(),
            self.accepts(name) ==> self.insert(name).has(name),
            forall|other: Seq<char>|
                self.has(other) ==> self.insert(name).has(other) && #[trigger] self.insert(
                    name,
                ).ids[other] == self.ids[other],
            forall|id: int| self.has_id(id) ==> self.insert(name).has_id(id),
    {
        let after = self.insert(name);
        assert forall|id: int| self.has_id(id) implies after.has_id(id) by {
            let other = choose|other: Seq<char>| self.has(other) && #[trigger] self.ids[other] == id;
            assert(after.has(other) && after.ids[other] == id);
        }
    }
}

impl PersonsView {
    /// An insert keeps the table well formed, and keeps every row that was
    /// there.
    pub proof fn lemma_insert(self, imdb_id: Seq<char>, name: Seq<char>)
        requires
            self.wf(),
        ensures
            self.insert(imdb_id, name).wf(),
            self.accepts(imdb_id) ==> self.insert(imdb_id, name).has(imdb_id),
            forall|other: Seq<char>|
                self.has(other) ==> self.insert(imdb_id, name).has(other) && #[trigger] self.insert(
                    imdb_id,
                    name,
                ).rows[other] == self.rows[other],
            forall|id: int| self.has_id(id) ==> self.insert(imdb_id, name).has_id(id),
    {
        let after = self.insert(imdb_id, name);
        assert forall|id: int| self.has_id(id) implies after.has_id(id) by {
            let other = choose|other: Seq<char>|
                self.has(other) && (#[trigger] self.rows[other]).id == id;
            assert(after.has(other) && after.rows[other].id == id);
        }
    }
}

impl CatalogView {
    /// A statement keeps the catalog well formed.
    pub proof fn lemma_after_wf(self, statement: StatementView)
        requires
            self.wf(),
        ensures
            self.after(statement).wf(),
    {
        let next = self.after(statement);
        match statement {
            StatementView::InsertName { table, name } => {
                self.names(table).lemma_insert(name);
                assert forall|other: Lookup, film: int, id: int| #[trigger]
                    next.links(other).contains((film, id)) implies next.has_film(film)
                    && next.names(other).has_id(id) by {
                    assert(self.links(other).contains((film, id)));
                }
            },
            StatementView::LinkName { table, film_id, id } => {
                assert forall|other: Lookup, film: int, entry: int| #[trigger]
                    next.links(other).contains((film, entry)) implies next.has_film(film)
                    && next.names(other).has_id(entry) by {
                    if !self.links(other).contains((film, entry)) {
                        assert(other == table && film == film_id && entry == id);
                    }
                }
            },
            StatementView::InsertPerson { imdb_id, name } => {
                self.persons.lemma_insert(imdb_id, name);
                assert forall|other: Lookup, film: int, id: int| #[trigger]
                    next.links(other).contains((film, id)) implies next.has_film(film)
                    && next.names(other).has_id(id) by {
                    assert(self.links(other).contains((film, id)));
                }
            },
            _ => {
                assert forall|other: Lookup, film: int, id: int| #[trigger]
                    next.links(other).contains((film, id)) implies next.has_film(film)
                    && next.names(other).has_id(id) by {
                    assert(self.links(other).contains((film, id)));
                }
            },
        }
    }
}

/// The catalog: every table of the store.
pub struct Catalog {
    directories: NameTable,
    films: FilmTable,
    genres: NameTable,
    languages: NameTable,
    keywords: NameTable,
    persons: PersonTable,
    characters: CharacterTable,
    film_genres: LinkTable,
    film_languages: LinkTable,
    film_keywords: LinkTable,
    film_directors: LinkTable,
}

impl View for Catalog {
    type V = CatalogView;

    closed spec fn view(&self) -> CatalogView {
        CatalogView {
            directories: self.directories@,
            films: self.films@,
            genres: self.genres@,
            languages: self.languages@,
            keywords: self.keywords@,
            persons: self.persons@,
            characters: self.characters@,
            film_genres: self.film_genres@,
            film_languages: self.film_languages@,
            film_keywords: self.film_keywords@,
            film_directors: self.film_directors@,
        }
    }
}

impl Catalog {
    /// Every table keeps its own rules, and the catalog as a whole is well
    /// formed.
    pub closed spec fn wf(&self) -> bool {
        &&& self.directories.wf()
        &&& self.films.wf()
        &&& self.genres.wf()
        &&& self.languages.wf()
        &&& self.keywords.wf()
        &&& self.persons.wf()
        &&& self.characters.wf()
        &&& self.film_genres.wf()
        &&& self.film_languages.wf()
        &&& self.film_keywords.wf()
        &&& self.film_directors.wf()
        &&& self@.wf()
    }

    /// What a well-formed catalog holds is well formed.
    pub proof fn lemma_view_wf(&self)
        requires
            self.wf(),
        ensures
            self@.wf(),
    {
    }

    /// The identifier that the next new film gets.
    pub closed spec fn next_film_id(&self) -> int {
        self.films.next_id()
    }

    /// A catalog with every table empty. The first film added to it gets
    /// the identifier 1.
    pub fn new() -> (empty: Catalog)
        ensures
            empty.wf(),
            empty@ == CatalogView::empty(),
            empty.next_film_id() == 1,
    {
        let empty = Catalog {
            directories: NameTable::new(),
            films: FilmTable::new(),
            genres: NameTable::new(),
            languages: NameTable::new(),
            keywords: NameTable::new(),
            persons: PersonTable::new(),
            characters: CharacterTable::new(),
            film_genres: LinkTable::new(),
            film_languages: LinkTable::new(),
            film_keywords: LinkTable::new(),
            film_directors: LinkTable::new(),
        };
        proof {
            empty.directories.lemma_view_wf();
            empty.genres.lemma_view_wf();
            empty.languages.lemma_view_wf();
            empty.keywords.lemma_view_wf();
            empty.persons.lemma_view_wf();
            assert(empty@.films.dom() =~= Set::<int>::empty());
            assert(empty@.characters.dom() =~= Set::<(int, int)>::empty());
        }
        empty
    }

    /// Runs one statement, and tells how it ended.
    pub fn execute(&mut self, statement: &Statement) -> (outcome: Outcome)
        requires
            old(self).wf(),
        ensures
            final(self).wf(),
            final(self)@ == old(self)@.after(statement@),
            outcome@ == old(self)@.outcome(statement@),
            final(self).next_film_id() == old(self).next_film_id(),
    {
        proof {
            self@.lemma_after_wf(statement@);
        }
        match statement {
            Statement::UpdateFilm(update) => {
                self.films.update(update);
                Outcome::Done
            },
            Statement::InsertName { table, name } => {
                let accepted = match table {
                    Lookup::Genres => self.genres.insert(name),
                    Lookup::Languages => self.languages.insert(name),
                    Lookup::Keywords => self.keywords.insert(name),
                };
                if accepted {
                    Outcome::Done
                } else {
                    Outcome::Failed("no row identifier is left".to_owned())
                }
            },
            Statement::SelectName { table, name } => {
                let found = match table {
                    Lookup::Genres => self.genres.id_of(name),
                    Lookup::Languages => self.languages.id_of(name),
                    Lookup::Keywords => self.keywords.id_of(name),
                };
                match found {
                    Some(id) => Outcome::Id(id),
                    None => Outcome::Failed("Query returned no rows".to_owned()),
                }
            },
            Statement::LinkName { table, film_id, id } => {
                let known = match table {
                    Lookup::Genres => self.genres.has_id(*id),
                    Lookup::Languages => self.languages.has_id(*id),
                    Lookup::Keywords => self.keywords.has_id(*id),
                };
                if self.films.has(*film_id) && known {
                    match table {
                        Lookup::Genres => self.film_genres.insert(*film_id, *id),
                        Lookup::Languages => self.film_languages.insert(*film_id, *id),
                        Lookup::Keywords => self.film_keywords.insert(*film_id, *id),
                    }
                    Outcome::Done
                } else {
                    Outcome::Failed("FOREIGN KEY constraint failed".to_owned())
                }
            },
            Statement::InsertPerson { imdb_id, name } => {
                if self.persons.insert(imdb_id, name) {
                    Outcome::Done
                } else {
                    Outcome::Failed("no row identifier is left".to_owned())
                }
            },
            Statement::SelectPerson { imdb_id } => {
                match self.persons.id_of(imdb_id) {
                    Some(id) => Outcome::Id(id),
                    None => Outcome::Failed("Query returned no rows".to_owned()),
                }
            },
            Statement::LinkDirector { film_id, person_id } => {
                if self.films.has(*film_id) && self.persons.has_id(*person_id) {
                    self.film_directors.insert(*film_id, *person_id);
                    Outcome::Done
                } else {
                    Outcome::Failed("FOREIGN KEY constraint failed".to_owned())
                }
            },
            Statement::InsertCharacter { film_id, description, actor } => {
                if self.films.has(*film_id) && self.persons.has_id(*actor) {
                    self.characters.insert(*film_id, description, *actor);
                    Outcome::Done
                } else {
                    Outcome::Failed("FOREIGN KEY constraint failed".to_owned())
                }
            },
            Statement::Commit => Outcome::Done,
        }
    }

    /// Adds the row of a film that was found at `file`, and gives its
    /// identifier. It fails only where no identifier is left.
    pub fn add_film(&mut self, file: &String) -> (added: Option<u32>)
        requires
            old(self).wf(),
        ensures
            final(self).wf(),
            match added {
                Some(id) => {
                    &&& id == old(self).next_film_id()
                    &&& !old(self)@.has_film(id as int)
                    &&& final(self)@ == (CatalogView {
                        films: old(self)@.films.insert(id as int, FilmView::found(file@)),
                        ..old(self)@
                    })
                },
                None => old(self).next_film_id() > u32::MAX && final(self)@ == old(self)@,
            },
    {
        proof {
            self.films.lemma_view_wf();
        }
        let ghost before = self@;
        let added = self.films.add(file);
        proof {
            let next = self@;
            assert forall|table: Lookup, film: int, id: int| #[trigger]
                next.links(table).contains((film, id)) implies next.has_film(film) && next.names(
                table,
            ).has_id(id) by {
                assert(before.links(table).contains((film, id)));
            }
        }
        added
    }

    /// Adds a directory to watch, and gives its identifier. It fails where
    /// the path is there already, and where no identifier is left.
    pub fn add_directory(&mut self, path: &String) -> (added: Result<i64, AppError>)
        requires
            old(self).wf(),
        ensures
            final(self).wf(),
            match added {
                Ok(id) => {
                    &&& !old(self)@.directories.has(path@)
                    &&& !old(self)@.directories.full()
                    &&& id == old(self)@.directories.last + 1
                    &&& final(self)@ == (CatalogView {
                        directories: old(self)@.directories.insert(path@),
                        ..old(self)@
                    })
                },
                Err(error) => {
                    &&& old(self)@.directories.has(path@) || old(self)@.directories.full()
                    &&& final(self)@ == old(self)@
                    &&& error@ == AppErrorView::DatabaseError(
                        if old(self)@.directories.has(path@) {
                            not_unique()
                        } else {
                            table_full()
                        },
                    )
                },
            },
    {
        proof {
            self.directories.lemma_view_wf();
            self@.directories.lemma_insert(path@);
        }
        let ghost before = self@;
        match self.directories.id_of(path) {
            Some(_) => Err(AppError::DatabaseError("UNIQUE constraint failed".to_owned())),
            None => {
                if self.directories.insert(path) {
                    proof {
                        let next = self@;
                        assert forall|table: Lookup, film: int, id: int| #[trigger]
                            next.links(table).contains((film, id)) implies next.has_film(film)
                            && next.names(table).has_id(id) by {
                            assert(before.links(table).contains((film, id)));
                        }
                    }
                    match self.directories.id_of(path) {
                        Some(id) => Ok(id),
                        None => Err(AppError::DatabaseError("no row identifier is left".to_owned())),
                    }
                } else {
                    Err(AppError::DatabaseError("no row identifier is left".to_owned()))
                }
            },
        }
    }

    /// The rows of a lookup table.
    pub fn names(&self, table: Lookup) -> (rows: Vec<NameRow>)
        requires
            self.wf(),
        ensures
            lists(rows@, self@.names(table)),
    {
        match table {
            Lookup::Genres => self.genres.all(),
            Lookup::Languages => self.languages.all(),
            Lookup::Keywords => self.keywords.all(),
        }
    }

    /// The directories to watch.
    pub fn directories(&self) -> (rows: Vec<NameRow>)
        requires
            self.wf(),
        ensures
            lists(rows@, self@.directories),
    {
        self.directories.all()
    }

    /// The rows of the junction table between films and a lookup table.
    pub fn links(&self, table: Lookup) -> (rows: Vec<LinkRow>)
        requires
            self.wf(),
        ensures
            lists_links(rows@, self@.links(table)),
    {
        match table {
            Lookup::Genres => self.film_genres.all(),
            Lookup::Languages => self.film_languages.all(),
            Lookup::Keywords => self.film_keywords.all(),
        }
    }

    /// The rows of the junction table between films and their directors.
    pub fn film_directors(&self) -> (rows: Vec<LinkRow>)
        requires
            self.wf(),
        ensures
            lists_links(rows@, self@.film_directors),
    {
        self.film_directors.all()
    }

    /// The rows of the table of persons.
    pub fn persons(&self) -> (rows: Vec<PersonRow>)
        requires
            self.wf(),
        ensures
            lists_persons(rows@, self@.persons),
    {
        self.persons.all()
    }

    /// The rows of the table of characters.
    pub fn characters(&self) -> (rows: Vec<CharacterRow>)
        requires
            self.wf(),
        ensures
            lists_characters(rows@, self@.characters),
    {
        self.characters.all()
    }

    /// The description of the part that `actor` plays in a film.
    pub fn character(&self, film_id: u32, actor: i64) -> (found: Option<String>)
        requires
            self.wf(),
        ensures
            match found {
                Some(text) => self@.characters.dom().contains((film_id as int, actor as int))
                    && self@.characters[(film_id as int, actor as int)] == text@,
                None => !self@.characters.dom().contains((film_id as int, actor as int)),
            },
    {
        self.characters.description_of(film_id, actor)
    }

    /// The rows of the table of films.
    pub fn films(&self) -> (rows: Vec<FilmRow>)
        requires
            self.wf(),
        ensures
            lists_films(rows@, self@.films),
    {
        self.films.all()
    }

    /// The row of film `id`.
    pub fn film(&self, id: u32) -> (found: Option<FilmRow>)
        requires
            self.wf(),
        ensures
            match found {
                Some(row) => row.id == id && self@.has_film(id as int) && self@.films[id as int]
                    == film_value()(row),
                None => !self@.has_film(id as int),
            },
    {
        self.films.get(id)
    }

    /// The row identifier of the person with this IMDb identifier.
    pub fn person_id(&self, imdb_id: &String) -> (found: Option<i64>)
        requires
            self.wf(),
        ensures
            match found {
                Some(id) => self@.persons.has(imdb_id@) && self@.persons.rows[imdb_id@].id == id,
                None => !self@.persons.has(imdb_id@),
            },
    {
        self.persons.id_of(imdb_id)
    }

    /// The identifier of a name in a lookup table.
    pub fn name_id(&self, table: Lookup, name: &String) -> (found: Option<i64>)
        requires
            self.wf(),
        ensures
            match found {
                Some(id) => self@.names(table).has(name@) && self@.names(table).ids[name@] == id,
                None => !self@.names(table).has(name@),
            },
    {
        match table {
            Lookup::Genres => self.genres.id_of(name),
            Lookup::Languages => self.languages.id_of(name),
            Lookup::Keywords => self.keywords.id_of(name),
        }
    }
}

} // verus!
