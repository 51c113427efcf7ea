//! The decisions of an ingestion, apart from the store that carries them
//! out. An ingestion hands out one statement at a time; told how the
//! statement ended, it hands out the next one, or finishes.
//!
//! The film's row is written first, and a failure there ends everything.
//! Then come genres, languages, keywords, directors and stars, item by
//! item: insert the entity unless it is there, ask for its identifier, tie
//! it to the film. A failure on the way only drops that item. The commit
//! comes last, and a failure there ends everything too.

use vstd::prelude::*;

use super::models::{ScrapedFilm, ScrapedFilmView};
use super::normalize::{color_flag, color_flag_of, run_time_of, run_time_seconds};
use crate::database::catalog::{Lookup, Outcome, OutcomeView, Statement, StatementView};
use crate::database::films::{clone_text, FilmUpdate, FilmUpdateView};
use crate::error::{AppError, AppErrorView};

verus! {

/// The families of entities that ingestion ties to a film, in the order in
/// which it handles them.
#[derive(Clone, Copy, Debug, PartialEq, Eq, Structural)]
pub enum Family {
    Genres,
    Languages,
    Keywords,
    Directors,
    Stars,
}

/// The three statements that one item takes.
#[derive(Clone, Copy, Debug, PartialEq, Eq, Structural)]
pub enum Step {
    Insert,
    Select,
    Link,
}

/// The statement that is out.
#[derive(Clone, Copy, Debug, PartialEq, Eq, Structural)]
pub enum Stage {
    Film,
    Item { family: Family, index: usize, step: Step },
    Commit,
}

/// A portrait to fetch once the ingestion is through: the person's row
/// identifier and the address of the image.
pub open spec fn avatar_views(avatars: Seq<(i64, String)>) -> Seq<(int, Seq<char>)> {
    Seq::new(avatars.len(), |i: int| (avatars[i].0 as int, avatars[i].1@))
}

/// An ingestion under way: the statement that is out, the identifier that
/// the last query gave, and the portraits gathered so far.
#[derive(Clone, Debug, PartialEq, Eq)]
pub struct Ingestion {
    pub stage: Stage,
    pub id: i64,
    pub avatars: Vec<(i64, String)>,
}

/// The mathematical content of an `Ingestion`.
pub struct IngestionView {
    pub stage: Stage,
    pub id: int,
    pub avatars: Seq<(int, Seq<char>)>,
}

impl View for Ingestion {
    type V = IngestionView;

    open spec fn view(&self) -> IngestionView {
        IngestionView { stage: self.stage, id: self.id as int, avatars: avatar_views(self.avatars@) }
    }
}

/// What an ingestion does next: run a statement, or finish. It finishes
/// with the portraits to fetch, or with the failure that ended it.
#[derive(Debug, PartialEq, Eq)]
pub enum Progress {
    Next(Ingestion, Statement),
    Finished(Result<Vec<(i64, String)>, AppError>),
}

/// The family after `family`, if there is one.
pub open spec fn successor(family: Family) -> Option<Family> {
    match family {
        Family::Genres => Some(Family::Languages),
        Family::Languages => Some(Family::Keywords),
        Family::Keywords => Some(Family::Directors),
        Family::Directors => Some(Family::Stars),
        Family::Stars => None,
    }
}

/// How many families come after `family`.
pub open spec fn families_left(family: Family) -> nat {
    match family {
        Family::Genres => 4,
        Family::Languages => 3,
        Family::Keywords => 2,
        Family::Directors => 1,
        Family::Stars => 0,
    }
}

/// How many items of a family the film has.
pub open spec fn count(film: ScrapedFilmView, family: Family) -> nat {
    match family {
        Family::Genres => film.genres.len(),
        Family::Languages => film.languages.len(),
        Family::Keywords => film.keywords.len(),
        Family::Directors => film.directors.len(),
        Family::Stars => film.stars.len(),
    }
}

/// The stage at which `family` begins: its first item, or where it has
/// none, the beginning of the next family; after the last one, the commit.
pub open spec fn beginning(film: ScrapedFilmView, family: Family) -> Stage
    decreases families_left(family),
{
    if count(film, family) > 0 {
        Stage::Item { family, index: 0, step: Step::Insert }
    } else {
        match successor(family) {
            Some(next) => beginning(film, next),
            None => Stage::Commit,
        }
    }
}

/// The stage that follows the item `index` of `family`.
pub open spec fn following(film: ScrapedFilmView, family: Family, index: usize) -> Stage {
    if index + 1 < count(film, family) {
        Stage::Item { family, index: (index + 1) as usize, step: Step::Insert }
    } else {
        match successor(family) {
            Some(next) => beginning(film, next),
            None => Stage::Commit,
        }
    }
}

/// The stage names an item that the film has.
pub open spec fn in_range(film: ScrapedFilmView, stage: Stage) -> bool {
    match stage {
        Stage::Item { family, index, step } => index < count(film, family),
        _ => true,
    }
}

/// The lookup table of one of the three families of names.
pub open spec fn lookup_of(family: Family) -> Lookup {
    match family {
        Family::Languages => Lookup::Languages,
        Family::Keywords => Lookup::Keywords,
        _ => Lookup::Genres,
    }
}

/// The name at `index` in one of the three families of names.
pub open spec fn name_at(film: ScrapedFilmView, family: Family, index: int) -> Seq<char> {
    match family {
        Family::Languages => film.languages[index],
        Family::Keywords => film.keywords[index],
        _ => film.genres[index],
    }
}

/// What ingestion writes into the film's row: the scraped values, with the
/// duration turned into seconds and the colour description into a flag.
pub open spec fn update_of(film: ScrapedFilmView) -> FilmUpdateView {
    FilmUpdateView {
        id: film.id,
        imdb_id: film.imdb_id,
        title: film.title,
        release_date: film.release_date,
        plot: film.plot,
        run_time: match run_time_seconds(film.run_time) {
            Some(total) => Some(total as i64),
            None => None,
        },
        has_color: color_flag(film.color),
        rating: film.rating,
    }
}

/// The statement that belongs to a stage. `id` is the identifier that the
/// item's query gave; only the third statement of an item uses it.
pub open spec fn statement_at(film: ScrapedFilmView, stage: Stage, id: int) -> StatementView {
    match stage {
        Stage::Film => StatementView::UpdateFilm(update_of(film)),
        Stage::Commit => StatementView::Commit,
        Stage::Item { family, index, step } => match family {
            Family::Directors => match step {
                Step::Insert => StatementView::InsertPerson {
                    imdb_id: film.directors[index as int].imdb_id,
                    name: film.directors[index as int].real_name,
                },
                Step::Select => StatementView::SelectPerson {
                    imdb_id: film.directors[index as int].imdb_id,
                },
                Step::Link => StatementView::LinkDirector { film_id: film.id as int, person_id: id },
            },
            Family::Stars => match step {
                Step::Insert => StatementView::InsertPerson {
                    imdb_id: film.stars[index as int].imdb_id,
                    name: film.stars[index as int].real_name,
                },
                Step::Select => StatementView::SelectPerson {
                    imdb_id: film.stars[index as int].imdb_id,
                },
                Step::Link => StatementView::InsertCharacter {
                    film_id: film.id as int,
                    description: film.stars[index as int].character,
                    actor: id,
                },
            },
            _ => match step {
                Step::Insert => StatementView::InsertName {
                    table: lookup_of(family),
                    name: name_at(film, family, index as int),
                },
                Step::Select => StatementView::SelectName {
                    table: lookup_of(family),
                    name: name_at(film, family, index as int),
                },
                Step::Link => StatementView::LinkName {
                    table: lookup_of(family),
                    film_id: film.id as int,
                    id: id,
                },
            },
        },
    }
}

/// The portraits gathered once the query of an item gave `id`: one more
/// where the item is a star with a portrait.
pub open spec fn gathered(
    film: ScrapedFilmView,
    family: Family,
    index: int,
    id: int,
    avatars: Seq<(int, Seq<char>)>,
) -> Seq<(int, Seq<char>)> {
    if family == Family::Stars {
        match film.stars[index].avatar {
            Some(address) => avatars.push((id, address)),
            None => avatars,
        }
    } else {
        avatars
    }
}

/// The ingestion after a statement ended, or nothing where it is over.
///
/// The film's row: a failure is the end. An item's insert: on a failure the
/// item is dropped. Its query: with an identifier the item goes on to be
/// tied, and a star's portrait is noted; anything else drops it. Its tie:
/// the next item follows, however it ended. The commit is the end.
pub open spec fn advanced(
    film: ScrapedFilmView,
    state: IngestionView,
    outcome: OutcomeView,
) -> Option<IngestionView> {
    match state.stage {
        Stage::Film => match outcome {
            OutcomeView::Failed(_) => None,
            _ => Some(IngestionView { stage: beginning(film, Family::Genres), ..state }),
        },
        Stage::Item { family, index, step } => match step {
            Step::Insert => match outcome {
                OutcomeView::Failed(_) => Some(
                    IngestionView { stage: following(film, family, index), ..state },
                ),
                _ => Some(
                    IngestionView {
                        stage: Stage::Item { family, index, step: Step::Select },
                        ..state
                    },
                ),
            },
            Step::Select => match outcome {
                OutcomeView::Id(id) => Some(
                    IngestionView {
                        stage: Stage::Item { family, index, step: Step::Link },
                        id: id,
                        avatars: gathered(film, family, index as int, id, state.avatars),
                    },
                ),
                _ => Some(IngestionView { stage: following(film, family, index), ..state }),
            },
            Step::Link => Some(IngestionView { stage: following(film, family, index), ..state }),
        },
        Stage::Commit => None,
    }
}

/// How an ingestion that is over ended: with the failure of the film's row
/// or of the commit, or else with the portraits gathered.
pub open spec fn verdict(state: IngestionView, outcome: OutcomeView) -> Result<
    Seq<(int, Seq<char>)>,
    AppErrorView,
> {
    match outcome {
        OutcomeView::Failed(message) => Err(AppErrorView::DatabaseError(message)),
        _ => Ok(state.avatars),
    }
}

/// What a finished ingestion hands back, as mathematical content.
pub open spec fn verdict_view(result: Result<Vec<(i64, String)>, AppError>) -> Result<
    Seq<(int, Seq<char>)>,
    AppErrorView,
> {
    match result {
        Ok(avatars) => Ok(avatar_views(avatars@)),
        Err(error) => Err(error@),
    }
}

/// What ingestion writes into the film's row.
pub fn film_update(film: &ScrapedFilm) -> (update: FilmUpdate)
    ensures
        update@ == update_of(film@),
{
    FilmUpdate {
        id: film.id,
        imdb_id: film.imdb_id.clone(),
        title: clone_text(&film.title),
        release_date: clone_text(&film.release_date),
        plot: clone_text(&film.plot),
        run_time: run_time_of(&film.run_time),
        has_color: color_flag_of(&film.color),
        rating: film.rating,
    }
}

/// The stage at which `family` begins.
pub fn begin(film: &ScrapedFilm, family: Family) -> (stage: Stage)
    ensures
        stage == beginning(film@, family),
        in_range(film@, stage),
{
    let mut current: Family = family;
    loop
        invariant
            beginning(film@, current) == beginning(film@, family),
        decreases families_left(current),
    {
        let items: usize = match current {
            Family::Genres => film.genres.len(),
            Family::Languages => film.languages.len(),
            Family::Keywords => film.keywords.len(),
            Family::Directors => film.directors.len(),
            Family::Stars => film.stars.len(),
        };
        assert(items == count(film@, current));
        if items > 0 {
            return Stage::Item { family: current, index: 0, step: Step::Insert };
        }
        match current {
            Family::Genres => {
                current = Family::Languages;
            },
            Family::Languages => {
                current = Family::Keywords;
            },
            Family::Keywords => {
                current = Family::Directors;
            },
            Family::Directors => {
                current = Family::Stars;
            },
            Family::Stars => {
                return Stage::Commit;
            },
        }
    }
}

/// The stage that follows the item `index` of `family`.
pub fn follow(film: &ScrapedFilm, family: Family, index: usize) -> (stage: Stage)
    requires
        index < count(film@, family),
    ensures
        stage == following(film@, family, index),
        in_range(film@, stage),
{
    let items: usize = match family {
        Family::Genres => film.genres.len(),
        Family::Languages => film.languages.len(),
        Family::Keywords => film.keywords.len(),
        Family::Directors => film.directors.len(),
        Family::Stars => film.stars.len(),
    };
    assert(items == count(film@, family));
    if index + 1 < items {
        Stage::Item { family, index: index + 1, step: Step::Insert }
    } else {
        match family {
            Family::Genres => begin(film, Family::Languages),
            Family::Languages => begin(film, Family::Keywords),
            Family::Keywords => begin(film, Family::Directors),
            Family::Directors => begin(film, Family::Stars),
            Family::Stars => Stage::Commit,
        }
    }
}

/// The name at `index` in one of the three families of names.
fn name_of(film: &ScrapedFilm, family: Family, index: usize) -> (name: String)
    requires
        family != Family::Directors,
        family != Family::Stars,
        index < count(film@, family),
    ensures
        name@ == name_at(film@, family, index as int),
{
    match family {
        Family::Languages => film.languages[index].clone(),
        Family::Keywords => film.keywords[index].clone(),
        _ => film.genres[index].clone(),
    }
}

/// The lookup table of one of the three families of names.
fn lookup(family: Family) -> (table: Lookup)
    ensures
        table == lookup_of(family),
{
    match family {
        Family::Languages => Lookup::Languages,
        Family::Keywords => Lookup::Keywords,
        _ => Lookup::Genres,
    }
}

/// The statement that belongs to a stage.
pub fn statement_for(film: &ScrapedFilm, stage: Stage, id: i64) -> (statement: Statement)
    requires
        in_range(film@, stage),
    ensures
        statement@ == statement_at(film@, stage, id as int),
{
    match stage {
        Stage::Film => Statement::UpdateFilm(film_update(film)),
        Stage::Commit => Statement::Commit,
        Stage::Item { family, index, step } => match family {
            Family::Directors => match step {
                Step::Insert => Statement::InsertPerson {
                    imdb_id: film.directors[index].imdb_id.clone(),
                    name: film.directors[index].real_name.clone(),
                },
                Step::Select => Statement::SelectPerson {
                    imdb_id: film.directors[index].imdb_id.clone(),
                },
                Step::Link => Statement::LinkDirector { film_id: film.id, person_id: id },
            },
            Family::Stars => match step {
                Step::Insert => Statement::InsertPerson {
                    imdb_id: film.stars[index].imdb_id.clone(),
                    name: film.stars[index].real_name.clone(),
                },
                Step::Select => Statement::SelectPerson {
                    imdb_id: film.stars[index].imdb_id.clone(),
                },
                Step::Link => Statement::InsertCharacter {
                    film_id: film.id,
                    description: film.stars[index].character.clone(),
                    actor: id,
                },
            },
            _ => match step {
                Step::Insert => Statement::InsertName {
                    table: lookup(family),
                    name: name_of(film, family, index),
                },
                Step::Select => Statement::SelectName {
                    table: lookup(family),
                    name: name_of(film, family, index),
                },
                Step::Link => Statement::LinkName { table: lookup(family), film_id: film.id, id },
            },
        },
    }
}

impl Ingestion {
    /// The stage names an item that the film has.
    pub open spec fn wf(&self, film: ScrapedFilmView) -> bool {
        in_range(film, self.stage)
    }

    /// Tells whether the ingestion belongs to a film with these lists: the
    /// item that its stage names is one that the film has.
    pub fn fits(&self, film: &ScrapedFilm) -> (yes: bool)
        ensures
            yes == self.wf(film@),
    {
        match self.stage {
            Stage::Item { family, index, step } => {
                let items: usize = match family {
                    Family::Genres => film.genres.len(),
                    Family::Languages => film.languages.len(),
                    Family::Keywords => film.keywords.len(),
                    Family::Directors => film.directors.len(),
                    Family::Stars => film.stars.len(),
                };
                assert(items == count(film@, family));
                index < items
            },
            _ => true,
        }
    }

    /// Starts the ingestion of a film. The statement to run first writes
    /// the film's row.
    pub fn start(film: &ScrapedFilm) -> (begun: (Ingestion, Statement))
        ensures
            begun.0@ == (IngestionView { stage: Stage::Film, id: 0, avatars: Seq::empty() }),
            begun.0.wf(film@),
            begun.1@ == statement_at(film@, Stage::Film, 0),
    {
        let state = Ingestion { stage: Stage::Film, id: 0, avatars: Vec::new() };
        assert(avatar_views(state.avatars@) =~= Seq::empty());
        (state, statement_for(film, Stage::Film, 0))
    }

    /// Takes in how the statement that was out ended, and hands out the
    /// next one, or finishes.
    pub fn step(self, film: &ScrapedFilm, outcome: Outcome) -> (progress: Progress)
        requires
            self.wf(film@),
        ensures
            match progress {
                Progress::Next(state, statement) => {
                    &&& advanced(film@, self@, outcome@) == Some(state@)
                    &&& state.wf(film@)
                    &&& statement@ == statement_at(film@, state.stage, state.id as int)
                },
                Progress::Finished(result) => {
                    &&& advanced(film@, self@, outcome@) is None
                    &&& verdict_view(result) == verdict(self@, outcome@)
                },
            },
    {
        let Ingestion { stage, id, avatars } = self;
        let mut avatars = avatars;
        let mut id: i64 = id;
        let next: Stage = match stage {
            Stage::Film => match outcome {
                Outcome::Failed(message) => {
                    return Progress::Finished(Err(AppError::DatabaseError(message)));
                },
                _ => begin(film, Family::Genres),
            },
            Stage::Commit => match outcome {
                Outcome::Failed(message) => {
                    return Progress::Finished(Err(AppError::DatabaseError(message)));
                },
                _ => {
                    return Progress::Finished(Ok(avatars));
                },
            },
            Stage::Item { family, index, step } => match step {
                Step::Insert => match outcome {
                    Outcome::Failed(_) => follow(film, family, index),
                    _ => Stage::Item { family, index, step: Step::Select },
                },
                Step::Select => match outcome {
                    Outcome::Id(found) => {
                        id = found;
                        match family {
                            Family::Stars => match &film.stars[index].avatar {
                                Some(address) => {
                                    let ghost before = avatar_views(avatars@);
                                    avatars.push((found, address.clone()));
                                    assert(avatar_views(avatars@) =~= before.push(
                                        (found as int, address@),
                                    ));
                                },
                                None => {},
                            },
                            _ => {},
                        }
                        Stage::Item { family, index, step: Step::Link }
                    },
                    _ => follow(film, family, index),
                },
                Step::Link => follow(film, family, index),
            },
        };
        let statement = statement_for(film, next, id);
        Progress::Next(Ingestion { stage: next, id, avatars }, statement)
    }
}

} // verus!
