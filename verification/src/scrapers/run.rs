//! Why an ingestion that is run statement by statement against the catalog
//! ends with the catalog that `merge` describes.

use vstd::prelude::*;

use super::ingest::{
    advanced, beginning, count, families_left, following, in_range, statement_at, successor,
    verdict, Family, IngestionView, Stage, Step,
};
use super::merge::{
    ingested, item_merged, lemma_portraits_next, lemma_reached_next, lemma_reached_none,
    portraits, portraits_reached, reached, star_portrait,
};
use super::models::ScrapedFilmView;
use crate::database::catalog::{CatalogView, OutcomeView};

verus! {

/// The portraits gathered when `n` items of `family` are through.
pub open spec fn gathered_at(
    start: CatalogView,
    film: ScrapedFilmView,
    family: Family,
    n: int,
) -> Seq<(int, Seq<char>)> {
    if family == Family::Stars {
        portraits_reached(start, film, n)
    } else {
        Seq::empty()
    }
}

/// The catalog and the portraits are what they should be for the stage
/// that the ingestion is at.
pub open spec fn on_track(
    start: CatalogView,
    film: ScrapedFilmView,
    state: IngestionView,
    catalog: CatalogView,
) -> bool {
    match state.stage {
        Stage::Film => catalog == start && state.avatars == Seq::<(int, Seq<char>)>::empty(),
        Stage::Commit => catalog == ingested(start, film) && state.avatars == portraits(start, film),
        Stage::Item { family, index, step } => {
            let before = reached(start, film, family, index as int);
            let insert = statement_at(film, Stage::Item { family, index, step: Step::Insert }, 0);
            let select = statement_at(film, Stage::Item { family, index, step: Step::Select }, 0);
            match step {
                Step::Insert => catalog == before && state.avatars == gathered_at(
                    start,
                    film,
                    family,
                    index as int,
                ),
                Step::Select => {
                    &&& before.wf()
                    &&& catalog == before.after(insert)
                    &&& before.outcome(insert) is Done
                    &&& state.avatars == gathered_at(start, film, family, index as int)
                },
                Step::Link => {
                    &&& before.wf()
                    &&& catalog == before.after(insert)
                    &&& before.outcome(insert) is Done
                    &&& catalog.outcome(select) == OutcomeView::Id(state.id)
                    &&& state.avatars == gathered_at(start, film, family, index + 1)
                },
            }
        },
    }
}

/// How many items the families after `family` have.
pub open spec fn items_after(film: ScrapedFilmView, family: Family) -> nat
    decreases families_left(family),
{
    match successor(family) {
        Some(next) => count(film, next) + items_after(film, next),
        None => 0,
    }
}

/// How many statements are left at most, the one that is out included.
pub open spec fn steps_left(film: ScrapedFilmView, stage: Stage) -> int {
    match stage {
        Stage::Film => 3 * (count(film, Family::Genres) + items_after(film, Family::Genres)) as int + 2,
        Stage::Commit => 1int,
        Stage::Item { family, index, step } => 3 * (count(film, family) - index) + 3 * items_after(
            film,
            family,
        ) + 1 - match step {
            Step::Insert => 0int,
            Step::Select => 1int,
            Step::Link => 2int,
        },
    }
}

/// Where a family begins, the ingestion is on track once everything before
/// the family is through.
pub proof fn lemma_beginning(
    start: CatalogView,
    film: ScrapedFilmView,
    family: Family,
    state: IngestionView,
)
    requires
        state.stage == beginning(film, family),
        state.avatars == gathered_at(start, film, family, 0),
    ensures
        on_track(start, film, state, reached(start, film, family, 0)),
        steps_left(film, state.stage) <= 3 * (count(film, family) + items_after(film, family)) + 1,
        in_range(film, state.stage),
    decreases families_left(family),
{
    if count(film, family) == 0 {
        match family {
            Family::Genres => {
                assert(film.genres.take(0) == film.genres);
            },
            Family::Languages => {
                assert(film.languages.take(0) == film.languages);
            },
            Family::Keywords => {
                assert(film.keywords.take(0) == film.keywords);
            },
            Family::Directors => {
                assert(film.directors.take(0) == film.directors);
            },
            Family::Stars => {
                assert(film.stars.take(0) == film.stars);
            },
        }
        match successor(family) {
            Some(next) => {
                lemma_reached_none(start, film, next);
                assert(reached(start, film, next, 0) == reached(start, film, family, 0));
                if next == Family::Stars {
                    assert(film.stars.take(0).len() == 0);
                }
                lemma_beginning(start, film, next, state);
            },
            None => {},
        }
    }
}

/// After an item, the ingestion is on track once the item is merged in.
pub proof fn lemma_following(
    start: CatalogView,
    film: ScrapedFilmView,
    family: Family,
    index: usize,
    state: IngestionView,
)
    requires
        index < count(film, family) <= usize::MAX,
        state.stage == following(film, family, index),
        state.avatars == gathered_at(start, film, family, index + 1),
    ensures
        on_track(start, film, state, reached(start, film, family, index + 1)),
        steps_left(film, state.stage) <= 3 * (count(film, family) - index) + 3 * items_after(
            film,
            family,
        ) - 2,
        in_range(film, state.stage),
{
    if index + 1 < count(film, family) {
    } else {
        match family {
            Family::Genres => {
                assert(film.genres.take(index + 1) == film.genres);
            },
            Family::Languages => {
                assert(film.languages.take(index + 1) == film.languages);
            },
            Family::Keywords => {
                assert(film.keywords.take(index + 1) == film.keywords);
            },
            Family::Directors => {
                assert(film.directors.take(index + 1) == film.directors);
            },
            Family::Stars => {
                assert(film.stars.take(index + 1) == film.stars);
            },
        }
        match successor(family) {
            Some(next) => {
                lemma_reached_none(start, film, next);
                if next == Family::Stars {
                    assert(film.stars.take(0).len() == 0);
                }
                lemma_beginning(start, film, next, state);
            },
            None => {},
        }
    }
}

/// The three statements of an item, run in turn against a catalog, merge
/// the item in.
pub proof fn lemma_item(catalog: CatalogView, film: ScrapedFilmView, family: Family, index: usize)
    requires
        catalog.wf(),
        index < count(film, family),
    ensures
        ({
            let insert = statement_at(film, Stage::Item { family, index, step: Step::Insert }, 0);
            let select = statement_at(film, Stage::Item { family, index, step: Step::Select }, 0);
            let inserted = catalog.after(insert);
            let merged = item_merged(catalog, film, family, index as int);
            match catalog.outcome(insert) {
                OutcomeView::Failed(_) => inserted == catalog && merged == catalog && (family
                    == Family::Stars ==> star_portrait(catalog, film.stars[index as int]) is None),
                _ => {
                    &&& inserted.outcome(select) is Id
                    &&& inserted.after(select) == inserted
                    &&& inserted.after(
                        statement_at(
                            film,
                            Stage::Item { family, index, step: Step::Link },
                            inserted.outcome(select)->Id_0,
                        ),
                    ) == merged
                    &&& family == Family::Stars ==> star_portrait(
                        catalog,
                        film.stars[index as int],
                    ) == match film.stars[index as int].avatar {
                        Some(address) => Some((inserted.outcome(select)->Id_0, address)),
                        None => None,
                    }
                },
            }
        }),
{
    match family {
        Family::Directors => {
            let director = film.directors[index as int];
            catalog.persons.lemma_insert(director.imdb_id, director.real_name);
        },
        Family::Stars => {
            let star = film.stars[index as int];
            catalog.persons.lemma_insert(star.imdb_id, star.real_name);
        },
        _ => {
            let table = super::ingest::lookup_of(family);
            let name = super::ingest::name_at(film, family, index as int);
            catalog.names(table).lemma_insert(name);
            let names = catalog.names(table).insert(name);
            let listed = catalog.with_names(table, names);
            assert(listed.names(table) == names);
            if !catalog.names(table).accepts(name) {
                assert(listed == catalog);
            }
        },
    }
}

/// No list of the film is longer than a machine can hold.
pub open spec fn sized(film: ScrapedFilmView) -> bool {
    forall|family: Family| #[trigger] count(film, family) <= usize::MAX
}

/// One statement further, the ingestion is still on track and closer to
/// its end; and where it is over, the catalog is the one that ingestion
/// is to leave, and the portraits are the ones it is to hand back.
pub proof fn lemma_step(
    start: CatalogView,
    film: ScrapedFilmView,
    state: IngestionView,
    catalog: CatalogView,
)
    requires
        sized(film),
        catalog.wf(),
        in_range(film, state.stage),
        on_track(start, film, state, catalog),
    ensures
        ({
            let statement = statement_at(film, state.stage, state.id);
            let outcome = catalog.outcome(statement);
            match advanced(film, state, outcome) {
                Some(next) => {
                    &&& on_track(start, film, next, catalog.after(statement))
                    &&& in_range(film, next.stage)
                    &&& steps_left(film, next.stage) < steps_left(film, state.stage)
                },
                None => {
                    &&& catalog.after(statement) == ingested(start, film)
                    &&& verdict(state, outcome) == Ok::<Seq<(int, Seq<char>)>, crate::error::AppErrorView>(
                        portraits(start, film),
                    )
                },
            }
        }),
{
    let statement = statement_at(film, state.stage, state.id);
    let outcome = catalog.outcome(statement);
    match state.stage {
        Stage::Film => {
            let next = advanced(film, state, outcome)->0;
            lemma_reached_none(start, film, Family::Genres);
            lemma_beginning(start, film, Family::Genres, next);
        },
        Stage::Commit => {},
        Stage::Item { family, index, step } => {
            assert(count(film, family) <= usize::MAX);
            let before = reached(start, film, family, index as int);
            lemma_reached_next(start, film, family, index as int);
            if family == Family::Stars {
                lemma_portraits_next(start, film, index as int);
            }
            lemma_item(before, film, family, index);
            let next = advanced(film, state, outcome)->0;
            match step {
                Step::Insert => {
                    if outcome is Failed {
                        lemma_following(start, film, family, index, next);
                    }
                },
                Step::Select => {},
                Step::Link => {
                    lemma_following(start, film, family, index, next);
                },
            }
        },
    }
}

} // verus!
