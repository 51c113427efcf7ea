//! What an ingestion makes of the catalog, stated table by table: the
//! film's row written, and each scraped entity merged in by its natural
//! key and tied to the film.

use vstd::prelude::*;

use super::ingest::{count, lookup_of, name_at, update_of, Family};
use super::models::{ScrapedDirectorView, ScrapedFilmView, ScrapedStarView};
use crate::database::catalog::{CatalogView, Lookup};

verus! {

/// The catalog with a name merged into a lookup table and tied to a film.
/// The name gets a row unless it has one or the table is full; where it
/// then has a row and the film has one, the two are tied.
pub open spec fn name_merged(
    catalog: CatalogView,
    table: Lookup,
    film_id: int,
    name: Seq<char>,
) -> CatalogView {
    let names = catalog.names(table).insert(name);
    let listed = catalog.with_names(table, names);
    if names.has(name) && catalog.has_film(film_id) {
        listed.with_links(table, catalog.links(table).insert((film_id, names.ids[name])))
    } else {
        listed
    }
}

/// The catalog with a director merged in and tied to a film. A person who
/// has a row keeps it, name and all.
pub open spec fn director_merged(
    catalog: CatalogView,
    film_id: int,
    director: ScrapedDirectorView,
) -> CatalogView {
    let persons = catalog.persons.insert(director.imdb_id, director.real_name);
    if persons.has(director.imdb_id) && catalog.has_film(film_id) {
        CatalogView {
            persons: persons,
            film_directors: catalog.film_directors.insert(
                (film_id, persons.rows[director.imdb_id].id),
            ),
            ..catalog
        }
    } else {
        CatalogView { persons: persons, ..catalog }
    }
}

/// The catalog with a star merged in and their part noted. A part that
/// the film already has for this actor stays as it is.
pub open spec fn star_merged(catalog: CatalogView, film_id: int, star: ScrapedStarView) -> CatalogView {
    let persons = catalog.persons.insert(star.imdb_id, star.real_name);
    let part = (film_id, persons.rows[star.imdb_id].id);
    if persons.has(star.imdb_id) && catalog.has_film(film_id) && !catalog.characters.dom().contains(
        part,
    ) {
        CatalogView {
            persons: persons,
            characters: catalog.characters.insert(part, star.character),
            ..catalog
        }
    } else {
        CatalogView { persons: persons, ..catalog }
    }
}

/// The portrait to fetch for a star: their row identifier and the address
/// that the page gave, where both are there.
pub open spec fn star_portrait(catalog: CatalogView, star: ScrapedStarView) -> Option<
    (int, Seq<char>),
> {
    let persons = catalog.persons.insert(star.imdb_id, star.real_name);
    match star.avatar {
        Some(address) => if persons.has(star.imdb_id) {
            Some((persons.rows[star.imdb_id].id, address))
        } else {
            None
        },
        None => None,
    }
}

/// The catalog with a list of names merged in, one after the other.
pub open spec fn names_merged(
    catalog: CatalogView,
    table: Lookup,
    film_id: int,
    names: Seq<Seq<char>>,
) -> CatalogView
    decreases names.len(),
{
    if names.len() == 0 {
        catalog
    } else {
        name_merged(names_merged(catalog, table, film_id, names.drop_last()), table, film_id, names.last())
    }
}

/// The catalog with a list of directors merged in, one after the other.
pub open spec fn directors_merged(
    catalog: CatalogView,
    film_id: int,
    directors: Seq<ScrapedDirectorView>,
) -> CatalogView
    decreases directors.len(),
{
    if directors.len() == 0 {
        catalog
    } else {
        director_merged(
            directors_merged(catalog, film_id, directors.drop_last()),
            film_id,
            directors.last(),
        )
    }
}

/// The catalog with a list of stars merged in, one after the other.
pub open spec fn stars_merged(
    catalog: CatalogView,
    film_id: int,
    stars: Seq<ScrapedStarView>,
) -> CatalogView
    decreases stars.len(),
{
    if stars.len() == 0 {
        catalog
    } else {
        star_merged(stars_merged(catalog, film_id, stars.drop_last()), film_id, stars.last())
    }
}

/// The portraits to fetch for a list of stars, in their order.
pub open spec fn star_portraits(
    catalog: CatalogView,
    film_id: int,
    stars: Seq<ScrapedStarView>,
) -> Seq<(int, Seq<char>)>
    decreases stars.len(),
{
    if stars.len() == 0 {
        Seq::empty()
    } else {
        let earlier = star_portraits(catalog, film_id, stars.drop_last());
        match star_portrait(stars_merged(catalog, film_id, stars.drop_last()), stars.last()) {
            Some(portrait) => earlier.push(portrait),
            None => earlier,
        }
    }
}

/// How many families come before `family`.
pub open spec fn families_before(family: Family) -> nat {
    match family {
        Family::Genres => 0,
        Family::Languages => 1,
        Family::Keywords => 2,
        Family::Directors => 3,
        Family::Stars => 4,
    }
}

/// The catalog after the film's row was written, every family before
/// `family` was merged in, and the first `n` items of `family` were.
pub open spec fn reached(catalog: CatalogView, film: ScrapedFilmView, family: Family, n: int) -> CatalogView
    decreases families_before(family),
{
    match family {
        Family::Genres => names_merged(
            catalog.update_film(update_of(film)),
            Lookup::Genres,
            film.id as int,
            film.genres.take(n),
        ),
        Family::Languages => names_merged(
            reached(catalog, film, Family::Genres, film.genres.len() as int),
            Lookup::Languages,
            film.id as int,
            film.languages.take(n),
        ),
        Family::Keywords => names_merged(
            reached(catalog, film, Family::Languages, film.languages.len() as int),
            Lookup::Keywords,
            film.id as int,
            film.keywords.take(n),
        ),
        Family::Directors => directors_merged(
            reached(catalog, film, Family::Keywords, film.keywords.len() as int),
            film.id as int,
            film.directors.take(n),
        ),
        Family::Stars => stars_merged(
            reached(catalog, film, Family::Directors, film.directors.len() as int),
            film.id as int,
            film.stars.take(n),
        ),
    }
}

/// The catalog after the ingestion of a film: the film's row written, then
/// genres, languages, keywords, directors and stars merged in.
pub open spec fn ingested(catalog: CatalogView, film: ScrapedFilmView) -> CatalogView {
    reached(catalog, film, Family::Stars, film.stars.len() as int)
}

/// The portraits that the ingestion of a film asks to fetch, for the first
/// `n` stars.
pub open spec fn portraits_reached(catalog: CatalogView, film: ScrapedFilmView, n: int) -> Seq<
    (int, Seq<char>),
> {
    star_portraits(
        reached(catalog, film, Family::Directors, film.directors.len() as int),
        film.id as int,
        film.stars.take(n),
    )
}

/// The portraits that the ingestion of a film asks to fetch.
pub open spec fn portraits(catalog: CatalogView, film: ScrapedFilmView) -> Seq<(int, Seq<char>)> {
    portraits_reached(catalog, film, film.stars.len() as int)
}

/// The catalog with the item `index` of `family` merged in.
pub open spec fn item_merged(
    catalog: CatalogView,
    film: ScrapedFilmView,
    family: Family,
    index: int,
) -> CatalogView {
    match family {
        Family::Directors => director_merged(catalog, film.id as int, film.directors[index]),
        Family::Stars => star_merged(catalog, film.id as int, film.stars[index]),
        _ => name_merged(catalog, lookup_of(family), film.id as int, name_at(film, family, index)),
    }
}

/// One more item reached is the item merged into what was reached before.
pub proof fn lemma_reached_next(
    catalog: CatalogView,
    film: ScrapedFilmView,
    family: Family,
    index: int,
)
    requires
        0 <= index < count(film, family),
    ensures
        reached(catalog, film, family, index + 1) == item_merged(
            reached(catalog, film, family, index),
            film,
            family,
            index,
        ),
{
    match family {
        Family::Genres => {
            assert(film.genres.take(index + 1).drop_last() == film.genres.take(index));
        },
        Family::Languages => {
            assert(film.languages.take(index + 1).drop_last() == film.languages.take(index));
        },
        Family::Keywords => {
            assert(film.keywords.take(index + 1).drop_last() == film.keywords.take(index));
        },
        Family::Directors => {
            assert(film.directors.take(index + 1).drop_last() == film.directors.take(index));
        },
        Family::Stars => {
            assert(film.stars.take(index + 1).drop_last() == film.stars.take(index));
        },
    }
}

/// With no item reached, a family stands where the one before it ended.
pub proof fn lemma_reached_none(catalog: CatalogView, film: ScrapedFilmView, family: Family)
    ensures
        reached(catalog, film, family, 0) == match family {
            Family::Genres => catalog.update_film(update_of(film)),
            Family::Languages => reached(catalog, film, Family::Genres, film.genres.len() as int),
            Family::Keywords => reached(
                catalog,
                film,
                Family::Languages,
                film.languages.len() as int,
            ),
            Family::Directors => reached(catalog, film, Family::Keywords, film.keywords.len() as int),
            Family::Stars => reached(catalog, film, Family::Directors, film.directors.len() as int),
        },
{
    match family {
        Family::Genres => {
            assert(film.genres.take(0).len() == 0);
        },
        Family::Languages => {
            assert(film.languages.take(0).len() == 0);
        },
        Family::Keywords => {
            assert(film.keywords.take(0).len() == 0);
        },
        Family::Directors => {
            assert(film.directors.take(0).len() == 0);
        },
        Family::Stars => {
            assert(film.stars.take(0).len() == 0);
        },
    }
}

/// One more star reached adds that star's portrait, if there is one.
pub proof fn lemma_portraits_next(catalog: CatalogView, film: ScrapedFilmView, index: int)
    requires
        0 <= index < film.stars.len(),
    ensures
        portraits_reached(catalog, film, index + 1) == match star_portrait(
            reached(catalog, film, Family::Stars, index),
            film.stars[index],
        ) {
            Some(portrait) => portraits_reached(catalog, film, index).push(portrait),
            None => portraits_reached(catalog, film, index),
        },
{
    assert(film.stars.take(index + 1).drop_last() == film.stars.take(index));
}

} // verus!
