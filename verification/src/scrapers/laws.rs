//! What holds of every ingestion: it only adds to the tables of entities,
//! it keeps what it finds there, and run again on the same film it
//! changes nothing.

use vstd::prelude::*;

use super::ingest::{count, families_left, lookup_of, name_at, successor, update_of, Family};
use super::merge::{
    director_merged, ingested, item_merged, lemma_portraits_next, lemma_reached_next,
    lemma_reached_none, name_merged, names_merged, portraits, portraits_reached, reached,
    star_merged, star_portrait,
};
use super::models::{ScrapedDirectorView, ScrapedFilmView, ScrapedStarView};
use crate::database::catalog::{CatalogView, Lookup};
use crate::database::names::{NamesView, MAX_ID};
use crate::database::persons::PersonsView;

verus! {

/// A lookup table grew from `before` to `after`: every row is still there
/// under its identifier, and no identifier was given out without a row
/// being added.
pub open spec fn names_grew(before: NamesView, after: NamesView) -> bool {
    &&& forall|name: Seq<char>| #[trigger]
        before.has(name) ==> after.has(name) && after.ids[name] == before.ids[name]
    &&& before.last <= after.last
    &&& before.last == after.last ==> before == after
}

/// The table of persons grew from `before` to `after`: every row is still
/// there and holds what it held.
pub open spec fn persons_grew(before: PersonsView, after: PersonsView) -> bool {
    &&& forall|imdb_id: Seq<char>| #[trigger]
        before.has(imdb_id) ==> after.has(imdb_id) && after.rows[imdb_id] == before.rows[imdb_id]
    &&& before.last <= after.last
    &&& before.last == after.last ==> before == after
}

/// The catalog grew from `before` to `after`: the same films and
/// directories are there, every entity, tie and character that was there
/// still is, and each holds what it held.
pub open spec fn grew(before: CatalogView, after: CatalogView) -> bool {
    &&& after.directories == before.directories
    &&& after.films.dom() == before.films.dom()
    &&& forall|table: Lookup| names_grew(#[trigger] before.names(table), after.names(table))
    &&& persons_grew(before.persons, after.persons)
    &&& forall|part: (int, int)| #[trigger]
        before.characters.dom().contains(part) ==> after.characters.dom().contains(part)
            && after.characters[part] == before.characters[part]
    &&& forall|table: Lookup| (#[trigger] before.links(table)).subset_of(after.links(table))
    &&& before.film_directors.subset_of(after.film_directors)
}

/// A catalog has grown from itself.
pub proof fn lemma_grew_same(catalog: CatalogView)
    ensures
        grew(catalog, catalog),
{
}

/// Growth adds up.
pub proof fn lemma_grew_on(first: CatalogView, second: CatalogView, third: CatalogView)
    requires
        grew(first, second),
        grew(second, third),
    ensures
        grew(first, third),
{
    assert forall|table: Lookup| names_grew(#[trigger] first.names(table), third.names(table)) by {
        assert(names_grew(first.names(table), second.names(table)));
        assert(names_grew(second.names(table), third.names(table)));
        let a = first.names(table);
        let b = second.names(table);
        let c = third.names(table);
        assert forall|name: Seq<char>| #[trigger] a.has(name) implies c.has(name) && c.ids[name]
            == a.ids[name] by {
            assert(b.has(name) && b.ids[name] == a.ids[name]);
        }
    }
    assert forall|imdb_id: Seq<char>| #[trigger]
        first.persons.has(imdb_id) implies third.persons.has(imdb_id)
        && third.persons.rows[imdb_id] == first.persons.rows[imdb_id] by {
        assert(second.persons.has(imdb_id) && second.persons.rows[imdb_id]
            == first.persons.rows[imdb_id]);
    }
    assert forall|part: (int, int)| #[trigger]
        first.characters.dom().contains(part) implies third.characters.dom().contains(part)
        && third.characters[part] == first.characters[part] by {
        assert(second.characters.dom().contains(part) && second.characters[part]
            == first.characters[part]);
    }
    assert forall|table: Lookup| (#[trigger] first.links(table)).subset_of(third.links(table)) by {
        assert(first.links(table).subset_of(second.links(table)));
        assert(second.links(table).subset_of(third.links(table)));
    }
}

/// Writing a film's row keeps the catalog well formed and what it holds
/// besides.
pub proof fn lemma_update_grew(catalog: CatalogView, film: ScrapedFilmView)
    requires
        catalog.wf(),
    ensures
        catalog.update_film(update_of(film)).wf(),
        grew(catalog, catalog.update_film(update_of(film))),
{
    let next = catalog.update_film(update_of(film));
    assert(next.films.dom() =~= catalog.films.dom());
    assert forall|table: Lookup, film_id: int, id: int| #[trigger]
        next.links(table).contains((film_id, id)) implies next.has_film(film_id) && next.names(
        table,
    ).has_id(id) by {
        assert(catalog.links(table).contains((film_id, id)));
    }
    assert forall|table: Lookup| names_grew(#[trigger] catalog.names(table), next.names(table)) by {
        assert(next.names(table) == catalog.names(table));
    }
    assert forall|table: Lookup| (#[trigger] catalog.links(table)).subset_of(next.links(table)) by {
        assert(next.links(table) == catalog.links(table));
    }
}

/// Merging a name in keeps the catalog well formed and makes it grow.
pub proof fn lemma_name_grew(catalog: CatalogView, table: Lookup, film_id: int, name: Seq<char>)
    requires
        catalog.wf(),
    ensures
        name_merged(catalog, table, film_id, name).wf(),
        grew(catalog, name_merged(catalog, table, film_id, name)),
        name_merged(catalog, table, film_id, name).names(table) == catalog.names(table).insert(name),
        name_merged(catalog, table, film_id, name).films == catalog.films,
{
    let names = catalog.names(table).insert(name);
    let listed = catalog.with_names(table, names);
    let next = name_merged(catalog, table, film_id, name);
    catalog.names(table).lemma_insert(name);
    assert(listed.names(table) == names);
    assert forall|other: Lookup| names_grew(#[trigger] catalog.names(other), next.names(other)) by {
        if other != table {
            assert(next.names(other) == catalog.names(other));
        }
    }
    assert forall|other: Lookup| (#[trigger] catalog.links(other)).subset_of(next.links(other)) by {
        if other != table {
            assert(next.links(other) == catalog.links(other));
        }
    }
    assert forall|other: Lookup, film: int, id: int| #[trigger]
        next.links(other).contains((film, id)) implies next.has_film(film) && next.names(
        other,
    ).has_id(id) by {
        if catalog.links(other).contains((film, id)) {
            assert(catalog.names(other).has_id(id));
        } else {
            assert(other == table && film == film_id && id == names.ids[name]);
            assert(names.has(name));
        }
    }
}

/// Merging a director in keeps the catalog well formed and makes it grow.
pub proof fn lemma_director_grew(catalog: CatalogView, film_id: int, director: ScrapedDirectorView)
    requires
        catalog.wf(),
    ensures
        director_merged(catalog, film_id, director).wf(),
        grew(catalog, director_merged(catalog, film_id, director)),
        director_merged(catalog, film_id, director).films == catalog.films,
{
    let next = director_merged(catalog, film_id, director);
    catalog.persons.lemma_insert(director.imdb_id, director.real_name);
    assert forall|other: Lookup| names_grew(#[trigger] catalog.names(other), next.names(other)) by {
        assert(next.names(other) == catalog.names(other));
    }
    assert forall|other: Lookup| (#[trigger] catalog.links(other)).subset_of(next.links(other)) by {
        assert(next.links(other) == catalog.links(other));
    }
    assert forall|other: Lookup, film: int, id: int| #[trigger]
        next.links(other).contains((film, id)) implies next.has_film(film) && next.names(
        other,
    ).has_id(id) by {
        assert(catalog.links(other).contains((film, id)));
    }
    assert forall|film: int, person: int| #[trigger]
        next.film_directors.contains((film, person)) implies next.has_film(film)
        && next.persons.has_id(person) by {
        if catalog.film_directors.contains((film, person)) {
            assert(catalog.persons.has_id(person));
        } else {
            assert(next.persons.has(director.imdb_id));
        }
    }
    assert forall|film: int, actor: int| #[trigger]
        next.characters.dom().contains((film, actor)) implies next.has_film(film)
        && next.persons.has_id(actor) by {
        assert(catalog.persons.has_id(actor));
    }
}

/// Merging a star in keeps the catalog well formed and makes it grow.
pub proof fn lemma_star_grew(catalog: CatalogView, film_id: int, star: ScrapedStarView)
    requires
        catalog.wf(),
    ensures
        star_merged(catalog, film_id, star).wf(),
        grew(catalog, star_merged(catalog, film_id, star)),
        star_merged(catalog, film_id, star).films == catalog.films,
{
    let next = star_merged(catalog, film_id, star);
    catalog.persons.lemma_insert(star.imdb_id, star.real_name);
    assert forall|other: Lookup| names_grew(#[trigger] catalog.names(other), next.names(other)) by {
        assert(next.names(other) == catalog.names(other));
    }
    assert forall|other: Lookup| (#[trigger] catalog.links(other)).subset_of(next.links(other)) by {
        assert(next.links(other) == catalog.links(other));
    }
    assert forall|other: Lookup, film: int, id: int| #[trigger]
        next.links(other).contains((film, id)) implies next.has_film(film) && next.names(
        other,
    ).has_id(id) by {
        assert(catalog.links(other).contains((film, id)));
    }
    assert forall|film: int, person: int| #[trigger]
        next.film_directors.contains((film, person)) implies next.has_film(film)
        && next.persons.has_id(person) by {
        assert(catalog.persons.has_id(person));
    }
    assert forall|film: int, actor: int| #[trigger]
        next.characters.dom().contains((film, actor)) implies next.has_film(film)
        && next.persons.has_id(actor) by {
        if catalog.characters.dom().contains((film, actor)) {
            assert(catalog.persons.has_id(actor));
        } else {
            assert(next.persons.has(star.imdb_id));
        }
    }
}

/// Merging an item of a film in keeps the catalog well formed and makes it
/// grow.
pub proof fn lemma_item_grew(catalog: CatalogView, film: ScrapedFilmView, family: Family, index: int)
    requires
        catalog.wf(),
    ensures
        item_merged(catalog, film, family, index).wf(),
        grew(catalog, item_merged(catalog, film, family, index)),
        item_merged(catalog, film, family, index).films == catalog.films,
{
    match family {
        Family::Directors => lemma_director_grew(catalog, film.id as int, film.directors[index]),
        Family::Stars => lemma_star_grew(catalog, film.id as int, film.stars[index]),
        _ => lemma_name_grew(
            catalog,
            lookup_of(family),
            film.id as int,
            name_at(film, family, index),
        ),
    }
}

/// Whatever an ingestion has reached is well formed and has grown from the
/// catalog it started with.
pub proof fn lemma_reached_grew(catalog: CatalogView, film: ScrapedFilmView, family: Family, n: int)
    requires
        catalog.wf(),
        0 <= n <= count(film, family),
    ensures
        reached(catalog, film, family, n).wf(),
        grew(catalog, reached(catalog, film, family, n)),
        reached(catalog, film, family, n).films == catalog.update_film(update_of(film)).films,
    decreases 4 - families_left(family), n,
{
    if n == 0 {
        lemma_reached_none(catalog, film, family);
        match family {
            Family::Genres => lemma_update_grew(catalog, film),
            Family::Languages => lemma_reached_grew(
                catalog,
                film,
                Family::Genres,
                film.genres.len() as int,
            ),
            Family::Keywords => lemma_reached_grew(
                catalog,
                film,
                Family::Languages,
                film.languages.len() as int,
            ),
            Family::Directors => lemma_reached_grew(
                catalog,
                film,
                Family::Keywords,
                film.keywords.len() as int,
            ),
            Family::Stars => lemma_reached_grew(
                catalog,
                film,
                Family::Directors,
                film.directors.len() as int,
            ),
        }
    } else {
        lemma_reached_grew(catalog, film, family, n - 1);
        lemma_reached_next(catalog, film, family, n - 1);
        let before = reached(catalog, film, family, n - 1);
        lemma_item_grew(before, film, family, n - 1);
        lemma_grew_on(catalog, before, reached(catalog, film, family, n));
    }
}

/// An ingestion leaves the catalog well formed.
pub proof fn law_ingested_well_formed(catalog: CatalogView, film: ScrapedFilmView)
    requires
        catalog.wf(),
    ensures
        ingested(catalog, film).wf(),
{
    lemma_reached_grew(catalog, film, Family::Stars, film.stars.len() as int);
}

/// An ingestion only adds: every genre, language, keyword and person that
/// the catalog had is still there under its identifier, a person under
/// their name too; every tie to a film still holds; no film and no
/// directory came or went.
pub proof fn law_ingestion_only_adds(catalog: CatalogView, film: ScrapedFilmView)
    requires
        catalog.wf(),
    ensures
        grew(catalog, ingested(catalog, film)),
{
    lemma_reached_grew(catalog, film, Family::Stars, film.stars.len() as int);
}

/// The part that an actor plays in a film, once in the catalog, keeps its
/// description through every ingestion, whatever the page then says.
pub proof fn law_character_description_stays(
    catalog: CatalogView,
    film: ScrapedFilmView,
    film_id: int,
    actor: int,
)
    requires
        catalog.wf(),
        catalog.characters.dom().contains((film_id, actor)),
    ensures
        ingested(catalog, film).characters.dom().contains((film_id, actor)),
        ingested(catalog, film).characters[(film_id, actor)] == catalog.characters[(
            film_id,
            actor,
        )],
{
    law_ingestion_only_adds(catalog, film);
}

/// Whatever an ingestion has reached, the catalog that it ends with has
/// grown from it.
pub proof fn lemma_grew_to_end(catalog: CatalogView, film: ScrapedFilmView, family: Family, n: int)
    requires
        catalog.wf(),
        0 <= n <= count(film, family),
    ensures
        grew(reached(catalog, film, family, n), ingested(catalog, film)),
    decreases families_left(family), count(film, family) - n,
{
    let here = reached(catalog, film, family, n);
    lemma_reached_grew(catalog, film, family, n);
    if n < count(film, family) {
        lemma_reached_next(catalog, film, family, n);
        lemma_item_grew(here, film, family, n);
        lemma_grew_to_end(catalog, film, family, n + 1);
        lemma_grew_on(here, reached(catalog, film, family, n + 1), ingested(catalog, film));
    } else {
        match successor(family) {
            Some(next) => {
                lemma_reached_none(catalog, film, next);
                lemma_grew_to_end(catalog, film, next, 0);
            },
            None => {
                lemma_grew_same(here);
            },
        }
    }
}

/// Merging a list of names in keeps the catalog well formed and makes it
/// grow, by one identifier for each name at most.
pub proof fn lemma_names_grew(
    catalog: CatalogView,
    table: Lookup,
    film_id: int,
    names: Seq<Seq<char>>,
)
    requires
        catalog.wf(),
    ensures
        names_merged(catalog, table, film_id, names).wf(),
        grew(catalog, names_merged(catalog, table, film_id, names)),
        names_merged(catalog, table, film_id, names).names(table).last <= catalog.names(table).last
            + names.len(),
    decreases names.len(),
{
    if names.len() > 0 {
        let prior = names_merged(catalog, table, film_id, names.drop_last());
        lemma_names_grew(catalog, table, film_id, names.drop_last());
        lemma_name_grew(prior, table, film_id, names.last());
        lemma_grew_on(catalog, prior, names_merged(catalog, table, film_id, names));
    }
}

/// A name in a list that is merged in for a film that the catalog has
/// ends up in the table and tied to the film, as long as the table has
/// room for the list.
pub proof fn lemma_names_tied(
    catalog: CatalogView,
    table: Lookup,
    film_id: int,
    names: Seq<Seq<char>>,
    i: int,
)
    requires
        catalog.wf(),
        catalog.has_film(film_id),
        0 <= i < names.len(),
        catalog.names(table).has(names[i]) || catalog.names(table).last + names.len() <= MAX_ID,
    ensures
        ({
            let merged = names_merged(catalog, table, film_id, names);
            &&& merged.names(table).has(names[i])
            &&& merged.links(table).contains((film_id, merged.names(table).ids[names[i]]))
        }),
    decreases names.len(),
{
    let name = names[i];
    let earlier = names.drop_last();
    let prior = names_merged(catalog, table, film_id, earlier);
    let merged = names_merged(catalog, table, film_id, names);
    lemma_names_grew(catalog, table, film_id, earlier);
    lemma_name_grew(prior, table, film_id, names.last());
    assert(names_grew(catalog.names(table), prior.names(table)));
    assert(names_grew(prior.names(table), merged.names(table)));
    prior.names(table).lemma_insert(names.last());
    if i == names.len() - 1 {
        if catalog.names(table).has(name) {
            assert(prior.names(table).has(name));
        }
        let inserted = prior.names(table).insert(name);
        assert(inserted.has(name));
        assert(prior.with_names(table, inserted).names(table) == inserted);
    } else {
        assert(earlier[i] == name);
        lemma_names_tied(catalog, table, film_id, earlier, i);
        assert(prior.names(table).has(name));
        assert(prior.links(table).subset_of(merged.links(table)));
    }
}

/// Two films that both list a genre share one row of the table of genres:
/// after both are ingested the genre is in the table, and each film is
/// tied to the identifier that the genre has there. This holds where both
/// films have their rows and the table has room for the first film's
/// genres.
pub proof fn law_films_share_genre(
    catalog: CatalogView,
    first: ScrapedFilmView,
    second: ScrapedFilmView,
    genre: Seq<char>,
)
    requires
        catalog.wf(),
        catalog.has_film(first.id as int),
        catalog.has_film(second.id as int),
        first.genres.contains(genre),
        second.genres.contains(genre),
        catalog.genres.has(genre) || catalog.genres.last + first.genres.len() <= MAX_ID,
    ensures
        ({
            let after = ingested(ingested(catalog, first), second);
            &&& after.genres.has(genre)
            &&& after.film_genres.contains((first.id as int, after.genres.ids[genre]))
            &&& after.film_genres.contains((second.id as int, after.genres.ids[genre]))
        }),
{
    let i = choose|i: int| 0 <= i < first.genres.len() && first.genres[i] == genre;
    let j = choose|j: int| 0 <= j < second.genres.len() && second.genres[j] == genre;
    let table = Lookup::Genres;
    // The first film.
    let begun = catalog.update_film(update_of(first));
    lemma_update_grew(catalog, first);
    assert(begun.names(table) == catalog.names(table));
    lemma_names_tied(begun, table, first.id as int, first.genres, i);
    assert(first.genres.take(first.genres.len() as int) == first.genres);
    let listed = reached(catalog, first, Family::Genres, first.genres.len() as int);
    let middle = ingested(catalog, first);
    lemma_grew_to_end(catalog, first, Family::Genres, first.genres.len() as int);
    law_ingested_well_formed(catalog, first);
    law_ingestion_only_adds(catalog, first);
    assert(names_grew(listed.names(table), middle.names(table)));
    assert(listed.links(table).subset_of(middle.links(table)));
    assert(middle.names(table).has(genre));
    // The second film.
    let resumed = middle.update_film(update_of(second));
    lemma_update_grew(middle, second);
    assert(resumed.names(table) == middle.names(table));
    assert(resumed.links(table) == middle.links(table));
    lemma_names_tied(resumed, table, second.id as int, second.genres, j);
    assert(second.genres.take(second.genres.len() as int) == second.genres);
    let relisted = reached(middle, second, Family::Genres, second.genres.len() as int);
    let after = ingested(middle, second);
    lemma_grew_to_end(middle, second, Family::Genres, second.genres.len() as int);
    law_ingestion_only_adds(middle, second);
    assert(names_grew(relisted.names(table), after.names(table)));
    assert(relisted.links(table).subset_of(after.links(table)));
    assert(names_grew(middle.names(table), after.names(table)));
    assert(middle.links(table).subset_of(after.links(table)));
}

/// A name that was merged in is settled: merging it in again changes
/// nothing.
pub proof fn lemma_name_settles(catalog: CatalogView, table: Lookup, film_id: int, name: Seq<char>)
    requires
        catalog.wf(),
    ensures
        name_merged(name_merged(catalog, table, film_id, name), table, film_id, name)
            == name_merged(catalog, table, film_id, name),
{
    let merged = name_merged(catalog, table, film_id, name);
    let names = catalog.names(table).insert(name);
    lemma_name_grew(catalog, table, film_id, name);
    catalog.names(table).lemma_insert(name);
    assert(merged.names(table) == names);
    assert(names.insert(name) == names);
    assert(merged.with_names(table, names) == merged);
    if names.has(name) && merged.has_film(film_id) {
        assert(catalog.has_film(film_id));
        assert(merged.links(table).contains((film_id, names.ids[name])));
        assert(merged.links(table).insert((film_id, names.ids[name])) =~= merged.links(table));
        assert(merged.with_links(table, merged.links(table)) == merged);
    }
}

/// A name that is settled in a catalog is settled in every catalog that
/// has grown from it.
pub proof fn lemma_name_stays_settled(
    before: CatalogView,
    after: CatalogView,
    table: Lookup,
    film_id: int,
    name: Seq<char>,
)
    requires
        before.wf(),
        after.wf(),
        grew(before, after),
        name_merged(before, table, film_id, name) == before,
    ensures
        name_merged(after, table, film_id, name) == after,
{
    lemma_name_grew(before, table, film_id, name);
    let old_names = before.names(table);
    let new_names = after.names(table);
    assert(old_names.insert(name) == old_names);
    assert(names_grew(old_names, new_names));
    assert(before.links(table).subset_of(after.links(table)));
    if old_names.has(name) {
        assert(new_names.has(name) && new_names.ids[name] == old_names.ids[name]);
    } else {
        assert(old_names.full());
        assert(new_names == old_names);
    }
    assert(new_names.insert(name) == new_names);
    assert(after.with_names(table, new_names) == after);
    if new_names.has(name) && after.has_film(film_id) {
        let tie = (film_id, old_names.ids[name]);
        assert(before.has_film(film_id));
        assert(name_merged(before, table, film_id, name).links(table).contains(tie));
        assert(before.links(table).contains(tie));
        assert(after.links(table).insert(tie) =~= after.links(table));
        assert(after.with_links(table, after.links(table)) == after);
    }
}

/// A director who was merged in is settled.
pub proof fn lemma_director_settles(
    catalog: CatalogView,
    film_id: int,
    director: ScrapedDirectorView,
)
    requires
        catalog.wf(),
    ensures
        director_merged(director_merged(catalog, film_id, director), film_id, director)
            == director_merged(catalog, film_id, director),
{
    let merged = director_merged(catalog, film_id, director);
    let persons = catalog.persons.insert(director.imdb_id, director.real_name);
    catalog.persons.lemma_insert(director.imdb_id, director.real_name);
    assert(merged.persons == persons);
    assert(persons.insert(director.imdb_id, director.real_name) == persons);
    if persons.has(director.imdb_id) && merged.has_film(film_id) {
        let tie = (film_id, persons.rows[director.imdb_id].id);
        assert(merged.film_directors.contains(tie));
        assert(merged.film_directors.insert(tie) =~= merged.film_directors);
    }
}

/// A director who is settled in a catalog is settled in every catalog that
/// has grown from it.
pub proof fn lemma_director_stays_settled(
    before: CatalogView,
    after: CatalogView,
    film_id: int,
    director: ScrapedDirectorView,
)
    requires
        before.wf(),
        after.wf(),
        grew(before, after),
        director_merged(before, film_id, director) == before,
    ensures
        director_merged(after, film_id, director) == after,
{
    let old_persons = before.persons;
    let new_persons = after.persons;
    assert(director_merged(before, film_id, director).persons == old_persons.insert(
        director.imdb_id,
        director.real_name,
    ));
    assert(old_persons.insert(director.imdb_id, director.real_name) == old_persons);
    if old_persons.has(director.imdb_id) {
        assert(new_persons.has(director.imdb_id) && new_persons.rows[director.imdb_id]
            == old_persons.rows[director.imdb_id]);
    } else {
        assert(old_persons.full());
        assert(new_persons == old_persons);
    }
    assert(new_persons.insert(director.imdb_id, director.real_name) == new_persons);
    if new_persons.has(director.imdb_id) && after.has_film(film_id) {
        let tie = (film_id, old_persons.rows[director.imdb_id].id);
        assert(before.has_film(film_id));
        assert(director_merged(before, film_id, director).film_directors.contains(tie));
        assert(before.film_directors.contains(tie));
        assert(after.film_directors.insert(tie) =~= after.film_directors);
    }
}

/// A star who was merged in is settled.
pub proof fn lemma_star_settles(catalog: CatalogView, film_id: int, star: ScrapedStarView)
    requires
        catalog.wf(),
    ensures
        star_merged(star_merged(catalog, film_id, star), film_id, star) == star_merged(
            catalog,
            film_id,
            star,
        ),
{
    let merged = star_merged(catalog, film_id, star);
    let persons = catalog.persons.insert(star.imdb_id, star.real_name);
    catalog.persons.lemma_insert(star.imdb_id, star.real_name);
    assert(merged.persons == persons);
    assert(persons.insert(star.imdb_id, star.real_name) == persons);
    if persons.has(star.imdb_id) && merged.has_film(film_id) {
        assert(merged.characters.dom().contains((film_id, persons.rows[star.imdb_id].id)));
    }
}

/// A star who is settled in a catalog is settled in every catalog that has
/// grown from it.
pub proof fn lemma_star_stays_settled(
    before: CatalogView,
    after: CatalogView,
    film_id: int,
    star: ScrapedStarView,
)
    requires
        before.wf(),
        after.wf(),
        grew(before, after),
        star_merged(before, film_id, star) == before,
    ensures
        star_merged(after, film_id, star) == after,
{
    let old_persons = before.persons;
    let new_persons = after.persons;
    assert(star_merged(before, film_id, star).persons == old_persons.insert(
        star.imdb_id,
        star.real_name,
    ));
    assert(old_persons.insert(star.imdb_id, star.real_name) == old_persons);
    if old_persons.has(star.imdb_id) {
        assert(new_persons.has(star.imdb_id) && new_persons.rows[star.imdb_id]
            == old_persons.rows[star.imdb_id]);
    } else {
        assert(old_persons.full());
        assert(new_persons == old_persons);
    }
    assert(new_persons.insert(star.imdb_id, star.real_name) == new_persons);
    if new_persons.has(star.imdb_id) && after.has_film(film_id) {
        let part = (film_id, old_persons.rows[star.imdb_id].id);
        assert(before.has_film(film_id));
        if !before.characters.dom().contains(part) {
            assert(star_merged(before, film_id, star).characters.dom().contains(part));
        }
        assert(after.characters.dom().contains(part));
    }
}

/// An item of a film that was merged in is settled, and stays settled
/// while the catalog grows.
pub proof fn lemma_item_settled(
    before: CatalogView,
    after: CatalogView,
    film: ScrapedFilmView,
    family: Family,
    index: int,
)
    requires
        before.wf(),
        after.wf(),
        grew(item_merged(before, film, family, index), after),
    ensures
        item_merged(after, film, family, index) == after,
{
    let merged = item_merged(before, film, family, index);
    lemma_item_grew(before, film, family, index);
    match family {
        Family::Directors => {
            lemma_director_settles(before, film.id as int, film.directors[index]);
            lemma_director_stays_settled(merged, after, film.id as int, film.directors[index]);
        },
        Family::Stars => {
            lemma_star_settles(before, film.id as int, film.stars[index]);
            lemma_star_stays_settled(merged, after, film.id as int, film.stars[index]);
        },
        _ => {
            let table = lookup_of(family);
            let name = name_at(film, family, index);
            lemma_name_settles(before, table, film.id as int, name);
            lemma_name_stays_settled(merged, after, table, film.id as int, name);
        },
    }
}

/// Run again on what it left, an ingestion of the same film reaches
/// nothing new.
pub proof fn lemma_reached_again(catalog: CatalogView, film: ScrapedFilmView, family: Family, n: int)
    requires
        catalog.wf(),
        0 <= n <= count(film, family),
    ensures
        reached(ingested(catalog, film), film, family, n) == ingested(catalog, film),
    decreases 4 - families_left(family), n,
{
    let left = ingested(catalog, film);
    law_ingested_well_formed(catalog, film);
    if n == 0 {
        lemma_reached_none(left, film, family);
        match family {
            Family::Genres => {
                let update = update_of(film);
                lemma_reached_grew(catalog, film, Family::Stars, film.stars.len() as int);
                law_ingestion_only_adds(catalog, film);
                assert(left.films == catalog.update_film(update).films);
                if left.has_film(update.id as int) {
                    assert(catalog.has_film(update.id as int));
                    let row = catalog.films[update.id as int];
                    assert(left.films[update.id as int] == row.updated(update));
                    assert(row.updated(update).updated(update) == row.updated(update));
                    assert(left.films.insert(update.id as int, row.updated(update)) =~= left.films);
                }
            },
            Family::Languages => lemma_reached_again(
                catalog,
                film,
                Family::Genres,
                film.genres.len() as int,
            ),
            Family::Keywords => lemma_reached_again(
                catalog,
                film,
                Family::Languages,
                film.languages.len() as int,
            ),
            Family::Directors => lemma_reached_again(
                catalog,
                film,
                Family::Keywords,
                film.keywords.len() as int,
            ),
            Family::Stars => lemma_reached_again(
                catalog,
                film,
                Family::Directors,
                film.directors.len() as int,
            ),
        }
    } else {
        lemma_reached_again(catalog, film, family, n - 1);
        lemma_reached_next(left, film, family, n - 1);
        let before = reached(catalog, film, family, n - 1);
        lemma_reached_grew(catalog, film, family, n - 1);
        lemma_reached_next(catalog, film, family, n - 1);
        lemma_grew_to_end(catalog, film, family, n);
        lemma_item_settled(before, left, film, family, n - 1);
    }
}

/// Ingesting the same film twice leaves the catalog as ingesting it once
/// does: every table holds the same rows, so none has grown and none has a
/// duplicate.
pub proof fn law_ingestion_is_idempotent(catalog: CatalogView, film: ScrapedFilmView)
    requires
        catalog.wf(),
    ensures
        ingested(ingested(catalog, film), film) == ingested(catalog, film),
{
    lemma_reached_again(catalog, film, Family::Stars, film.stars.len() as int);
}

/// Run again on what it left, an ingestion of the same film asks for the
/// same portraits, star by star.
pub proof fn lemma_portraits_again(catalog: CatalogView, film: ScrapedFilmView, n: int)
    requires
        catalog.wf(),
        0 <= n <= film.stars.len(),
    ensures
        portraits_reached(ingested(catalog, film), film, n) == portraits_reached(catalog, film, n),
    decreases n,
{
    let left = ingested(catalog, film);
    if n == 0 {
        assert(film.stars.take(0).len() == 0);
    } else {
        lemma_portraits_again(catalog, film, n - 1);
        lemma_portraits_next(catalog, film, n - 1);
        lemma_portraits_next(left, film, n - 1);
        lemma_reached_again(catalog, film, Family::Stars, n - 1);
        let star = film.stars[n - 1];
        let before = reached(catalog, film, Family::Stars, n - 1);
        lemma_reached_grew(catalog, film, Family::Stars, n - 1);
        lemma_reached_next(catalog, film, Family::Stars, n - 1);
        lemma_grew_to_end(catalog, film, Family::Stars, n);
        let merged = reached(catalog, film, Family::Stars, n);
        before.persons.lemma_insert(star.imdb_id, star.real_name);
        let persons = before.persons.insert(star.imdb_id, star.real_name);
        assert(merged.persons == persons);
        law_ingested_well_formed(catalog, film);
        assert(persons_grew(persons, left.persons));
        if persons.has(star.imdb_id) {
            assert(left.persons.has(star.imdb_id) && left.persons.rows[star.imdb_id]
                == persons.rows[star.imdb_id]);
        } else {
            assert(persons.full());
            assert(left.persons == persons);
        }
        assert(star_portrait(left, star) == star_portrait(before, star));
    }
}

/// Ingesting the same film again asks for the same portraits.
pub proof fn law_portraits_repeat(catalog: CatalogView, film: ScrapedFilmView)
    requires
        catalog.wf(),
    ensures
        portraits(ingested(catalog, film), film) == portraits(catalog, film),
{
    lemma_portraits_again(catalog, film, film.stars.len() as int);
}

/// An ingestion writes the scraped values into the row of its film and
/// marks the film registered; the row of every other film stays as it is,
/// and where the film has no row, none is made.
pub proof fn law_film_row_written(catalog: CatalogView, film: ScrapedFilmView)
    requires
        catalog.wf(),
    ensures
        ingested(catalog, film).films == catalog.update_film(update_of(film)).films,
        catalog.has_film(film.id as int) ==> ingested(catalog, film).films[film.id as int].registered,
        forall|other: int|
            other != film.id ==> #[trigger] ingested(catalog, film).films[other]
                == catalog.films[other],
        ingested(catalog, film).films.dom() == catalog.films.dom(),
{
    lemma_reached_grew(catalog, film, Family::Stars, film.stars.len() as int);
}

} // verus!
