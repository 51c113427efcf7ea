//! Scraping a film page, and merging what it yields into the catalog.

use vstd::prelude::*;

use super::cast::{
    block_views, stars_from_blocks, stars_of, unescaped_opt, CastActor, CastActorView, CastBlock,
    CastBlockView,
};
use super::ingest::{avatar_views, count, statement_at, Family, Ingestion, Progress};
use super::json::{json_of, parse_json, Json};
use super::merge::{ingested, portraits};
use super::models::{
    director_views, star_views, ScrapedDirector, ScrapedDirectorView, ScrapedFilm,
    ScrapedFilmView, ScrapedStar, ScrapedStarView,
};
pub use super::normalize::{parse_iso_duration, unescape_str, unescape_string};
use super::normalize::unescaped;
use super::page::{
    attribute, document_matches, element_attribute, element_inner_html, element_matches,
    inner_html, parse_document, parse_selector, parsed_document, parsed_selector,
    select_in_document, select_in_element,
};
use super::run::{lemma_step, on_track, sized, steps_left};
use crate::database::catalog::Catalog;
use crate::error::{AppError, AppErrorView};
use crate::text::{kept, lemma_kept_next, nth_piece, nth_split, opt_text, split, split_text, texts};

verus! {

/// Merges a scraped film into the catalog: writes the film's row, then
/// merges genres, languages, keywords, directors and stars in, each by its
/// natural key, and ties them to the film. Hands back the portraits to
/// fetch: for each star that has a row and a portrait, the row's
/// identifier and the portrait's address.
///
/// The statements are those that `Ingestion` hands out, run in turn against
/// the catalog. No statement against this catalog fails in a way that ends
/// an ingestion, so the result is never an error.
pub fn insert_scraped_film(film: &ScrapedFilm, catalog: &mut Catalog) -> (result: Result<
    Vec<(i64, String)>,
    AppError,
>)
    requires
        old(catalog).wf(),
    ensures
        final(catalog).wf(),
        final(catalog)@ == ingested(old(catalog)@, film@),
        final(catalog).next_film_id() == old(catalog).next_film_id(),
        match result {
            Ok(avatars) => avatar_views(avatars@) == portraits(old(catalog)@, film@),
            Err(_) => false,
        },
{
    let ghost start = catalog@;
    proof {
        assert forall|family: Family| #[trigger] count(film@, family) <= usize::MAX by {
            match family {
                Family::Genres => assert(film.genres@.len() == film.genres.len()),
                Family::Languages => assert(film.languages@.len() == film.languages.len()),
                Family::Keywords => assert(film.keywords@.len() == film.keywords.len()),
                Family::Directors => assert(film.directors@.len() == film.directors.len()),
                Family::Stars => assert(film.stars@.len() == film.stars.len()),
            }
        }
    }
    let (first, first_statement) = Ingestion::start(film);
    let mut state = first;
    let mut statement = first_statement;
    loop
        invariant
            sized(film@),
            catalog.wf(),
            catalog.next_film_id() == old(catalog).next_film_id(),
            state.wf(film@),
            statement@ == statement_at(film@, state.stage, state.id as int),
            on_track(start, film@, state@, catalog@),
            start == old(catalog)@,
        decreases steps_left(film@, state.stage),
    {
        proof {
            catalog.lemma_view_wf();
            lemma_step(start, film@, state@, catalog@);
        }
        let outcome = catalog.execute(&statement);
        match state.step(film, outcome) {
            Progress::Next(next, following) => {
                state = next;
                statement = following;
            },
            Progress::Finished(result) => {
                return result;
            },
        }
    }
}

/// The selector of the page's structured-data block.
pub const METADATA_SELECTOR: &'static str = "[type=\"application/ld+json\"]";

/// The selector of the colour entry among the technical details.
pub const COLOR_SELECTOR: &'static str = "[data-testid=\"title-techspec_color\"] span";

/// The selector of the language links among the details.
pub const LANGUAGE_SELECTOR: &'static str =
    "[data-testid=\"title-details-languages\"] a[href*=\"/search/title?title_type=feature&primary_language=\"]";

/// The selector of a cast block.
pub const CAST_SELECTOR: &'static str = "[data-testid=\"title-cast-item\"]";

/// The selector of the portrait inside a cast block.
pub const AVATAR_SELECTOR: &'static str = "[data-testid=\"title-cast-item__avatar\"] img";

/// The selector of the character's name inside a cast block.
pub const CHARACTER_SELECTOR: &'static str = "[data-testid=\"cast-item-characters-link\"] span";

/// The selector of the actor's link inside a cast block.
pub const ACTOR_SELECTOR: &'static str = "[data-testid=\"title-cast-item__actor\"]";

/// Why a page yields no film, or no colour.
pub enum Fault {
    /// A selector does not compile.
    BadSelector,
    /// The page has no structured-data block.
    NoMetadata,
    /// The structured-data block is no JSON document.
    BadMetadata,
    /// The page has no colour entry.
    NoColor,
    /// The colour entry is empty.
    EmptyColor,
}

/// The error that reports a fault.
pub open spec fn raises(error: AppErrorView, fault: Fault) -> bool {
    match fault {
        Fault::BadSelector => error is SelectorError,
        Fault::NoMetadata => error == AppErrorView::ScrapeError("No script element"@),
        Fault::BadMetadata => error is JsonError,
        Fault::NoColor => error == AppErrorView::ScrapeError("No color element"@),
        Fault::EmptyColor => error == AppErrorView::ScrapeError("Color element empty innertext"@),
    }
}

/// The markup inside the first of the elements found, if any was found.
pub open spec fn first_inner(found: Seq<scraper::ElementRef<'static>>) -> Option<Seq<char>> {
    if found.len() == 0 {
        None
    } else {
        Some(element_inner_html(found[0]))
    }
}

/// An attribute of the first of the elements found.
pub open spec fn first_attribute(
    found: Seq<scraper::ElementRef<'static>>,
    name: Seq<char>,
) -> Option<Seq<char>> {
    if found.len() == 0 {
        None
    } else {
        element_attribute(found[0], name)
    }
}

/// Compiles a selector.
fn compile(selector: &str) -> (compiled: Result<scraper::Selector, AppError>)
    ensures
        match compiled {
            Ok(found) => parsed_selector(selector@) == Some(found),
            Err(error) => parsed_selector(selector@) is None && error@ is SelectorError,
        },
{
    match parse_selector(selector) {
        Ok(found) => Ok(found),
        Err(error) => Err(AppError::SelectorError(error.to_string())),
    }
}

/// The markup inside the first element of a page that matches a selector.
fn first_markup(document: &scraper::Html, selector: &scraper::Selector) -> (markup: Option<String>)
    ensures
        opt_text(markup) == first_inner(document_matches(*document, *selector)),
{
    let found = select_in_document(document, selector);
    if found.len() == 0 {
        None
    } else {
        Some(inner_html(&found[0]))
    }
}

/// The structured-data block of a page: the JSON document inside the
/// first element that the metadata selector matches.
pub open spec fn data_object_of(document: scraper::Html) -> Result<Json, Fault> {
    match parsed_selector(METADATA_SELECTOR@) {
        None => Err(Fault::BadSelector),
        Some(selector) => match first_inner(document_matches(document, selector)) {
            None => Err(Fault::NoMetadata),
            Some(markup) => match json_of(markup) {
                Some(json) => Ok(json),
                None => Err(Fault::BadMetadata),
            },
        },
    }
}

/// Reads the structured-data block of a page. A page without one, and one
/// whose block is no JSON document, is an error.
pub fn get_data_object(document: &scraper::Html) -> (result: Result<Json, AppError>)
    ensures
        match result {
            Ok(json) => data_object_of(*document) == Ok::<Json, Fault>(json),
            Err(error) => data_object_of(*document) is Err && raises(
                error@,
                data_object_of(*document)->Err_0,
            ),
        },
{
    let selector = compile(METADATA_SELECTOR)?;
    match first_markup(document, &selector) {
        Some(markup) => parse_json(markup.as_str()),
        None => Err(AppError::new("No script element")),
    }
}

/// The genres among the items of a list: the cleaned text of each item
/// that is a string with something in it.
pub open spec fn genres_of(items: Seq<Json>) -> Seq<Seq<char>> {
    kept(items, |item: Json| unescaped_opt(item.text()))
}

/// Reads the genres of a film from the list that the page gives, if it
/// gives one.
pub fn genre(genre_field: Option<&Vec<Json>>) -> (genres: Vec<String>)
    ensures
        texts(genres@) == match genre_field {
            Some(items) => genres_of(items@),
            None => Seq::<Seq<char>>::empty(),
        },
{
    let mut genres: Vec<String> = Vec::new();
    match genre_field {
        None => {
            assert(texts(genres@) == Seq::<Seq<char>>::empty());
        },
        Some(items) => {
            let mut i: usize = 0;
            assert(items@.take(0).len() == 0);
            assert(texts(genres@) == Seq::<Seq<char>>::empty());
            while i < items.len()
                invariant
                    i <= items@.len(),
                    texts(genres@) == genres_of(items@.take(i as int)),
                decreases items@.len() - i,
            {
                proof {
                    lemma_kept_next(items@, |item: Json| unescaped_opt(item.text()), i as int);
                }
                match unescape_str(items[i].as_str()) {
                    Some(name) => {
                        let ghost before = texts(genres@);
                        genres.push(name);
                        assert(texts(genres@) == before.push(name@));
                    },
                    None => {},
                }
                i += 1;
            }
            assert(items@.take(items@.len() as int) == items@);
        },
    }
    genres
}

/// The keywords that a comma-separated list holds: every piece between
/// commas, empty ones too.
pub open spec fn keywords_of(list: Option<Seq<char>>) -> Seq<Seq<char>> {
    match list {
        Some(text) => split(text, ','),
        None => Seq::empty(),
    }
}

/// Splits the keywords of a film, which the page gives as one text with
/// commas.
pub fn keywords(keyword_string: Option<&str>) -> (list: Vec<String>)
    ensures
        texts(list@) == keywords_of(
            match keyword_string {
                Some(text) => Some(text@),
                None => None,
            },
        ),
{
    match keyword_string {
        Some(text) => split_text(text, ','),
        None => {
            let list: Vec<String> = Vec::new();
            assert(texts(list@) == Seq::<Seq<char>>::empty());
            list
        },
    }
}

/// The identifier in a director's address: the fifth piece between
/// slashes, counting the text before the first slash.
pub open spec fn director_id(address: Option<Seq<char>>) -> Option<Seq<char>> {
    match address {
        Some(text) => nth_piece(text, '/', 4),
        None => None,
    }
}

/// The director that an entry of the page's list describes. An entry
/// without an address that holds an identifier, or without a name, yields
/// nothing.
pub open spec fn director_of(entry: Json) -> Option<ScrapedDirectorView> {
    match (director_id(entry.member_text("url"@)), unescaped_opt(entry.member_text("name"@))) {
        (Some(imdb_id), Some(real_name)) => Some(
            ScrapedDirectorView { imdb_id: imdb_id, real_name: real_name },
        ),
        _ => None,
    }
}

/// The elements of the list that a member of an object holds; none where
/// the member is missing or is no list.
pub open spec fn member_items(data: Json, key: Seq<char>) -> Option<Seq<Json>> {
    match data.member(key) {
        Some(value) => value.items(),
        None => None,
    }
}

/// The directors that the structured-data block names. An entry that
/// yields none is passed over, and the others still count.
pub open spec fn directors_of(data: Json) -> Seq<ScrapedDirectorView> {
    match member_items(data, "director"@) {
        Some(entries) => kept(entries, |entry: Json| director_of(entry)),
        None => Seq::empty(),
    }
}

/// Reads one director.
fn director(entry: &Json) -> (found: Option<ScrapedDirector>)
    ensures
        match found {
            Some(director) => director_of(*entry) == Some(director@),
            None => director_of(*entry) is None,
        },
{
    let imdb_id = match entry.get_str("url") {
        Some(address) => nth_split(address, '/', 4),
        None => None,
    };
    let real_name = unescape_str(entry.get_str("name"));
    match (imdb_id, real_name) {
        (Some(imdb_id), Some(real_name)) => Some(ScrapedDirector { imdb_id, real_name }),
        _ => None,
    }
}

/// The list that a member of an object holds.
fn items_of<'a>(data: &'a Json, key: &str) -> (items: Option<&'a Vec<Json>>)
    ensures
        match items {
            Some(list) => member_items(*data, key@) == Some(list@),
            None => member_items(*data, key@) is None,
        },
{
    match data.get(key) {
        Some(value) => value.as_array(),
        None => None,
    }
}

/// Reads the directors of a film from the structured-data block.
pub fn directors(data_object: &Json) -> (list: Vec<ScrapedDirector>)
    ensures
        director_views(list@) == directors_of(*data_object),
{
    let mut list: Vec<ScrapedDirector> = Vec::new();
    match items_of(data_object, "director") {
        None => {
            assert(director_views(list@) == Seq::<ScrapedDirectorView>::empty());
        },
        Some(entries) => {
            let mut i: usize = 0;
            assert(entries@.take(0).len() == 0);
            assert(director_views(list@) == Seq::<ScrapedDirectorView>::empty());
            while i < entries.len()
                invariant
                    i <= entries@.len(),
                    director_views(list@) == kept(
                        entries@.take(i as int),
                        |entry: Json| director_of(entry),
                    ),
                decreases entries@.len() - i,
            {
                proof {
                    lemma_kept_next(entries@, |entry: Json| director_of(entry), i as int);
                }
                match director(&entries[i]) {
                    Some(found) => {
                        let ghost before = director_views(list@);
                        list.push(found);
                        assert(director_views(list@) == before.push(found@));
                    },
                    None => {},
                }
                i += 1;
            }
            assert(entries@.take(entries@.len() as int) == entries@);
        },
    }
    list
}

/// The colour description of a page: the cleaned text of the first colour
/// entry.
pub open spec fn color_of(document: scraper::Html) -> Result<Seq<char>, Fault> {
    match parsed_selector(COLOR_SELECTOR@) {
        None => Err(Fault::BadSelector),
        Some(selector) => match first_inner(document_matches(document, selector)) {
            None => Err(Fault::NoColor),
            Some(markup) => match unescaped(markup) {
                Some(text) => Ok(text),
                None => Err(Fault::EmptyColor),
            },
        },
    }
}

/// Reads the colour description of a page. A page without a colour entry,
/// and one whose entry is empty, is an error.
pub fn color(document: &scraper::Html) -> (result: Result<String, AppError>)
    ensures
        match result {
            Ok(text) => color_of(*document) == Ok::<Seq<char>, Fault>(text@),
            Err(error) => color_of(*document) is Err && raises(error@, color_of(*document)->Err_0),
        },
{
    let selector = compile(COLOR_SELECTOR)?;
    match first_markup(document, &selector) {
        Some(markup) => match unescape_string(markup) {
            Some(text) => Ok(text),
            None => Err(AppError::new("Color element empty innertext")),
        },
        None => Err(AppError::new("No color element")),
    }
}

/// The languages of a page: the cleaned text of each language link that
/// has any. Where the selector does not compile there are none.
pub open spec fn languages_of(document: scraper::Html) -> Seq<Seq<char>> {
    match parsed_selector(LANGUAGE_SELECTOR@) {
        None => Seq::empty(),
        Some(selector) => kept(
            document_matches(document, selector),
            |link: scraper::ElementRef<'static>| unescaped(element_inner_html(link)),
        ),
    }
}

/// Reads the languages of a page.
pub fn languages(document: &scraper::Html) -> (list: Vec<String>)
    ensures
        texts(list@) == languages_of(*document),
{
    let mut list: Vec<String> = Vec::new();
    assert(texts(list@) == Seq::<Seq<char>>::empty());
    let selector = match compile(LANGUAGE_SELECTOR) {
        Ok(selector) => selector,
        Err(_) => {
            return list;
        },
    };
    let found = select_in_document(document, &selector);
    let mut i: usize = 0;
    assert(found@.take(0).len() == 0);
    while i < found.len()
        invariant
            i <= found@.len(),
            texts(list@) == kept(
                found@.take(i as int),
                |link: scraper::ElementRef<'static>| unescaped(element_inner_html(link)),
            ),
        decreases found@.len() - i,
    {
        proof {
            lemma_kept_next(
                found@,
                |link: scraper::ElementRef<'static>| unescaped(element_inner_html(link)),
                i as int,
            );
        }
        match unescape_string(inner_html(&found[i])) {
            Some(name) => {
                let ghost before = texts(list@);
                list.push(name);
                assert(texts(list@) == before.push(name@));
            },
            None => {},
        }
        i += 1;
    }
    assert(found@.take(found@.len() as int) == found@);
    list
}

/// The actor's link among the elements found for it: the first one.
pub open spec fn actor_of(found: Seq<scraper::ElementRef<'static>>) -> Option<CastActorView> {
    if found.len() == 0 {
        None
    } else {
        Some(
            CastActorView {
                name: element_inner_html(found[0]),
                link: element_attribute(found[0], "href"@),
            },
        )
    }
}

/// What a cast block holds, given the selectors of its three parts.
pub open spec fn cast_block_of(
    block: scraper::ElementRef<'static>,
    avatar: scraper::Selector,
    character: scraper::Selector,
    actor: scraper::Selector,
) -> CastBlockView {
    CastBlockView {
        portrait: first_attribute(element_matches(block, avatar), "srcset"@),
        actor: actor_of(element_matches(block, actor)),
        character: first_inner(element_matches(block, character)),
    }
}

/// The cast blocks of a page, in document order.
pub open spec fn cast_of(document: scraper::Html) -> Result<Seq<CastBlockView>, Fault> {
    match (
        parsed_selector(CAST_SELECTOR@),
        parsed_selector(AVATAR_SELECTOR@),
        parsed_selector(CHARACTER_SELECTOR@),
        parsed_selector(ACTOR_SELECTOR@),
    ) {
        (Some(cast), Some(avatar), Some(character), Some(actor)) => {
            let found = document_matches(document, cast);
            Ok(Seq::new(found.len(), |i: int| cast_block_of(found[i], avatar, character, actor)))
        },
        _ => Err(Fault::BadSelector),
    }
}

/// Reads what one cast block holds.
fn cast_block(
    block: &scraper::ElementRef<'_>,
    avatar: &scraper::Selector,
    character: &scraper::Selector,
    actor: &scraper::Selector,
) -> (read: CastBlock)
    ensures
        read@ == cast_block_of(*block, *avatar, *character, *actor),
{
    let images = select_in_element(block, avatar);
    let portrait = if images.len() == 0 {
        None
    } else {
        attribute(&images[0], "srcset")
    };
    let links = select_in_element(block, actor);
    let actor = if links.len() == 0 {
        None
    } else {
        Some(CastActor { name: inner_html(&links[0]), link: attribute(&links[0], "href") })
    };
    let names = select_in_element(block, character);
    let character = if names.len() == 0 {
        None
    } else {
        Some(inner_html(&names[0]))
    };
    CastBlock { portrait, actor, character }
}

/// Reads the cast blocks of a page. It fails only where a selector does
/// not compile.
pub fn cast_blocks(document: &scraper::Html) -> (result: Result<Vec<CastBlock>, AppError>)
    ensures
        match result {
            Ok(blocks) => cast_of(*document) == Ok::<Seq<CastBlockView>, Fault>(
                block_views(blocks@),
            ),
            Err(error) => cast_of(*document) is Err && raises(error@, cast_of(*document)->Err_0),
        },
{
    let cast = compile(CAST_SELECTOR)?;
    let avatar = compile(AVATAR_SELECTOR)?;
    let character = compile(CHARACTER_SELECTOR)?;
    let actor = compile(ACTOR_SELECTOR)?;
    let found = select_in_document(document, &cast);
    let mut blocks: Vec<CastBlock> = Vec::new();
    let mut i: usize = 0;
    while i < found.len()
        invariant
            i <= found@.len(),
            blocks@.len() == i,
            forall|j: int|
                0 <= j < i ==> (#[trigger] blocks@[j])@ == cast_block_of(
                    found@[j],
                    avatar,
                    character,
                    actor,
                ),
        decreases found@.len() - i,
    {
        blocks.push(cast_block(&found[i], &avatar, &character, &actor));
        i += 1;
    }
    assert(block_views(blocks@) == Seq::new(
        found@.len(),
        |i: int| cast_block_of(found@[i], avatar, character, actor),
    ));
    Ok(blocks)
}

/// The stars of a page: those that its cast blocks yield.
pub open spec fn page_stars(document: scraper::Html) -> Result<Seq<ScrapedStarView>, Fault> {
    match cast_of(document) {
        Ok(blocks) => Ok(stars_of(blocks)),
        Err(fault) => Err(fault),
    }
}

/// Reads the stars of a page. A cast block that lacks the actor, the
/// actor's identifier or the character's name is passed over.
pub fn stars(document: &scraper::Html) -> (result: Result<Vec<ScrapedStar>, AppError>)
    ensures
        match result {
            Ok(list) => page_stars(*document) == Ok::<Seq<ScrapedStarView>, Fault>(
                star_views(list@),
            ),
            Err(error) => page_stars(*document) is Err && raises(
                error@,
                page_stars(*document)->Err_0,
            ),
        },
{
    let blocks = cast_blocks(document)?;
    Ok(stars_from_blocks(&blocks))
}

/// The rating in the structured-data block: the number `ratingValue` of
/// the object `aggregateRating`.
pub open spec fn rating_of(data: Json) -> Option<u64> {
    match data.member("aggregateRating"@) {
        Some(rating) => match rating.member("ratingValue"@) {
            Some(value) => value.number(),
            None => None,
        },
        None => None,
    }
}

/// The film that a page's parts give: the scalar fields, genres, directors
/// and keywords from the structured-data block, and the rest as handed in.
pub open spec fn film_of(
    database_id: u32,
    imdb_id: Seq<char>,
    data: Json,
    color: Option<Seq<char>>,
    languages: Seq<Seq<char>>,
    stars: Seq<ScrapedStarView>,
) -> ScrapedFilmView {
    ScrapedFilmView {
        id: database_id,
        title: unescaped_opt(data.member_text("name"@)),
        genres: match member_items(data, "genre"@) {
            Some(items) => genres_of(items),
            None => Seq::empty(),
        },
        imdb_id: imdb_id,
        release_date: unescaped_opt(data.member_text("datePublished"@)),
        plot: unescaped_opt(data.member_text("description"@)),
        run_time: unescaped_opt(data.member_text("duration"@)),
        color: color,
        directors: directors_of(data),
        stars: stars,
        cover_image: unescaped_opt(data.member_text("image"@)),
        rating: rating_of(data),
        languages: languages,
        keywords: keywords_of(data.member_text("keywords"@)),
    }
}

/// Puts a film together from the structured-data block of its page and
/// from what the page's markup gave.
pub fn film_from(
    database_id: u32,
    imdb_id: String,
    data: &Json,
    color: Option<String>,
    languages: Vec<String>,
    stars: Vec<ScrapedStar>,
) -> (film: ScrapedFilm)
    ensures
        film@ == film_of(
            database_id,
            imdb_id@,
            *data,
            opt_text(color),
            texts(languages@),
            star_views(stars@),
        ),
{
    let rating = match data.get("aggregateRating") {
        Some(rating) => match rating.get("ratingValue") {
            Some(value) => value.as_number(),
            None => None,
        },
        None => None,
    };
    ScrapedFilm {
        id: database_id,
        title: unescape_str(data.get_str("name")),
        genres: genre(items_of(data, "genre")),
        imdb_id,
        release_date: unescape_str(data.get_str("datePublished")),
        plot: unescape_str(data.get_str("description")),
        run_time: unescape_str(data.get_str("duration")),
        color,
        directors: directors(data),
        stars,
        cover_image: unescape_str(data.get_str("image")),
        rating,
        languages,
        keywords: keywords(data.get_str("keywords")),
    }
}

/// The colour description of a page, or none where reading it fails.
pub open spec fn color_found(document: scraper::Html) -> Option<Seq<char>> {
    match color_of(document) {
        Ok(text) => Some(text),
        Err(_) => None,
    }
}

/// The film that a page yields. A page without a structured-data block
/// that is a JSON document yields none, and neither does one whose cast
/// cannot be read; every other shortcoming only leaves a field empty or an
/// item out.
pub open spec fn scraped(raw_html: Seq<char>, imdb_id: Seq<char>, database_id: u32) -> Result<
    ScrapedFilmView,
    Fault,
> {
    let document = parsed_document(raw_html);
    match data_object_of(document) {
        Err(fault) => Err(fault),
        Ok(data) => match page_stars(document) {
            Err(fault) => Err(fault),
            Ok(stars) => Ok(
                film_of(
                    database_id,
                    imdb_id,
                    data,
                    color_found(document),
                    languages_of(document),
                    stars,
                ),
            ),
        },
    }
}

/// Scrapes a film from the text of its page.
pub fn scrape_film(raw_html: &str, imdb_id: String, database_id: u32) -> (result: Result<
    ScrapedFilm,
    AppError,
>)
    ensures
        match result {
            Ok(film) => scraped(raw_html@, imdb_id@, database_id) == Ok::<ScrapedFilmView, Fault>(
                film@,
            ),
            Err(error) => scraped(raw_html@, imdb_id@, database_id) is Err && raises(
                error@,
                scraped(raw_html@, imdb_id@, database_id)->Err_0,
            ),
        },
{
    let document = parse_document(raw_html);
    let data = get_data_object(&document)?;
    let color = match color(&document) {
        Ok(text) => Some(text),
        Err(_) => None,
    };
    let stars = stars(&document)?;
    let languages = languages(&document);
    Ok(film_from(database_id, imdb_id, &data, color, languages, stars))
}

/// Scrapes a film from the text of its page and merges it into the
/// catalog. Where the page yields no film, the catalog stays as it is.
pub fn scrape_and_ingest(
    raw_html: &str,
    imdb_id: String,
    database_id: u32,
    catalog: &mut Catalog,
) -> (result: Result<Vec<(i64, String)>, AppError>)
    requires
        old(catalog).wf(),
    ensures
        final(catalog).wf(),
        match scraped(raw_html@, imdb_id@, database_id) {
            Ok(film) => {
                &&& final(catalog)@ == ingested(old(catalog)@, film)
                &&& result matches Ok(avatars) && avatar_views(avatars@) == portraits(
                    old(catalog)@,
                    film,
                )
            },
            Err(fault) => {
                &&& final(catalog)@ == old(catalog)@
                &&& result matches Err(error) && raises(error@, fault)
            },
        },
{
    let film = scrape_film(raw_html, imdb_id, database_id)?;
    insert_scraped_film(&film, catalog)
}

} // verus!
