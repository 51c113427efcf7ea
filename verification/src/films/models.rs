//! Films as the catalog shows them, put together from the columns of a
//! query that gathers genres, languages, keywords, directors and stars as
//! lists in text.

use chrono::Datelike;
use vstd::prelude::*;

use crate::characters::models::{
    actor_birthplaces_known, character_contents, characters_listed, Character, CharacterContent,
};
use crate::genres::models::{Genre, GenreContent};
use crate::keywords::models::{Keyword, KeywordContent};
use crate::languages::models::{Language, LanguageContent};
use crate::persons::models::{
    birthplaces_known, person_contents, persons_listed, Person, PersonContent,
};
use crate::text::opt_text;

verus! {

/// A day of the calendar.
#[derive(Clone, Copy, Debug, PartialEq, Eq, Structural)]
pub struct ReleaseDate {
    pub year: i32,
    pub month: u32,
    pub day: u32,
}

/// The day that `chrono` reads from a text written as year, month and day
/// with hyphens between them, or nothing where it reads none.
pub uninterp spec fn date_parsed(text: Seq<char>) -> Option<ReleaseDate>;

/// Calls `chrono::NaiveDate::parse_from_str` with the format `%Y-%m-%d`
/// and takes year, month and day from the date it gives. The outcome
/// depends on the text alone.
#[verifier::external_body]
fn parse_date(text: &str) -> (date: Option<ReleaseDate>)
    ensures
        date == date_parsed(text@),
{
    chrono::NaiveDate::parse_from_str(text, "%Y-%m-%d").ok().map(
        |date| ReleaseDate { year: date.year(), month: date.month(), day: date.day() },
    )
}

/// The columns of one row of the query for films. `rating` holds the bits
/// of an IEEE 754 double.
#[derive(Clone, Debug, PartialEq, Eq)]
pub struct FilmColumns {
    pub film_id: u32,
    pub file: Option<String>,
    pub imdb_id: Option<String>,
    pub title: Option<String>,
    pub release_date: Option<String>,
    pub plot: Option<String>,
    pub run_time: Option<u32>,
    pub has_color: Option<bool>,
    pub rating: Option<u64>,
    pub has_watched: bool,
    pub left_off_point: Option<u32>,
    pub genres: Option<String>,
    pub languages: Option<String>,
    pub keywords: Option<String>,
    pub directors: Option<String>,
    pub stars: Option<String>,
}

/// A film with all that the catalog ties to it.
#[derive(Clone, Debug, PartialEq, Eq)]
pub struct Film {
    pub id: u32,
    pub file: Option<String>,
    pub imdb_id: Option<String>,
    pub title: Option<String>,
    pub genres: Vec<Genre>,
    pub release_date: Option<ReleaseDate>,
    pub plot: Option<String>,
    pub run_time: Option<u32>,
    pub has_color: Option<bool>,
    pub rating: Option<u64>,
    pub languages: Vec<Language>,
    pub keywords: Vec<Keyword>,
    pub directors: Vec<Person>,
    pub stars: Vec<Character>,
    pub has_watched: bool,
    pub left_off_point: Option<u32>,
}

/// The mathematical content of a `Film`.
pub struct FilmContent {
    pub id: u32,
    pub file: Option<Seq<char>>,
    pub imdb_id: Option<Seq<char>>,
    pub title: Option<Seq<char>>,
    pub genres: Seq<GenreContent>,
    pub release_date: Option<ReleaseDate>,
    pub plot: Option<Seq<char>>,
    pub run_time: Option<u32>,
    pub has_color: Option<bool>,
    pub rating: Option<u64>,
    pub languages: Seq<LanguageContent>,
    pub keywords: Seq<KeywordContent>,
    pub directors: Seq<PersonContent>,
    pub stars: Seq<CharacterContent>,
    pub has_watched: bool,
    pub left_off_point: Option<u32>,
}

impl View for Film {
    type V = FilmContent;

    open spec fn view(&self) -> FilmContent {
        FilmContent {
            id: self.id,
            file: opt_text(self.file),
            imdb_id: opt_text(self.imdb_id),
            title: opt_text(self.title),
            genres: crate::genres::models::contents(self.genres@),
            release_date: self.release_date,
            plot: opt_text(self.plot),
            run_time: self.run_time,
            has_color: self.has_color,
            rating: self.rating,
            languages: crate::languages::models::contents(self.languages@),
            keywords: crate::keywords::models::contents(self.keywords@),
            directors: person_contents(self.directors@),
            stars: character_contents(self.stars@),
            has_watched: self.has_watched,
            left_off_point: self.left_off_point,
        }
    }
}

/// The text of a column that holds a list: empty where the column is
/// empty.
pub open spec fn list_text(column: Option<String>) -> Seq<char> {
    match column {
        Some(text) => text@,
        None => Seq::empty(),
    }
}

impl FilmColumns {
    /// Every person and every actor in the columns has a birthplace code
    /// from 1 to 12, or none.
    pub open spec fn readable(self) -> bool {
        birthplaces_known(list_text(self.directors)) && actor_birthplaces_known(
            list_text(self.stars),
        )
    }

    /// The film that the columns describe.
    pub open spec fn film(self) -> FilmContent {
        FilmContent {
            id: self.film_id,
            file: opt_text(self.file),
            imdb_id: opt_text(self.imdb_id),
            title: opt_text(self.title),
            genres: crate::genres::models::listed(list_text(self.genres)),
            release_date: match self.release_date {
                Some(text) => date_parsed(text@),
                None => None,
            },
            plot: opt_text(self.plot),
            run_time: self.run_time,
            has_color: self.has_color,
            rating: self.rating,
            languages: crate::languages::models::listed(list_text(self.languages)),
            keywords: crate::keywords::models::listed(list_text(self.keywords)),
            directors: persons_listed(list_text(self.directors)),
            stars: characters_listed(list_text(self.stars)),
            has_watched: self.has_watched,
            left_off_point: self.left_off_point,
        }
    }

    /// Tells whether every person and every actor in the columns has a
    /// birthplace code from 1 to 12, or none.
    pub fn is_readable(&self) -> (yes: bool)
        ensures
            yes == self.readable(),
    {
        let directors = match &self.directors {
            Some(text) => crate::persons::models::birthplaces_are_known(text.as_str()),
            None => crate::persons::models::birthplaces_are_known(""),
        };
        let stars = match &self.stars {
            Some(text) => crate::characters::models::actor_birthplaces_are_known(text.as_str()),
            None => crate::characters::models::actor_birthplaces_are_known(""),
        };
        proof {
            reveal_strlit("");
            assert(""@ =~= Seq::<char>::empty());
        }
        directors && stars
    }
}

/// The text of a column that holds a list.
fn list_of(column: &Option<String>) -> (text: &str)
    ensures
        text@ == list_text(*column),
{
    proof {
        reveal_strlit("");
        assert(""@ =~= Seq::<char>::empty());
    }
    match column {
        Some(text) => text.as_str(),
        None => "",
    }
}

impl Film {
    /// Puts a film together from the columns of its row.
    pub fn from_columns(columns: FilmColumns) -> (film: Film)
        requires
            columns.readable(),
        ensures
            film@ == columns.film(),
    {
        let release_date = match &columns.release_date {
            Some(text) => parse_date(text.as_str()),
            None => None,
        };
        let genres = Genre::from_list(list_of(&columns.genres));
        let languages = Language::from_list(list_of(&columns.languages));
        let keywords = Keyword::from_list(list_of(&columns.keywords));
        let directors = Person::from_list(list_of(&columns.directors));
        let stars = Character::from_list(list_of(&columns.stars));
        Film {
            id: columns.film_id,
            file: columns.file,
            imdb_id: columns.imdb_id,
            title: columns.title,
            genres,
            release_date,
            plot: columns.plot,
            run_time: columns.run_time,
            has_color: columns.has_color,
            rating: columns.rating,
            languages,
            keywords,
            directors,
            stars,
            has_watched: columns.has_watched,
            left_off_point: columns.left_off_point,
        }
    }
}

} // verus!
