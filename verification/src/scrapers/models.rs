//! What scraping one film page yields, before it is stored.

use vstd::prelude::*;

use crate::text::{opt_text, texts};

verus! {

/// A director as the page names them.
#[derive(Clone, Debug, PartialEq, Eq)]
pub struct ScrapedDirector {
    pub imdb_id: String,
    pub real_name: String,
}

/// The mathematical content of a `ScrapedDirector`.
pub struct ScrapedDirectorView {
    pub imdb_id: Seq<char>,
    pub real_name: Seq<char>,
}

impl View for ScrapedDirector {
    type V = ScrapedDirectorView;

    open spec fn view(&self) -> ScrapedDirectorView {
        ScrapedDirectorView { imdb_id: self.imdb_id@, real_name: self.real_name@ }
    }
}

/// A cast member: the actor, the part played, and where a portrait can be
/// fetched, if the page shows one.
#[derive(Clone, Debug, PartialEq, Eq)]
pub struct ScrapedStar {
    pub imdb_id: String,
    pub real_name: String,
    pub character: String,
    pub avatar: Option<String>,
}

/// The mathematical content of a `ScrapedStar`.
pub struct ScrapedStarView {
    pub imdb_id: Seq<char>,
    pub real_name: Seq<char>,
    pub character: Seq<char>,
    pub avatar: Option<Seq<char>>,
}

impl View for ScrapedStar {
    type V = ScrapedStarView;

    open spec fn view(&self) -> ScrapedStarView {
        ScrapedStarView {
            imdb_id: self.imdb_id@,
            real_name: self.real_name@,
            character: self.character@,
            avatar: opt_text(self.avatar),
        }
    }
}

/// The views of a list of directors, in order.
pub open spec fn director_views(items: Seq<ScrapedDirector>) -> Seq<ScrapedDirectorView> {
    Seq::new(items.len(), |i: int| items[i]@)
}

/// The views of a list of cast members, in order.
pub open spec fn star_views(items: Seq<ScrapedStar>) -> Seq<ScrapedStarView> {
    Seq::new(items.len(), |i: int| items[i]@)
}

/// Everything scraped for one film. `id` is the catalog row that the film
/// already has; `run_time` is still an ISO 8601 duration and `color` the
/// page's wording. `rating` holds the bits of the IEEE 754 double that the
/// page gave, carried through unchanged.
#[derive(Clone, Debug, PartialEq, Eq)]
pub struct ScrapedFilm {
    pub id: u32,
    pub title: Option<String>,
    pub genres: Vec<String>,
    pub imdb_id: String,
    pub release_date: Option<String>,
    pub plot: Option<String>,
    pub run_time: Option<String>,
    pub color: Option<String>,
    pub directors: Vec<ScrapedDirector>,
    pub stars: Vec<ScrapedStar>,
    pub cover_image: Option<String>,
    pub rating: Option<u64>,
    pub languages: Vec<String>,
    pub keywords: Vec<String>,
}

/// The mathematical content of a `ScrapedFilm`.
pub struct ScrapedFilmView {
    pub id: u32,
    pub title: Option<Seq<char>>,
    pub genres: Seq<Seq<char>>,
    pub imdb_id: Seq<char>,
    pub release_date: Option<Seq<char>>,
    pub plot: Option<Seq<char>>,
    pub run_time: Option<Seq<char>>,
    pub color: Option<Seq<char>>,
    pub directors: Seq<ScrapedDirectorView>,
    pub stars: Seq<ScrapedStarView>,
    pub cover_image: Option<Seq<char>>,
    pub rating: Option<u64>,
    pub languages: Seq<Seq<char>>,
    pub keywords: Seq<Seq<char>>,
}

impl View for ScrapedFilm {
    type V = ScrapedFilmView;

    open spec fn view(&self) -> ScrapedFilmView {
        ScrapedFilmView {
            id: self.id,
            title: opt_text(self.title),
            genres: texts(self.genres@),
            imdb_id: self.imdb_id@,
            release_date: opt_text(self.release_date),
            plot: opt_text(self.plot),
            run_time: opt_text(self.run_time),
            color: opt_text(self.color),
            directors: director_views(self.directors@),
            stars: star_views(self.stars@),
            cover_image: opt_text(self.cover_image),
            rating: self.rating,
            languages: texts(self.languages@),
            keywords: texts(self.keywords@),
        }
    }
}

} // verus!
