use rustflix::database::catalog::{Catalog, Lookup, Outcome, Statement};
use rustflix::database::initialize_database;
use rustflix::error::AppError;
use rustflix::genres::get_all_genres;
use rustflix::keywords::get_all_keywords;
use rustflix::languages::get_all_languages;
use rustflix::scrapers::actions::insert_scraped_film;
use rustflix::scrapers::ingest::{Family, Ingestion, Progress, Stage, Step};
use rustflix::scrapers::{ScrapedDirector, ScrapedFilm, ScrapedStar};

fn star(imdb_id: &str, name: &str, character: &str, avatar: Option<&str>) -> ScrapedStar {
    ScrapedStar {
        imdb_id: imdb_id.to_string(),
        real_name: name.to_string(),
        character: character.to_string(),
        avatar: avatar.map(|a| a.to_string()),
    }
}

fn heat(id: u32) -> ScrapedFilm {
    ScrapedFilm {
        id,
        title: Some("Heat".to_string()),
        genres: vec!["Crime".to_string(), "Drama".to_string()],
        imdb_id: "tt0113277".to_string(),
        release_date: Some("1995-12-15".to_string()),
        plot: Some("A group of robbers.".to_string()),
        run_time: Some("PT2H50M".to_string()),
        color: Some("Color".to_string()),
        directors: vec![ScrapedDirector {
            imdb_id: "nm0000520".to_string(),
            real_name: "Michael Mann".to_string(),
        }],
        stars: vec![
            star("nm0000199", "Al Pacino", "Lt. Vincent Hanna", Some("https://a/pacino.jpg")),
            star("nm0000134", "Robert De Niro", "Neil McCauley", None),
        ],
        cover_image: Some("https://a/heat.jpg".to_string()),
        rating: Some(8.3f64.to_bits()),
        languages: vec!["English".to_string(), "Spanish".to_string()],
        keywords: vec!["heist".to_string(), "los angeles".to_string()],
    }
}

fn drama(id: u32, imdb_id: &str) -> ScrapedFilm {
    ScrapedFilm {
        id,
        title: None,
        genres: vec!["Drama".to_string()],
        imdb_id: imdb_id.to_string(),
        release_date: None,
        plot: None,
        run_time: None,
        color: None,
        directors: vec![],
        stars: vec![],
        cover_image: None,
        rating: None,
        languages: vec![],
        keywords: vec![],
    }
}

fn catalog_with_films(count: u32) -> Catalog {
    let mut catalog = initialize_database();
    for i in 0..count {
        assert_eq!(catalog.add_film(&format!("/films/{}.mkv", i)), Some(i + 1));
    }
    catalog
}

fn counts(catalog: &Catalog) -> Vec<usize> {
    vec![
        catalog.names(Lookup::Genres).len(),
        catalog.names(Lookup::Languages).len(),
        catalog.names(Lookup::Keywords).len(),
        catalog.persons().len(),
        catalog.characters().len(),
        catalog.links(Lookup::Genres).len(),
        catalog.links(Lookup::Languages).len(),
        catalog.links(Lookup::Keywords).len(),
        catalog.film_directors().len(),
    ]
}

#[test]
fn ingestion_fills_every_table() {
    let mut catalog = catalog_with_films(1);
    let avatars = insert_scraped_film(&heat(1), &mut catalog).unwrap();
    assert_eq!(avatars, vec![(2, "https://a/pacino.jpg".to_string())]);
    assert_eq!(counts(&catalog), vec![2, 2, 2, 3, 2, 2, 2, 2, 1]);
    let row = catalog.film(1).unwrap();
    assert_eq!(row.file, "/films/0.mkv");
    assert_eq!(row.imdb_id, Some("tt0113277".to_string()));
    assert_eq!(row.title, Some("Heat".to_string()));
    assert_eq!(row.release_date, Some("1995-12-15".to_string()));
    assert_eq!(row.plot, Some("A group of robbers.".to_string()));
    assert_eq!(row.run_time, Some(10200));
    assert_eq!(row.has_color, Some(true));
    assert_eq!(row.rating.map(f64::from_bits), Some(8.3));
    assert!(row.registered);
    assert!(!row.has_watched);
    assert_eq!(catalog.person_id(&"nm0000520".to_string()), Some(1));
    assert_eq!(catalog.person_id(&"nm0000199".to_string()), Some(2));
    assert_eq!(catalog.person_id(&"nm0000134".to_string()), Some(3));
    assert_eq!(catalog.character(1, 2), Some("Lt. Vincent Hanna".to_string()));
    assert_eq!(catalog.character(1, 3), Some("Neil McCauley".to_string()));
    let directors = catalog.film_directors();
    assert_eq!((directors[0].film_id, directors[0].other_id), (1, 1));
}

#[test]
fn ingestion_twice_adds_nothing() {
    let mut catalog = catalog_with_films(1);
    let first = insert_scraped_film(&heat(1), &mut catalog).unwrap();
    let once = counts(&catalog);
    let films = catalog.films();
    let second = insert_scraped_film(&heat(1), &mut catalog).unwrap();
    assert_eq!(counts(&catalog), once);
    assert_eq!(catalog.films(), films);
    assert_eq!(first, second);
}

#[test]
fn two_films_share_one_genre_row() {
    let mut catalog = catalog_with_films(2);
    insert_scraped_film(&drama(1, "tt0000001"), &mut catalog).unwrap();
    insert_scraped_film(&drama(2, "tt0000002"), &mut catalog).unwrap();
    let genres = get_all_genres(&catalog).unwrap();
    assert_eq!(genres.len(), 1);
    assert_eq!(genres[0].name, "Drama");
    let links = catalog.links(Lookup::Genres);
    assert_eq!(links.len(), 2);
    assert_eq!((links[0].film_id, links[0].other_id), (1, genres[0].id as i64));
    assert_eq!((links[1].film_id, links[1].other_id), (2, genres[0].id as i64));
}

#[test]
fn rescrape_keeps_character_description() {
    let mut catalog = catalog_with_films(1);
    insert_scraped_film(&heat(1), &mut catalog).unwrap();
    let mut again = heat(1);
    again.stars[0].character = "Somebody else".to_string();
    again.stars[0].real_name = "A. Pacino".to_string();
    insert_scraped_film(&again, &mut catalog).unwrap();
    assert_eq!(catalog.character(1, 2), Some("Lt. Vincent Hanna".to_string()));
    assert_eq!(catalog.characters().len(), 2);
    let persons = catalog.persons();
    assert_eq!(persons[1].name, "Al Pacino");
}

#[test]
fn rescrape_overwrites_film_row() {
    let mut catalog = catalog_with_films(1);
    insert_scraped_film(&heat(1), &mut catalog).unwrap();
    let mut again = heat(1);
    again.title = None;
    again.color = Some("Black and White".to_string());
    again.run_time = Some("nonsense H".to_string());
    insert_scraped_film(&again, &mut catalog).unwrap();
    let row = catalog.film(1).unwrap();
    assert_eq!(row.title, None);
    assert_eq!(row.has_color, Some(false));
    assert_eq!(row.run_time, None);
    assert!(row.registered);
}

#[test]
fn duplicate_names_in_one_film_make_one_row() {
    let mut catalog = catalog_with_films(1);
    let mut film = drama(1, "tt0000001");
    film.genres = vec!["Drama".to_string(), "Drama".to_string(), "".to_string()];
    film.keywords = vec!["a".to_string(), "a".to_string()];
    insert_scraped_film(&film, &mut catalog).unwrap();
    assert_eq!(catalog.names(Lookup::Genres).len(), 2);
    assert_eq!(catalog.links(Lookup::Genres).len(), 2);
    assert_eq!(get_all_keywords(&catalog).unwrap().len(), 1);
    assert_eq!(get_all_languages(&catalog).unwrap().len(), 0);
}

#[test]
fn director_who_is_star_is_one_person() {
    let mut catalog = catalog_with_films(1);
    let mut film = heat(1);
    film.stars.push(star("nm0000520", "M. Mann", "Himself", Some("https://a/mann.jpg")));
    let avatars = insert_scraped_film(&film, &mut catalog).unwrap();
    assert_eq!(catalog.persons().len(), 3);
    assert_eq!(
        avatars,
        vec![(2, "https://a/pacino.jpg".to_string()), (1, "https://a/mann.jpg".to_string())]
    );
    assert_eq!(catalog.character(1, 1), Some("Himself".to_string()));
    assert_eq!(catalog.persons()[0].name, "Michael Mann");
}

#[test]
fn missing_film_row_leaves_entities_untied() {
    let mut catalog = initialize_database();
    let avatars = insert_scraped_film(&heat(7), &mut catalog).unwrap();
    assert_eq!(avatars, vec![(2, "https://a/pacino.jpg".to_string())]);
    assert_eq!(counts(&catalog), vec![2, 2, 2, 3, 0, 0, 0, 0, 0]);
    assert_eq!(catalog.films().len(), 0);
}

#[test]
fn machine_starts_with_the_film_row() {
    let film = heat(1);
    let (state, statement) = Ingestion::start(&film);
    assert_eq!(state.stage, Stage::Film);
    match statement {
        Statement::UpdateFilm(update) => {
            assert_eq!(update.id, 1);
            assert_eq!(update.imdb_id, "tt0113277");
            assert_eq!(update.run_time, Some(10200));
            assert_eq!(update.has_color, Some(true));
        }
        other => panic!("unexpected statement {:?}", other),
    }
}

#[test]
fn machine_aborts_when_film_row_fails() {
    let film = heat(1);
    let (state, _) = Ingestion::start(&film);
    let progress = state.step(&film, Outcome::Failed("disk I/O error".to_string()));
    assert_eq!(
        progress,
        Progress::Finished(Err(AppError::DatabaseError("disk I/O error".to_string())))
    );
}

#[test]
fn machine_skips_item_when_insert_fails() {
    let film = heat(1);
    let (state, _) = Ingestion::start(&film);
    let (state, statement) = match state.step(&film, Outcome::Done) {
        Progress::Next(state, statement) => (state, statement),
        other => panic!("unexpected progress {:?}", other),
    };
    assert_eq!(
        statement,
        Statement::InsertName { table: Lookup::Genres, name: "Crime".to_string() }
    );
    let (state, statement) = match state.step(&film, Outcome::Failed("locked".to_string())) {
        Progress::Next(state, statement) => (state, statement),
        other => panic!("unexpected progress {:?}", other),
    };
    assert_eq!(
        state.stage,
        Stage::Item { family: Family::Genres, index: 1, step: Step::Insert }
    );
    assert_eq!(
        statement,
        Statement::InsertName { table: Lookup::Genres, name: "Drama".to_string() }
    );
}

#[test]
fn machine_skips_item_when_query_fails() {
    let film = drama(3, "tt0000003");
    let (state, _) = Ingestion::start(&film);
    let state = match state.step(&film, Outcome::Done) {
        Progress::Next(state, _) => state,
        other => panic!("unexpected progress {:?}", other),
    };
    let (state, statement) = match state.step(&film, Outcome::Done) {
        Progress::Next(state, statement) => (state, statement),
        other => panic!("unexpected progress {:?}", other),
    };
    assert_eq!(
        statement,
        Statement::SelectName { table: Lookup::Genres, name: "Drama".to_string() }
    );
    let (state, statement) = match state.step(&film, Outcome::Failed("no rows".to_string())) {
        Progress::Next(state, statement) => (state, statement),
        other => panic!("unexpected progress {:?}", other),
    };
    assert_eq!(state.stage, Stage::Commit);
    assert_eq!(statement, Statement::Commit);
    assert_eq!(state.step(&film, Outcome::Done), Progress::Finished(Ok(vec![])));
}

#[test]
fn machine_links_with_the_identifier_it_was_given() {
    let film = drama(3, "tt0000003");
    let (state, _) = Ingestion::start(&film);
    let state = match state.step(&film, Outcome::Done) {
        Progress::Next(state, _) => state,
        other => panic!("unexpected progress {:?}", other),
    };
    let state = match state.step(&film, Outcome::Done) {
        Progress::Next(state, _) => state,
        other => panic!("unexpected progress {:?}", other),
    };
    let (state, statement) = match state.step(&film, Outcome::Id(42)) {
        Progress::Next(state, statement) => (state, statement),
        other => panic!("unexpected progress {:?}", other),
    };
    assert_eq!(statement, Statement::LinkName { table: Lookup::Genres, film_id: 3, id: 42 });
    let (_, statement) = match state.step(&film, Outcome::Failed("constraint".to_string())) {
        Progress::Next(state, statement) => (state, statement),
        other => panic!("unexpected progress {:?}", other),
    };
    assert_eq!(statement, Statement::Commit);
}

#[test]
fn machine_reports_commit_failure() {
    let mut film = drama(3, "tt0000003");
    film.genres.clear();
    let (state, _) = Ingestion::start(&film);
    let state = match state.step(&film, Outcome::Done) {
        Progress::Next(state, statement) => {
            assert_eq!(statement, Statement::Commit);
            state
        }
        other => panic!("unexpected progress {:?}", other),
    };
    assert_eq!(
        state.step(&film, Outcome::Failed("disk full".to_string())),
        Progress::Finished(Err(AppError::DatabaseError("disk full".to_string())))
    );
}

#[test]
fn machine_notes_portrait_when_star_is_found() {
    let mut film = drama(1, "tt0000001");
    film.genres.clear();
    film.stars = vec![star("nm1", "A", "B", Some("https://a/1.jpg"))];
    let (state, _) = Ingestion::start(&film);
    let (state, statement) = match state.step(&film, Outcome::Done) {
        Progress::Next(state, statement) => (state, statement),
        other => panic!("unexpected progress {:?}", other),
    };
    assert_eq!(
        statement,
        Statement::InsertPerson { imdb_id: "nm1".to_string(), name: "A".to_string() }
    );
    let (state, statement) = match state.step(&film, Outcome::Done) {
        Progress::Next(state, statement) => (state, statement),
        other => panic!("unexpected progress {:?}", other),
    };
    assert_eq!(statement, Statement::SelectPerson { imdb_id: "nm1".to_string() });
    let (state, statement) = match state.step(&film, Outcome::Id(9)) {
        Progress::Next(state, statement) => (state, statement),
        other => panic!("unexpected progress {:?}", other),
    };
    assert_eq!(
        statement,
        Statement::InsertCharacter { film_id: 1, description: "B".to_string(), actor: 9 }
    );
    let state = match state.step(&film, Outcome::Failed("constraint".to_string())) {
        Progress::Next(state, _) => state,
        other => panic!("unexpected progress {:?}", other),
    };
    assert_eq!(
        state.step(&film, Outcome::Done),
        Progress::Finished(Ok(vec![(9, "https://a/1.jpg".to_string())]))
    );
}

#[test]
fn store_reports_how_statements_end() {
    let mut catalog = catalog_with_films(1);
    let insert = Statement::InsertName { table: Lookup::Keywords, name: "heist".to_string() };
    assert_eq!(catalog.execute(&insert), Outcome::Done);
    assert_eq!(catalog.execute(&insert), Outcome::Done);
    let select = Statement::SelectName { table: Lookup::Keywords, name: "heist".to_string() };
    assert_eq!(catalog.execute(&select), Outcome::Id(1));
    let missing = Statement::SelectName { table: Lookup::Genres, name: "heist".to_string() };
    assert_eq!(catalog.execute(&missing), Outcome::Failed("Query returned no rows".to_string()));
    let link = Statement::LinkName { table: Lookup::Keywords, film_id: 1, id: 1 };
    assert_eq!(catalog.execute(&link), Outcome::Done);
    let dangling = Statement::LinkName { table: Lookup::Keywords, film_id: 1, id: 2 };
    assert_eq!(
        catalog.execute(&dangling),
        Outcome::Failed("FOREIGN KEY constraint failed".to_string())
    );
    let no_film = Statement::LinkDirector { film_id: 5, person_id: 1 };
    assert_eq!(
        catalog.execute(&no_film),
        Outcome::Failed("FOREIGN KEY constraint failed".to_string())
    );
    assert_eq!(catalog.execute(&Statement::Commit), Outcome::Done);
    assert_eq!(catalog.links(Lookup::Keywords).len(), 1);
}

#[test]
fn directories_are_unique_by_path() {
    let mut catalog = initialize_database();
    assert_eq!(catalog.add_directory(&"/films".to_string()), Ok(1));
    assert_eq!(catalog.add_directory(&"/more".to_string()), Ok(2));
    assert_eq!(
        catalog.add_directory(&"/films".to_string()),
        Err(AppError::DatabaseError("UNIQUE constraint failed".to_string()))
    );
    let all = rustflix::directories::get_all_directories(&catalog).unwrap();
    assert_eq!(all.len(), 2);
    assert_eq!((all[1].id, all[1].path.as_str()), (2, "/more"));
}
