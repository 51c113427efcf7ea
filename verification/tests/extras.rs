use rustflix::films::is_video_extension;
use rustflix::films::models::{FilmColumns, ReleaseDate};
use rustflix::films::Film;
use rustflix::genres::Genre;
use rustflix::images::actions::image_data_url;
use rustflix::images::ImageSize;
use rustflix::keywords::Keyword;
use rustflix::languages::Language;
use rustflix::persons::models::{birthplace_is_known, birthplaces_are_known};
use rustflix::persons::{Country, Person};
use rustflix::scrapers::fetch::{cookie_header, title_url};
use rustflix::server::stream_film::byte_range;
use rustflix::database::initialize_database;
use rustflix::persons::get_all_persons;
use rustflix::scrapers::actions::insert_scraped_film;
use rustflix::scrapers::{ScrapedFilm, ScrapedStar};
use rustflix::text::{parse_u64, text_precedes, ParseIntError};

#[test]
fn title_address_holds_the_identifier() {
    assert_eq!(title_url("tt0113277"), "https://www.imdb.com/title/tt0113277/");
    assert_eq!(title_url(""), "https://www.imdb.com/title//");
}

#[test]
fn cookies_are_joined_with_semicolons() {
    let pair = |k: &str, v: &str| (k.to_string(), v.to_string());
    assert_eq!(cookie_header(&vec![]), "");
    assert_eq!(cookie_header(&vec![pair("lc-main", "en_US")]), "lc-main=en_US");
    assert_eq!(
        cookie_header(&vec![pair("a", "1"), pair("b", ""), pair("c", "3")]),
        "a=1; b=; c=3"
    );
}

#[test]
fn data_address_encodes_the_bytes() {
    assert_eq!(
        image_data_url(Some("jpg"), b"hello world~"),
        Some("data:image/jpeg;base64,aGVsbG8gd29ybGR+".to_string())
    );
    assert_eq!(image_data_url(Some("png"), b"a"), Some("data:image/png;base64,YQ==".to_string()));
    assert_eq!(image_data_url(Some("JPG"), b""), Some("data:image/png;base64,".to_string()));
    assert_eq!(image_data_url(None, b"ab"), Some("data:image/png;base64,YWI=".to_string()));
}

#[test]
fn tiers_admit_images_within_their_bounds() {
    assert!(ImageSize::Small.admits(400, 400));
    assert!(!ImageSize::Small.admits(401, 400));
    assert!(!ImageSize::Medium.admits(800, 801));
    assert!(ImageSize::Large.admits(1400, 1));
    assert!(ImageSize::Full.admits(u32::MAX, u32::MAX));
}

#[test]
fn video_files_go_by_extension() {
    assert!(is_video_extension("mp4"));
    assert!(is_video_extension("mkv"));
    assert!(is_video_extension("avi"));
    assert!(is_video_extension("mov"));
    assert!(!is_video_extension("MP4"));
    assert!(!is_video_extension("srt"));
    assert!(!is_video_extension(""));
}

#[test]
fn range_without_header_is_the_first_chunk() {
    assert_eq!(byte_range(None, 5_000_000), Some((0, 1_048_575)));
    assert_eq!(byte_range(None, 1_048_576), Some((0, 1_048_575)));
    assert_eq!(byte_range(None, 10), Some((0, 9)));
    assert_eq!(byte_range(Some("items=0-5"), 10), Some((0, 9)));
    assert_eq!(byte_range(Some("bytes"), 10), Some((0, 9)));
}

#[test]
fn range_follows_the_header() {
    assert_eq!(byte_range(Some("bytes=2-5"), 10), Some((2, 5)));
    assert_eq!(byte_range(Some("bytes=2-"), 10), Some((2, 9)));
    assert_eq!(byte_range(Some("bytes=2"), 10), Some((2, 9)));
    assert_eq!(byte_range(Some("bytes=-5"), 10), Some((0, 5)));
    assert_eq!(byte_range(Some("bytes=x-y"), 10), Some((0, 9)));
    assert_eq!(byte_range(Some("bytes="), 10), Some((0, 9)));
    assert_eq!(byte_range(Some("bytes=9-9"), 10), Some((9, 9)));
    assert_eq!(byte_range(Some("bytes=1-2-7"), 10), Some((1, 2)));
}

#[test]
fn range_outside_the_file_is_refused() {
    assert_eq!(byte_range(Some("bytes=10-"), 10), None);
    assert_eq!(byte_range(Some("bytes=0-10"), 10), None);
    assert_eq!(byte_range(Some("bytes=5-2"), 10), None);
    assert_eq!(byte_range(None, 0), None);
    assert_eq!(byte_range(Some("bytes=0-0"), 0), None);
    assert_eq!(byte_range(Some("bytes=18446744073709551615-"), u64::MAX), None);
}

#[test]
fn u64_is_read_to_its_limit() {
    assert_eq!(parse_u64("18446744073709551615"), Ok(u64::MAX));
    assert_eq!(parse_u64("18446744073709551616"), Err(ParseIntError::PosOverflow));
    assert_eq!(parse_u64("99999999999999999999999999999999999999999"), Err(ParseIntError::PosOverflow));
    assert_eq!(parse_u64("0"), Ok(0));
    assert_eq!(parse_u64("1e3"), Err(ParseIntError::InvalidDigit));
}

#[test]
fn lists_in_text_are_read_piece_by_piece() {
    assert_eq!(
        Genre::from_list("1:Crime,2:Drama,x:Bad,3,4:Sci:Fi"),
        vec![
            Genre { id: 1, name: "Crime".to_string() },
            Genre { id: 2, name: "Drama".to_string() },
            Genre { id: 4, name: "Sci".to_string() },
        ]
    );
    assert_eq!(Genre::from_list(""), vec![]);
    assert_eq!(Language::from_list("7:English"), vec![Language { id: 7, name: "English".to_string() }]);
    assert_eq!(Keyword::from_list("7:"), vec![Keyword { id: 7, name: String::new() }]);
    assert_eq!(Person::from_list("1:nm1:A:::,:nm2,2").len(), 2);
}

#[test]
fn birthplace_codes_are_checked_before_reading() {
    let fields = |text: &str| text.split(':').map(|s| s.to_string()).collect::<Vec<_>>();
    assert!(birthplace_is_known(&fields("1:nm1:A:30:1:12")));
    assert!(!birthplace_is_known(&fields("1:nm1:A:30:1:13")));
    assert!(!birthplace_is_known(&fields("1:nm1:A:30:1:0")));
    assert!(birthplace_is_known(&fields("x:nm1:A:30:1:0")));
    assert!(birthplace_is_known(&fields("1:nm1:A:30:1:")));
    assert!(birthplaces_are_known("1:a:b:::3,2:c:d:::"));
    assert!(!birthplaces_are_known("1:a:b:::3,2:c:d:::99"));
}

fn columns() -> FilmColumns {
    FilmColumns {
        film_id: 5,
        file: Some("/films/heat.mkv".to_string()),
        imdb_id: Some("tt0113277".to_string()),
        title: Some("Heat".to_string()),
        release_date: Some("1995-12-15".to_string()),
        plot: None,
        run_time: Some(10200),
        has_color: Some(true),
        rating: Some(8.3f64.to_bits()),
        has_watched: true,
        left_off_point: Some(77),
        genres: Some("1:Crime,2:Drama".to_string()),
        languages: None,
        keywords: Some("3:heist".to_string()),
        directors: Some("1:nm0000520:Michael Mann:::4".to_string()),
        stars: Some("5:Neil McCauley:3:nm0000134:Robert De Niro:::,5:Hanna:2".to_string()),
    }
}

#[test]
fn film_is_put_together_from_its_columns() {
    let columns = columns();
    assert!(columns.is_readable());
    let film = Film::from_columns(columns);
    assert_eq!(film.id, 5);
    assert_eq!(film.title, Some("Heat".to_string()));
    assert_eq!(film.release_date, Some(ReleaseDate { year: 1995, month: 12, day: 15 }));
    assert_eq!(film.genres.len(), 2);
    assert_eq!(film.languages.len(), 0);
    assert_eq!(film.keywords, vec![Keyword { id: 3, name: "heist".to_string() }]);
    assert_eq!(film.directors.len(), 1);
    assert_eq!(film.directors[0].birthplace, Some(Country::UnitedStates));
    assert_eq!(film.stars.len(), 2);
    assert_eq!(film.stars[0].description, "Neil McCauley");
    assert_eq!(film.stars[1].actor.id, 2);
    assert_eq!(film.rating.map(f64::from_bits), Some(8.3));
    assert!(film.has_watched);
    assert_eq!(film.left_off_point, Some(77));
}

#[test]
fn film_date_that_is_no_date_is_dropped() {
    let mut given = columns();
    given.release_date = Some("1995-02-30".to_string());
    assert_eq!(Film::from_columns(given).release_date, None);
    let mut given = columns();
    given.release_date = Some("15 December 1995".to_string());
    assert_eq!(Film::from_columns(given).release_date, None);
    let mut given = columns();
    given.stars = Some("5:Part:3:nm1:A:::44".to_string());
    assert!(!given.is_readable());
}

#[test]
fn texts_are_ordered_by_code_point() {
    assert!(text_precedes("", ""));
    assert!(text_precedes("", "a"));
    assert!(!text_precedes("a", ""));
    assert!(text_precedes("Al", "Al Pacino"));
    assert!(text_precedes("Al Pacino", "Al Pacino"));
    assert!(text_precedes("Al Pacino", "Robert De Niro"));
    assert!(!text_precedes("Robert", "Al"));
    assert!(text_precedes("Z", "a"));
    assert!(text_precedes("z", "é"));
}

#[test]
fn persons_come_in_the_order_of_their_names() {
    let star = |imdb_id: &str, name: &str| ScrapedStar {
        imdb_id: imdb_id.to_string(),
        real_name: name.to_string(),
        character: "X".to_string(),
        avatar: None,
    };
    let film = ScrapedFilm {
        id: 1,
        title: None,
        genres: vec![],
        imdb_id: "tt1".to_string(),
        release_date: None,
        plot: None,
        run_time: None,
        color: None,
        directors: vec![],
        stars: vec![
            star("nm3", "Val Kilmer"),
            star("nm1", "Al Pacino"),
            star("nm2", "Robert De Niro"),
            star("nm4", "Al Pacino"),
        ],
        cover_image: None,
        rating: None,
        languages: vec![],
        keywords: vec![],
    };
    let mut catalog = initialize_database();
    assert_eq!(get_all_persons(&catalog).unwrap().len(), 0);
    insert_scraped_film(&film, &mut catalog).unwrap();
    let persons = get_all_persons(&catalog).unwrap();
    let names: Vec<&str> = persons.iter().map(|p| p.name.as_deref().unwrap()).collect();
    assert_eq!(names, vec!["Al Pacino", "Al Pacino", "Robert De Niro", "Val Kilmer"]);
    let mut ids: Vec<u32> = persons.iter().map(|p| p.id).collect();
    ids.sort();
    assert_eq!(ids, vec![1, 2, 3, 4]);
    assert_eq!(persons[2].imdb_id, Some("nm2".to_string()));
    assert_eq!(persons[2].age, None);
    assert_eq!(persons[2].gender, None);
    assert_eq!(persons[2].birthplace, None);
}
