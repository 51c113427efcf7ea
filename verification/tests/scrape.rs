use rustflix::database::catalog::Lookup;
use rustflix::database::initialize_database;
use rustflix::error::AppError;
use rustflix::scrapers::actions::{
    cast_blocks, color, directors, film_from, genre, get_data_object, keywords, languages,
    scrape_and_ingest, scrape_film, stars,
};
use rustflix::scrapers::cast::{star_from_block, stars_from_blocks, CastActor, CastBlock};
use rustflix::scrapers::json::{parse_json, Json};

fn cast_item(actor: Option<(&str, &str)>, character: Option<&str>, srcset: Option<&str>) -> String {
    let mut html = String::from("<div data-testid=\"title-cast-item\">");
    if let Some(list) = srcset {
        html.push_str(&format!(
            "<div data-testid=\"title-cast-item__avatar\"><img srcset=\"{}\"></div>",
            list
        ));
    }
    if let Some((href, name)) = actor {
        html.push_str(&format!(
            "<a data-testid=\"title-cast-item__actor\" href=\"{}\">{}</a>",
            href, name
        ));
    }
    if let Some(name) = character {
        html.push_str(&format!(
            "<a data-testid=\"cast-item-characters-link\"><span>{}</span></a>",
            name
        ));
    }
    html.push_str("</div>");
    html
}

fn page(metadata: Option<&str>, cast: &[String]) -> String {
    let mut html = String::from("<html><head>");
    if let Some(json) = metadata {
        html.push_str(&format!("<script type=\"application/ld+json\">{}</script>", json));
    }
    html.push_str("</head><body>");
    html.push_str("<ul><li data-testid=\"title-techspec_color\"><span>Color</span></li>");
    html.push_str("<li data-testid=\"title-details-languages\">");
    html.push_str(
        "<a href=\"/search/title?title_type=feature&amp;primary_language=en\">English</a>",
    );
    html.push_str("<a href=\"/somewhere/else\">Ignored</a>");
    html.push_str(
        "<a href=\"/search/title?title_type=feature&amp;primary_language=es\">Spanish</a>",
    );
    html.push_str("</li></ul>");
    for block in cast {
        html.push_str(block);
    }
    html.push_str("</body></html>");
    html
}

const METADATA: &str = "{\"@type\":\"Movie\",\"name\":\"Heat &amp; Dust\",\
\"genre\":[\"Crime\",7,\"\",\"Drama\"],\"datePublished\":\"1995-12-15\",\
\"description\":\"It&apos;s a plot.\",\"duration\":\"PT2H50M\",\"image\":\"https://img/heat.jpg\",\
\"aggregateRating\":{\"ratingValue\":8.3},\
\"director\":[{\"url\":\"https://www.imdb.com/name/nm0000520/\",\"name\":\"Michael Mann\"},\
{\"name\":\"No Address\"},{\"url\":\"https://www.imdb.com/name/nm1/\"},\"text\"],\
\"keywords\":\"heist,los angeles\"}";

fn five_blocks_one_without_actor() -> Vec<String> {
    vec![
        cast_item(
            Some(("/name/nm0000199/?ref_=tt_cl_t_1", "Al Pacino")),
            Some("Lt. Vincent Hanna"),
            Some("https://a/1.jpg 140w, https://a/2.jpg 280w"),
        ),
        cast_item(Some(("/name/nm0000134/", "Robert De Niro")), Some("Neil McCauley"), None),
        cast_item(None, Some("Nobody"), Some("https://a/3.jpg 140w")),
        cast_item(Some(("/name/nm0000174/", "Val Kilmer")), Some("Chris &amp; Co"), None),
        cast_item(Some(("/name/nm0000685/", "Jon Voight")), Some("Nate"), Some(" ")),
    ]
}

#[test]
fn scrape_reads_every_field() {
    let html = page(Some(METADATA), &five_blocks_one_without_actor());
    let film = scrape_film(&html, "tt0113277".to_string(), 1).unwrap();
    assert_eq!(film.id, 1);
    assert_eq!(film.imdb_id, "tt0113277");
    assert_eq!(film.title, Some("Heat & Dust".to_string()));
    assert_eq!(film.genres, vec!["Crime", "Drama"]);
    assert_eq!(film.release_date, Some("1995-12-15".to_string()));
    assert_eq!(film.plot, Some("It's a plot.".to_string()));
    assert_eq!(film.run_time, Some("PT2H50M".to_string()));
    assert_eq!(film.color, Some("Color".to_string()));
    assert_eq!(film.cover_image, Some("https://img/heat.jpg".to_string()));
    assert_eq!(film.rating.map(f64::from_bits), Some(8.3));
    assert_eq!(film.languages, vec!["English", "Spanish"]);
    assert_eq!(film.keywords, vec!["heist", "los angeles"]);
    assert_eq!(film.directors.len(), 1);
    assert_eq!(film.directors[0].imdb_id, "nm0000520");
    assert_eq!(film.directors[0].real_name, "Michael Mann");
    assert_eq!(film.stars.len(), 4);
    assert_eq!(film.stars[0].imdb_id, "nm0000199");
    assert_eq!(film.stars[0].real_name, "Al Pacino");
    assert_eq!(film.stars[0].character, "Lt. Vincent Hanna");
    assert_eq!(film.stars[0].avatar, Some("https://a/2.jpg".to_string()));
    assert_eq!(film.stars[1].avatar, None);
    assert_eq!(film.stars[2].character, "Chris & Co");
    assert_eq!(film.stars[3].avatar, None);
}

#[test]
fn scrape_without_metadata_fails_and_writes_nothing() {
    let html = page(None, &five_blocks_one_without_actor());
    let mut catalog = initialize_database();
    assert_eq!(catalog.add_film(&"/films/heat.mkv".to_string()), Some(1));
    let result = scrape_and_ingest(&html, "tt0113277".to_string(), 1, &mut catalog);
    assert_eq!(result, Err(AppError::ScrapeError("No script element".to_string())));
    let row = catalog.film(1).unwrap();
    assert!(!row.registered);
    assert_eq!(row.imdb_id, None);
    assert_eq!(catalog.names(Lookup::Genres).len(), 0);
    assert_eq!(catalog.names(Lookup::Languages).len(), 0);
    assert_eq!(catalog.names(Lookup::Keywords).len(), 0);
    assert_eq!(catalog.persons().len(), 0);
    assert_eq!(catalog.characters().len(), 0);
    assert_eq!(catalog.links(Lookup::Languages).len(), 0);
}

#[test]
fn scrape_with_invalid_metadata_fails() {
    let html = page(Some("{\"name\": "), &[]);
    match scrape_film(&html, "tt1".to_string(), 1) {
        Err(AppError::JsonError(_)) => {}
        other => panic!("unexpected result {:?}", other),
    }
}

#[test]
fn partial_cast_yields_the_complete_blocks() {
    let html = page(Some(METADATA), &five_blocks_one_without_actor());
    let mut catalog = initialize_database();
    assert_eq!(catalog.add_film(&"/films/heat.mkv".to_string()), Some(1));
    let avatars = scrape_and_ingest(&html, "tt0113277".to_string(), 1, &mut catalog).unwrap();
    assert_eq!(catalog.characters().len(), 4);
    assert_eq!(avatars, vec![(2, "https://a/2.jpg".to_string())]);
    assert!(catalog.film(1).unwrap().registered);
    assert_eq!(catalog.film(1).unwrap().run_time, Some(10200));
}

#[test]
fn blocks_missing_a_required_part_are_skipped() {
    let actor = |name: &str, link: Option<&str>| {
        Some(CastActor { name: name.to_string(), link: link.map(|l| l.to_string()) })
    };
    let blocks = vec![
        CastBlock { portrait: None, actor: actor("A", Some("/name/nm1/")), character: Some("X".to_string()) },
        CastBlock { portrait: None, actor: None, character: Some("X".to_string()) },
        CastBlock { portrait: None, actor: actor("", Some("/name/nm2/")), character: Some("X".to_string()) },
        CastBlock { portrait: None, actor: actor("B", Some("/name/nm3/")), character: None },
        CastBlock { portrait: None, actor: actor("C", Some("/name/nm4/")), character: Some("".to_string()) },
        CastBlock { portrait: None, actor: actor("D", None), character: Some("X".to_string()) },
        CastBlock { portrait: None, actor: actor("E", Some("/name")), character: Some("X".to_string()) },
        CastBlock {
            portrait: Some("u1 1x, u2 2x".to_string()),
            actor: actor("F", Some("/name/nm5/")),
            character: Some("Y".to_string()),
        },
    ];
    let stars = stars_from_blocks(&blocks);
    assert_eq!(stars.len(), 2);
    assert_eq!(stars[0].imdb_id, "nm1");
    assert_eq!(stars[1].imdb_id, "nm5");
    assert_eq!(stars[1].avatar, Some("u2".to_string()));
    assert_eq!(star_from_block(&blocks[1]), None);
}

#[test]
fn json_members_are_found_by_name() {
    let json = parse_json("{\"b\": [1, \"x\"], \"a\": {\"c\": null, \"d\": true}, \"n\": 2.5}").unwrap();
    assert_eq!(json.get("a").unwrap().get("d"), Some(&Json::Bool(true)));
    assert_eq!(json.get("a").unwrap().get("c"), Some(&Json::Null));
    assert_eq!(json.get("missing"), None);
    assert_eq!(json.get("b").unwrap().get("x"), None);
    assert_eq!(json.get("b").unwrap().as_array().unwrap().len(), 2);
    assert_eq!(json.get("b").unwrap().as_array().unwrap()[1].as_str(), Some("x"));
    assert_eq!(json.get("n").unwrap().as_number().map(f64::from_bits), Some(2.5));
    assert_eq!(json.get("b").unwrap().as_number(), None);
    assert_eq!(json.get_str("n"), None);
    assert!(matches!(parse_json("not json"), Err(AppError::JsonError(_))));
}

#[test]
fn data_object_is_the_first_block() {
    let html = "<script type=\"application/ld+json\">{\"name\":\"First\"}</script>\
<script type=\"application/ld+json\">{\"name\":\"Second\"}</script>";
    let document = scraper::Html::parse_document(html);
    let data = get_data_object(&document).unwrap();
    assert_eq!(data.get_str("name"), Some("First"));
}

#[test]
fn film_from_json_alone() {
    let data = parse_json(METADATA).unwrap();
    let film = film_from(9, "tt9".to_string(), &data, None, vec![], vec![]);
    assert_eq!(film.id, 9);
    assert_eq!(film.title, Some("Heat & Dust".to_string()));
    assert_eq!(film.color, None);
    assert_eq!(film.keywords, vec!["heist", "los angeles"]);
    let empty = parse_json("[]").unwrap();
    let film = film_from(9, "tt9".to_string(), &empty, Some("Color".to_string()), vec![], vec![]);
    assert_eq!(film.title, None);
    assert_eq!(film.genres.len(), 0);
    assert_eq!(film.rating, None);
    assert_eq!(film.keywords.len(), 0);
    assert_eq!(film.directors.len(), 0);
}

#[test]
fn genres_and_keywords_and_directors_from_json() {
    let data = parse_json(METADATA).unwrap();
    assert_eq!(genre(data.get("genre").and_then(|g| g.as_array())), vec!["Crime", "Drama"]);
    assert_eq!(genre(None).len(), 0);
    assert_eq!(keywords(Some("a,,b")), vec!["a", "", "b"]);
    assert_eq!(keywords(Some("")), vec![""]);
    assert_eq!(keywords(None).len(), 0);
    assert_eq!(directors(&data).len(), 1);
    assert_eq!(directors(&Json::Null).len(), 0);
}

#[test]
fn color_and_languages_from_markup() {
    let document = scraper::Html::parse_document(&page(None, &[]));
    assert_eq!(color(&document), Ok("Color".to_string()));
    assert_eq!(languages(&document), vec!["English", "Spanish"]);
    let bare = scraper::Html::parse_document("<p>nothing</p>");
    assert_eq!(color(&bare), Err(AppError::ScrapeError("No color element".to_string())));
    assert_eq!(languages(&bare).len(), 0);
    let empty = scraper::Html::parse_document(
        "<div data-testid=\"title-techspec_color\"><span></span></div>",
    );
    assert_eq!(
        color(&empty),
        Err(AppError::ScrapeError("Color element empty innertext".to_string()))
    );
}

#[test]
fn cast_blocks_hold_what_the_markup_holds() {
    let document = scraper::Html::parse_document(&page(None, &five_blocks_one_without_actor()));
    let blocks = cast_blocks(&document).unwrap();
    assert_eq!(blocks.len(), 5);
    assert_eq!(
        blocks[0].portrait,
        Some("https://a/1.jpg 140w, https://a/2.jpg 280w".to_string())
    );
    assert_eq!(
        blocks[0].actor,
        Some(CastActor {
            name: "Al Pacino".to_string(),
            link: Some("/name/nm0000199/?ref_=tt_cl_t_1".to_string())
        })
    );
    assert_eq!(blocks[0].character, Some("Lt. Vincent Hanna".to_string()));
    assert_eq!(blocks[2].actor, None);
    assert_eq!(blocks[3].character, Some("Chris &amp; Co".to_string()));
    assert_eq!(stars(&document).unwrap().len(), 4);
}
