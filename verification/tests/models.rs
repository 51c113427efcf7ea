use rustflix::characters::Character;
use rustflix::error::AppError;
use rustflix::images::ImageSize;
use rustflix::persons::models::{map_birthplace, map_gender};
use rustflix::persons::{Country, Gender, Person};

fn fields(text: &str) -> Vec<String> {
    text.split(':').map(|s| s.to_string()).collect()
}

#[test]
fn person_from_all_fields() {
    let person = Person::from_parts(&fields("7:nm0000199:Al Pacino:84:1:4")).unwrap();
    assert_eq!(
        person,
        Person {
            id: 7,
            imdb_id: Some("nm0000199".to_string()),
            name: Some("Al Pacino".to_string()),
            age: Some(84),
            gender: Some(Gender::Male),
            birthplace: Some(Country::UnitedStates),
        }
    );
}

#[test]
fn person_from_few_fields() {
    let person = Person::from_parts(&fields("7")).unwrap();
    assert_eq!(
        person,
        Person { id: 7, imdb_id: None, name: None, age: None, gender: None, birthplace: None }
    );
    let person = Person::from_parts(&fields("7:::x:3:")).unwrap();
    assert_eq!(person.imdb_id, Some(String::new()));
    assert_eq!(person.age, None);
    assert_eq!(person.gender, None);
    assert_eq!(person.birthplace, None);
}

#[test]
fn person_needs_an_identifier() {
    assert_eq!(Person::from_parts(&fields("")), None);
    assert_eq!(Person::from_parts(&fields("x:nm1:A")), None);
    assert_eq!(Person::from_parts(&fields("-1:nm1:A")), None);
    assert_eq!(Person::from_parts(&[]), None);
}

#[test]
fn character_from_fields() {
    let character = Character::from_parts(&fields("3:Neil McCauley:9:nm0000134:Robert De Niro::2:12"))
        .unwrap();
    assert_eq!(character.film_id, 3);
    assert_eq!(character.description, "Neil McCauley");
    assert_eq!(character.actor.id, 9);
    assert_eq!(character.actor.gender, Some(Gender::Female));
    assert_eq!(character.actor.birthplace, Some(Country::Portugal));
}

#[test]
fn character_needs_film_description_and_actor() {
    assert_eq!(Character::from_parts(&fields("x:Part:9")), None);
    assert_eq!(Character::from_parts(&fields("3")), None);
    assert_eq!(Character::from_parts(&fields("3:Part")), None);
    assert_eq!(Character::from_parts(&fields("3:Part:x")), None);
    assert!(Character::from_parts(&fields("3:Part:9")).is_some());
}

#[test]
fn codes_map_to_countries_and_genders() {
    assert_eq!(map_birthplace(1), Country::Sweden);
    assert_eq!(map_birthplace(2), Country::UnitedKingdom);
    assert_eq!(map_birthplace(6), Country::Mexico);
    assert_eq!(map_birthplace(12), Country::Portugal);
    assert_eq!(map_gender(1), Some(Gender::Male));
    assert_eq!(map_gender(2), Some(Gender::Female));
    assert_eq!(map_gender(0), None);
}

#[test]
fn image_sizes_have_bounds_and_names() {
    assert_eq!(ImageSize::Small.dimensions(), Some((400, 400)));
    assert_eq!(ImageSize::Medium.dimensions(), Some((800, 800)));
    assert_eq!(ImageSize::Large.dimensions(), Some((1400, 1400)));
    assert_eq!(ImageSize::Full.dimensions(), None);
    assert_eq!(ImageSize::Small.as_str(), "small");
    assert_eq!(ImageSize::Medium.as_str(), "medium");
    assert_eq!(ImageSize::Large.as_str(), "large");
    assert_eq!(ImageSize::Full.as_str(), "full");
}

#[test]
fn image_size_from_name_defaults_to_medium() {
    assert_eq!(ImageSize::from_name(Some("small")), ImageSize::Small);
    assert_eq!(ImageSize::from_name(Some("large")), ImageSize::Large);
    assert_eq!(ImageSize::from_name(Some("full")), ImageSize::Full);
    assert_eq!(ImageSize::from_name(Some("medium")), ImageSize::Medium);
    assert_eq!(ImageSize::from_name(Some("huge")), ImageSize::Medium);
    assert_eq!(ImageSize::from_name(None), ImageSize::Medium);
}

#[test]
fn error_message_names_the_layer() {
    assert_eq!(AppError::new("No script element").message(), "Scrape error: No script element");
    assert_eq!(AppError::DatabaseError("locked".to_string()).message(), "Database error: locked");
    assert_eq!(AppError::JsonError("eof".to_string()).message(), "JSON error: eof");
    assert_eq!(AppError::SelectorError("bad".to_string()).message(), "Selector error: bad");
    assert_eq!(AppError::ReqwestError("down".to_string()).message(), "Reqwest error: down");
    assert_eq!(AppError::ImageError("bad".to_string()).message(), "Image error: bad");
    assert_eq!(AppError::IoError("gone".to_string()).message(), "IO error: gone");
    assert_eq!(AppError::from("what".to_string()).message(), "IO error: what");
    assert_eq!(AppError::from("what".to_string()), AppError::StringError("what".to_string()));
}
