//! Persons as the catalog shows them.

use vstd::prelude::*;

use crate::text::{
    decimal_i32, decimal_u32, kept, lemma_kept_next, opt_text, parse_i32, parse_u32, split,
    split_text, texts,
};

verus! {

/// A person's gender, as far as the catalog knows it.
#[derive(Clone, Copy, Debug, PartialEq, Eq, Structural)]
pub enum Gender {
    Male,
    Female,
}

/// The countries that the catalog has a code for.
#[derive(Clone, Copy, Debug, PartialEq, Eq, Structural)]
pub enum Country {
    Sweden,
    UnitedKingdom,
    Norway,
    UnitedStates,
    Canada,
    Mexico,
    Russia,
    France,
    Germany,
    Spain,
    Italy,
    Portugal,
}

/// A person.
#[derive(Clone, Debug, PartialEq, Eq)]
pub struct Person {
    pub id: u32,
    pub imdb_id: Option<String>,
    pub name: Option<String>,
    pub age: Option<u32>,
    pub gender: Option<Gender>,
    pub birthplace: Option<Country>,
}

/// The mathematical content of a `Person`.
pub struct PersonContent {
    pub id: u32,
    pub imdb_id: Option<Seq<char>>,
    pub name: Option<Seq<char>>,
    pub age: Option<u32>,
    pub gender: Option<Gender>,
    pub birthplace: Option<Country>,
}

impl View for Person {
    type V = PersonContent;

    open spec fn view(&self) -> PersonContent {
        PersonContent {
            id: self.id,
            imdb_id: opt_text(self.imdb_id),
            name: opt_text(self.name),
            age: self.age,
            gender: self.gender,
            birthplace: self.birthplace,
        }
    }
}

/// The country that a code from 1 to 12 stands for.
pub open spec fn country_of(code: int) -> Country {
    if code == 1 {
        Country::Sweden
    } else if code == 2 {
        Country::UnitedKingdom
    } else if code == 3 {
        Country::Norway
    } else if code == 4 {
        Country::UnitedStates
    } else if code == 5 {
        Country::Canada
    } else if code == 6 {
        Country::Mexico
    } else if code == 7 {
        Country::Russia
    } else if code == 8 {
        Country::France
    } else if code == 9 {
        Country::Germany
    } else if code == 10 {
        Country::Spain
    } else if code == 11 {
        Country::Italy
    } else {
        Country::Portugal
    }
}

/// The country that a stored code stands for. Only the codes from 1 to 12
/// stand for one.
pub fn map_birthplace(code: i32) -> (country: Country)
    requires
        1 <= code <= 12,
    ensures
        country == country_of(code as int),
{
    match code {
        1 => Country::Sweden,
        2 => Country::UnitedKingdom,
        3 => Country::Norway,
        4 => Country::UnitedStates,
        5 => Country::Canada,
        6 => Country::Mexico,
        7 => Country::Russia,
        8 => Country::France,
        9 => Country::Germany,
        10 => Country::Spain,
        11 => Country::Italy,
        _ => Country::Portugal,
    }
}

/// The gender that a stored code stands for: 1 and 2 stand for one.
pub open spec fn gender_of(code: int) -> Option<Gender> {
    if code == 1 {
        Some(Gender::Male)
    } else if code == 2 {
        Some(Gender::Female)
    } else {
        None
    }
}

/// The gender that a stored code stands for.
pub fn map_gender(code: i32) -> (gender: Option<Gender>)
    ensures
        gender == gender_of(code as int),
{
    match code {
        1 => Some(Gender::Male),
        2 => Some(Gender::Female),
        _ => None,
    }
}

/// The field at `index`, if there are that many.
pub open spec fn field(parts: Seq<Seq<char>>, index: int) -> Option<Seq<char>> {
    if 0 <= index < parts.len() {
        Some(parts[index])
    } else {
        None
    }
}

/// The number that an optional field holds, if it is a `u32` in decimal.
pub open spec fn field_u32(part: Option<Seq<char>>) -> Option<u32> {
    match part {
        Some(text) => match decimal_u32(text) {
            Ok(value) => Some(value as u32),
            Err(_) => None,
        },
        None => None,
    }
}

/// The number that an optional field holds, if it is an `i32` in decimal.
pub open spec fn field_i32(part: Option<Seq<char>>) -> Option<int> {
    match part {
        Some(text) => match decimal_i32(text) {
            Ok(value) => Some(value),
            Err(_) => None,
        },
        None => None,
    }
}

/// The person that a list of fields describes: identifier, IMDb
/// identifier, name, age, gender code and birthplace code, in this order.
/// Without an identifier that is a `u32` there is no person; every other
/// field may be missing, and a number that cannot be read counts as
/// missing.
pub open spec fn person_of(parts: Seq<Seq<char>>) -> Option<PersonContent> {
    match field_u32(field(parts, 0)) {
        None => None,
        Some(id) => Some(
            PersonContent {
                id: id,
                imdb_id: field(parts, 1),
                name: field(parts, 2),
                age: field_u32(field(parts, 3)),
                gender: match field_i32(field(parts, 4)) {
                    Some(code) => gender_of(code),
                    None => None,
                },
                birthplace: match field_i32(field(parts, 5)) {
                    Some(code) => Some(country_of(code)),
                    None => None,
                },
            },
        ),
    }
}

/// The birthplace code among the fields, where it will be read, is one of
/// the codes from 1 to 12.
pub open spec fn birthplace_known(parts: Seq<Seq<char>>) -> bool {
    field_u32(field(parts, 0)) is Some ==> match field_i32(field(parts, 5)) {
        Some(code) => 1 <= code <= 12,
        None => true,
    }
}

/// An owned copy of the field at `index`.
fn field_at(parts: &[String], index: usize) -> (part: Option<String>)
    ensures
        opt_text(part) == field(texts(parts@), index as int),
{
    if index < parts.len() {
        Some(parts[index].clone())
    } else {
        None
    }
}

/// The `u32` in the field at `index`.
fn u32_at(parts: &[String], index: usize) -> (value: Option<u32>)
    ensures
        value == field_u32(field(texts(parts@), index as int)),
{
    if index < parts.len() {
        match parse_u32(parts[index].as_str()) {
            Ok(value) => Some(value),
            Err(_) => None,
        }
    } else {
        None
    }
}

/// The `i32` in the field at `index`.
fn i32_at(parts: &[String], index: usize) -> (value: Option<i32>)
    ensures
        match value {
            Some(number) => field_i32(field(texts(parts@), index as int)) == Some(number as int),
            None => field_i32(field(texts(parts@), index as int)) is None,
        },
{
    if index < parts.len() {
        match parse_i32(parts[index].as_str()) {
            Ok(value) => Some(value),
            Err(_) => None,
        }
    } else {
        None
    }
}

impl Person {
    /// Reads a person from a list of fields.
    pub fn from_parts(parts: &[String]) -> (person: Option<Person>)
        requires
            birthplace_known(texts(parts@)),
        ensures
            match person {
                Some(found) => person_of(texts(parts@)) == Some(found@),
                None => person_of(texts(parts@)) is None,
            },
    {
        let id: u32 = match u32_at(parts, 0) {
            Some(id) => id,
            None => {
                return None;
            },
        };
        let gender = match i32_at(parts, 4) {
            Some(code) => map_gender(code),
            None => None,
        };
        let birthplace = match i32_at(parts, 5) {
            Some(code) => Some(map_birthplace(code)),
            None => None,
        };
        Some(
            Person {
                id,
                imdb_id: field_at(parts, 1),
                name: field_at(parts, 2),
                age: u32_at(parts, 3),
                gender,
                birthplace,
            },
        )
    }
}

/// Tells whether the birthplace code among the fields, where it will be
/// read, is one of the codes from 1 to 12.
pub fn birthplace_is_known(parts: &[String]) -> (known: bool)
    ensures
        known == birthplace_known(texts(parts@)),
{
    match u32_at(parts, 0) {
        None => true,
        Some(_) => match i32_at(parts, 5) {
            Some(code) => 1 <= code && code <= 12,
            None => true,
        },
    }
}

/// The views of a list of persons, in order.
pub open spec fn person_contents(items: Seq<Person>) -> Seq<PersonContent> {
    Seq::new(items.len(), |i: int| items[i]@)
}

/// The persons that a text lists: between commas stands one each, as
/// fields with colons between them. A piece that describes none is passed
/// over.
pub open spec fn persons_listed(text: Seq<char>) -> Seq<PersonContent> {
    kept(split(text, ','), |piece: Seq<char>| person_of(split(piece, ':')))
}

/// Every person that the text lists has a birthplace code that is known,
/// or none.
pub open spec fn birthplaces_known(text: Seq<char>) -> bool {
    forall|i: int|
        0 <= i < split(text, ',').len() ==> birthplace_known(
            split(#[trigger] split(text, ',')[i], ':'),
        )
}

/// Tells whether every person that the text lists has a birthplace code
/// that is known, or none.
pub fn birthplaces_are_known(text: &str) -> (known: bool)
    ensures
        known == birthplaces_known(text@),
{
    let pieces = split_text(text, ',');
    let mut i: usize = 0;
    while i < pieces.len()
        invariant
            i <= pieces@.len(),
            texts(pieces@) == split(text@, ','),
            forall|j: int|
                0 <= j < i ==> birthplace_known(split(#[trigger] split(text@, ',')[j], ':')),
        decreases pieces@.len() - i,
    {
        let parts = split_text(pieces[i].as_str(), ':');
        assert(texts(pieces@)[i as int] == pieces@[i as int]@);
        if !birthplace_is_known(parts.as_slice()) {
            return false;
        }
        i += 1;
    }
    true
}

impl Person {
    /// Reads the persons that a text lists.
    pub fn from_list(text: &str) -> (items: Vec<Person>)
        requires
            birthplaces_known(text@),
        ensures
            person_contents(items@) == persons_listed(text@),
    {
        let pieces = split_text(text, ',');
        let mut items: Vec<Person> = Vec::new();
        let mut i: usize = 0;
        assert(texts(pieces@).take(0).len() == 0);
        while i < pieces.len()
            invariant
                i <= pieces@.len(),
                texts(pieces@) == split(text@, ','),
                birthplaces_known(text@),
                person_contents(items@) == kept(
                    texts(pieces@).take(i as int),
                    |piece: Seq<char>| person_of(split(piece, ':')),
                ),
            decreases pieces@.len() - i,
        {
            proof {
                lemma_kept_next(
                    texts(pieces@),
                    |piece: Seq<char>| person_of(split(piece, ':')),
                    i as int,
                );
                assert(texts(pieces@)[i as int] == pieces@[i as int]@);
                assert(birthplace_known(split(split(text@, ',')[i as int], ':')));
            }
            let parts = split_text(pieces[i].as_str(), ':');
            match Person::from_parts(parts.as_slice()) {
                Some(item) => {
                    let ghost before = person_contents(items@);
                    items.push(item);
                    assert(person_contents(items@) == before.push(item@));
                },
                None => {},
            }
            i += 1;
        }
        assert(texts(pieces@).take(pieces@.len() as int) == texts(pieces@));
        items
    }
}

} // verus!
