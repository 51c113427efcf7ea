//! The parts that actors play in films.

use vstd::prelude::*;
use vstd::slice::slice_subrange;

use crate::persons::models::{
    birthplace_is_known, birthplace_known, field, field_u32, person_of, Person, PersonContent,
};
use crate::text::{kept, lemma_kept_next, parse_u32, split, split_text, texts};

verus! {

/// A part in a film, with the actor who plays it.
#[derive(Clone, Debug, PartialEq, Eq)]
pub struct Character {
    pub film_id: u32,
    pub description: String,
    pub actor: Person,
}

/// The mathematical content of a `Character`.
pub struct CharacterContent {
    pub film_id: u32,
    pub description: Seq<char>,
    pub actor: PersonContent,
}

impl View for Character {
    type V = CharacterContent;

    open spec fn view(&self) -> CharacterContent {
        CharacterContent {
            film_id: self.film_id,
            description: self.description@,
            actor: self.actor@,
        }
    }
}

/// The part that a list of fields describes: the film's identifier, the
/// description, then the fields of the actor. There is no part without a
/// film identifier that is a `u32`, without a description, or without an
/// actor.
pub open spec fn character_of(parts: Seq<Seq<char>>) -> Option<CharacterContent> {
    match field_u32(field(parts, 0)) {
        None => None,
        Some(film_id) => if parts.len() < 2 {
            None
        } else {
            match person_of(parts.skip(2)) {
                Some(actor) => Some(
                    CharacterContent { film_id: film_id, description: parts[1], actor: actor },
                ),
                None => None,
            }
        },
    }
}

/// The birthplace code among the actor's fields, where it will be read, is
/// one of the codes from 1 to 12.
pub open spec fn actor_birthplace_known(parts: Seq<Seq<char>>) -> bool {
    field_u32(field(parts, 0)) is Some && parts.len() >= 2 ==> birthplace_known(parts.skip(2))
}

impl Character {
    /// Reads a part from a list of fields.
    pub fn from_parts(parts: &[String]) -> (character: Option<Character>)
        requires
            actor_birthplace_known(texts(parts@)),
        ensures
            match character {
                Some(found) => character_of(texts(parts@)) == Some(found@),
                None => character_of(texts(parts@)) is None,
            },
    {
        if parts.len() == 0 {
            return None;
        }
        let film_id: u32 = match parse_u32(parts[0].as_str()) {
            Ok(value) => value,
            Err(_) => {
                return None;
            },
        };
        if parts.len() < 2 {
            return None;
        }
        let description = parts[1].clone();
        let rest = slice_subrange(parts, 2, parts.len());
        assert(texts(rest@) == texts(parts@).skip(2));
        match Person::from_parts(rest) {
            Some(actor) => Some(Character { film_id, description, actor }),
            None => None,
        }
    }
}

/// Tells whether the birthplace code among the actor's fields, where it
/// will be read, is one of the codes from 1 to 12.
pub fn actor_birthplace_is_known(parts: &[String]) -> (known: bool)
    ensures
        known == actor_birthplace_known(texts(parts@)),
{
    if parts.len() < 2 {
        return true;
    }
    match parse_u32(parts[0].as_str()) {
        Err(_) => true,
        Ok(_) => {
            let rest = slice_subrange(parts, 2, parts.len());
            assert(texts(rest@) == texts(parts@).skip(2));
            birthplace_is_known(rest)
        },
    }
}

/// The views of a list of parts, in order.
pub open spec fn character_contents(items: Seq<Character>) -> Seq<CharacterContent> {
    Seq::new(items.len(), |i: int| items[i]@)
}

/// The parts that a text lists: between commas stands one each, as fields
/// with colons between them. A piece that describes none is passed over.
pub open spec fn characters_listed(text: Seq<char>) -> Seq<CharacterContent> {
    kept(split(text, ','), |piece: Seq<char>| character_of(split(piece, ':')))
}

/// Every actor that the text lists has a birthplace code that is known, or
/// none.
pub open spec fn actor_birthplaces_known(text: Seq<char>) -> bool {
    forall|i: int|
        0 <= i < split(text, ',').len() ==> actor_birthplace_known(
            split(#[trigger] split(text, ',')[i], ':'),
        )
}

/// Tells whether every actor that the text lists has a birthplace code
/// that is known, or none.
pub fn actor_birthplaces_are_known(text: &str) -> (known: bool)
    ensures
        known == actor_birthplaces_known(text@),
{
    let pieces = split_text(text, ',');
    let mut i: usize = 0;
    while i < pieces.len()
        invariant
            i <= pieces@.len(),
            texts(pieces@) == split(text@, ','),
            forall|j: int|
                0 <= j < i ==> actor_birthplace_known(
                    split(#[trigger] split(text@, ',')[j], ':'),
                ),
        decreases pieces@.len() - i,
    {
        let parts = split_text(pieces[i].as_str(), ':');
        assert(texts(pieces@)[i as int] == pieces@[i as int]@);
        if !actor_birthplace_is_known(parts.as_slice()) {
            return false;
        }
        i += 1;
    }
    true
}

impl Character {
    /// Reads the parts that a text lists.
    pub fn from_list(text: &str) -> (items: Vec<Character>)
        requires
            actor_birthplaces_known(text@),
        ensures
            character_contents(items@) == characters_listed(text@),
    {
        let pieces = split_text(text, ',');
        let mut items: Vec<Character> = Vec::new();
        let mut i: usize = 0;
        assert(texts(pieces@).take(0).len() == 0);
        while i < pieces.len()
            invariant
                i <= pieces@.len(),
                texts(pieces@) == split(text@, ','),
                actor_birthplaces_known(text@),
                character_contents(items@) == kept(
                    texts(pieces@).take(i as int),
                    |piece: Seq<char>| character_of(split(piece, ':')),
                ),
            decreases pieces@.len() - i,
        {
            proof {
                lemma_kept_next(
                    texts(pieces@),
                    |piece: Seq<char>| character_of(split(piece, ':')),
                    i as int,
                );
                assert(texts(pieces@)[i as int] == pieces@[i as int]@);
                assert(actor_birthplace_known(split(split(text@, ',')[i as int], ':')));
            }
            let parts = split_text(pieces[i].as_str(), ':');
            match Character::from_parts(parts.as_slice()) {
                Some(item) => {
                    let ghost before = character_contents(items@);
                    items.push(item);
                    assert(character_contents(items@) == before.push(item@));
                },
                None => {},
            }
            i += 1;
        }
        assert(texts(pieces@).take(pieces@.len() as int) == texts(pieces@));
        items
    }
}

} // verus!
