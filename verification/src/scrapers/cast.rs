//! The cast of a film: what a page's cast blocks hold, and the stars that
//! they yield.

use vstd::prelude::*;

use super::models::{star_views, ScrapedStar, ScrapedStarView};
use super::normalize::{avatar_source, avatar_source_of, unescape_str, unescaped};
use crate::text::{kept, lemma_kept_next, nth_piece, nth_split, opt_text};

verus! {

/// The actor's link in a cast block: the markup inside it, and where it
/// points to.
#[derive(Clone, Debug, PartialEq, Eq)]
pub struct CastActor {
    pub name: String,
    pub link: Option<String>,
}

/// The mathematical content of a `CastActor`.
pub struct CastActorView {
    pub name: Seq<char>,
    pub link: Option<Seq<char>>,
}

impl View for CastActor {
    type V = CastActorView;

    open spec fn view(&self) -> CastActorView {
        CastActorView { name: self.name@, link: opt_text(self.link) }
    }
}

/// What one cast block of a page holds: the image list of the portrait,
/// the actor's link, and the markup of the character's name. Each may be
/// missing.
#[derive(Clone, Debug, PartialEq, Eq)]
pub struct CastBlock {
    pub portrait: Option<String>,
    pub actor: Option<CastActor>,
    pub character: Option<String>,
}

/// The mathematical content of a `CastBlock`.
pub struct CastBlockView {
    pub portrait: Option<Seq<char>>,
    pub actor: Option<CastActorView>,
    pub character: Option<Seq<char>>,
}

impl View for CastBlock {
    type V = CastBlockView;

    open spec fn view(&self) -> CastBlockView {
        CastBlockView {
            portrait: opt_text(self.portrait),
            actor: match self.actor {
                Some(actor) => Some(actor@),
                None => None,
            },
            character: opt_text(self.character),
        }
    }
}

/// The views of a list of cast blocks, in order.
pub open spec fn block_views(blocks: Seq<CastBlock>) -> Seq<CastBlockView> {
    Seq::new(blocks.len(), |i: int| blocks[i]@)
}

/// The segment of an actor's link that identifies the actor: the third,
/// counting from the text before the first slash.
pub open spec fn actor_id(link: Option<Seq<char>>) -> Option<Seq<char>> {
    match link {
        Some(address) => nth_piece(address, '/', 2),
        None => None,
    }
}

/// The cleaned text of an optional piece of markup.
pub open spec fn unescaped_opt(markup: Option<Seq<char>>) -> Option<Seq<char>> {
    match markup {
        Some(text) => unescaped(text),
        None => None,
    }
}

/// The address of the portrait that an optional image list gives.
pub open spec fn portrait_of(srcset: Option<Seq<char>>) -> Option<Seq<char>> {
    match srcset {
        Some(list) => avatar_source_of(list),
        None => None,
    }
}

/// The star that a cast block yields. The actor's name, the character's
/// name and the actor's identifier are all needed: a block that lacks one
/// yields nothing. The portrait may be missing.
pub open spec fn star_of(block: CastBlockView) -> Option<ScrapedStarView> {
    match block.actor {
        None => None,
        Some(actor) => match (
            unescaped(actor.name),
            unescaped_opt(block.character),
            actor_id(actor.link),
        ) {
            (Some(real_name), Some(character), Some(imdb_id)) => Some(
                ScrapedStarView {
                    imdb_id: imdb_id,
                    real_name: real_name,
                    character: character,
                    avatar: portrait_of(block.portrait),
                },
            ),
            _ => None,
        },
    }
}

/// The star that a cast block yields, if it has all that a star needs.
pub fn star_from_block(block: &CastBlock) -> (star: Option<ScrapedStar>)
    ensures
        match star {
            Some(found) => star_of(block@) == Some(found@),
            None => star_of(block@) is None,
        },
{
    let avatar = match &block.portrait {
        Some(srcset) => avatar_source(srcset.as_str()),
        None => None,
    };
    let actor = match &block.actor {
        Some(actor) => actor,
        None => {
            return None;
        },
    };
    let real_name = match unescape_str(Some(actor.name.as_str())) {
        Some(name) => name,
        None => {
            return None;
        },
    };
    let character = match &block.character {
        Some(markup) => match unescape_str(Some(markup.as_str())) {
            Some(name) => name,
            None => {
                return None;
            },
        },
        None => {
            return None;
        },
    };
    let imdb_id = match &actor.link {
        Some(address) => match nth_split(address.as_str(), '/', 2) {
            Some(id) => id,
            None => {
                return None;
            },
        },
        None => {
            return None;
        },
    };
    Some(ScrapedStar { imdb_id, real_name, character, avatar })
}

/// The stars that a list of cast blocks yields, in the order of the
/// blocks. A block that yields no star is passed over, and the others
/// still count.
pub open spec fn stars_of(blocks: Seq<CastBlockView>) -> Seq<ScrapedStarView> {
    kept(blocks, |block: CastBlockView| star_of(block))
}

/// The stars that a list of cast blocks yields.
pub fn stars_from_blocks(blocks: &Vec<CastBlock>) -> (stars: Vec<ScrapedStar>)
    ensures
        star_views(stars@) == stars_of(block_views(blocks@)),
{
    let mut stars: Vec<ScrapedStar> = Vec::new();
    let ghost all = block_views(blocks@);
    let mut i: usize = 0;
    assert(all.take(0).len() == 0);
    while i < blocks.len()
        invariant
            i <= blocks@.len(),
            all == block_views(blocks@),
            star_views(stars@) == stars_of(all.take(i as int)),
        decreases blocks@.len() - i,
    {
        proof {
            lemma_kept_next(all, |block: CastBlockView| star_of(block), i as int);
        }
        match star_from_block(&blocks[i]) {
            Some(star) => {
                let ghost before = star_views(stars@);
                stars.push(star);
                assert(star_views(stars@) == before.push(star@));
            },
            None => {},
        }
        i += 1;
    }
    assert(all.take(blocks@.len() as int) == all);
    stars
}

} // verus!
