//! The sizes in which an image is kept.

use vstd::prelude::*;

verus! {

/// A size tier of a stored image.
#[derive(Clone, Copy, Debug, PartialEq, Eq, Structural)]
pub enum ImageSize {
    Small,
    Medium,
    Large,
    Full,
}

/// The size that a name asks for. Without a name, and with one that names
/// no size, it is the medium one.
pub open spec fn size_named(name: Option<Seq<char>>) -> ImageSize {
    match name {
        Some(text) => if text == "small"@ {
            ImageSize::Small
        } else if text == "large"@ {
            ImageSize::Large
        } else if text == "full"@ {
            ImageSize::Full
        } else {
            ImageSize::Medium
        },
        None => ImageSize::Medium,
    }
}

impl ImageSize {
    /// The width and height that an image of this size fits in; the full
    /// size has no bound.
    pub open spec fn bounds(self) -> Option<(u32, u32)> {
        match self {
            ImageSize::Small => Some((400u32, 400u32)),
            ImageSize::Medium => Some((800u32, 800u32)),
            ImageSize::Large => Some((1400u32, 1400u32)),
            ImageSize::Full => None,
        }
    }

    /// The name of the directory that holds images of this size.
    pub open spec fn name(self) -> Seq<char> {
        match self {
            ImageSize::Small => "small"@,
            ImageSize::Medium => "medium"@,
            ImageSize::Large => "large"@,
            ImageSize::Full => "full"@,
        }
    }

    /// An image of this width and height belongs to this tier: it is
    /// within the tier's bounds.
    pub open spec fn holds(self, width: u32, height: u32) -> bool {
        match self.bounds() {
            Some(bounds) => width <= bounds.0 && height <= bounds.1,
            None => true,
        }
    }

    /// Tells whether an image of this width and height belongs to this
    /// tier.
    pub fn admits(&self, width: u32, height: u32) -> (yes: bool)
        ensures
            yes == self.holds(width, height),
    {
        match self.dimensions() {
            Some((max_width, max_height)) => width <= max_width && height <= max_height,
            None => true,
        }
    }

    /// The width and height that an image of this size fits in.
    pub fn dimensions(&self) -> (bounds: Option<(u32, u32)>)
        ensures
            bounds == self.bounds(),
    {
        match self {
            ImageSize::Small => Some((400, 400)),
            ImageSize::Medium => Some((800, 800)),
            ImageSize::Large => Some((1400, 1400)),
            ImageSize::Full => None,
        }
    }

    /// The name of the directory that holds images of this size.
    pub fn as_str(&self) -> (name: &'static str)
        ensures
            name@ == self.name(),
    {
        match self {
            ImageSize::Small => "small",
            ImageSize::Medium => "medium",
            ImageSize::Large => "large",
            ImageSize::Full => "full",
        }
    }

    /// The size that a name asks for.
    pub fn from_name(size: Option<&str>) -> (tier: ImageSize)
        ensures
            tier == size_named(
                match size {
                    Some(text) => Some(text@),
                    None => None,
                },
            ),
    {
        match size {
            Some(text) => {
                let given = text.to_owned();
                if given == "small".to_owned() {
                    ImageSize::Small
                } else if given == "large".to_owned() {
                    ImageSize::Large
                } else if given == "full".to_owned() {
                    ImageSize::Full
                } else {
                    ImageSize::Medium
                }
            },
            None => ImageSize::Medium,
        }
    }
}

} // verus!
