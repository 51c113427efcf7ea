//! Finding the films in a directory.

use vstd::prelude::*;

pub mod models;

pub use models::Film;

verus! {

/// The file extensions that mark a film.
pub open spec fn video_extension(extension: Seq<char>) -> bool {
    extension == "mp4"@ || extension == "mkv"@ || extension == "avi"@ || extension == "mov"@
}

/// Tells whether a file with this extension is taken for a film.
pub fn is_video_extension(extension: &str) -> (yes: bool)
    ensures
        yes == video_extension(extension@),
{
    let given = extension.to_owned();
    given == "mp4".to_owned() || given == "mkv".to_owned() || given == "avi".to_owned() || given
        == "mov".to_owned()
}

} // verus!
