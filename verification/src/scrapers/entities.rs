//! Decoding of HTML character references, done by `html_escape`.

use vstd::prelude::*;

verus! {

/// The text that `html_escape::decode_html_entities` makes of a text: each
/// named or numeric character reference that ends in `;` replaced by what
/// it stands for, everything else kept.
pub uninterp spec fn entities_decoded(text: Seq<char>) -> Seq<char>;

/// Calls `html_escape::decode_html_entities` and takes the result as an
/// owned string. The result depends on the text alone.
#[verifier::external_body]
pub(crate) fn decode_entities(text: &str) -> (plain: String)
    ensures
        plain@ == entities_decoded(text@),
{
    html_escape::decode_html_entities(text).into_owned()
}

} // verus!
