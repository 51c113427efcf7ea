//! Images as text: the data address that shows a stored image.

use base64::Engine;
use vstd::prelude::*;
use vstd::string::*;

verus! {

/// The text that the standard Base64 alphabet, with padding, makes of a
/// sequence of bytes, as `base64` encodes it.
pub uninterp spec fn base64_standard(data: Seq<u8>) -> Seq<char>;

/// The encoded text fits in memory: four characters for every three bytes
/// begun.
pub open spec fn encodable(data: Seq<u8>) -> bool {
    data.len() / 3 * 4 + 4 <= usize::MAX
}

/// Calls `encode` of `base64`'s engine `STANDARD`. The text depends on the
/// bytes alone. The engine panics where the length of the text is no
/// `usize`, which the precondition rules out.
#[verifier::external_body]
fn encode_base64(data: &[u8]) -> (text: String)
    requires
        encodable(data@),
    ensures
        text@ == base64_standard(data@),
{
    base64::engine::general_purpose::STANDARD.encode(data)
}

/// The media type of an image file with this extension: JPEG for `jpg`,
/// PNG for everything else.
pub open spec fn mime_of(extension: Option<Seq<char>>) -> Seq<char> {
    if extension == Some("jpg"@) {
        "image/jpeg"@
    } else {
        "image/png"@
    }
}

/// The data address of an image: its media type and its bytes in Base64.
pub open spec fn data_url_of(extension: Option<Seq<char>>, data: Seq<u8>) -> Seq<char> {
    "data:"@ + mime_of(extension) + ";base64,"@ + base64_standard(data)
}

/// The data address of the image that a file with this extension holds.
/// There is none for an image too large to encode.
pub fn image_data_url(extension: Option<&str>, image_data: &[u8]) -> (url: Option<String>)
    ensures
        match url {
            Some(address) => encodable(image_data@) && address@ == data_url_of(
                match extension {
                    Some(text) => Some(text@),
                    None => None,
                },
                image_data@,
            ),
            None => !encodable(image_data@),
        },
{
    if image_data.len() / 3 > (usize::MAX - 4) / 4 {
        return None;
    }
    let jpeg = match extension {
        Some(text) => text.to_owned() == "jpg".to_owned(),
        None => false,
    };
    let mime = if jpeg {
        "image/jpeg"
    } else {
        "image/png"
    };
    let encoded = encode_base64(image_data);
    Some("data:".to_owned().concat(mime).concat(";base64,").concat(encoded.as_str()))
}

} // verus!
