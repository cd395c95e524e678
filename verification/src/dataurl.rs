//! Inline data URLs for receipt images: the payload the extraction provider
//! receives embeds the image bytes in standard base64.

use vstd::prelude::*;
use vstd::string::StringExecFns;
use base64::Engine;

verus! {

/// The standard base64 encoding (with padding) of a byte sequence. The
/// encoding is a function of the bytes alone, identical on every machine.
pub uninterp spec fn base64_of(bytes: Seq<u8>) -> Seq<char>;

/// Relies on `base64::engine::general_purpose::STANDARD.encode`: the
/// standard alphabet with padding, a pure function of the input bytes. The
/// output is ASCII, four characters for every started group of three
/// bytes.
#[verifier::external_body]
fn base64_encode(data: &[u8]) -> (r: String)
    ensures
        r@ == base64_of(data@),
        r@.len() == 4 * ((data@.len() + 2) / 3),
{
    base64::engine::general_purpose::STANDARD.encode(data)
}

/// Builds the inline data URL carrying an image of the given media type:
/// the scheme, the media type, the base64 marker and the encoded payload,
/// in that order.
pub fn image_data_url(data: &[u8], mime: &str) -> (r: String)
    ensures
        r@ == "data:"@ + mime@ + ";base64,"@ + base64_of(data@),
{
    let payload = base64_encode(data);
    let mut url = String::from_str("data:");
    url.append(mime);
    url.append(";base64,");
    url.append(payload.as_str());
    url
}

} // verus!
