//! The advertisement image as a data URL: raw image bytes are encoded with
//! base64 and framed with the fixed `data:` prefix.

use vstd::prelude::*;
use crate::text::{chars_of, string_of, push_chars};

verus! {

/// The standard base64 encoding (with padding) of a byte sequence.
pub uninterp spec fn base64_of(bytes: Seq<u8>) -> Seq<char>;

/// Relies on `base64::engine::general_purpose::STANDARD.encode`: the standard
/// alphabet with padding, a function of the input bytes alone; an empty input
/// encodes to the empty string. The length bound keeps the encoder's buffer
/// size computation from overflowing, on which it would panic.
#[verifier::external_body]
fn base64_encode(bytes: &Vec<u8>) -> (r: String)
    requires
        bytes@.len() <= (usize::MAX - 4) / 4 * 3,
    ensures
        r@ == base64_of(bytes@),
        bytes@.len() == 0 ==> r@.len() == 0,
{
    base64::Engine::encode(&base64::engine::general_purpose::STANDARD, bytes.as_slice())
}

/// The data URL that the shell shows for advertisement image bytes.
pub fn get_advertisement_data_url(bytes: &Vec<u8>) -> (r: String)
    requires
        bytes@.len() <= (usize::MAX - 4) / 4 * 3,
    ensures
        r@ == "data:image/png;base64,"@ + base64_of(bytes@),
{
    let encoded = base64_encode(bytes);
    let mut r = chars_of("data:image/png;base64,");
    let e = chars_of(encoded.as_str());
    push_chars(&mut r, &e);
    string_of(&r)
}

} // verus!
