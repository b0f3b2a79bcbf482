//! A dictionary lookup library: builds lookup URLs for a dictionary web API,
//! decodes the API's JSON responses into structured word entries, and renders
//! the entries as styled terminal text.

pub mod decode;
pub mod json;
pub mod laws;
pub mod model;
pub mod render;
pub mod serialize;
pub mod text;

use vstd::prelude::*;

use crate::decode::{decode_entries, decode_response, DecodeError};
use crate::render::{render_text, rendered_text};

verus! {

/// The fixed base of the dictionary API, up to and including the final slash;
/// the word to look up is appended verbatim.
pub open spec fn api_url_base() -> Seq<char> {
    "https://api.dictionaryapi.dev/api/v2/entries/en/"@
}

/// Builds the lookup URL for one word: the fixed API base with the word
/// appended verbatim (no escaping is performed).
pub fn lookup_url(word: &str) -> (r: String)
    ensures
        r@ == api_url_base() + word@,
{
    let mut url = "https://api.dictionaryapi.dev/api/v2/entries/en/".to_owned();
    url.append(word);
    url
}

/// The whole lookup pipeline after the network: decodes a response body and
/// renders the decoded entries as styled terminal text, in response order.
/// Fails exactly where decoding fails, with the decoder's error; a valid
/// empty response yields the empty text.
pub fn lookup_output(body: &str) -> (r: Result<String, DecodeError>)
    ensures
        r is Ok <==> decode_response(body@) is Ok,
        r is Ok ==> r->Ok_0@ == rendered_text(decode_response(body@)->Ok_0),
        r is Err ==> r->Err_0 == decode_response(body@)->Err_0,
{
    match decode_entries(body) {
        Ok(entries) => Ok(render_text(&entries)),
        Err(e) => Err(e),
    }
}

} // verus!
