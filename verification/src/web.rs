//! The types of `reqwest` and `serde_json` that the library carries, and the
//! calls into `reqwest` (and `http`, whose header types it re-exports) that
//! the library makes, each with the contract it is taken on.
use vstd::prelude::*;

use reqwest::header::{HeaderMap, HeaderValue};
use reqwest::Client as HttpClient;

verus! {

/// `reqwest::Error`, carried opaquely inside `RequestError`.
#[verifier::external_type_specification]
#[verifier::external_body]
pub struct ExReqwestError(reqwest::Error);

/// `serde_json::Error`, carried opaquely inside `RequestError`.
#[verifier::external_type_specification]
#[verifier::external_body]
pub struct ExJsonError(serde_json::Error);

/// `reqwest::Client`, the HTTP client that sends the requests.
#[verifier::external_type_specification]
#[verifier::external_body]
pub struct ExHttpClient(HttpClient);

/// `http::HeaderMap`, the headers of a response.
#[verifier::external_type_specification]
#[verifier::external_body]
#[verifier::reject_recursive_types(T)]
pub struct ExHeaderMap<T>(reqwest::header::HeaderMap<T>);

/// `http::HeaderValue`, the value of one header.
#[verifier::external_type_specification]
#[verifier::external_body]
pub struct ExHeaderValue(reqwest::header::HeaderValue);

/// What a header map holds, as `get` sees it: for each header name (stored in
/// lower case, as `http` normalises names) the bytes of the first value
/// inserted under it.
pub uninterp spec fn header_entries(m: HeaderMap<HeaderValue>) -> Map<Seq<u8>, Seq<u8>>;

/// The bytes of a header value.
pub uninterp spec fn header_value_bytes(v: HeaderValue) -> Seq<u8>;

/// A name that `http` accepts for a lookup and normalises by lower-casing: one
/// to 64 ASCII letters, digits or `-`.
pub open spec fn is_simple_header_name(name: Seq<char>) -> bool {
    &&& 1 <= name.len() <= 64
    &&& forall|i: int|
        0 <= i < name.len() ==> {
            let c = #[trigger] name[i];
            ('a' <= c && c <= 'z') || ('A' <= c && c <= 'Z') || ('0' <= c && c <= '9') || c == '-'
        }
}

/// The key under which `http` stores a header name: its bytes, lower-cased.
pub open spec fn header_key(name: Seq<char>) -> Seq<u8> {
    name.map_values(
        |c: char|
            if 'A' <= c && c <= 'Z' {
                ((c as int) + 32) as u8
            } else {
                c as u8
            },
    )
}

/// A byte that `HeaderValue::to_str` accepts: visible ASCII or a tab.
pub open spec fn is_visible_ascii(b: u8) -> bool {
    (32 <= b && b < 127) || b == 9
}

/// The characters of an ASCII byte string.
pub open spec fn ascii_chars(bytes: Seq<u8>) -> Seq<char> {
    bytes.map_values(|b: u8| b as char)
}

/// `HeaderMap::get`: looks the name up case-insensitively and gives the first
/// value stored under it. The contract claims that the value is there exactly
/// when the map holds the lower-cased name, and that it is the value the map
/// holds for it.
#[verifier::external_body]
pub fn header_get<'a>(m: &'a HeaderMap<HeaderValue>, name: &str) -> (r: Option<&'a HeaderValue>)
    requires
        is_simple_header_name(name@),
    ensures
        r is Some <==> header_entries(*m).dom().contains(header_key(name@)),
        r matches Some(v) ==> header_value_bytes(*v) == header_entries(*m)[header_key(name@)],
{
    m.get(name)
}

/// `HeaderValue::to_str`: the contract claims that it succeeds exactly when
/// every byte is visible ASCII or a tab, and then gives those bytes as text.
#[verifier::external_body]
pub fn header_to_str(v: &HeaderValue) -> (r: Option<&str>)
    ensures
        r is Some <==> (forall|i: int|
            0 <= i < header_value_bytes(*v).len() ==> is_visible_ascii(
                #[trigger] header_value_bytes(*v)[i],
            )),
        r matches Some(s) ==> s@ == ascii_chars(header_value_bytes(*v)),
{
    v.to_str().ok()
}

/// `reqwest::Client::new`. Nothing is claimed of the client. `reqwest`
/// documents that it panics where the TLS backend cannot be initialised or the
/// resolver cannot load the system configuration; with the `rustls` backend and
/// the default resolver neither is read from the machine.
#[verifier::external_body]
pub fn http_client_new() -> HttpClient {
    HttpClient::new()
}

} // verus!
