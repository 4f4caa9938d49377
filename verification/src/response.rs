//! Responses of the API: the errors a request can end in, and the response
//! with the rate limit that the API reports in its headers.
use vstd::prelude::*;

use reqwest::header::{HeaderMap, HeaderValue};

use crate::decimal::{
    decimal, digits_value, is_digit, lemma_decimal, lemma_parse_digits, parse_u32, spec_parse_uint,
};
use crate::web::{
    ascii_chars, header_entries, header_get, header_key, header_to_str, header_value_bytes,
    is_visible_ascii,
};

verus! {

/// Represents an error
#[derive(Debug)]
pub enum RequestError {
    /// Request Failed due to a network or parsing issue
    RequestFailed(reqwest::Error),
    /// Hourly ratelimit reached
    Ratelimit,
    /// Parsing returned JSON failed
    JsonParseError(serde_json::Error),
    /// An unexpected error occured
    UnexpectedError(&'static str),
}

impl From<reqwest::Error> for RequestError {
    fn from(e: reqwest::Error) -> (r: Self) {
        RequestError::RequestFailed(e)
    }
}

impl vstd::std_specs::convert::FromSpecImpl<reqwest::Error> for RequestError {
    open spec fn obeys_from_spec() -> bool {
        true
    }

    open spec fn from_spec(e: reqwest::Error) -> Self {
        RequestError::RequestFailed(e)
    }
}

impl From<serde_json::Error> for RequestError {
    fn from(e: serde_json::Error) -> (r: Self) {
        RequestError::JsonParseError(e)
    }
}

impl vstd::std_specs::convert::FromSpecImpl<serde_json::Error> for RequestError {
    open spec fn obeys_from_spec() -> bool {
        true
    }

    open spec fn from_spec(e: serde_json::Error) -> Self {
        RequestError::JsonParseError(e)
    }
}

/// The status code with which the API answers a client over its hourly limit.
pub const TOO_MANY_REQUESTS: u16 = 429;

/// Filters out responses that the API refused: a response with status
/// `429 Too Many Requests` is the error `Ratelimit`; any other passes.
pub fn common_errors(status: u16) -> (r: Result<(), RequestError>)
    ensures
        status == TOO_MANY_REQUESTS ==> r matches Err(RequestError::Ratelimit),
        status != TOO_MANY_REQUESTS ==> r is Ok,
{
    if status == TOO_MANY_REQUESTS {
        return Err(RequestError::Ratelimit);
    }
    Ok(())
}

/// The header that holds the hourly request limit.
pub const RATELIMIT_HEADER: &'static str = "X-RateLimit-Limit";

/// The header that holds how many requests are left this hour.
pub const RATELIMIT_REMAINING_HEADER: &'static str = "X-RateLimit-Remaining";

/// What reading one rate limit header gives: its bytes must all be visible
/// ASCII (`Err(false)` otherwise) and read as a `u32` (`Err(true)` otherwise).
pub open spec fn spec_header_number(bytes: Seq<u8>) -> Result<u32, bool> {
    if !(forall|i: int| 0 <= i < bytes.len() ==> is_visible_ascii(#[trigger] bytes[i])) {
        Err(false)
    } else {
        match spec_parse_uint(ascii_chars(bytes), u32::MAX as nat) {
            Some(v) => Ok(v as u32),
            None => Err(true),
        }
    }
}

/// The message of the error for a header that is missing or does not read,
/// or the two numbers (limit, remaining) that the headers hold. The checks
/// come in the order: limit present, limit is text, remaining present,
/// remaining is text, limit is a number, remaining is a number.
pub open spec fn spec_ratelimit(entries: Map<Seq<u8>, Seq<u8>>) -> Result<(u32, u32), Seq<char>> {
    let lk = header_key(RATELIMIT_HEADER@);
    let rk = header_key(RATELIMIT_REMAINING_HEADER@);
    if !entries.dom().contains(lk) {
        Err("couldn't get ratelimit header"@)
    } else if spec_header_number(entries[lk]) == Err::<u32, bool>(false) {
        Err("couldn't convert HeaderValue into string"@)
    } else if !entries.dom().contains(rk) {
        Err("couldn't get ratelimit remaining header"@)
    } else if spec_header_number(entries[rk]) == Err::<u32, bool>(false) {
        Err("couldn't convert HeaderValue into string"@)
    } else {
        match (spec_header_number(entries[lk]), spec_header_number(entries[rk])) {
            (Ok(l), Ok(r)) => Ok((l, r)),
            _ => Err("couldn't parse ratelimit as number"@),
        }
    }
}

/// The bytes of a decimal numeral, as a header carries it.
pub open spec fn decimal_bytes(n: nat) -> Seq<u8> {
    decimal(n).map_values(|c: char| c as u8)
}

/// A response whose two rate limit headers hold the decimal numerals of `limit`
/// and `remaining` is read as exactly those two numbers: the library reads
/// back what the API writes.
pub proof fn lemma_ratelimit_headers_roundtrip(
    entries: Map<Seq<u8>, Seq<u8>>,
    limit: u32,
    remaining: u32,
)
    requires
        entries.dom().contains(header_key(RATELIMIT_HEADER@)),
        entries.dom().contains(header_key(RATELIMIT_REMAINING_HEADER@)),
        entries[header_key(RATELIMIT_HEADER@)] == decimal_bytes(limit as nat),
        entries[header_key(RATELIMIT_REMAINING_HEADER@)] == decimal_bytes(remaining as nat),
    ensures
        spec_ratelimit(entries) == Ok::<(u32, u32), Seq<char>>((limit, remaining)),
{
    lemma_header_number_decimal(limit as nat, u32::MAX as nat);
    lemma_header_number_decimal(remaining as nat, u32::MAX as nat);
}

/// The bytes are one or more ASCII digits.
pub open spec fn is_ascii_digits(bytes: Seq<u8>) -> bool {
    &&& bytes.len() >= 1
    &&& forall|i: int| 0 <= i < bytes.len() ==> 48 <= #[trigger] bytes[i] && bytes[i] <= 57
}

/// A header that holds one or more ASCII digits worth no more than `u32::MAX`
/// reads as that number, with or without leading zeros.
pub proof fn lemma_header_number_digits(bytes: Seq<u8>)
    requires
        is_ascii_digits(bytes),
        digits_value(ascii_chars(bytes)) <= u32::MAX,
    ensures
        spec_header_number(bytes) == Ok::<u32, bool>(digits_value(ascii_chars(bytes)) as u32),
{
    let c = ascii_chars(bytes);
    assert forall|i: int| 0 <= i < bytes.len() implies is_visible_ascii(#[trigger] bytes[i]) by {}
    assert forall|i: int| 0 <= i < c.len() implies is_digit(#[trigger] c[i]) by {
        assert(48 <= bytes[i] <= 57);
    }
    lemma_parse_digits(c, u32::MAX as nat);
}

/// When both rate limit headers hold ASCII digits worth no more than
/// `u32::MAX`, the rate limit is read as exactly those two numbers: the limit
/// from `X-RateLimit-Limit` and the remaining requests from
/// `X-RateLimit-Remaining`.
pub proof fn lemma_ratelimit_digit_headers(entries: Map<Seq<u8>, Seq<u8>>)
    requires
        entries.dom().contains(header_key(RATELIMIT_HEADER@)),
        entries.dom().contains(header_key(RATELIMIT_REMAINING_HEADER@)),
        is_ascii_digits(entries[header_key(RATELIMIT_HEADER@)]),
        is_ascii_digits(entries[header_key(RATELIMIT_REMAINING_HEADER@)]),
        digits_value(ascii_chars(entries[header_key(RATELIMIT_HEADER@)])) <= u32::MAX,
        digits_value(ascii_chars(entries[header_key(RATELIMIT_REMAINING_HEADER@)])) <= u32::MAX,
    ensures
        spec_ratelimit(entries) == Ok::<(u32, u32), Seq<char>>(
            (
                digits_value(ascii_chars(entries[header_key(RATELIMIT_HEADER@)])) as u32,
                digits_value(ascii_chars(entries[header_key(RATELIMIT_REMAINING_HEADER@)])) as u32,
            ),
        ),
{
    lemma_header_number_digits(entries[header_key(RATELIMIT_HEADER@)]);
    lemma_header_number_digits(entries[header_key(RATELIMIT_REMAINING_HEADER@)]);
}

proof fn lemma_header_number_decimal(n: nat, max: nat)
    requires
        n <= max,
        max == u32::MAX as nat,
    ensures
        spec_header_number(decimal_bytes(n)) == Ok::<u32, bool>(n as u32),
{
    let d = decimal(n);
    let b = decimal_bytes(n);
    lemma_decimal(n);
    assert forall|i: int| 0 <= i < b.len() implies is_visible_ascii(#[trigger] b[i]) by {
        assert(is_digit(d[i]));
    }
    assert forall|i: int| 0 <= i < d.len() implies #[trigger] ascii_chars(b)[i] == d[i] by {
        assert(is_digit(d[i]));
    }
    assert(ascii_chars(b) =~= d);
    assert(is_digit(d[0]));
}

/// `r` is what building a response from `inner` and headers holding `entries`
/// gives: the response with the two rate limit numbers, or the
/// `UnexpectedError` whose message [`spec_ratelimit`] names.
pub open spec fn built_from_headers<T>(
    r: Result<ApiResponse<T>, RequestError>,
    inner: T,
    entries: Map<Seq<u8>, Seq<u8>>,
) -> bool {
    match spec_ratelimit(entries) {
        Ok((l, rem)) => r matches Ok(a) && a.spec_response() == inner && a.spec_ratelimit() == l
            && a.spec_ratelimit_remaining() == rem,
        Err(msg) => r matches Err(RequestError::UnexpectedError(m)) && m@ == msg,
    }
}

/// Turns the reply to a request into the endpoint's result, in the order the
/// endpoints check it: a `429` status is `Ratelimit`; otherwise a body that
/// could not be read or decoded is `RequestFailed` with that error; otherwise
/// the decoded body becomes a response with the rate limit read from the
/// headers, as [`ApiResponse::new_with_headermap`] reads it.
pub fn respond<T>(
    status: u16,
    headers: &HeaderMap<HeaderValue>,
    body: Result<T, reqwest::Error>,
) -> (r: Result<ApiResponse<T>, RequestError>)
    ensures
        status == TOO_MANY_REQUESTS ==> r matches Err(RequestError::Ratelimit),
        status != TOO_MANY_REQUESTS ==> match body {
            Err(e) => r == Err::<ApiResponse<T>, RequestError>(RequestError::RequestFailed(e)),
            Ok(b) => built_from_headers(r, b, header_entries(*headers)),
        },
{
    match common_errors(status) {
        Err(e) => return Err(e),
        Ok(()) => {},
    }
    match body {
        Err(e) => Err(RequestError::RequestFailed(e)),
        Ok(b) => ApiResponse::new_with_headermap(b, headers),
    }
}

/// Represents a response from the API
///
/// It dereferences to the inner `T`, so its fields and methods can be reached directly.
#[derive(Debug, Clone)]
pub struct ApiResponse<T> {
    response: T,
    ratelimit: u32,
    ratelimit_remaining: u32,
}

impl<T> ApiResponse<T> {
    /// The data that the API answered with.
    pub closed spec fn spec_response(&self) -> T {
        self.response
    }

    /// The hourly request limit.
    pub closed spec fn spec_ratelimit(&self) -> u32 {
        self.ratelimit
    }

    /// The requests left this hour.
    pub closed spec fn spec_ratelimit_remaining(&self) -> u32 {
        self.ratelimit_remaining
    }

    /// Builds a response from its data and the two rate limit numbers.
    pub fn new(response: T, ratelimit: u32, ratelimit_remaining: u32) -> (r: Self)
        ensures
            r.spec_response() == response,
            r.spec_ratelimit() == ratelimit,
            r.spec_ratelimit_remaining() == ratelimit_remaining,
    {
        Self { response, ratelimit, ratelimit_remaining }
    }

    /// Builds a response from its data and the rate limit headers that came
    /// with it, `X-RateLimit-Limit` and `X-RateLimit-Remaining`. Fails with an
    /// `UnexpectedError` when a header is missing, is not visible ASCII, or
    /// does not read as a `u32`; see [`spec_ratelimit`] for which message.
    pub fn new_with_headermap(inner: T, headers: &HeaderMap<HeaderValue>) -> (r: Result<
        Self,
        RequestError,
    >)
        ensures
            built_from_headers(r, inner, header_entries(*headers)),
    {
        proof {
            reveal_strlit("X-RateLimit-Limit");
            reveal_strlit("X-RateLimit-Remaining");
        }
        let limit_value = match header_get(headers, RATELIMIT_HEADER) {
            Some(v) => v,
            None => return Err(RequestError::UnexpectedError("couldn't get ratelimit header")),
        };
        let ratelimit_str = match header_to_str(limit_value) {
            Some(s) => s,
            None => return Err(
                RequestError::UnexpectedError("couldn't convert HeaderValue into string"),
            ),
        };
        let remaining_value = match header_get(headers, RATELIMIT_REMAINING_HEADER) {
            Some(v) => v,
            None => return Err(
                RequestError::UnexpectedError("couldn't get ratelimit remaining header"),
            ),
        };
        let remaining_str = match header_to_str(remaining_value) {
            Some(s) => s,
            None => return Err(
                RequestError::UnexpectedError("couldn't convert HeaderValue into string"),
            ),
        };
        let ratelimit = match parse_u32(ratelimit_str) {
            Some(n) => n,
            None => return Err(RequestError::UnexpectedError("couldn't parse ratelimit as number")),
        };
        let ratelimit_remaining = match parse_u32(remaining_str) {
            Some(n) => n,
            None => return Err(RequestError::UnexpectedError("couldn't parse ratelimit as number")),
        };
        Ok(Self::new(inner, ratelimit, ratelimit_remaining))
    }

    /// Gets the default hourly ratelimit
    pub fn ratelimit(&self) -> (r: u32)
        ensures
            r == self.spec_ratelimit(),
    {
        self.ratelimit
    }

    /// Gets the remaining amount of requests
    /// This is reset hourly
    pub fn ratelimit_remaining(&self) -> (r: u32)
        ensures
            r == self.spec_ratelimit_remaining(),
    {
        self.ratelimit_remaining
    }
}

impl<T> std::ops::Deref for ApiResponse<T> {
    type Target = T;

    fn deref(&self) -> (r: &T)
        ensures
            *r == self.spec_response(),
    {
        &self.response
    }
}

} // verus!
