use nasa_api::{common_errors, ApiResponse, RequestError};
use reqwest::header::{HeaderMap, HeaderValue};

struct A {
    b: i32,
}

impl A {
    pub fn new() -> Self {
        Self { b: 5 }
    }

    fn get_b(&self) -> i32 {
        self.b
    }
}

#[test]
fn api_response_test() {
    let a = A::new();
    let api_response = ApiResponse::new(a, 100, 99);

    assert_eq!(api_response.get_b(), 5);
    assert_eq!(api_response.ratelimit(), 100);
    assert_eq!(api_response.ratelimit_remaining(), 99);
}

fn headers(pairs: &[(&'static str, &[u8])]) -> HeaderMap<HeaderValue> {
    let mut map = HeaderMap::new();
    for (name, value) in pairs {
        map.insert(*name, HeaderValue::from_bytes(value).unwrap());
    }
    map
}

fn unexpected(r: Result<ApiResponse<u8>, RequestError>) -> &'static str {
    match r {
        Err(RequestError::UnexpectedError(m)) => m,
        _ => panic!("expected an unexpected error"),
    }
}

#[test]
fn headers_give_the_ratelimit() {
    let h = headers(&[("x-ratelimit-limit", b"40"), ("x-ratelimit-remaining", b"39")]);
    let r = ApiResponse::new_with_headermap(7u8, &h).unwrap();
    assert_eq!(*r, 7);
    assert_eq!(r.ratelimit(), 40);
    assert_eq!(r.ratelimit_remaining(), 39);
}

#[test]
fn header_names_are_case_insensitive() {
    let h = headers(&[("X-RATELIMIT-LIMIT", b"1000"), ("X-RateLimit-Remaining", b"0")]);
    let r = ApiResponse::new_with_headermap(0u8, &h).unwrap();
    assert_eq!(r.ratelimit(), 1000);
    assert_eq!(r.ratelimit_remaining(), 0);
}

#[test]
fn header_numbers_read_as_str_parse_does() {
    let h = headers(&[("x-ratelimit-limit", b"+0042"), ("x-ratelimit-remaining", b"4294967295")]);
    let r = ApiResponse::new_with_headermap(0u8, &h).unwrap();
    assert_eq!(r.ratelimit(), 42);
    assert_eq!(r.ratelimit_remaining(), u32::MAX);
}

#[test]
fn missing_limit_header() {
    let h = headers(&[("x-ratelimit-remaining", b"39")]);
    assert_eq!(
        unexpected(ApiResponse::new_with_headermap(0u8, &h)),
        "couldn't get ratelimit header"
    );
}

#[test]
fn missing_remaining_header() {
    let h = headers(&[("x-ratelimit-limit", b"40")]);
    assert_eq!(
        unexpected(ApiResponse::new_with_headermap(0u8, &h)),
        "couldn't get ratelimit remaining header"
    );
}

#[test]
fn limit_header_not_text() {
    let h = headers(&[("x-ratelimit-limit", &[0x34, 0xff]), ("x-ratelimit-remaining", b"1")]);
    assert_eq!(
        unexpected(ApiResponse::new_with_headermap(0u8, &h)),
        "couldn't convert HeaderValue into string"
    );
}

#[test]
fn text_is_checked_before_the_remaining_header_is_looked_up() {
    let h = headers(&[("x-ratelimit-limit", &[0x80])]);
    assert_eq!(
        unexpected(ApiResponse::new_with_headermap(0u8, &h)),
        "couldn't convert HeaderValue into string"
    );
}

#[test]
fn remaining_header_not_text() {
    let h = headers(&[("x-ratelimit-limit", b"1"), ("x-ratelimit-remaining", &[0x31, 0x80])]);
    assert_eq!(
        unexpected(ApiResponse::new_with_headermap(0u8, &h)),
        "couldn't convert HeaderValue into string"
    );
}

#[test]
fn limit_header_not_a_number() {
    let h = headers(&[("x-ratelimit-limit", b"4O"), ("x-ratelimit-remaining", b"1")]);
    assert_eq!(
        unexpected(ApiResponse::new_with_headermap(0u8, &h)),
        "couldn't parse ratelimit as number"
    );
}

#[test]
fn remaining_header_too_large() {
    let h = headers(&[("x-ratelimit-limit", b"1"), ("x-ratelimit-remaining", b"4294967296")]);
    assert_eq!(
        unexpected(ApiResponse::new_with_headermap(0u8, &h)),
        "couldn't parse ratelimit as number"
    );
}

#[test]
fn text_errors_come_before_number_errors() {
    let h = headers(&[("x-ratelimit-limit", b"x"), ("x-ratelimit-remaining", &[0xc3, 0xa9])]);
    assert_eq!(
        unexpected(ApiResponse::new_with_headermap(0u8, &h)),
        "couldn't convert HeaderValue into string"
    );
}

#[test]
fn header_roundtrip_of_numbers() {
    for (l, r) in [(0u32, 0u32), (9, 10), (1000, 999), (u32::MAX, 123456789)] {
        let h = headers(&[
            ("x-ratelimit-limit", l.to_string().as_bytes()),
            ("x-ratelimit-remaining", r.to_string().as_bytes()),
        ]);
        let resp = ApiResponse::new_with_headermap((), &h).unwrap();
        assert_eq!(resp.ratelimit(), l);
        assert_eq!(resp.ratelimit_remaining(), r);
    }
}

#[test]
fn too_many_requests_is_the_ratelimit_error() {
    assert!(matches!(common_errors(429), Err(RequestError::Ratelimit)));
    assert!(common_errors(200).is_ok());
    assert!(common_errors(404).is_ok());
    assert!(common_errors(500).is_ok());
}

fn transport_error() -> reqwest::Error {
    reqwest::Client::new().get("not a url").build().unwrap_err()
}

#[test]
fn reply_with_too_many_requests_is_the_ratelimit_error() {
    let h = headers(&[("x-ratelimit-limit", b"40"), ("x-ratelimit-remaining", b"0")]);
    assert!(matches!(nasa_api::respond(429, &h, Ok(1u8)), Err(RequestError::Ratelimit)));
    assert!(matches!(
        nasa_api::respond::<u8>(429, &h, Err(transport_error())),
        Err(RequestError::Ratelimit)
    ));
}

#[test]
fn reply_whose_body_failed_is_the_request_error() {
    let h = headers(&[("x-ratelimit-limit", b"40"), ("x-ratelimit-remaining", b"0")]);
    assert!(matches!(
        nasa_api::respond::<u8>(200, &h, Err(transport_error())),
        Err(RequestError::RequestFailed(_))
    ));
    let no_headers = headers(&[]);
    assert!(matches!(
        nasa_api::respond::<u8>(500, &no_headers, Err(transport_error())),
        Err(RequestError::RequestFailed(_))
    ));
}

#[test]
fn reply_with_a_body_reads_the_headers() {
    let h = headers(&[("x-ratelimit-limit", b"40"), ("x-ratelimit-remaining", b"39")]);
    let r = nasa_api::respond(404, &h, Ok(3u8)).unwrap();
    assert_eq!(*r, 3);
    assert_eq!(r.ratelimit(), 40);
    assert_eq!(r.ratelimit_remaining(), 39);
    let missing = headers(&[("x-ratelimit-limit", b"40")]);
    assert_eq!(
        unexpected(nasa_api::respond(200, &missing, Ok(3u8))),
        "couldn't get ratelimit remaining header"
    );
}
