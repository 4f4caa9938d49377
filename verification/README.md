# nasa_api

A client for NASA's open APIs (the Astronomy Picture of the Day and the Near
Earth Object Web Service), with its logic verified by Verus.

- `src/` is the verified library: dates in the `YYYY-MM-DD` form the API uses
  (written by `Date::to_string`, read back by `Date::parse`), decimal numerals,
  the requests each endpoint sends (`Client::apod_request`,
  `NeoWs::{feed,lookup,browse}_request`), the status check (`common_errors`)
  and the response with the rate limit read from the headers
  (`ApiResponse::new_with_headermap`). `src/web.rs` holds the calls into
  `reqwest`/`http` with the contracts they are taken on.
- `app/` sends the requests with `reqwest`, decodes the JSON with `serde`, and
  holds the response types that carry floating-point numbers.
- `tests/` runs the library on concrete values.
