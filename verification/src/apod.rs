//! The Astronomy Picture of the Day API
use vstd::prelude::*;

use crate::date::{
    is_date_text, lemma_date_roundtrip, lemma_date_text, spec_date_string, spec_parse_date, Date,
};
use crate::decimal::{
    decimal, is_padded_numeral, lemma_decimal_canonical, lemma_parse_digits, spec_parse_uint,
};

verus! {

/// Represents a query to the APOD API
pub enum ApodQuery {
    /// Query image from a single date
    Single(Date),
    /// Query images from a range of dates
    Range {
        /// The start of the range
        start_date: Date,
        /// The end of the range
        end_date: Date,
    },
    /// Return x random images
    /// Maximum of 100 images
    Count(u8),
    /// Get the current APOD
    Today,
}

/// A response from the APOD API
pub struct ApodResponse {
    /// The title of the image
    pub title: String,
    /// Date of image
    pub date: Date,
    /// The supplied text explanation of the image
    pub explanation: String,
    /// The URL of the APOD image or video of the day
    pub url: String,
    /// The URL for any high-resolution image that day
    pub hdurl: Option<String>,
    /// The name of the copyright holder
    pub copyright: Option<String>,
}

/// The query parameters that select what a query asks for, before the API key:
/// the date, the two ends of the range, the count, or none for today.
pub open spec fn spec_apod_params(query: ApodQuery) -> Seq<(Seq<char>, Seq<char>)> {
    match query {
        ApodQuery::Single(date) => seq![("date"@, spec_date_string(date))],
        ApodQuery::Range { start_date, end_date } => seq![
            ("start_date"@, spec_date_string(start_date)),
            ("end_date"@, spec_date_string(end_date)),
        ],
        ApodQuery::Count(count) => seq![("count"@, decimal(count as nat))],
        ApodQuery::Today => seq![],
    }
}

/// Each query asks for what it names, and each value reads back as what the
/// query holds: a single date is sent as `date`, a range as `start_date` then
/// `end_date`, both as `YYYY-MM-DD` text that reads back as the query's dates;
/// a count is sent as `count`, the plain numeral of the count; today sends
/// nothing before the key.
pub proof fn lemma_apod_params_read_back(query: ApodQuery)
    ensures
        ({
            let p = spec_apod_params(query);
            match query {
                ApodQuery::Single(date) => p.len() == 1 && p[0].0 == "date"@ && is_date_text(
                    p[0].1,
                    date,
                ) && spec_parse_date(p[0].1) == Some(date),
                ApodQuery::Range { start_date, end_date } => p.len() == 2 && p[0].0
                    == "start_date"@ && is_date_text(p[0].1, start_date) && spec_parse_date(p[0].1)
                    == Some(start_date) && p[1].0 == "end_date"@ && is_date_text(p[1].1, end_date)
                    && spec_parse_date(p[1].1) == Some(end_date),
                ApodQuery::Count(count) => p.len() == 1 && p[0].0 == "count"@ && is_padded_numeral(
                    p[0].1,
                    count as nat,
                    1,
                ) && spec_parse_uint(p[0].1, u8::MAX as nat) == Some(count as nat),
                ApodQuery::Today => p.len() == 0,
            }
        }),
{
    match query {
        ApodQuery::Single(date) => {
            lemma_date_text(date);
            lemma_date_roundtrip(date);
        },
        ApodQuery::Range { start_date, end_date } => {
            lemma_date_text(start_date);
            lemma_date_roundtrip(start_date);
            lemma_date_text(end_date);
            lemma_date_roundtrip(end_date);
        },
        ApodQuery::Count(count) => {
            lemma_decimal_canonical(count as nat);
            lemma_parse_digits(decimal(count as nat), u8::MAX as nat);
        },
        ApodQuery::Today => {},
    }
}

} // verus!
