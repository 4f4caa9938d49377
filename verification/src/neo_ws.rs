//! The Near Earth Object Web Service API
use std::sync::Arc;

use vstd::prelude::*;

use crate::client::{
    endpoint, param, request_with_key, ApiRequest, ClientInfo, API_BASE_ADDRESS,
};
use crate::date::{is_date_text, lemma_date_text, spec_date_string, Date};
use crate::decimal::{
    decimal, is_padded_numeral, lemma_decimal_canonical, push_decimal, u32_to_string,
};
use reqwest::Client as HttpClient;

verus! {

/// Client for the Near Earth Object Web Service API
pub struct NeoWs {
    client_info: Arc<ClientInfo>,
}

impl NeoWs {
    /// The API key that the wrapper sends with each request.
    pub closed spec fn spec_api_key(&self) -> Seq<char> {
        self.client_info.spec_api_key()
    }

    /// The HTTP client that sends the requests.
    pub closed spec fn spec_http(&self) -> HttpClient {
        self.client_info.spec_http()
    }

    pub(crate) fn new(client_info: Arc<ClientInfo>) -> (r: Self)
        ensures
            r.spec_api_key() == client_info.spec_api_key(),
            r.spec_http() == client_info.spec_http(),
    {
        Self { client_info }
    }

    /// The request of [`NeoWs::feed`]: `GET /neo/rest/v1/feed` with the start
    /// date, the end date and the API key.
    pub fn feed_request(&self, start_date: Date, end_date: Date) -> (r: ApiRequest)
        ensures
            r@ == (
                API_BASE_ADDRESS@ + "/neo/rest/v1/feed"@,
                seq![
                    ("start_date"@, spec_date_string(start_date)),
                    ("end_date"@, spec_date_string(end_date)),
                    ("api_key"@, self.spec_api_key()),
                ],
            ),
            is_date_text(r@.1[0].1, start_date),
            is_date_text(r@.1[1].1, end_date),
    {
        proof {
            lemma_date_text(start_date);
            lemma_date_text(end_date);
        }
        let mut params: Vec<(String, String)> = Vec::new();
        params.push(param("start_date", start_date.to_string()));
        params.push(param("end_date", end_date.to_string()));
        let r = request_with_key(endpoint("/neo/rest/v1/feed"), params, self.client_info.api_key());
        assert(r@.1 =~= seq![
            ("start_date"@, spec_date_string(start_date)),
            ("end_date"@, spec_date_string(end_date)),
            ("api_key"@, self.spec_api_key()),
        ]);
        r
    }

    /// The request of [`NeoWs::lookup`]: `GET /neo/rest/v1/neo/{id}` with the API key.
    pub fn lookup_request(&self, id: u32) -> (r: ApiRequest)
        ensures
            r@ == (
                API_BASE_ADDRESS@ + "/neo/rest/v1/neo/"@ + decimal(id as nat),
                seq![("api_key"@, self.spec_api_key())],
            ),
            is_padded_numeral(
                r@.0.skip((API_BASE_ADDRESS@ + "/neo/rest/v1/neo/"@).len() as int),
                id as nat,
                1,
            ),
    {
        proof { lemma_decimal_canonical(id as nat); }
        let mut url = endpoint("/neo/rest/v1/neo/");
        push_decimal(&mut url, id);
        let params: Vec<(String, String)> = Vec::new();
        let r = request_with_key(url, params, self.client_info.api_key());
        assert(r@.1 =~= seq![("api_key"@, self.spec_api_key())]);
        assert(r@.0.skip((API_BASE_ADDRESS@ + "/neo/rest/v1/neo/"@).len() as int) =~= decimal(
            id as nat,
        ));
        r
    }

    /// The request of [`NeoWs::browse`]: `GET /neo/rest/v1/neo/browse` with the
    /// page, the page size and the API key.
    pub fn browse_request(&self, page: u32, size: u32) -> (r: ApiRequest)
        ensures
            r@ == (
                API_BASE_ADDRESS@ + "/neo/rest/v1/neo/browse"@,
                seq![
                    ("page"@, decimal(page as nat)),
                    ("size"@, decimal(size as nat)),
                    ("api_key"@, self.spec_api_key()),
                ],
            ),
            is_padded_numeral(r@.1[0].1, page as nat, 1),
            is_padded_numeral(r@.1[1].1, size as nat, 1),
    {
        proof {
            lemma_decimal_canonical(page as nat);
            lemma_decimal_canonical(size as nat);
        }
        let mut params: Vec<(String, String)> = Vec::new();
        params.push(param("page", u32_to_string(page)));
        params.push(param("size", u32_to_string(size)));
        let r = request_with_key(
            endpoint("/neo/rest/v1/neo/browse"),
            params,
            self.client_info.api_key(),
        );
        assert(r@.1 =~= seq![
            ("page"@, decimal(page as nat)),
            ("size"@, decimal(size as nat)),
            ("api_key"@, self.spec_api_key()),
        ]);
        r
    }

    /// The HTTP client that sends the requests.
    pub fn http(&self) -> (r: &HttpClient)
        ensures
            *r == self.spec_http(),
    {
        self.client_info.http()
    }
}

/// Information about the amount of objects in the API
#[derive(Debug)]
pub struct NeoWsBrowsePageInfo {
    /// Amount of objects returned
    pub size: u32,
    /// Total objects in the API
    pub total_elements: u32,
    /// Total amount of pages at this page size
    pub total_pages: u32,
}

} // verus!
