//! The API client and the requests it makes.
use std::sync::Arc;

use vstd::prelude::*;

use crate::apod::{spec_apod_params, ApodQuery};
use crate::decimal::u32_to_string;
use crate::neo_ws::NeoWs;
use crate::web::http_client_new;
use reqwest::Client as HttpClient;

verus! {

/// The address under which all endpoints of the API stand.
pub const API_BASE_ADDRESS: &'static str = "https://api.nasa.gov";

/// The key that [`Client::default`] uses.
pub const DEMO_KEY: &'static str = "DEMO_KEY";

/// The text of the query parameters of a request, in order.
pub open spec fn pairs_view(q: Seq<(String, String)>) -> Seq<(Seq<char>, Seq<char>)> {
    q.map_values(|p: (String, String)| (p.0@, p.1@))
}

/// A request to send to the API: a GET of `url` with the query parameters `query`.
pub struct ApiRequest {
    /// The address of the endpoint
    pub url: String,
    /// The query parameters, name then value, in the order they are sent
    pub query: Vec<(String, String)>,
}

impl View for ApiRequest {
    type V = (Seq<char>, Seq<(Seq<char>, Seq<char>)>);

    open spec fn view(&self) -> Self::V {
        (self.url@, pairs_view(self.query@))
    }
}

/// `path` appended to the base address of the API.
pub fn endpoint(path: &str) -> (r: String)
    ensures
        r@ == API_BASE_ADDRESS@ + path@,
{
    let mut url = String::from_str(API_BASE_ADDRESS);
    url.append(path);
    url
}

/// A query parameter named `name` with the value `value`.
pub fn param(name: &str, value: String) -> (r: (String, String))
    ensures
        r.0@ == name@,
        r.1@ == value@,
{
    (String::from_str(name), value)
}

/// The request `url?params&api_key=key`: the parameters in their order, the
/// API key last.
pub fn request_with_key(url: String, params: Vec<(String, String)>, api_key: &String) -> (r:
    ApiRequest)
    ensures
        r@ == (url@, pairs_view(params@).push(("api_key"@, api_key@))),
{
    let mut query = params;
    let ghost before = query@;
    query.push(param("api_key", api_key.clone()));
    assert(pairs_view(query@) =~= pairs_view(before).push(("api_key"@, api_key@)));
    ApiRequest { url, query }
}

/// `Arc::clone`: the contract claims that the new pointer points to the same
/// value, as std documents (another pointer to the same allocation).
#[verifier::external_body]
fn arc_share<T>(a: &Arc<T>) -> (r: Arc<T>)
    ensures
        r == *a,
{
    Arc::clone(a)
}

pub(crate) struct ClientInfo {
    api_key: String,
    client: HttpClient,
}

impl ClientInfo {
    pub closed spec fn spec_api_key(&self) -> Seq<char> {
        self.api_key@
    }

    pub closed spec fn spec_http(&self) -> HttpClient {
        self.client
    }

    pub fn new(api_key: String, client: HttpClient) -> (r: Self)
        ensures
            r.spec_api_key() == api_key@,
            r.spec_http() == client,
    {
        Self { api_key, client }
    }

    pub(crate) fn api_key(&self) -> (r: &String)
        ensures
            r@ == self.spec_api_key(),
    {
        &self.api_key
    }

    pub(crate) fn http(&self) -> (r: &HttpClient)
        ensures
            *r == self.spec_http(),
    {
        &self.client
    }
}

/// The API client
pub struct Client {
    client_info: Arc<ClientInfo>,
    neo_ws: NeoWs,
}

impl Client {
    /// The NeoWs wrapper of a client uses the client's own key and HTTP client.
    #[verifier::type_invariant]
    spec fn shares_key(self) -> bool {
        &&& self.neo_ws.spec_api_key() == self.client_info.spec_api_key()
        &&& self.neo_ws.spec_http() == self.client_info.spec_http()
    }

    /// The API key that the client sends with each request.
    pub closed spec fn spec_api_key(&self) -> Seq<char> {
        self.client_info.spec_api_key()
    }

    /// The HTTP client that sends the requests.
    pub closed spec fn spec_http(&self) -> HttpClient {
        self.client_info.spec_http()
    }

    /// Create a new [`Client`] with the given API key
    pub fn new(api_key: String) -> (r: Self)
        ensures
            r.spec_api_key() == api_key@,
    {
        let client_info = Arc::new(ClientInfo::new(api_key, http_client_new()));
        let neo_ws = NeoWs::new(arc_share(&client_info));
        Self { client_info, neo_ws }
    }

    /// The request that [`ApodQuery`] makes: `GET /planetary/apod` with the
    /// query's parameters and the API key.
    pub fn apod_request(&self, query: ApodQuery) -> (r: ApiRequest)
        ensures
            r@ == (
                API_BASE_ADDRESS@ + "/planetary/apod"@,
                spec_apod_params(query).push(("api_key"@, self.spec_api_key())),
            ),
    {
        let ghost q = query;
        let mut params: Vec<(String, String)> = Vec::new();
        match query {
            ApodQuery::Single(date) => {
                params.push(param("date", date.to_string()));
            },
            ApodQuery::Range { start_date, end_date } => {
                params.push(param("start_date", start_date.to_string()));
                params.push(param("end_date", end_date.to_string()));
            },
            ApodQuery::Count(count) => {
                params.push(param("count", u32_to_string(count as u32)));
            },
            ApodQuery::Today => {},
        }
        assert(pairs_view(params@) =~= spec_apod_params(q));
        request_with_key(endpoint("/planetary/apod"), params, self.client_info.api_key())
    }

    /// Returns the wrapper for the NeoWs API
    pub fn neo_ws(&self) -> (r: &NeoWs)
        ensures
            r.spec_api_key() == self.spec_api_key(),
            r.spec_http() == self.spec_http(),
    {
        proof {
            use_type_invariant(self);
        }
        &self.neo_ws
    }

    /// The HTTP client that sends the requests.
    pub fn http(&self) -> (r: &HttpClient)
        ensures
            *r == self.spec_http(),
    {
        self.client_info.http()
    }
}

impl Default for Client {
    /// A client with the API's demonstration key, `DEMO_KEY`.
    fn default() -> (r: Self)
        ensures
            r.spec_api_key() == DEMO_KEY@,
    {
        Self::new(String::from_str(DEMO_KEY))
    }
}

} // verus!
