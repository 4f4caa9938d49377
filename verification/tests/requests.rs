use nasa_api::apod::ApodQuery;
use nasa_api::{ApiRequest, Client, Date};

fn pairs(req: &ApiRequest) -> Vec<(&str, &str)> {
    req.query.iter().map(|(k, v)| (k.as_str(), v.as_str())).collect()
}

#[test]
fn default_client_uses_the_demo_key() {
    let client = Client::default();
    let req = client.apod_request(ApodQuery::Today);
    assert_eq!(req.url, "https://api.nasa.gov/planetary/apod");
    assert_eq!(pairs(&req), vec![("api_key", "DEMO_KEY")]);
}

#[test]
fn apod_requests() {
    let client = Client::new("abc".to_string());
    let d = |year, month, day| Date { year, month, day };

    let req = client.apod_request(ApodQuery::Single(d(2024, 1, 5)));
    assert_eq!(pairs(&req), vec![("date", "2024-01-05"), ("api_key", "abc")]);

    let req = client.apod_request(ApodQuery::Range {
        start_date: d(2024, 1, 5),
        end_date: d(2024, 2, 15),
    });
    assert_eq!(
        pairs(&req),
        vec![("start_date", "2024-01-05"), ("end_date", "2024-02-15"), ("api_key", "abc")]
    );

    let req = client.apod_request(ApodQuery::Count(100));
    assert_eq!(pairs(&req), vec![("count", "100"), ("api_key", "abc")]);
    assert_eq!(req.url, "https://api.nasa.gov/planetary/apod");
}

#[test]
fn neo_ws_requests() {
    let client = Client::new("key1".to_string());
    let neo_ws = client.neo_ws();

    let req = neo_ws.feed_request(
        Date { year: 2015, month: 9, day: 7 },
        Date { year: 2015, month: 9, day: 8 },
    );
    assert_eq!(req.url, "https://api.nasa.gov/neo/rest/v1/feed");
    assert_eq!(
        pairs(&req),
        vec![("start_date", "2015-09-07"), ("end_date", "2015-09-08"), ("api_key", "key1")]
    );

    let req = neo_ws.lookup_request(3542519);
    assert_eq!(req.url, "https://api.nasa.gov/neo/rest/v1/neo/3542519");
    assert_eq!(pairs(&req), vec![("api_key", "key1")]);

    let req = neo_ws.browse_request(10, 20);
    assert_eq!(req.url, "https://api.nasa.gov/neo/rest/v1/neo/browse");
    assert_eq!(pairs(&req), vec![("page", "10"), ("size", "20"), ("api_key", "key1")]);
}
