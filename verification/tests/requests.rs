use newsapi::api::Client;
use newsapi::constants::{Category, Country, Language, SortMethod};
use newsapi::error::NewsApiError;
use newsapi::time::Timestamp;

#[test]
fn sources_endpoint_url() {
    let mut api = Client::new("123".to_owned());
    api.language(Language::English);
    api.country(Country::UnitedStatesofAmerica);
    api.sources();
    assert_eq!(
        api.current_url().as_ref().unwrap(),
        "https://newsapi.org/v2/sources?language=en&country=us"
    );
}

#[test]
fn everything_endpoint_url() {
    let mut api = Client::new("123".to_owned());
    api.query("bitcoin");
    api.page_size(30);
    api.page(2);
    api.sort_by(SortMethod::Popularity);
    api.everything();
    assert_eq!(
        api.current_url().as_ref().unwrap(),
        "https://newsapi.org/v2/everything?q=bitcoin&sortBy=popularity&pageSize=30&page=2"
    );
}

#[test]
fn top_headlines_endpoint_url() {
    let mut api = Client::new("123".to_owned());
    api.country(Country::Germany);
    api.category(Category::Science);
    api.top_headlines();
    assert_eq!(
        api.current_url().as_ref().unwrap(),
        "https://newsapi.org/v2/top-headlines?country=de&category=science"
    );
}

#[test]
fn bare_url_when_nothing_is_stored() {
    let mut api = Client::new("123".to_owned());
    api.everything();
    assert_eq!(
        api.current_url().as_ref().unwrap(),
        "https://newsapi.org/v2/everything"
    );
}

#[test]
fn fields_outside_allow_list_are_not_emitted() {
    let mut api = Client::new("123".to_owned());
    api.domains(vec!["bbc.co.uk"]);
    api.language(Language::English);
    // the sources endpoint takes no "domains" parameter
    api.sources();
    assert_eq!(
        api.current_url().as_ref().unwrap(),
        "https://newsapi.org/v2/sources?language=en"
    );
}

#[test]
fn selector_overwrites_previous_url() {
    let mut api = Client::new("123".to_owned());
    api.language(Language::French);
    api.sources();
    assert_eq!(
        api.current_url().as_ref().unwrap(),
        "https://newsapi.org/v2/sources?language=fr"
    );
    api.everything();
    assert_eq!(
        api.current_url().as_ref().unwrap(),
        "https://newsapi.org/v2/everything?language=fr"
    );
}

#[test]
fn last_write_wins_per_field() {
    let mut api = Client::new("123".to_owned());
    api.country(Country::Germany);
    api.country(Country::France);
    assert_eq!(api.parameter("country"), Some(&"fr".to_owned()));
}

#[test]
fn page_zero_is_stored_verbatim() {
    let mut api = Client::new("123".to_owned());
    api.page(0);
    assert_eq!(api.parameter("page"), Some(&"0".to_owned()));
    api.page(4294967295);
    assert_eq!(api.parameter("page"), Some(&"4294967295".to_owned()));
}

#[test]
fn page_size_bounds() {
    let mut api = Client::new("123".to_owned());
    api.page_size(0);
    assert_eq!(api.parameter("pageSize"), None);
    api.page_size(1);
    assert_eq!(api.parameter("pageSize"), Some(&"1".to_owned()));
    api.page_size(100);
    assert_eq!(api.parameter("pageSize"), Some(&"100".to_owned()));
    api.page_size(101);
    assert_eq!(api.parameter("pageSize"), Some(&"100".to_owned()));
}

#[test]
fn invalid_combination_is_rejected_before_sending() {
    let mut api = Client::new("123".to_owned());
    api.with_sources("bbc-news".to_string());
    api.category(Category::Science);
    assert!(api.invalid_arguments_specified());
    api.top_headlines();
    assert_eq!(
        api.prepare_request().unwrap_err(),
        NewsApiError::InvalidParameterCombinationError
    );
}

#[test]
fn send_without_selector_is_undefined_url() {
    let api = Client::new("123".to_owned());
    assert_eq!(
        api.prepare_request().unwrap_err(),
        NewsApiError::UndefinedUrlError
    );
}

#[test]
fn prepared_request_carries_url_and_key() {
    let mut api = Client::new("secret-key".to_owned());
    api.language(Language::English);
    api.sources();
    let (url, key) = api.prepare_request().unwrap();
    assert_eq!(url, "https://newsapi.org/v2/sources?language=en");
    assert_eq!(key, "secret-key");
}

#[test]
fn sources_alone_is_a_valid_combination() {
    let mut api = Client::new("123".to_owned());
    api.with_sources("bbc-news,abc-news".to_string());
    api.top_headlines();
    assert!(!api.invalid_arguments_specified());
    assert!(api.prepare_request().is_ok());
    assert_eq!(
        api.current_url().as_ref().unwrap(),
        "https://newsapi.org/v2/top-headlines?sources=bbc-news,abc-news"
    );
}

#[test]
fn timestamp_wire_format_is_zero_padded() {
    let t = Timestamp::new(2019, 7, 8, 9, 10, 11).unwrap();
    assert_eq!(t.wire_format(), "2019-07-08T09:10:11");
    let t2 = Timestamp::new(44, 12, 31, 23, 0, 5).unwrap();
    assert_eq!(t2.wire_format(), "0044-12-31T23:00:05");
}

#[test]
fn timestamp_rejects_out_of_range_fields() {
    assert!(Timestamp::new(2019, 0, 8, 9, 10, 11).is_none());
    assert!(Timestamp::new(2019, 13, 8, 9, 10, 11).is_none());
    assert!(Timestamp::new(2019, 7, 32, 9, 10, 11).is_none());
    assert!(Timestamp::new(2019, 7, 8, 24, 10, 11).is_none());
    assert!(Timestamp::new(2019, 7, 8, 9, 60, 11).is_none());
    assert!(Timestamp::new(2019, 7, 8, 9, 10, 60).is_none());
    assert!(Timestamp::new(10000, 7, 8, 9, 10, 11).is_none());
    assert!(Timestamp::new(9999, 12, 31, 23, 59, 59).is_some());
}

#[test]
fn error_reports() {
    let e = Client::handle_api_error(401, "bad key".to_string());
    assert_eq!(
        e,
        NewsApiError::Unauthorized {
            code: 401,
            message: "bad key".to_string()
        }
    );
    assert_eq!(e.describe(), "Unauthorized: 401 => bad key");

    let e = Client::handle_api_error(429, "rate limited".to_string());
    assert_eq!(
        e,
        NewsApiError::TooManyRequests {
            code: 429,
            message: "rate limited".to_string()
        }
    );
    assert_eq!(e.describe(), "TooManyRequests: 429 => rate limited");

    let e = Client::handle_api_error(500, "oops".to_string());
    assert_eq!(
        e,
        NewsApiError::ServerError {
            code: 500,
            message: "oops".to_string()
        }
    );
    assert_eq!(e.describe(), "ServerError: 500 => oops");

    assert_eq!(
        NewsApiError::InvalidParameterCombinationError.describe(),
        "The source parameter cannot be mixed with country or category"
    );
    assert_eq!(
        NewsApiError::UndefinedUrlError.describe(),
        "Error constructing newsapi URL"
    );
    assert_eq!(
        NewsApiError::TransportError {
            message: "connection refused".to_string()
        }
        .describe(),
        "TransportError: connection refused"
    );
    assert_eq!(
        NewsApiError::DecodeError {
            message: "malformed JSON body".to_string()
        }
        .describe(),
        "DecodeError: malformed JSON body"
    );
}
