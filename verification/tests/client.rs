use newsapi::api::Client;
use newsapi::constants::{Category, Country, Language, SOURCES_URL};
use newsapi::time::Timestamp;

#[test]
fn handle_api_error() {
    let bad_request = Client::handle_api_error(400, "BadRequest".into());
    assert_eq!(bad_request.describe(), "BadRequest: 400 => BadRequest");

    let generic_error =
        Client::handle_api_error(418, "Hyper Text Coffee Pot Control Protocol".into());
    assert_eq!(
        generic_error.describe(),
        "GenericError: 418 => Hyper Text Coffee Pot Control Protocol"
    );
}

#[test]
fn query() {
    let mut api = Client::new("123".to_owned());
    api.query("Ali loves the hoff NOT Baywatch");
    let encoded_param = api.parameter("q");
    assert_eq!(
        encoded_param,
        Some(&"Ali%20loves%20the%20hoff%20NOT%20Baywatch".to_string())
    );
}

#[test]
fn build_url() {
    let mut api = Client::new("123".to_owned());
    api.language(Language::English);
    api.country(Country::UnitedStatesofAmerica);
    let expected = "https://newsapi.org/v2/sources?language=en&country=us".to_owned();
    let allowed_params = vec!["category", "language", "country"];
    let url = api.build_url(SOURCES_URL, allowed_params);
    assert_eq!(expected, url);
}

#[test]
fn domains() {
    let mut api = Client::new("123".to_owned());

    assert_eq!(api.parameter("domains"), None);
    assert_eq!(api.parameter("excludeDomains"), None);

    api.domains(vec!["www.bbc.co.uk"]);

    api.exclude_domains(vec!["www.facebook.com", "www.brexitbart.com"]);

    assert_eq!(api.parameter("domains"), Some(&"www.bbc.co.uk".to_owned()));

    assert_eq!(
        api.parameter("excludeDomains"),
        Some(&"www.facebook.com,www.brexitbart.com".to_owned())
    );
}

#[test]
fn category() {
    let mut api = Client::new("123".to_owned());
    assert_eq!(api.parameter("category"), None);
    api.category(Category::Science);
    assert_eq!(api.parameter("category"), Some(&"science".to_owned()));
}

#[test]
fn country() {
    let mut api = Client::new("123".to_owned());
    assert_eq!(api.parameter("country"), None);
    api.country(Country::Germany);
    assert_eq!(api.parameter("country"), Some(&"de".to_owned()));
}

#[test]
fn language() {
    let mut api = Client::new("123".to_owned());
    api.language(Language::English);
    assert_eq!(api.parameter("language"), Some(&"en".to_owned()));
}

#[test]
fn to_and_from() {
    let mut api = Client::new("123".to_owned());

    let from = Timestamp::new(2019, 7, 8, 9, 10, 11).unwrap();
    let to = Timestamp::new(2019, 7, 9, 9, 10, 11).unwrap();

    api.to(&to);
    api.from(&from);

    assert_eq!(api.parameter("from"), Some(&"2019-07-08T09:10:11".to_owned()));
    assert_eq!(api.parameter("to"), Some(&"2019-07-09T09:10:11".to_owned()));
}

#[test]
fn new() {
    let api = Client::new("123".to_string());
    assert_eq!(*api.api_key(), "123".to_string());
}

#[test]
fn page() {
    let mut api = Client::new("123".to_owned());
    api.page(20);
    assert_eq!(api.parameter("page"), Some(&"20".to_owned()));
}

#[test]
fn page_size() {
    let mut api = Client::new("123".to_owned());
    assert_eq!(api.parameter("pageSize"), None);
    api.page_size(30);
    assert_eq!(api.parameter("pageSize"), Some(&"30".to_owned()));
    api.page_size(400);
    assert_eq!(api.parameter("pageSize"), Some(&"30".to_owned()));
}
