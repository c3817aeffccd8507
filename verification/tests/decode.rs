use newsapi::constants::Category;
use newsapi::error::NewsApiError;
use newsapi::payload::article::{Articles, ArticleSource};
use newsapi::payload::source::Sources;

fn example_everything() -> &'static str {
    r#"{
        "status": "ok",
        "totalResults": 2,
        "articles": [
            {
                "source": {"id": "wired", "name": "Wired"},
                "author": "Klint Finley",
                "title": "The first story",
                "description": "What happened first",
                "url": "https://www.wired.com/story/first",
                "urlToImage": "https://media.wired.com/first.jpg",
                "publishedAt": "2019-07-08T09:10:11Z",
                "content": "It all began"
            },
            {
                "source": {"id": "engadget", "name": "Engadget"},
                "author": null,
                "title": "The second story",
                "description": null,
                "url": "https://www.engadget.com/second",
                "urlToImage": null,
                "publishedAt": "2019-07-09T09:10:11Z",
                "content": null
            }
        ]
    }"#
}

fn example_headlines() -> &'static str {
    r#"{
        "status": "ok",
        "totalResults": 2,
        "articles": [
            {
                "source": {"id": null, "name": "Example Times"},
                "title": "Headline one",
                "url": "https://example.com/one",
                "publishedAt": "2020-01-01T00:00:00Z"
            },
            {
                "source": {"id": "example-times", "name": "Example Times"},
                "title": "Headline two",
                "url": "https://example.com/two",
                "publishedAt": "2020-01-02T00:00:00Z"
            }
        ]
    }"#
}

fn example_sources() -> &'static str {
    r#"{
        "status": "ok",
        "sources": [
            {
                "id": "abc-news",
                "name": "ABC News",
                "description": "Your trusted source for breaking news.",
                "url": "https://abcnews.go.com",
                "category": "general",
                "language": "en",
                "country": "us"
            },
            {
                "id": "ars-technica",
                "name": "Ars Technica",
                "description": "The PC enthusiast's resource.",
                "url": "https://arstechnica.com",
                "category": "technology",
                "language": "en",
                "country": "us"
            },
            {
                "id": "bbc-sport",
                "name": "BBC Sport",
                "description": "All the sport from the BBC.",
                "url": "https://www.bbc.co.uk/sport",
                "category": "sports",
                "language": "en",
                "country": "gb"
            },
            {
                "id": "new-scientist",
                "name": "New Scientist",
                "description": "Science news.",
                "url": "https://www.newscientist.com",
                "category": "science",
                "language": "en",
                "country": "gb"
            }
        ]
    }"#
}

fn read_articles(contents: &str) -> Articles {
    Articles::decode(contents).unwrap()
}

#[test]
fn article_sources() {
    let articles = read_articles(example_everything());

    let wired = ArticleSource {
        id: Some("wired".into()),
        name: "Wired".into(),
    };

    let engadget = ArticleSource {
        id: Some("engadget".into()),
        name: "Engadget".into(),
    };

    let expected_sources = vec![&wired, &engadget];
    let sources = articles.sources();
    assert_eq!(sources, expected_sources);
}

#[test]
fn deserialize_everything() {
    let articles = read_articles(example_everything());
    assert_eq!(articles.status, "ok");
    assert_eq!(articles.articles.len(), 2);
    assert_eq!(articles.total_results, articles.articles.len());
}

#[test]
fn deserialize_headlines() {
    let articles = read_articles(example_headlines());
    assert_eq!(articles.total_results, 2);
    assert_eq!(articles.articles.len(), 2);
}

#[test]
fn deserialize() {
    let sources: Sources = Sources::decode(example_sources()).unwrap();

    assert_eq!(sources.status, "ok");
    assert_eq!(sources.sources.len(), 4);
}

#[test]
fn decoded_article_fields() {
    let articles = read_articles(example_everything());
    let first = &articles.articles[0];
    assert_eq!(first.author, Some("Klint Finley".to_string()));
    assert_eq!(first.title, "The first story");
    assert_eq!(first.url, "https://www.wired.com/story/first");
    assert_eq!(first.published_at, "2019-07-08T09:10:11Z");
    assert_eq!(first.content, Some("It all began".to_string()));
    let second = &articles.articles[1];
    assert_eq!(second.author, None);
    assert_eq!(second.description, None);
    assert_eq!(second.url_to_image, None);
    assert_eq!(second.content, None);
}

#[test]
fn duplicate_sources_kept_in_order() {
    let body = r#"{
        "status": "ok",
        "totalResults": 3,
        "articles": [
            {"source": {"id": "a", "name": "A"}, "title": "1", "url": "u1", "publishedAt": "t1"},
            {"source": {"id": "b", "name": "B"}, "title": "2", "url": "u2", "publishedAt": "t2"},
            {"source": {"id": "a", "name": "A"}, "title": "3", "url": "u3", "publishedAt": "t3"}
        ]
    }"#;
    let articles = read_articles(body);
    let sources = articles.sources();
    assert_eq!(sources.len(), 3);
    assert_eq!(sources[0], sources[2]);
    assert_eq!(sources[0].id, Some("a".to_string()));
    assert_eq!(sources[1].id, Some("b".to_string()));
}

#[test]
fn decoded_source_categories() {
    let sources = Sources::decode(example_sources()).unwrap();
    assert_eq!(sources.sources[0].category, Category::General);
    assert_eq!(sources.sources[1].category, Category::Technology);
    assert_eq!(sources.sources[2].category, Category::Sports);
    assert_eq!(sources.sources[3].category, Category::Science);
    assert_eq!(sources.sources[0].id, "abc-news");
    assert_eq!(sources.sources[3].country, "gb");
}

#[test]
fn unrecognized_category_fails_decoding() {
    let body = r#"{
        "status": "ok",
        "sources": [
            {
                "id": "x",
                "name": "X",
                "description": "d",
                "url": "u",
                "category": "astrology",
                "language": "en",
                "country": "us"
            }
        ]
    }"#;
    let r = Sources::decode(body);
    assert!(matches!(r, Err(NewsApiError::DecodeError { .. })));
}

#[test]
fn malformed_json_fails_decoding() {
    assert!(matches!(
        Articles::decode("{\"status\": \"ok\""),
        Err(NewsApiError::DecodeError { .. })
    ));
    assert!(matches!(
        Articles::decode("not json at all"),
        Err(NewsApiError::DecodeError { .. })
    ));
    assert!(matches!(
        Sources::decode("[1, 2, 3"),
        Err(NewsApiError::DecodeError { .. })
    ));
    // well-formed JSON of the wrong shape is a decode error too
    assert!(matches!(
        Articles::decode("[]"),
        Err(NewsApiError::DecodeError { .. })
    ));
    assert!(matches!(
        Sources::decode("\"ok\""),
        Err(NewsApiError::DecodeError { .. })
    ));
}

#[test]
fn missing_required_field_fails_decoding() {
    // no totalResults
    let body = r#"{"status": "ok", "articles": []}"#;
    assert!(matches!(
        Articles::decode(body),
        Err(NewsApiError::DecodeError { .. })
    ));
    // title missing in an article
    let body2 = r#"{
        "status": "ok",
        "totalResults": 1,
        "articles": [
            {"source": {"name": "A"}, "url": "u", "publishedAt": "t"}
        ]
    }"#;
    assert!(matches!(
        Articles::decode(body2),
        Err(NewsApiError::DecodeError { .. })
    ));
}

#[test]
fn total_results_independent_of_article_count() {
    let body = r#"{
        "status": "ok",
        "totalResults": 4171,
        "articles": [
            {"source": {"id": null, "name": "A"}, "title": "1", "url": "u", "publishedAt": "t"}
        ]
    }"#;
    let articles = read_articles(body);
    assert_eq!(articles.total_results, 4171);
    assert_eq!(articles.articles.len(), 1);
}

#[test]
fn string_escapes_decode() {
    let body = r#"{
        "status": "ok",
        "totalResults": 1,
        "articles": [
            {
                "source": {"id": null, "name": "A\"B\\C"},
                "title": "tab\there newline\nhere bmp☃ pair😀",
                "description": "escaped bmp \u2603 and escaped pair \ud83d\ude00",
                "url": "u",
                "publishedAt": "t"
            }
        ]
    }"#;
    let articles = read_articles(body);
    assert_eq!(articles.articles[0].source.name, "A\"B\\C");
    assert_eq!(
        articles.articles[0].title,
        "tab\there newline\nhere bmp\u{2603} pair\u{1f600}"
    );
    assert_eq!(
        articles.articles[0].description,
        Some("escaped bmp \u{2603} and escaped pair \u{1f600}".to_string())
    );
}

#[test]
fn from_response_maps_status() {
    let ok = Articles::from_response(200, example_everything().to_string()).unwrap();
    assert_eq!(ok.articles.len(), 2);

    let too_many = Articles::from_response(429, "rate limited".to_string());
    assert_eq!(
        too_many.unwrap_err(),
        NewsApiError::TooManyRequests {
            code: 429,
            message: "rate limited".to_string()
        }
    );

    let sources_err = Sources::from_response(500, "boom".to_string());
    assert_eq!(
        sources_err.unwrap_err(),
        NewsApiError::ServerError {
            code: 500,
            message: "boom".to_string()
        }
    );
}
