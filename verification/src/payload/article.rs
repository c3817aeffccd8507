//! The articles payload: what the everything and top-headlines
//! endpoints return, and its decoding from JSON.

use crate::api::Client;
use crate::error::{spec_api_error, NewsApiError};
use crate::json::{
    jview, obj_get, obj_get_exec, opt_str_field, opt_str_field_exec, parse_json, req_str_field,
    req_str_field_exec, spec_parse_json, spec_parse_usize, JVal, Json,
};
use vstd::prelude::*;

verus! {

/// A successful articles response.  `total_results` is the server's own
/// count over all pages and need not equal `articles.len()`.
#[derive(Debug)]
pub struct Articles {
    pub status: String,
    pub total_results: usize,
    pub articles: Vec<Article>,
}

/// The source an article came from: an optional identifier and a name.
#[derive(Debug)]
pub struct ArticleSource {
    pub id: Option<String>,
    pub name: String,
}

/// One article of a response.
#[derive(Debug)]
pub struct Article {
    pub source: ArticleSource,
    pub author: Option<String>,
    pub title: String,
    pub description: Option<String>,
    pub url: String,
    pub url_to_image: Option<String>,
    pub published_at: String,
    pub content: Option<String>,
}

/// The mathematical value of an `ArticleSource`.
pub struct ArticleSourceV {
    pub id: Option<Seq<char>>,
    pub name: Seq<char>,
}

/// The mathematical value of an `Article`.
pub struct ArticleV {
    pub source: ArticleSourceV,
    pub author: Option<Seq<char>>,
    pub title: Seq<char>,
    pub description: Option<Seq<char>>,
    pub url: Seq<char>,
    pub url_to_image: Option<Seq<char>>,
    pub published_at: Seq<char>,
    pub content: Option<Seq<char>>,
}

/// The mathematical value of an `Articles` payload.
pub struct ArticlesV {
    pub status: Seq<char>,
    pub total_results: int,
    pub articles: Seq<ArticleV>,
}

/// The view of an optional string.
pub open spec fn opt_view(o: Option<String>) -> Option<Seq<char>> {
    match o {
        Some(s) => Some(s@),
        None => None,
    }
}

impl View for ArticleSource {
    type V = ArticleSourceV;

    open spec fn view(&self) -> ArticleSourceV {
        ArticleSourceV { id: opt_view(self.id), name: self.name@ }
    }
}

impl View for Article {
    type V = ArticleV;

    open spec fn view(&self) -> ArticleV {
        ArticleV {
            source: self.source@,
            author: opt_view(self.author),
            title: self.title@,
            description: opt_view(self.description),
            url: self.url@,
            url_to_image: opt_view(self.url_to_image),
            published_at: self.published_at@,
            content: opt_view(self.content),
        }
    }
}

impl View for Articles {
    type V = ArticlesV;

    open spec fn view(&self) -> ArticlesV {
        ArticlesV {
            status: self.status@,
            total_results: self.total_results as int,
            articles: Seq::new(self.articles@.len(), |i: int| self.articles@[i]@),
        }
    }
}

impl PartialEq for ArticleSource {
    /// Two article sources are equal when their identifiers and names
    /// are.
    fn eq(&self, other: &ArticleSource) -> (r: bool) {
        let ids_equal = match (&self.id, &other.id) {
            (Some(a), Some(b)) => *a == *b,
            (None, None) => true,
            _ => false,
        };
        ids_equal && self.name == other.name
    }
}

impl vstd::std_specs::cmp::PartialEqSpecImpl for ArticleSource {
    open spec fn obeys_eq_spec() -> bool {
        true
    }

    open spec fn eq_spec(&self, other: &ArticleSource) -> bool {
        self@ == other@
    }
}

/// The article source a JSON value decodes to: an object with an
/// optional string "id" and a mandatory string "name".
pub open spec fn spec_article_source_of(j: JVal) -> Option<ArticleSourceV> {
    match j {
        JVal::Obj(ms) => match (opt_str_field(ms, "id"@), req_str_field(ms, "name"@)) {
            (Some(id), Some(name)) => Some(ArticleSourceV { id, name }),
            _ => None,
        },
        _ => None,
    }
}

/// The article a JSON value decodes to: "title", "url" and
/// "publishedAt" are mandatory strings, "source" a mandatory source
/// object, the rest optional strings.
pub open spec fn spec_article_of(j: JVal) -> Option<ArticleV> {
    match j {
        JVal::Obj(ms) => {
            let source = match obj_get(ms, "source"@) {
                Some(sj) => spec_article_source_of(sj),
                None => None,
            };
            match (source, req_str_field(ms, "title"@), req_str_field(ms, "url"@), req_str_field(
                ms,
                "publishedAt"@,
            )) {
                (Some(source), Some(title), Some(url), Some(published_at)) => {
                    match (opt_str_field(ms, "author"@), opt_str_field(ms, "description"@),
                    opt_str_field(ms, "urlToImage"@), opt_str_field(ms, "content"@)) {
                        (Some(author), Some(description), Some(url_to_image), Some(content)) => {
                            Some(
                                ArticleV {
                                    source,
                                    author,
                                    title,
                                    description,
                                    url,
                                    url_to_image,
                                    published_at,
                                    content,
                                },
                            )
                        },
                        _ => None,
                    }
                },
                _ => None,
            }
        },
        _ => None,
    }
}

/// The articles a JSON array decodes to: every item must decode.
pub open spec fn spec_articles_items(items: Seq<JVal>) -> Option<Seq<ArticleV>>
    decreases items.len(),
{
    if items.len() == 0 {
        Some(Seq::empty())
    } else {
        match (spec_article_of(items[0]), spec_articles_items(items.drop_first())) {
            (Some(a), Some(rest)) => Some(seq![a] + rest),
            _ => None,
        }
    }
}

/// The articles payload a JSON value decodes to: a mandatory string
/// "status", a nonnegative integer "totalResults" that fits a `usize`,
/// and an array "articles".
pub open spec fn spec_articles_of(j: JVal) -> Option<ArticlesV> {
    match j {
        JVal::Obj(ms) => {
            let total = match obj_get(ms, "totalResults"@) {
                Some(JVal::Num(cs)) => spec_parse_usize(cs),
                _ => None,
            };
            let arts = match obj_get(ms, "articles"@) {
                Some(JVal::Arr(items)) => spec_articles_items(items),
                _ => None,
            };
            match (req_str_field(ms, "status"@), total, arts) {
                (Some(status), Some(total_results), Some(articles)) => Some(
                    ArticlesV { status, total_results, articles },
                ),
                _ => None,
            }
        },
        _ => None,
    }
}

/// What an articles response body decodes to, if anything: the body
/// must be a well-formed JSON document of the articles shape.
pub open spec fn spec_decode_articles(body: Seq<char>) -> Option<ArticlesV> {
    match spec_parse_json(body) {
        Some(j) => spec_articles_of(j),
        None => None,
    }
}

fn article_source_from_json(j: &Json) -> (r: Option<ArticleSource>)
    ensures
        spec_article_source_of(jview(*j)) is None ==> r is None,
        spec_article_source_of(jview(*j)) matches Some(av) ==> (r matches Some(a) && a@ == av),
{
    match j {
        Json::Obj(ms) => {
            proof {
                crate::json::lemma_jview_obj(*ms);
            }
            let id = match opt_str_field_exec(ms, "id") {
                Some(x) => x,
                None => {
                    return None;
                },
            };
            let name = match req_str_field_exec(ms, "name") {
                Some(x) => x,
                None => {
                    return None;
                },
            };
            Some(ArticleSource { id, name })
        },
        _ => None,
    }
}

fn article_from_json(j: &Json) -> (r: Option<Article>)
    ensures
        spec_article_of(jview(*j)) is None ==> r is None,
        spec_article_of(jview(*j)) matches Some(av) ==> (r matches Some(a) && a@ == av),
{
    match j {
        Json::Obj(ms) => {
            proof {
                crate::json::lemma_jview_obj(*ms);
            }
            let source = match obj_get_exec(ms, "source") {
                Some(sj) => match article_source_from_json(sj) {
                    Some(src) => src,
                    None => {
                        return None;
                    },
                },
                None => {
                    return None;
                },
            };
            let title = match req_str_field_exec(ms, "title") {
                Some(x) => x,
                None => {
                    return None;
                },
            };
            let url = match req_str_field_exec(ms, "url") {
                Some(x) => x,
                None => {
                    return None;
                },
            };
            let published_at = match req_str_field_exec(ms, "publishedAt") {
                Some(x) => x,
                None => {
                    return None;
                },
            };
            let author = match opt_str_field_exec(ms, "author") {
                Some(x) => x,
                None => {
                    return None;
                },
            };
            let description = match opt_str_field_exec(ms, "description") {
                Some(x) => x,
                None => {
                    return None;
                },
            };
            let url_to_image = match opt_str_field_exec(ms, "urlToImage") {
                Some(x) => x,
                None => {
                    return None;
                },
            };
            let content = match opt_str_field_exec(ms, "content") {
                Some(x) => x,
                None => {
                    return None;
                },
            };
            Some(
                Article {
                    source,
                    author,
                    title,
                    description,
                    url,
                    url_to_image,
                    published_at,
                    content,
                },
            )
        },
        _ => None,
    }
}

fn articles_from_json(j: &Json) -> (r: Option<Articles>)
    ensures
        spec_articles_of(jview(*j)) is None ==> r is None,
        spec_articles_of(jview(*j)) matches Some(av) ==> (r matches Some(a) && a@ == av),
{
    match j {
        Json::Obj(ms) => {
            proof {
                crate::json::lemma_jview_obj(*ms);
            }
            let status = match req_str_field_exec(ms, "status") {
                Some(x) => x,
                None => {
                    return None;
                },
            };
            let total_results = match obj_get_exec(ms, "totalResults") {
                Some(v) => match v {
                    Json::Num(cs) => match crate::json::parse_usize(cs.as_str()) {
                        Some(u) => u,
                        None => {
                            return None;
                        },
                    },
                    _ => {
                        return None;
                    },
                },
                None => {
                    return None;
                },
            };
            let items = match obj_get_exec(ms, "articles") {
                Some(v) => match v {
                    Json::Arr(items) => items,
                    _ => {
                        return None;
                    },
                },
                None => {
                    return None;
                },
            };
            let ghost iv = crate::json::items_view(items@);
            proof {
                crate::json::lemma_jview_arr(*items);
                assert(iv.skip(0) =~= iv);
            }
            let mut articles: Vec<Article> = Vec::new();
            let mut idx: usize = 0;
            while idx < items.len()
                invariant
                    idx <= items@.len(),
                    iv == crate::json::items_view(items@),
                    articles@.len() == idx,
                    spec_articles_items(iv) is None ==> spec_articles_of(jview(*j)) is None,
                    match spec_articles_items(iv.skip(idx as int)) {
                        Some(rest) => spec_articles_items(iv) == Some(
                            Seq::new(articles@.len(), |k: int| articles@[k]@) + rest,
                        ),
                        None => spec_articles_items(iv) is None,
                    },
                decreases items@.len() - idx,
            {
                proof {
                    assert(iv.skip(idx as int)[0] == iv[idx as int]);
                    assert(iv.skip(idx as int).drop_first() =~= iv.skip(idx + 1));
                }
                let a = match article_from_json(&items[idx]) {
                    Some(a) => a,
                    None => {
                        return None;
                    },
                };
                let ghost prefix = Seq::new(articles@.len(), |k: int| articles@[k]@);
                articles.push(a);
                proof {
                    assert(Seq::new(articles@.len(), |k: int| articles@[k]@) =~= prefix + seq![
                        a@,
                    ]);
                    match spec_articles_items(iv.skip(idx + 1)) {
                        Some(rest2) => {
                            assert((prefix + seq![a@]) + rest2 =~= prefix + (seq![a@] + rest2));
                        },
                        None => {},
                    }
                }
                idx += 1;
            }
            proof {
                assert(iv.skip(items@.len() as int) =~= Seq::<JVal>::empty());
                assert(spec_articles_items(iv) == Some(
                    Seq::new(articles@.len(), |k: int| articles@[k]@) + Seq::<ArticleV>::empty(),
                ));
                assert(Seq::new(articles@.len(), |k: int| articles@[k]@) + Seq::<
                    ArticleV,
                >::empty() =~= Seq::new(articles@.len(), |k: int| articles@[k]@));
            }
            let arts = Articles { status, total_results, articles };
            proof {
                assert(arts@.articles =~= Seq::new(arts.articles@.len(), |k: int| arts.articles@[k]@));
            }
            Some(arts)
        },
        _ => None,
    }
}

impl Articles {
    /// Decodes an articles JSON response body; any deviation from the
    /// expected shape is a decode error, never a silent default.
    pub fn decode(body: &str) -> (r: Result<Articles, NewsApiError>)
        ensures
            spec_decode_articles(body@) matches Some(av) ==> (r matches Ok(a) && a@ == av),
            spec_decode_articles(body@) is None ==> (r matches Err(e) && e matches
                NewsApiError::DecodeError { .. }),
    {
        match parse_json(body) {
            Some(j) => match articles_from_json(&j) {
                Some(a) => Ok(a),
                None => Err(
                    NewsApiError::DecodeError {
                        message: "unexpected articles payload shape".to_owned(),
                    },
                ),
            },
            None => Err(NewsApiError::DecodeError { message: "malformed JSON body".to_owned() }),
        }
    }

    /// Interprets a whole HTTP response to an articles request: a 2xx
    /// status decodes the body, any other status maps to its error.
    pub fn from_response(status: u16, body: String) -> (r: Result<Articles, NewsApiError>)
        ensures
            200 <= status < 300 ==> (match spec_decode_articles(body@) {
                Some(av) => r matches Ok(a) && a@ == av,
                None => r matches Err(e) && e matches NewsApiError::DecodeError { .. },
            }),
            !(200 <= status < 300) ==> r == Err::<Articles, NewsApiError>(
                spec_api_error(status, body),
            ),
    {
        if 200 <= status && status < 300 {
            Articles::decode(body.as_str())
        } else {
            Err(Client::handle_api_error(status, body))
        }
    }

    /// One `ArticleSource` reference per article, in article order,
    /// duplicates kept.
    pub fn sources(&self) -> (r: Vec<&ArticleSource>)
        ensures
            r@.len() == self.articles@.len(),
            forall|i: int| 0 <= i < r@.len() ==> r@[i]@ == self@.articles[i].source,
    {
        let mut r: Vec<&ArticleSource> = Vec::new();
        let mut i: usize = 0;
        while i < self.articles.len()
            invariant
                i <= self.articles.len(),
                r@.len() == i,
                forall|j: int| 0 <= j < i ==> r@[j]@ == self@.articles[j].source,
            decreases self.articles.len() - i,
        {
            r.push(&self.articles[i].source);
            i += 1;
        }
        r
    }
}

} // verus!
