//! The sources payload: what the sources endpoint returns, and its
//! decoding from JSON.

use crate::api::Client;
use crate::constants::{category_of_tag, Category};
use crate::error::{spec_api_error, NewsApiError};
use crate::json::{
    jview, obj_get, obj_get_exec, parse_json, req_str_field, req_str_field_exec, spec_parse_json,
    JVal, Json,
};
use vstd::prelude::*;

verus! {

/// A successful sources response.
#[derive(Debug)]
pub struct Sources {
    pub status: String,
    pub sources: Vec<Source>,
}

/// One news source of the index.
#[derive(Debug)]
pub struct Source {
    pub id: String,
    pub name: String,
    pub description: String,
    pub url: String,
    pub category: Category,
    pub language: String,
    pub country: String,
}

/// The mathematical value of a `Source`.
pub struct SourceV {
    pub id: Seq<char>,
    pub name: Seq<char>,
    pub description: Seq<char>,
    pub url: Seq<char>,
    pub category: Category,
    pub language: Seq<char>,
    pub country: Seq<char>,
}

/// The mathematical value of a `Sources` payload.
pub struct SourcesV {
    pub status: Seq<char>,
    pub sources: Seq<SourceV>,
}

impl View for Source {
    type V = SourceV;

    open spec fn view(&self) -> SourceV {
        SourceV {
            id: self.id@,
            name: self.name@,
            description: self.description@,
            url: self.url@,
            category: self.category,
            language: self.language@,
            country: self.country@,
        }
    }
}

impl View for Sources {
    type V = SourcesV;

    open spec fn view(&self) -> SourcesV {
        SourcesV {
            status: self.status@,
            sources: Seq::new(self.sources@.len(), |i: int| self.sources@[i]@),
        }
    }
}

/// The source a JSON value decodes to: six mandatory strings and a
/// "category" whose tag must be one of the seven known ones; an
/// unrecognized tag fails the decode rather than defaulting.
pub open spec fn spec_source_of(j: JVal) -> Option<SourceV> {
    match j {
        JVal::Obj(ms) => {
            let cat = match obj_get(ms, "category"@) {
                Some(JVal::Str(t)) => category_of_tag(t),
                _ => None,
            };
            match (req_str_field(ms, "id"@), req_str_field(ms, "name"@), req_str_field(
                ms,
                "description"@,
            ), req_str_field(ms, "url"@)) {
                (Some(id), Some(name), Some(description), Some(url)) => {
                    match (cat, req_str_field(ms, "language"@), req_str_field(ms, "country"@)) {
                        (Some(category), Some(language), Some(country)) => Some(
                            SourceV { id, name, description, url, category, language, country },
                        ),
                        _ => None,
                    }
                },
                _ => None,
            }
        },
        _ => None,
    }
}

/// The sources a JSON array decodes to: every item must decode.
pub open spec fn spec_sources_items(items: Seq<JVal>) -> Option<Seq<SourceV>>
    decreases items.len(),
{
    if items.len() == 0 {
        Some(Seq::empty())
    } else {
        match (spec_source_of(items[0]), spec_sources_items(items.drop_first())) {
            (Some(s), Some(rest)) => Some(seq![s] + rest),
            _ => None,
        }
    }
}

/// The sources payload a JSON value decodes to: a mandatory string
/// "status" and an array "sources".
pub open spec fn spec_sources_of(j: JVal) -> Option<SourcesV> {
    match j {
        JVal::Obj(ms) => {
            let srcs = match obj_get(ms, "sources"@) {
                Some(JVal::Arr(items)) => spec_sources_items(items),
                _ => None,
            };
            match (req_str_field(ms, "status"@), srcs) {
                (Some(status), Some(sources)) => Some(SourcesV { status, sources }),
                _ => None,
            }
        },
        _ => None,
    }
}

/// What a sources response body decodes to, if anything.
pub open spec fn spec_decode_sources(body: Seq<char>) -> Option<SourcesV> {
    match spec_parse_json(body) {
        Some(j) => spec_sources_of(j),
        None => None,
    }
}

fn source_from_json(j: &Json) -> (r: Option<Source>)
    ensures
        spec_source_of(jview(*j)) is None ==> r is None,
        spec_source_of(jview(*j)) matches Some(sv) ==> (r matches Some(s) && s@ == sv),
{
    match j {
        Json::Obj(ms) => {
            proof {
                crate::json::lemma_jview_obj(*ms);
            }
            let id = match req_str_field_exec(ms, "id") {
                Some(x) => x,
                None => {
                    return None;
                },
            };
            let name = match req_str_field_exec(ms, "name") {
                Some(x) => x,
                None => {
                    return None;
                },
            };
            let description = match req_str_field_exec(ms, "description") {
                Some(x) => x,
                None => {
                    return None;
                },
            };
            let url = match req_str_field_exec(ms, "url") {
                Some(x) => x,
                None => {
                    return None;
                },
            };
            let category = match obj_get_exec(ms, "category") {
                Some(v) => match v {
                    Json::Str(t) => match Category::from_tag(t.as_str()) {
                        Some(c) => c,
                        None => {
                            return None;
                        },
                    },
                    _ => {
                        return None;
                    },
                },
                None => {
                    return None;
                },
            };
            let language = match req_str_field_exec(ms, "language") {
                Some(x) => x,
                None => {
                    return None;
                },
            };
            let country = match req_str_field_exec(ms, "country") {
                Some(x) => x,
                None => {
                    return None;
                },
            };
            Some(Source { id, name, description, url, category, language, country })
        },
        _ => None,
    }
}

fn sources_from_json(j: &Json) -> (r: Option<Sources>)
    ensures
        spec_sources_of(jview(*j)) is None ==> r is None,
        spec_sources_of(jview(*j)) matches Some(sv) ==> (r matches Some(s) && s@ == sv),
{
    match j {
        Json::Obj(ms) => {
            proof {
                crate::json::lemma_jview_obj(*ms);
            }
            let status = match req_str_field_exec(ms, "status") {
                Some(x) => x,
                None => {
                    return None;
                },
            };
            let items = match obj_get_exec(ms, "sources") {
                Some(v) => match v {
                    Json::Arr(items) => items,
                    _ => {
                        return None;
                    },
                },
                None => {
                    return None;
                },
            };
            let ghost iv = crate::json::items_view(items@);
            proof {
                crate::json::lemma_jview_arr(*items);
                assert(iv.skip(0) =~= iv);
            }
            let mut sources: Vec<Source> = Vec::new();
            let mut idx: usize = 0;
            while idx < items.len()
                invariant
                    idx <= items@.len(),
                    iv == crate::json::items_view(items@),
                    sources@.len() == idx,
                    spec_sources_items(iv) is None ==> spec_sources_of(jview(*j)) is None,
                    match spec_sources_items(iv.skip(idx as int)) {
                        Some(rest) => spec_sources_items(iv) == Some(
                            Seq::new(sources@.len(), |k: int| sources@[k]@) + rest,
                        ),
                        None => spec_sources_items(iv) is None,
                    },
                decreases items@.len() - idx,
            {
                proof {
                    assert(iv.skip(idx as int)[0] == iv[idx as int]);
                    assert(iv.skip(idx as int).drop_first() =~= iv.skip(idx + 1));
                }
                let s = match source_from_json(&items[idx]) {
                    Some(s) => s,
                    None => {
                        return None;
                    },
                };
                let ghost prefix = Seq::new(sources@.len(), |k: int| sources@[k]@);
                sources.push(s);
                proof {
                    assert(Seq::new(sources@.len(), |k: int| sources@[k]@) =~= prefix + seq![s@]);
                    match spec_sources_items(iv.skip(idx + 1)) {
                        Some(rest2) => {
                            assert((prefix + seq![s@]) + rest2 =~= prefix + (seq![s@] + rest2));
                        },
                        None => {},
                    }
                }
                idx += 1;
            }
            proof {
                assert(iv.skip(items@.len() as int) =~= Seq::<JVal>::empty());
                assert(spec_sources_items(iv) == Some(
                    Seq::new(sources@.len(), |k: int| sources@[k]@) + Seq::<SourceV>::empty(),
                ));
                assert(Seq::new(sources@.len(), |k: int| sources@[k]@) + Seq::<SourceV>::empty()
                    =~= Seq::new(sources@.len(), |k: int| sources@[k]@));
            }
            let srcs = Sources { status, sources };
            proof {
                assert(srcs@.sources =~= Seq::new(srcs.sources@.len(), |k: int| srcs.sources@[k]@));
            }
            Some(srcs)
        },
        _ => None,
    }
}

impl Sources {
    /// Decodes a sources JSON response body; any deviation from the
    /// expected shape, an unrecognized category tag included, is a
    /// decode error.
    pub fn decode(body: &str) -> (r: Result<Sources, NewsApiError>)
        ensures
            spec_decode_sources(body@) matches Some(sv) ==> (r matches Ok(s) && s@ == sv),
            spec_decode_sources(body@) is None ==> (r matches Err(e) && e matches
                NewsApiError::DecodeError { .. }),
    {
        match parse_json(body) {
            Some(j) => match sources_from_json(&j) {
                Some(s) => Ok(s),
                None => Err(
                    NewsApiError::DecodeError {
                        message: "unexpected sources payload shape".to_owned(),
                    },
                ),
            },
            None => Err(NewsApiError::DecodeError { message: "malformed JSON body".to_owned() }),
        }
    }

    /// Interprets a whole HTTP response to a sources request: a 2xx
    /// status decodes the body, any other status maps to its error.
    pub fn from_response(status: u16, body: String) -> (r: Result<Sources, NewsApiError>)
        ensures
            200 <= status < 300 ==> (match spec_decode_sources(body@) {
                Some(sv) => r matches Ok(s) && s@ == sv,
                None => r matches Err(e) && e matches NewsApiError::DecodeError { .. },
            }),
            !(200 <= status < 300) ==> r == Err::<Sources, NewsApiError>(
                spec_api_error(status, body),
            ),
    {
        if 200 <= status && status < 300 {
            Sources::decode(body.as_str())
        } else {
            Err(Client::handle_api_error(status, body))
        }
    }
}

} // verus!
