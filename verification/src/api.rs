//! The client: a fluent parameter accumulator, per-endpoint URL builder
//! and request validator.
//!
//! The parameter store is modelled as a map from field name to wire
//! value (`params()`).  Each setter inserts exactly one entry; an
//! endpoint selector filters the store through its ordered allow-list
//! and rebuilds the URL; validation rejects the one documented invalid
//! combination before any I/O happens.

use crate::constants::{
    category_tag, country_code, language_code, sort_method_code, Category, Country, Language,
    SortMethod, EVERYTHING_URL, SOURCES_URL, TOP_HEADLINES_URL,
};
use crate::error::{spec_api_error, NewsApiError};
use crate::text::{
    dec_digits, join_strings, join_strs, percent_encode_non_alnum, percent_encode_query,
    spec_join, u32_digits,
};
use crate::time::{timestamp_wire, Timestamp};
use vstd::hash_map::StringHashMap;
use vstd::prelude::*;

verus! {

/// A client for the news API: an API key, the accumulated query
/// parameters, and the URL built by the last endpoint selector.
pub struct Client {
    api_key: String,
    parameters: StringHashMap<String>,
    url: Option<String>,
}

/// The ordered allow-list of the everything endpoint.
pub open spec fn everything_params() -> Seq<Seq<char>> {
    seq![
        "q"@,
        "sources"@,
        "domains"@,
        "excludeDomains"@,
        "from"@,
        "to"@,
        "language"@,
        "sortBy"@,
        "pageSize"@,
        "page"@,
    ]
}

/// The ordered allow-list of the top-headlines endpoint.
pub open spec fn top_headlines_params() -> Seq<Seq<char>> {
    seq!["q"@, "country"@, "category"@, "sources"@, "pageSize"@, "page"@]
}

/// The ordered allow-list of the sources endpoint.
pub open spec fn sources_params() -> Seq<Seq<char>> {
    seq!["category"@, "language"@, "country"@]
}

/// The `field=value` pieces of the query string: one for each
/// allow-listed field that is present in the store, in allow-list order.
pub open spec fn spec_url_parts(m: Map<Seq<char>, Seq<char>>, allowed: Seq<Seq<char>>) -> Seq<
    Seq<char>,
>
    decreases allowed.len(),
{
    if allowed.len() == 0 {
        Seq::empty()
    } else {
        spec_url_parts(m, allowed.drop_last()) + if m.contains_key(allowed.last()) {
            seq![allowed.last() + "="@ + m[allowed.last()]]
        } else {
            Seq::empty()
        }
    }
}

/// The URL for a base endpoint: the base alone when no allow-listed
/// field is present, else the base, a `?`, and the pieces joined
/// with `&`.
pub open spec fn spec_build_url(
    m: Map<Seq<char>, Seq<char>>,
    base: Seq<char>,
    allowed: Seq<Seq<char>>,
) -> Seq<char> {
    let parts = spec_url_parts(m, allowed);
    if parts.len() == 0 {
        base
    } else {
        base + "?"@ + spec_join(parts, "&"@)
    }
}

/// After the country setter runs (its effect is the hypothesis, its
/// `ensures`), the raw string stored under "country" is exactly the
/// country's documented wire code.
pub proof fn lemma_country_round_trip(before: Client, after: Client, c: Country)
    requires
        after.params() == before.params().insert("country"@, country_code(c)),
    ensures
        after.params().contains_key("country"@),
        after.params()["country"@] == country_code(c),
{
}

/// After the language setter runs, the raw string stored under
/// "language" is exactly the language's documented wire code.
pub proof fn lemma_language_round_trip(before: Client, after: Client, l: Language)
    requires
        after.params() == before.params().insert("language"@, language_code(l)),
    ensures
        after.params().contains_key("language"@),
        after.params()["language"@] == language_code(l),
{
}

/// After the sort-method setter runs, the raw string stored under
/// "sortBy" is exactly the method's documented wire code.
pub proof fn lemma_sort_by_round_trip(before: Client, after: Client, s: SortMethod)
    requires
        after.params() == before.params().insert("sortBy"@, sort_method_code(s)),
    ensures
        after.params().contains_key("sortBy"@),
        after.params()["sortBy"@] == sort_method_code(s),
{
}

/// After the category setter runs, the raw string stored under
/// "category" is exactly the variant's name lowercased.
pub proof fn lemma_category_round_trip(before: Client, after: Client, c: Category)
    requires
        after.params() == before.params().insert("category"@, category_tag(c)),
    ensures
        after.params().contains_key("category"@),
        after.params()["category"@] == category_tag(c),
{
}

/// Inserting into the store commutes with taking the view of every
/// stored value.
proof fn lemma_params_insert(m: Map<Seq<char>, String>, k: Seq<char>, v: String)
    ensures
        m.insert(k, v).map_values(|s: String| s@) == m.map_values(|s: String| s@).insert(k, v@),
{
    assert(m.insert(k, v).map_values(|s: String| s@) =~= m.map_values(|s: String| s@).insert(
        k,
        v@,
    ));
}

impl Client {
    /// The parameter store: field name to stored wire value.
    pub closed spec fn params(&self) -> Map<Seq<char>, Seq<char>> {
        self.parameters@.map_values(|s: String| s@)
    }

    /// The API key the client was created with.
    pub closed spec fn spec_key(&self) -> Seq<char> {
        self.api_key@
    }

    /// The URL built by the last endpoint selector, if any ran yet.
    pub closed spec fn spec_url(&self) -> Option<Seq<char>> {
        match self.url {
            Some(ref u) => Some(u@),
            None => None,
        }
    }

    /// The store holds "sources" together with "country" or "category":
    /// the one combination the API documents as invalid.
    pub open spec fn invalid_combination(&self) -> bool {
        (self.params().contains_key("country"@) || self.params().contains_key("category"@))
            && self.params().contains_key("sources"@)
    }

    /// Returns a client that will authenticate with the given API key,
    /// with no parameters stored and no URL built.
    pub fn new(api_key: String) -> (r: Client)
        ensures
            r.spec_key() == api_key@,
            r.params() == Map::<Seq<char>, Seq<char>>::empty(),
            r.spec_url() is None,
    {
        let r = Client { api_key, parameters: StringHashMap::new(), url: None };
        proof {
            assert(r.params() =~= Map::<Seq<char>, Seq<char>>::empty());
        }
        r
    }

    /// The key this client authenticates with.
    pub fn api_key(&self) -> (r: &String)
        ensures
            r@ == self.spec_key(),
    {
        &self.api_key
    }

    /// The stored wire value of a field, if the field is present.
    pub fn parameter(&self, name: &str) -> (r: Option<&String>)
        ensures
            match r {
                Some(v) => self.params().contains_key(name@) && v@ == self.params()[name@],
                None => !self.params().contains_key(name@),
            },
    {
        self.parameters.get(name)
    }

    /// The URL built by the last endpoint selector.
    pub fn current_url(&self) -> (r: &Option<String>)
        ensures
            r is Some <==> self.spec_url() is Some,
            r matches Some(u) ==> Some(u@) == self.spec_url(),
    {
        &self.url
    }

    /// Build the 'fetch everything' URL from the stored parameters.
    pub fn everything(&mut self)
        ensures
            final(self).params() == old(self).params(),
            final(self).spec_key() == old(self).spec_key(),
            final(self).spec_url() == Some(
                spec_build_url(old(self).params(), EVERYTHING_URL@, everything_params()),
            ),
    {
        let allowed_params = vec![
            "q",
            "sources",
            "domains",
            "excludeDomains",
            "from",
            "to",
            "language",
            "sortBy",
            "pageSize",
            "page",
        ];
        proof {
            assert(allowed_params.deep_view() =~= everything_params());
        }
        let u = self.build_url(EVERYTHING_URL, allowed_params);
        self.url = Some(u);
    }

    /// Build the 'top headlines' URL from the stored parameters.
    pub fn top_headlines(&mut self)
        ensures
            final(self).params() == old(self).params(),
            final(self).spec_key() == old(self).spec_key(),
            final(self).spec_url() == Some(
                spec_build_url(old(self).params(), TOP_HEADLINES_URL@, top_headlines_params()),
            ),
    {
        let allowed_params = vec!["q", "country", "category", "sources", "pageSize", "page"];
        proof {
            assert(allowed_params.deep_view() =~= top_headlines_params());
        }
        let u = self.build_url(TOP_HEADLINES_URL, allowed_params);
        self.url = Some(u);
    }

    /// Build the 'sources' URL from the stored parameters.
    pub fn sources(&mut self)
        ensures
            final(self).params() == old(self).params(),
            final(self).spec_key() == old(self).spec_key(),
            final(self).spec_url() == Some(
                spec_build_url(old(self).params(), SOURCES_URL@, sources_params()),
            ),
    {
        let allowed_params = vec!["category", "language", "country"];
        proof {
            assert(allowed_params.deep_view() =~= sources_params());
        }
        let u = self.build_url(SOURCES_URL, allowed_params);
        self.url = Some(u);
    }

    /// Assembles `base_url` plus the allow-listed fields present in the
    /// store, in allow-list order.
    pub fn build_url(&self, base_url: &str, allowed_params: Vec<&str>) -> (r: String)
        ensures
            r@ == spec_build_url(self.params(), base_url@, allowed_params.deep_view()),
    {
        let ghost dv = allowed_params.deep_view();
        let mut parts: Vec<String> = Vec::new();
        let mut i: usize = 0;
        while i < allowed_params.len()
            invariant
                i <= allowed_params.len(),
                dv == allowed_params.deep_view(),
                parts.deep_view() == spec_url_parts(self.params(), dv.take(i as int)),
            decreases allowed_params.len() - i,
        {
            let field = allowed_params[i];
            let ghost parts_before = parts.deep_view();
            match self.parameters.get(field) {
                Some(value) => {
                    let mut part: String = field.to_owned();
                    part.append("=");
                    part.append(value.as_str());
                    proof {
                        assert(part@ =~= field@ + "="@ + self.params()[field@]);
                    }
                    parts.push(part);
                    proof {
                        assert(parts.deep_view() =~= parts_before + seq![
                            field@ + "="@ + self.params()[field@],
                        ]);
                    }
                },
                None => {},
            }
            proof {
                assert(dv.take(i + 1).drop_last() =~= dv.take(i as int));
                assert(dv.take(i + 1).last() == dv[i as int]);
                assert(parts.deep_view() =~= spec_url_parts(self.params(), dv.take(i + 1)));
            }
            i += 1;
        }
        proof {
            assert(dv.take(allowed_params.len() as int) =~= dv);
        }
        let mut url: String = base_url.to_owned();
        if parts.len() == 0 {
            url
        } else {
            url.append("?");
            let joined = join_strings(&parts, "&");
            url.append(joined.as_str());
            proof {
                assert(url@ =~= spec_build_url(self.params(), base_url@, dv));
            }
            url
        }
    }

    /// True exactly when the store combines "sources" with "country" or
    /// "category".
    pub fn invalid_arguments_specified(&self) -> (r: bool)
        ensures
            r == self.invalid_combination(),
    {
        (self.parameters.contains_key("country") || self.parameters.contains_key("category"))
            && self.parameters.contains_key("sources")
    }

    /// The validated request: the URL to fetch and the key to send with
    /// it.  Fails exactly as a send would before any I/O: the invalid
    /// parameter combination first, then a missing URL.
    pub fn prepare_request(&self) -> (r: Result<(String, String), NewsApiError>)
        ensures
            self.invalid_combination() ==> r == Err::<(String, String), NewsApiError>(
                NewsApiError::InvalidParameterCombinationError,
            ),
            !self.invalid_combination() && self.spec_url() is None ==> r == Err::<
                (String, String),
                NewsApiError,
            >(NewsApiError::UndefinedUrlError),
            !self.invalid_combination() && self.spec_url() is Some ==> (r matches Ok(p)
                && Some(p.0@) == self.spec_url() && p.1@ == self.spec_key()),
    {
        if self.invalid_arguments_specified() {
            return Err(NewsApiError::InvalidParameterCombinationError);
        }
        match &self.url {
            Some(url) => Ok((url.clone(), self.api_key.clone())),
            None => Err(NewsApiError::UndefinedUrlError),
        }
    }

    /// Maps a failure HTTP status and the raw body to its error.
    pub fn handle_api_error(error_code: u16, error_string: String) -> (r: NewsApiError)
        ensures
            r == spec_api_error(error_code, error_string),
    {
        if error_code == 400 {
            NewsApiError::BadRequest { code: error_code, message: error_string }
        } else if error_code == 401 {
            NewsApiError::Unauthorized { code: error_code, message: error_string }
        } else if error_code == 429 {
            NewsApiError::TooManyRequests { code: error_code, message: error_string }
        } else if error_code == 500 {
            NewsApiError::ServerError { code: error_code, message: error_string }
        } else {
            NewsApiError::GenericError { code: error_code, message: error_string }
        }
    }

    /// A date and time for the oldest article allowed.
    pub fn from(&mut self, from: &Timestamp)
        ensures
            final(self).params() == old(self).params().insert("from"@, timestamp_wire(*from)),
            final(self).spec_key() == old(self).spec_key(),
            final(self).spec_url() == old(self).spec_url(),
    {
        self.chronological_specification("from", from);
    }

    /// A date and time for the newest article allowed.
    pub fn to(&mut self, to: &Timestamp)
        ensures
            final(self).params() == old(self).params().insert("to"@, timestamp_wire(*to)),
            final(self).spec_key() == old(self).spec_key(),
            final(self).spec_url() == old(self).spec_url(),
    {
        self.chronological_specification("to", to);
    }

    fn chronological_specification(&mut self, operation: &str, dt_val: &Timestamp)
        ensures
            final(self).params() == old(self).params().insert(operation@, timestamp_wire(*dt_val)),
            final(self).spec_key() == old(self).spec_key(),
            final(self).spec_url() == old(self).spec_url(),
    {
        let v = dt_val.wire_format();
        proof {
            lemma_params_insert(self.parameters@, operation@, v);
        }
        self.parameters.insert(operation.to_owned(), v);
    }

    /// The domains to which the search will be restricted, joined with
    /// commas and stored under "domains".
    pub fn domains(&mut self, domains: Vec<&str>)
        ensures
            final(self).params() == old(self).params().insert(
                "domains"@,
                spec_join(domains.deep_view(), ","@),
            ),
            final(self).spec_key() == old(self).spec_key(),
            final(self).spec_url() == old(self).spec_url(),
    {
        self.manage_domains("domains", domains);
    }

    /// The domains from which no stories will be present in the results,
    /// joined with commas and stored under "excludeDomains".
    pub fn exclude_domains(&mut self, domains: Vec<&str>)
        ensures
            final(self).params() == old(self).params().insert(
                "excludeDomains"@,
                spec_join(domains.deep_view(), ","@),
            ),
            final(self).spec_key() == old(self).spec_key(),
            final(self).spec_url() == old(self).spec_url(),
    {
        self.manage_domains("excludeDomains", domains);
    }

    fn manage_domains(&mut self, operation: &str, domains: Vec<&str>)
        ensures
            final(self).params() == old(self).params().insert(
                operation@,
                spec_join(domains.deep_view(), ","@),
            ),
            final(self).spec_key() == old(self).spec_key(),
            final(self).spec_url() == old(self).spec_url(),
    {
        let v = join_strs(&domains, ",");
        proof {
            lemma_params_insert(self.parameters@, operation@, v);
        }
        self.parameters.insert(operation.to_owned(), v);
    }

    /// Narrows the search to one country: stores its wire code under
    /// "country".
    pub fn country(&mut self, country: Country)
        ensures
            final(self).params() == old(self).params().insert("country"@, country_code(country)),
            final(self).spec_key() == old(self).spec_key(),
            final(self).spec_url() == old(self).spec_url(),
    {
        let v: String = country.code().to_owned();
        proof {
            lemma_params_insert(self.parameters@, "country"@, v);
        }
        self.parameters.insert("country".to_owned(), v);
    }

    /// Narrows the search to one category: stores its lowercase name
    /// under "category".
    pub fn category(&mut self, category: Category)
        ensures
            final(self).params() == old(self).params().insert("category"@, category_tag(category)),
            final(self).spec_key() == old(self).spec_key(),
            final(self).spec_url() == old(self).spec_url(),
    {
        let v: String = category.tag().to_owned();
        proof {
            lemma_params_insert(self.parameters@, "category"@, v);
        }
        self.parameters.insert("category".to_owned(), v);
    }

    /// Stores a raw comma-joined source-identifier string under
    /// "sources".  This parameter cannot be mixed with country or
    /// category; that is checked before sending, not here.
    pub fn with_sources(&mut self, sources: String)
        ensures
            final(self).params() == old(self).params().insert("sources"@, sources@),
            final(self).spec_key() == old(self).spec_key(),
            final(self).spec_url() == old(self).spec_url(),
    {
        proof {
            lemma_params_insert(self.parameters@, "sources"@, sources);
        }
        self.parameters.insert("sources".to_owned(), sources);
    }

    /// Keywords or phrases to search for, percent-encoded (every byte
    /// that is not an ASCII letter or digit) and stored under "q".
    pub fn query(&mut self, query: &str)
        ensures
            final(self).params() == old(self).params().insert(
                "q"@,
                percent_encode_non_alnum(query@),
            ),
            final(self).spec_key() == old(self).spec_key(),
            final(self).spec_url() == old(self).spec_url(),
    {
        let v = percent_encode_query(query);
        proof {
            lemma_params_insert(self.parameters@, "q"@, v);
        }
        self.parameters.insert("q".to_owned(), v);
    }

    /// Stores the page number under "page", unconditionally.
    pub fn page(&mut self, page: u32)
        ensures
            final(self).params() == old(self).params().insert("page"@, dec_digits(page as int)),
            final(self).spec_key() == old(self).spec_key(),
            final(self).spec_url() == old(self).spec_url(),
    {
        let v = u32_digits(page);
        proof {
            lemma_params_insert(self.parameters@, "page"@, v);
        }
        self.parameters.insert("page".to_owned(), v);
    }

    /// Stores the page size under "pageSize" when it lies in 1..=100;
    /// an out-of-range size is silently ignored and the store keeps its
    /// previous value.
    pub fn page_size(&mut self, size: u32)
        ensures
            1 <= size <= 100 ==> final(self).params() == old(self).params().insert(
                "pageSize"@,
                dec_digits(size as int),
            ),
            !(1 <= size <= 100) ==> *final(self) == *old(self),
            final(self).spec_key() == old(self).spec_key(),
            final(self).spec_url() == old(self).spec_url(),
    {
        if size >= 1 && size <= 100 {
            let v = u32_digits(size);
            proof {
                lemma_params_insert(self.parameters@, "pageSize"@, v);
            }
            self.parameters.insert("pageSize".to_owned(), v);
        }
    }

    /// Narrows the search to one language: stores its wire code under
    /// "language".
    pub fn language(&mut self, language: Language)
        ensures
            final(self).params() == old(self).params().insert(
                "language"@,
                language_code(language),
            ),
            final(self).spec_key() == old(self).spec_key(),
            final(self).spec_url() == old(self).spec_url(),
    {
        let v: String = language.code().to_owned();
        proof {
            lemma_params_insert(self.parameters@, "language"@, v);
        }
        self.parameters.insert("language".to_owned(), v);
    }

    /// Selects the result order: stores the sort method's wire code
    /// under "sortBy".
    pub fn sort_by(&mut self, sort_by: SortMethod)
        ensures
            final(self).params() == old(self).params().insert("sortBy"@, sort_method_code(sort_by)),
            final(self).spec_key() == old(self).spec_key(),
            final(self).spec_url() == old(self).spec_url(),
    {
        let v: String = sort_by.code().to_owned();
        proof {
            lemma_params_insert(self.parameters@, "sortBy"@, v);
        }
        self.parameters.insert("sortBy".to_owned(), v);
    }
}

} // verus!
