//! Domain enumerations and their wire-format codes.
//!
//! `Country`, `Language` and `SortMethod` each map bijectively to a fixed
//! wire code; `Category` maps to its name lowercased.  The spec functions
//! are the lookup tables, and the exec functions are proved to follow them.

use vstd::prelude::*;

verus! {

broadcast use vstd::string::group_string_axioms;

pub const TOP_HEADLINES_URL: &'static str = "https://newsapi.org/v2/top-headlines";

pub const EVERYTHING_URL: &'static str = "https://newsapi.org/v2/everything";

pub const SOURCES_URL: &'static str = "https://newsapi.org/v2/sources";

#[derive(Clone, Copy, Debug, PartialEq, Eq, Structural)]
pub enum SortMethod {
    Relevancy,
    Popularity,
    PublishedAt,
}

#[derive(Clone, Copy, Debug, PartialEq, Eq, Structural)]
pub enum Country {
    Argentina,
    Australia,
    Austria,
    Belgium,
    Brazil,
    Bulgaria,
    Canada,
    China,
    Colombia,
    Cuba,
    Czechia,
    Egypt,
    France,
    Germany,
    Greece,
    HongKong,
    Hungary,
    India,
    Indonesia,
    Ireland,
    Israel,
    Italy,
    Japan,
    KoreaRepublicof,
    Latvia,
    Lithuania,
    Malaysia,
    Mexico,
    Morocco,
    Netherlands,
    NewZealand,
    Nigeria,
    Norway,
    Philippines,
    Poland,
    Portugal,
    Romania,
    RussianFederation,
    SaudiArabia,
    Serbia,
    Singapore,
    Slovakia,
    Slovenia,
    SouthAfrica,
    Sweden,
    Switzerland,
    Taiwan,
    Thailand,
    Turkey,
    Ukraine,
    UnitedArabEmirates,
    UnitedKingdomofGreatBritainandNorthernIreland,
    UnitedStatesofAmerica,
    VenezuelaBolivarianRepublicof,
}

#[derive(Clone, Copy, Debug, PartialEq, Eq, Structural)]
pub enum Language {
    Arabic,
    German,
    English,
    Spanish,
    French,
    Hebrew,
    Italian,
    Dutch,
    Norwegian,
    Portuguese,
    Russian,
    NorthernSami,
    Urdu,
    Chinese,
}

#[derive(Clone, Copy, Debug, PartialEq, Eq, Structural)]
pub enum Category {
    Business,
    Entertainment,
    General,
    Health,
    Science,
    Sports,
    Technology,
}

/// The wire code of a sort method.
pub open spec fn sort_method_code(s: SortMethod) -> Seq<char> {
    match s {
        SortMethod::Relevancy => "relevancy"@,
        SortMethod::Popularity => "popularity"@,
        SortMethod::PublishedAt => "publishedAt"@,
    }
}

/// The wire code of a country.
pub open spec fn country_code(c: Country) -> Seq<char> {
    match c {
        Country::Argentina => "ar"@,
        Country::Australia => "au"@,
        Country::Austria => "at"@,
        Country::Belgium => "be"@,
        Country::Brazil => "br"@,
        Country::Bulgaria => "bg"@,
        Country::Canada => "ca"@,
        Country::China => "cn"@,
        Country::Colombia => "co"@,
        Country::Cuba => "cu"@,
        Country::Czechia => "cz"@,
        Country::Egypt => "eg"@,
        Country::France => "fr"@,
        Country::Germany => "de"@,
        Country::Greece => "gr"@,
        Country::HongKong => "hk"@,
        Country::Hungary => "hu"@,
        Country::India => "in"@,
        Country::Indonesia => "id"@,
        Country::Ireland => "ie"@,
        Country::Israel => "il"@,
        Country::Italy => "it"@,
        Country::Japan => "jp"@,
        Country::KoreaRepublicof => "kr"@,
        Country::Latvia => "lv"@,
        Country::Lithuania => "lt"@,
        Country::Malaysia => "my"@,
        Country::Mexico => "mx"@,
        Country::Morocco => "ma"@,
        Country::Netherlands => "nl"@,
        Country::NewZealand => "nz"@,
        Country::Nigeria => "ng"@,
        Country::Norway => "no"@,
        Country::Philippines => "ph"@,
        Country::Poland => "pl"@,
        Country::Portugal => "pt"@,
        Country::Romania => "ro"@,
        Country::RussianFederation => "ru"@,
        Country::SaudiArabia => "sa"@,
        Country::Serbia => "rs"@,
        Country::Singapore => "sg"@,
        Country::Slovakia => "sk"@,
        Country::Slovenia => "si"@,
        Country::SouthAfrica => "za"@,
        Country::Sweden => "se"@,
        Country::Switzerland => "ch"@,
        Country::Taiwan => "tw"@,
        Country::Thailand => "th"@,
        Country::Turkey => "tr"@,
        Country::Ukraine => "ua"@,
        Country::UnitedArabEmirates => "ae"@,
        Country::UnitedKingdomofGreatBritainandNorthernIreland => "gb"@,
        Country::UnitedStatesofAmerica => "us"@,
        Country::VenezuelaBolivarianRepublicof => "ve"@,
    }
}

/// The wire code of a language.  "ud" for Urdu reproduces the upstream
/// API's own table; the standard code would be "ur", but correctness here
/// means matching what the API expects.
pub open spec fn language_code(l: Language) -> Seq<char> {
    match l {
        Language::Arabic => "ar"@,
        Language::German => "de"@,
        Language::English => "en"@,
        Language::Spanish => "es"@,
        Language::French => "fr"@,
        Language::Hebrew => "he"@,
        Language::Italian => "it"@,
        Language::Dutch => "nl"@,
        Language::Norwegian => "no"@,
        Language::Portuguese => "pt"@,
        Language::Russian => "ru"@,
        Language::NorthernSami => "se"@,
        Language::Urdu => "ud"@,
        Language::Chinese => "zh"@,
    }
}

/// The wire tag of a category: its variant name lowercased.
pub open spec fn category_tag(c: Category) -> Seq<char> {
    match c {
        Category::Business => "business"@,
        Category::Entertainment => "entertainment"@,
        Category::General => "general"@,
        Category::Health => "health"@,
        Category::Science => "science"@,
        Category::Sports => "sports"@,
        Category::Technology => "technology"@,
    }
}

/// The category a wire tag decodes to: `Some` exactly for the seven
/// known lowercase tags.
pub open spec fn category_of_tag(s: Seq<char>) -> Option<Category> {
    if s == "business"@ {
        Some(Category::Business)
    } else if s == "entertainment"@ {
        Some(Category::Entertainment)
    } else if s == "general"@ {
        Some(Category::General)
    } else if s == "health"@ {
        Some(Category::Health)
    } else if s == "science"@ {
        Some(Category::Science)
    } else if s == "sports"@ {
        Some(Category::Sports)
    } else if s == "technology"@ {
        Some(Category::Technology)
    } else {
        None
    }
}

/// Encoding a category as its tag and decoding the tag gives the
/// category back: the tag mapping is injective.
pub proof fn lemma_category_tag_round_trip(c: Category)
    ensures
        category_of_tag(category_tag(c)) == Some(c),
{
    reveal_strlit("business");
    reveal_strlit("entertainment");
    reveal_strlit("general");
    reveal_strlit("health");
    reveal_strlit("science");
    reveal_strlit("sports");
    reveal_strlit("technology");
    assert("business"@.len() == 8);
    assert("entertainment"@.len() == 13);
    assert("general"@.len() == 7);
    assert("health"@.len() == 6);
    assert("science"@.len() == 7);
    assert("sports"@.len() == 6);
    assert("technology"@.len() == 10);
    assert("general"@[0] == 'g');
    assert("science"@[0] == 's');
    assert("health"@[0] == 'h');
    assert("sports"@[0] == 's');
    match c {
        Category::Business => assert(category_of_tag("business"@) == Some(Category::Business)),
        Category::Entertainment => assert(category_of_tag("entertainment"@) == Some(
            Category::Entertainment,
        )),
        Category::General => assert(category_of_tag("general"@) == Some(Category::General)),
        Category::Health => assert(category_of_tag("health"@) == Some(Category::Health)),
        Category::Science => assert(category_of_tag("science"@) == Some(Category::Science)),
        Category::Sports => assert(category_of_tag("sports"@) == Some(Category::Sports)),
        Category::Technology => assert(category_of_tag("technology"@) == Some(
            Category::Technology,
        )),
    }
}

/// Two sort methods with the same wire code are the same: the code
/// table is injective, so the wire mapping is a bijection onto the
/// codes.
pub proof fn lemma_sort_method_code_injective(a: SortMethod, b: SortMethod)
    ensures
        sort_method_code(a) == sort_method_code(b) ==> a == b,
{
    reveal_strlit("relevancy");
    reveal_strlit("popularity");
    reveal_strlit("publishedAt");
    assert("relevancy"@.len() == 9);
    assert("popularity"@.len() == 10);
    assert("publishedAt"@.len() == 11);
}

/// Two countries with the same wire code are the same: the code table
/// is injective, so the wire mapping is a bijection onto the codes.
pub proof fn lemma_country_code_injective(a: Country, b: Country)
    ensures
        country_code(a) == country_code(b) ==> a == b,
{
    reveal_strlit("ar");
    reveal_strlit("au");
    reveal_strlit("at");
    reveal_strlit("be");
    reveal_strlit("br");
    reveal_strlit("bg");
    reveal_strlit("ca");
    reveal_strlit("cn");
    reveal_strlit("co");
    reveal_strlit("cu");
    reveal_strlit("cz");
    reveal_strlit("eg");
    reveal_strlit("fr");
    reveal_strlit("de");
    reveal_strlit("gr");
    reveal_strlit("hk");
    reveal_strlit("hu");
    reveal_strlit("in");
    reveal_strlit("id");
    reveal_strlit("ie");
    reveal_strlit("il");
    reveal_strlit("it");
    reveal_strlit("jp");
    reveal_strlit("kr");
    reveal_strlit("lv");
    reveal_strlit("lt");
    reveal_strlit("my");
    reveal_strlit("mx");
    reveal_strlit("ma");
    reveal_strlit("nl");
    reveal_strlit("nz");
    reveal_strlit("ng");
    reveal_strlit("no");
    reveal_strlit("ph");
    reveal_strlit("pl");
    reveal_strlit("pt");
    reveal_strlit("ro");
    reveal_strlit("ru");
    reveal_strlit("sa");
    reveal_strlit("rs");
    reveal_strlit("sg");
    reveal_strlit("sk");
    reveal_strlit("si");
    reveal_strlit("za");
    reveal_strlit("se");
    reveal_strlit("ch");
    reveal_strlit("tw");
    reveal_strlit("th");
    reveal_strlit("tr");
    reveal_strlit("ua");
    reveal_strlit("ae");
    reveal_strlit("gb");
    reveal_strlit("us");
    reveal_strlit("ve");
    assert(forall|c: Country| #[trigger] country_code(c).len() == 2) by {
        assert("ar"@.len() == 2);
        assert("au"@.len() == 2);
        assert("at"@.len() == 2);
        assert("be"@.len() == 2);
        assert("br"@.len() == 2);
        assert("bg"@.len() == 2);
        assert("ca"@.len() == 2);
        assert("cn"@.len() == 2);
        assert("co"@.len() == 2);
        assert("cu"@.len() == 2);
        assert("cz"@.len() == 2);
        assert("eg"@.len() == 2);
        assert("fr"@.len() == 2);
        assert("de"@.len() == 2);
        assert("gr"@.len() == 2);
        assert("hk"@.len() == 2);
        assert("hu"@.len() == 2);
        assert("in"@.len() == 2);
        assert("id"@.len() == 2);
        assert("ie"@.len() == 2);
        assert("il"@.len() == 2);
        assert("it"@.len() == 2);
        assert("jp"@.len() == 2);
        assert("kr"@.len() == 2);
        assert("lv"@.len() == 2);
        assert("lt"@.len() == 2);
        assert("my"@.len() == 2);
        assert("mx"@.len() == 2);
        assert("ma"@.len() == 2);
        assert("nl"@.len() == 2);
        assert("nz"@.len() == 2);
        assert("ng"@.len() == 2);
        assert("no"@.len() == 2);
        assert("ph"@.len() == 2);
        assert("pl"@.len() == 2);
        assert("pt"@.len() == 2);
        assert("ro"@.len() == 2);
        assert("ru"@.len() == 2);
        assert("sa"@.len() == 2);
        assert("rs"@.len() == 2);
        assert("sg"@.len() == 2);
        assert("sk"@.len() == 2);
        assert("si"@.len() == 2);
        assert("za"@.len() == 2);
        assert("se"@.len() == 2);
        assert("ch"@.len() == 2);
        assert("tw"@.len() == 2);
        assert("th"@.len() == 2);
        assert("tr"@.len() == 2);
        assert("ua"@.len() == 2);
        assert("ae"@.len() == 2);
        assert("gb"@.len() == 2);
        assert("us"@.len() == 2);
        assert("ve"@.len() == 2);
    }
    if country_code(a) == country_code(b) {
        assert(country_code(a)[0] == country_code(b)[0]);
        assert(country_code(a)[1] == country_code(b)[1]);
    }
}

/// Two languages with the same wire code are the same: the code table
/// is injective, so the wire mapping is a bijection onto the codes.
pub proof fn lemma_language_code_injective(a: Language, b: Language)
    ensures
        language_code(a) == language_code(b) ==> a == b,
{
    reveal_strlit("ar");
    reveal_strlit("de");
    reveal_strlit("en");
    reveal_strlit("es");
    reveal_strlit("fr");
    reveal_strlit("he");
    reveal_strlit("it");
    reveal_strlit("nl");
    reveal_strlit("no");
    reveal_strlit("pt");
    reveal_strlit("ru");
    reveal_strlit("se");
    reveal_strlit("ud");
    reveal_strlit("zh");
    assert(forall|l: Language| #[trigger] language_code(l).len() == 2) by {
        assert("ar"@.len() == 2);
        assert("de"@.len() == 2);
        assert("en"@.len() == 2);
        assert("es"@.len() == 2);
        assert("fr"@.len() == 2);
        assert("he"@.len() == 2);
        assert("it"@.len() == 2);
        assert("nl"@.len() == 2);
        assert("no"@.len() == 2);
        assert("pt"@.len() == 2);
        assert("ru"@.len() == 2);
        assert("se"@.len() == 2);
        assert("ud"@.len() == 2);
        assert("zh"@.len() == 2);
    }
    if language_code(a) == language_code(b) {
        assert(language_code(a)[0] == language_code(b)[0]);
        assert(language_code(a)[1] == language_code(b)[1]);
    }
}

impl SortMethod {
    /// The wire code sent to the API for this sort method.
    pub fn code(self) -> (r: &'static str)
        ensures
            r@ == sort_method_code(self),
    {
        match self {
            SortMethod::Relevancy => "relevancy",
            SortMethod::Popularity => "popularity",
            SortMethod::PublishedAt => "publishedAt",
        }
    }
}

impl Country {
    /// The wire code sent to the API for this country.
    pub fn code(self) -> (r: &'static str)
        ensures
            r@ == country_code(self),
    {
        match self {
            Country::Argentina => "ar",
            Country::Australia => "au",
            Country::Austria => "at",
            Country::Belgium => "be",
            Country::Brazil => "br",
            Country::Bulgaria => "bg",
            Country::Canada => "ca",
            Country::China => "cn",
            Country::Colombia => "co",
            Country::Cuba => "cu",
            Country::Czechia => "cz",
            Country::Egypt => "eg",
            Country::France => "fr",
            Country::Germany => "de",
            Country::Greece => "gr",
            Country::HongKong => "hk",
            Country::Hungary => "hu",
            Country::India => "in",
            Country::Indonesia => "id",
            Country::Ireland => "ie",
            Country::Israel => "il",
            Country::Italy => "it",
            Country::Japan => "jp",
            Country::KoreaRepublicof => "kr",
            Country::Latvia => "lv",
            Country::Lithuania => "lt",
            Country::Malaysia => "my",
            Country::Mexico => "mx",
            Country::Morocco => "ma",
            Country::Netherlands => "nl",
            Country::NewZealand => "nz",
            Country::Nigeria => "ng",
            Country::Norway => "no",
            Country::Philippines => "ph",
            Country::Poland => "pl",
            Country::Portugal => "pt",
            Country::Romania => "ro",
            Country::RussianFederation => "ru",
            Country::SaudiArabia => "sa",
            Country::Serbia => "rs",
            Country::Singapore => "sg",
            Country::Slovakia => "sk",
            Country::Slovenia => "si",
            Country::SouthAfrica => "za",
            Country::Sweden => "se",
            Country::Switzerland => "ch",
            Country::Taiwan => "tw",
            Country::Thailand => "th",
            Country::Turkey => "tr",
            Country::Ukraine => "ua",
            Country::UnitedArabEmirates => "ae",
            Country::UnitedKingdomofGreatBritainandNorthernIreland => "gb",
            Country::UnitedStatesofAmerica => "us",
            Country::VenezuelaBolivarianRepublicof => "ve",
        }
    }
}

impl Language {
    /// The wire code sent to the API for this language.
    pub fn code(self) -> (r: &'static str)
        ensures
            r@ == language_code(self),
    {
        match self {
            Language::Arabic => "ar",
            Language::German => "de",
            Language::English => "en",
            Language::Spanish => "es",
            Language::French => "fr",
            Language::Hebrew => "he",
            Language::Italian => "it",
            Language::Dutch => "nl",
            Language::Norwegian => "no",
            Language::Portuguese => "pt",
            Language::Russian => "ru",
            Language::NorthernSami => "se",
            Language::Urdu => "ud",
            Language::Chinese => "zh",
        }
    }
}

impl Category {
    /// Decodes a wire tag; `None` for any unrecognized tag.
    pub fn from_tag(tag: &str) -> (r: Option<Category>)
        ensures
            r == category_of_tag(tag@),
    {
        if crate::text::str_eq(tag, "business") {
            Some(Category::Business)
        } else if crate::text::str_eq(tag, "entertainment") {
            Some(Category::Entertainment)
        } else if crate::text::str_eq(tag, "general") {
            Some(Category::General)
        } else if crate::text::str_eq(tag, "health") {
            Some(Category::Health)
        } else if crate::text::str_eq(tag, "science") {
            Some(Category::Science)
        } else if crate::text::str_eq(tag, "sports") {
            Some(Category::Sports)
        } else if crate::text::str_eq(tag, "technology") {
            Some(Category::Technology)
        } else {
            None
        }
    }

    /// The wire tag stored for this category: its name lowercased.
    pub fn tag(self) -> (r: &'static str)
        ensures
            r@ == category_tag(self),
    {
        match self {
            Category::Business => "business",
            Category::Entertainment => "entertainment",
            Category::General => "general",
            Category::Health => "health",
            Category::Science => "science",
            Category::Sports => "sports",
            Category::Technology => "technology",
        }
    }
}

} // verus!
