use newsapi::api::Client;
use newsapi::constants::{Category, Country, Language, SortMethod};

fn stored_country(c: Country) -> String {
    let mut api = Client::new("123".to_owned());
    api.country(c);
    api.parameter("country").unwrap().clone()
}

fn stored_language(l: Language) -> String {
    let mut api = Client::new("123".to_owned());
    api.language(l);
    api.parameter("language").unwrap().clone()
}

fn stored_sort(s: SortMethod) -> String {
    let mut api = Client::new("123".to_owned());
    api.sort_by(s);
    api.parameter("sortBy").unwrap().clone()
}

fn stored_category(c: Category) -> String {
    let mut api = Client::new("123".to_owned());
    api.category(c);
    api.parameter("category").unwrap().clone()
}

#[test]
fn country_codes_round_trip() {
    let table: Vec<(Country, &str)> = vec![
        (Country::Argentina, "ar"),
        (Country::Australia, "au"),
        (Country::Austria, "at"),
        (Country::Belgium, "be"),
        (Country::Brazil, "br"),
        (Country::Bulgaria, "bg"),
        (Country::Canada, "ca"),
        (Country::China, "cn"),
        (Country::Colombia, "co"),
        (Country::Cuba, "cu"),
        (Country::Czechia, "cz"),
        (Country::Egypt, "eg"),
        (Country::France, "fr"),
        (Country::Germany, "de"),
        (Country::Greece, "gr"),
        (Country::HongKong, "hk"),
        (Country::Hungary, "hu"),
        (Country::India, "in"),
        (Country::Indonesia, "id"),
        (Country::Ireland, "ie"),
        (Country::Israel, "il"),
        (Country::Italy, "it"),
        (Country::Japan, "jp"),
        (Country::KoreaRepublicof, "kr"),
        (Country::Latvia, "lv"),
        (Country::Lithuania, "lt"),
        (Country::Malaysia, "my"),
        (Country::Mexico, "mx"),
        (Country::Morocco, "ma"),
        (Country::Netherlands, "nl"),
        (Country::NewZealand, "nz"),
        (Country::Nigeria, "ng"),
        (Country::Norway, "no"),
        (Country::Philippines, "ph"),
        (Country::Poland, "pl"),
        (Country::Portugal, "pt"),
        (Country::Romania, "ro"),
        (Country::RussianFederation, "ru"),
        (Country::SaudiArabia, "sa"),
        (Country::Serbia, "rs"),
        (Country::Singapore, "sg"),
        (Country::Slovakia, "sk"),
        (Country::Slovenia, "si"),
        (Country::SouthAfrica, "za"),
        (Country::Sweden, "se"),
        (Country::Switzerland, "ch"),
        (Country::Taiwan, "tw"),
        (Country::Thailand, "th"),
        (Country::Turkey, "tr"),
        (Country::Ukraine, "ua"),
        (Country::UnitedArabEmirates, "ae"),
        (Country::UnitedKingdomofGreatBritainandNorthernIreland, "gb"),
        (Country::UnitedStatesofAmerica, "us"),
        (Country::VenezuelaBolivarianRepublicof, "ve"),
    ];
    for (c, code) in table {
        assert_eq!(stored_country(c), code.to_string());
        assert_eq!(c.code(), code);
    }
}

#[test]
fn language_codes_round_trip() {
    let table: Vec<(Language, &str)> = vec![
        (Language::Arabic, "ar"),
        (Language::German, "de"),
        (Language::English, "en"),
        (Language::Spanish, "es"),
        (Language::French, "fr"),
        (Language::Hebrew, "he"),
        (Language::Italian, "it"),
        (Language::Dutch, "nl"),
        (Language::Norwegian, "no"),
        (Language::Portuguese, "pt"),
        (Language::Russian, "ru"),
        (Language::NorthernSami, "se"),
        (Language::Urdu, "ud"),
        (Language::Chinese, "zh"),
    ];
    for (l, code) in table {
        assert_eq!(stored_language(l), code.to_string());
        assert_eq!(l.code(), code);
    }
}

#[test]
fn sort_method_codes_round_trip() {
    let table: Vec<(SortMethod, &str)> = vec![
        (SortMethod::Relevancy, "relevancy"),
        (SortMethod::Popularity, "popularity"),
        (SortMethod::PublishedAt, "publishedAt"),
    ];
    for (s, code) in table {
        assert_eq!(stored_sort(s), code.to_string());
        assert_eq!(s.code(), code);
    }
}

#[test]
fn category_tags_are_lowercased_names() {
    let table: Vec<(Category, &str)> = vec![
        (Category::Business, "business"),
        (Category::Entertainment, "entertainment"),
        (Category::General, "general"),
        (Category::Health, "health"),
        (Category::Science, "science"),
        (Category::Sports, "sports"),
        (Category::Technology, "technology"),
    ];
    for (c, tag) in table {
        assert_eq!(stored_category(c), tag.to_string());
        assert_eq!(c.tag(), tag);
        assert_eq!(Category::from_tag(tag), Some(c));
    }
    assert_eq!(Category::from_tag("Business"), None);
    assert_eq!(Category::from_tag("weather"), None);
    assert_eq!(Category::from_tag(""), None);
}
