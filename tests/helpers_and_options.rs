use search_aggregator::cache::{get_max_seconds, get_max_suggest_seconds, parse_u32};
use search_aggregator::constants::match_country_code;
use search_aggregator::json::JsonValue;
use search_aggregator::models::SearchResult;
use search_aggregator::options::{BraveSearchOptions, QueryParams, SafeMode, SearchProviderMode};
use search_aggregator::utils::{build_query_option, build_query_string, find_position_in_strings};

fn params(q: &str) -> QueryParams {
    QueryParams {
        q: Some(q.to_string()),
        safe: None,
        cc: None,
        lang: None,
        p: None,
        cached: None,
        mode: None,
    }
}

fn options(q: &str) -> BraveSearchOptions {
    BraveSearchOptions::new(&params(q))
}

#[test]
fn safe_mode_keys_ignore_case() {
    assert_eq!(SafeMode::from_key("STRICT"), SafeMode::Strict);
    assert_eq!(SafeMode::from_key("on"), SafeMode::Strict);
    assert_eq!(SafeMode::from_key("2"), SafeMode::Strict);
    assert_eq!(SafeMode::from_key("Mild"), SafeMode::Moderate);
    assert_eq!(SafeMode::from_key("1"), SafeMode::Moderate);
    assert_eq!(SafeMode::from_key("whatever"), SafeMode::Off);
    assert_eq!(SafeMode::from_opt_key(None), SafeMode::Off);
    assert_eq!(SafeMode::from_opt_key(Some("partial".to_string())), SafeMode::Moderate);
}

#[test]
fn safe_mode_codes() {
    assert_eq!(SafeMode::Strict.to_short(), "y");
    assert_eq!(SafeMode::Moderate.to_short(), "m");
    assert_eq!(SafeMode::Off.to_short(), "n");
    let (k, v) = SafeMode::Moderate.to_option();
    assert_eq!(k, "safemode");
    assert_eq!(v, "moderate");
}

#[test]
fn provider_mode_keys() {
    assert_eq!(SearchProviderMode::from_key("all"), SearchProviderMode::All);
    assert_eq!(SearchProviderMode::from_key("text"), SearchProviderMode::FullText);
    assert_eq!(SearchProviderMode::from_key("fulltext"), SearchProviderMode::FullText);
    assert_eq!(SearchProviderMode::from_key("brave"), SearchProviderMode::Brave);
    assert_eq!(SearchProviderMode::from_key("mojeek"), SearchProviderMode::Mojeek);
    assert_eq!(SearchProviderMode::from_key("Brave"), SearchProviderMode::Core);
    assert!(SearchProviderMode::Core.search_mojeek());
    assert!(SearchProviderMode::All.search_mojeek());
    assert!(SearchProviderMode::Mojeek.search_mojeek());
    assert!(!SearchProviderMode::Brave.search_mojeek());
    assert!(!SearchProviderMode::FullText.search_mojeek());
    assert_eq!(SearchProviderMode::Core.param_key(), None);
    assert_eq!(SearchProviderMode::FullText.param_key(), Some("fulltext"));
    assert_eq!(SearchProviderMode::All.to_param_key("y"), "yall");
    assert_eq!(SearchProviderMode::Core.to_param_key("n"), "n");
}

#[test]
fn country_codes_match_in_any_case() {
    assert_eq!(match_country_code("de"), Some("DE".to_string()));
    assert_eq!(match_country_code("uk"), Some("GB".to_string()));
    assert_eq!(match_country_code("US"), Some("US".to_string()));
    assert_eq!(match_country_code("xx"), None);
    assert_eq!(match_country_code(""), None);
}

#[test]
fn options_from_params() {
    let mut p = params("Rust Lang");
    p.safe = Some("strict".to_string());
    p.cc = Some("uk".to_string());
    p.lang = Some("EN".to_string());
    p.p = Some(3);
    p.mode = Some("all".to_string());
    let o = BraveSearchOptions::new(&p);
    assert_eq!(o.q, "Rust Lang");
    assert_eq!(o.safesearch, SafeMode::Strict);
    assert_eq!(o.cc, Some("GB".to_string()));
    assert_eq!(o.language, Some("en".to_string()));
    assert_eq!(o.offset, Some(2));
    assert_eq!(o.mode, SearchProviderMode::All);
    assert_eq!(o.page(), 3);
}

#[test]
fn options_defaults_and_rejections() {
    let mut p = params("q");
    p.lang = Some("engl".to_string());
    p.p = Some(0);
    let o = BraveSearchOptions::new(&p);
    assert_eq!(o.language, None);
    assert_eq!(o.offset, None);
    assert_eq!(o.mode, SearchProviderMode::Core);
    assert_eq!(o.safesearch, SafeMode::Off);
    assert_eq!(o.page(), 1);
    let mut later = params("q");
    later.p = Some(65537);
    assert_eq!(BraveSearchOptions::new(&later).offset, None);
    later.p = Some(65536);
    assert_eq!(BraveSearchOptions::new(&later).offset, Some(65535));
    assert_eq!(BraveSearchOptions::new(&later).page(), 65535);
    later.p = Some(65535);
    assert_eq!(BraveSearchOptions::new(&later).offset, Some(65534));
    assert_eq!(BraveSearchOptions::new(&later).page(), 65535);
    later.p = Some(i64::MIN);
    assert_eq!(BraveSearchOptions::new(&later).offset, None);
    let mut wide = params("q");
    wide.lang = Some("ÉÀ".to_string());
    assert_eq!(BraveSearchOptions::new(&wide).language, Some("éà".to_string()));
    let none = QueryParams { q: None, safe: None, cc: None, lang: None, p: None, cached: None, mode: None };
    assert_eq!(BraveSearchOptions::new(&none).q, "");
}

#[test]
fn option_accessors() {
    let mut p = params("q");
    p.cc = Some("fr".to_string());
    let o = BraveSearchOptions::new(&p);
    assert_eq!(o.cc_val(), "FR");
    assert_eq!(o.country_code(), Some("FR".to_string()));
    assert_eq!(o.lang_code("en"), "en");
    assert_eq!(o.lang(), None);
    assert_eq!(options("q").cc_val(), "");
}

#[test]
fn cache_key_is_slug_of_fields() {
    let o = options("Rust Lang");
    assert_eq!(o.to_cache_key(o.mode), "cs-rust-lang-n-all-0");
    assert_eq!(o.to_cache_key(SearchProviderMode::All), "cs-rust-lang-nall-all-0");
    assert_eq!(o.to_suggest_cache_key(), "br-sugg-rust-lang-all");
}

#[test]
fn cache_key_equal_fields_equal_keys() {
    let a = options("rust");
    let b = options("rust");
    assert_eq!(a.to_cache_key(a.mode), b.to_cache_key(b.mode));
}

#[test]
fn primary_sorts_ahead_at_equal_position() {
    let row = JsonValue::Object(vec![]);
    assert!(SearchResult::new(&row, 3).weight < SearchResult::new_from_mojeek(&row, 3).weight);
}

#[test]
fn cache_key_single_field_differences() {
    let base = options("rust");
    let key = base.to_cache_key(base.mode);
    assert_ne!(options("rusty").to_cache_key(base.mode), key);
    let mut p = params("rust");
    p.safe = Some("strict".to_string());
    assert_ne!(BraveSearchOptions::new(&p).to_cache_key(base.mode), key);
    assert_ne!(base.to_cache_key(SearchProviderMode::Mojeek), key);
    let mut p = params("rust");
    p.cc = Some("de".to_string());
    assert_ne!(BraveSearchOptions::new(&p).to_cache_key(base.mode), key);
    let mut p = params("rust");
    p.lang = Some("de".to_string());
    assert_ne!(BraveSearchOptions::new(&p).to_cache_key(base.mode), key);
    let mut p = params("rust");
    p.p = Some(2);
    assert_ne!(BraveSearchOptions::new(&p).to_cache_key(base.mode), key);
}

#[test]
fn search_tuples() {
    let mut p = params("rust");
    p.cc = Some("de".to_string());
    p.p = Some(2);
    p.lang = Some("de".to_string());
    let o = BraveSearchOptions::new(&p);
    let t = o.to_tuples();
    let expect: Vec<(&str, String)> = vec![
        ("q", "rust".to_string()),
        ("safemode", "off".to_string()),
        ("country", "DE".to_string()),
        ("is_geolocal", "true".to_string()),
        ("offset", "1".to_string()),
        ("language", "de".to_string()),
    ];
    assert_eq!(t, expect);
    let t2 = options("rust").to_tuples();
    assert_eq!(t2, vec![("q", "rust".to_string()), ("safemode", "off".to_string()), ("is_geolocal", "false".to_string())]);
}

#[test]
fn mojeek_and_suggest_tuples() {
    let mut p = params("rust");
    p.cc = Some("de".to_string());
    let o = BraveSearchOptions::new(&p);
    let t = o.to_mojeek_tuples("k");
    assert_eq!(
        t,
        vec![
            ("q", "rust".to_string()),
            ("api_key", "k".to_string()),
            ("fmt", "json".to_string()),
            ("t", "20".to_string()),
            ("rbb", "DE".to_string()),
            ("lb", "EN".to_string()),
            ("lbb", "50".to_string()),
        ]
    );
    let s = o.to_suggest_tuples();
    assert_eq!(
        s,
        vec![
            ("q", "rust".to_string()),
            ("safemode", "off".to_string()),
            ("count", "20".to_string()),
            ("country", "DE".to_string()),
        ]
    );
}

#[test]
fn query_string_encodes_values() {
    let pairs: Vec<(&str, String)> = vec![("q", "a b&c".to_string()), ("n", "1".to_string())];
    assert_eq!(build_query_string(&pairs), "?q=a%20b%26c&n=1");
    let none: Vec<(&str, String)> = vec![];
    assert_eq!(build_query_string(&none), "");
    assert_eq!(build_query_option("k", "v".to_string()), ("k", "v".to_string()));
}

#[test]
fn find_position_first_match() {
    let v = vec!["a".to_string(), "b".to_string(), "b".to_string()];
    assert_eq!(find_position_in_strings(&v, "b"), Some(1));
    assert_eq!(find_position_in_strings(&v, "c"), None);
    assert_eq!(find_position_in_strings(&[], "a"), None);
}

#[test]
fn decimal_rendering() {
    use_decimal();
}

fn use_decimal() {
    for n in [0u64, 7, 10, 65535, u64::MAX] {
        assert_eq!(search_aggregator::text::decimal_string(n), n.to_string());
    }
}

#[test]
fn parse_u32_as_std() {
    assert_eq!(parse_u32("42"), Some(42));
    assert_eq!(parse_u32("+7"), Some(7));
    assert_eq!(parse_u32("4294967295"), Some(4294967295));
    assert_eq!(parse_u32("4294967296"), None);
    assert_eq!(parse_u32(""), None);
    assert_eq!(parse_u32("+"), None);
    assert_eq!(parse_u32("-1"), None);
    assert_eq!(parse_u32("1a"), None);
    for s in ["0", "17", "+3", "99999999999", "x", " 1"] {
        assert_eq!(parse_u32(s), s.parse::<u32>().ok());
    }
}

#[test]
fn freshness_ceilings_are_clamped() {
    assert_eq!(get_max_seconds(None, 3600), 3600);
    assert_eq!(get_max_seconds(Some("120"), 3600), 120);
    assert_eq!(get_max_seconds(Some("999999999"), 3600), 604800);
    assert_eq!(get_max_seconds(Some("bad"), 3600), 3600);
    assert_eq!(get_max_seconds(None, 10_000_000), 604800);
    assert_eq!(get_max_seconds(None, -5), 0);
    assert_eq!(get_max_seconds(Some("abc"), 10_000_000), 604800);
    assert_eq!(get_max_suggest_seconds(Some("abc"), 99_000_000), 7862400);
    assert_eq!(get_max_suggest_seconds(None, 86400), 86400);
    assert_eq!(get_max_suggest_seconds(Some("99999999"), 86400), 7862400);
}
