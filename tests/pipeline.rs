use search_aggregator::cache::{lookup_results, lookup_suggest_results, is_fresh};
use search_aggregator::exclusions::{get_exclusion_pattern_strings, listing_uses_cache, plan_exclusion_listing, uri_is_excluded, UrlPattern};
use search_aggregator::json::JsonValue;
use search_aggregator::models::{
    extract_inner_results, extract_mojeek_results, extract_string, extract_string_or_empty, extract_suggest_results,
    seconds_between, AutoSuggestResultSet, ResultSet, SearchResult,
};
use search_aggregator::options::{BraveSearchOptions, QueryParams, SearchProvider};
use search_aggregator::search::{
    search_step, suggest_step, FetchError, SearchAction, SearchEvent, SearchStage, SuggestAction, SuggestEvent,
    SuggestStage,
};
use search_aggregator::string_patterns::{build_regex, pattern_match, pattern_match_opt};

fn text(s: &str) -> JsonValue {
    JsonValue::Str(s.to_string())
}

fn obj(entries: Vec<(&str, JsonValue)>) -> JsonValue {
    JsonValue::Object(entries.into_iter().map(|(k, v)| (k.to_string(), v)).collect())
}

fn hit(url: &str) -> JsonValue {
    obj(vec![("url", text(url)), ("title", text("T")), ("description", text("D")), ("page_age", text("2024"))])
}

fn options() -> BraveSearchOptions {
    BraveSearchOptions::new(&QueryParams {
        q: Some("rust".to_string()),
        safe: None,
        cc: None,
        lang: None,
        p: None,
        cached: None,
        mode: None,
    })
}

fn result(uri: &str, weight: usize) -> SearchResult {
    SearchResult {
        uri: uri.to_string(),
        title: String::new(),
        summary: String::new(),
        date: String::new(),
        provider: SearchProvider::Brave,
        weight,
    }
}

fn set(rows: Vec<SearchResult>) -> ResultSet {
    let mut rs = ResultSet::empty();
    rs.valid = true;
    rs.count = rows.len();
    rs.results = rows;
    rs.ts = 1000;
    rs
}

fn uris_weights(rs: &ResultSet) -> Vec<(String, usize)> {
    rs.results.iter().map(|r| (r.uri.clone(), r.weight)).collect()
}

#[test]
fn json_string_extraction() {
    let j = obj(vec![("a", text("x")), ("n", JsonValue::Int(3))]);
    assert_eq!(extract_string(&j, "a"), Some("x".to_string()));
    assert_eq!(extract_string(&j, "n"), None);
    assert_eq!(extract_string(&j, "zz"), None);
    assert_eq!(extract_string_or_empty(&j, "n"), "");
    assert_eq!(extract_string(&text("x"), "a"), None);
}

#[test]
fn primary_payload_normalised() {
    let news = obj(vec![("results", JsonValue::Array(vec![hit("n1")]))]);
    let web = obj(vec![("results", JsonValue::Array(vec![hit("w1"), hit("w2")]))]);
    let j = obj(vec![("mixed", JsonValue::Null), ("news", news), ("web", web)]);
    let rs = ResultSet::new(&j, &options());
    assert!(rs.valid);
    assert_eq!(rs.count, 3);
    assert_eq!(
        uris_weights(&rs),
        vec![("n1".to_string(), 0), ("w1".to_string(), 4), ("w2".to_string(), 8)]
    );
    assert_eq!(rs.results[0].title, "T");
    assert_eq!(rs.results[0].summary, "D");
    assert_eq!(rs.results[0].date, "2024");
    assert_eq!(rs.results[0].provider, SearchProvider::Brave);
    assert_eq!(rs.page, 1);
    assert!(!rs.cached);
    assert_eq!(rs.removed, 0);
}

#[test]
fn primary_payload_without_markers_is_invalid() {
    let web = obj(vec![("results", JsonValue::Array(vec![]))]);
    let j = obj(vec![("web", web)]);
    let rs = ResultSet::new(&j, &options());
    assert!(!rs.valid);
    assert_eq!(rs.count, 0);
    let empty_ok = obj(vec![("mixed", JsonValue::Null), ("web", obj(vec![("results", JsonValue::Array(vec![]))]))]);
    let rs2 = ResultSet::new(&empty_ok, &options());
    assert!(rs2.valid);
    assert_eq!(rs2.count, 0);
    assert!(!ResultSet::new(&JsonValue::Array(vec![]), &options()).valid);
}

#[test]
fn inner_results_start_at_offset() {
    let j = obj(vec![("web", obj(vec![("results", JsonValue::Array(vec![hit("a"), hit("b")]))]))]);
    let r = extract_inner_results(&j, "web", 2);
    assert_eq!(r.iter().map(|x| x.weight).collect::<Vec<_>>(), vec![8, 12]);
    assert!(extract_inner_results(&j, "news", 0).is_empty());
}

#[test]
fn secondary_payload_normalised() {
    let row = obj(vec![("url", text("m1")), ("title", text("MT")), ("desc", text("MD"))]);
    let resp = obj(vec![("results", JsonValue::Array(vec![row.clone_value(), row]))]);
    let j = obj(vec![("response", resp)]);
    let rs = ResultSet::new_from_mojeek(&j, &options());
    assert!(rs.valid);
    assert_eq!(rs.count, 2);
    assert_eq!(rs.results[1].weight, 7);
    assert_eq!(rs.results[0].summary, "MD");
    assert_eq!(rs.results[0].provider, SearchProvider::Mojeek);
    assert!(!rs.results[0].date.is_empty());
    let none = ResultSet::new_from_mojeek(&obj(vec![("response", text("x"))]), &options());
    assert_eq!(none.count, 0);
    assert_eq!(none.page, 0);
    assert!(!none.valid);
    let r = extract_mojeek_results(&obj(vec![("results", JsonValue::Array(vec![obj(vec![])]))]), "results", 5);
    assert_eq!(r[0].weight, 35);
    assert_eq!(r[0].uri, "");
}

trait CloneValue {
    fn clone_value(&self) -> JsonValue;
}

impl CloneValue for JsonValue {
    fn clone_value(&self) -> JsonValue {
        match self {
            JsonValue::Null => JsonValue::Null,
            JsonValue::Bool(b) => JsonValue::Bool(*b),
            JsonValue::Int(n) => JsonValue::Int(*n),
            JsonValue::Fractional => JsonValue::Fractional,
            JsonValue::Str(s) => JsonValue::Str(s.clone()),
            JsonValue::Array(v) => JsonValue::Array(v.iter().map(|x| x.clone_value()).collect()),
            JsonValue::Object(v) => JsonValue::Object(v.iter().map(|(k, x)| (k.clone(), x.clone_value())).collect()),
        }
    }
}

#[test]
fn suggestions_normalised() {
    let rows = JsonValue::Array(vec![
        obj(vec![("query", text("rust lang"))]),
        obj(vec![("other", text("x"))]),
        text("loose"),
        obj(vec![("query", text("rustup"))]),
    ]);
    let j = obj(vec![("results", rows)]);
    assert_eq!(extract_suggest_results(&j), vec!["rust lang".to_string(), "rustup".to_string()]);
    let s = AutoSuggestResultSet::new(&j, &options());
    assert!(s.valid);
    assert_eq!(s.count, 2);
    let bad = AutoSuggestResultSet::new(&obj(vec![("type", text("x"))]), &options());
    assert!(!bad.valid);
    assert_eq!(bad.count, 0);
}

#[test]
fn subtract_weight_floors_at_zero() {
    let mut r = result("a", 10);
    r.subtract_weight(4);
    assert_eq!(r.weight, 6);
    r.subtract_weight(6);
    assert_eq!(r.weight, 0);
    let mut r2 = result("b", 3);
    r2.subtract_weight(9);
    assert_eq!(r2.weight, 0);
}

#[test]
fn merge_scenario_two_providers() {
    let mut primary = set(vec![result("a", 7), result("b", 14), result("c", 21)]);
    let secondary = set(vec![result("b", 4), result("d", 8)]);
    primary.merge_results(secondary);
    assert_eq!(
        uris_weights(&primary),
        vec![("a".to_string(), 7), ("d".to_string(), 8), ("b".to_string(), 10), ("c".to_string(), 21)]
    );
    assert_eq!(primary.count, 4);
}

#[test]
fn merge_with_itself_keeps_count() {
    let rows = || vec![result("a", 7), result("b", 14), result("c", 0)];
    let mut rs = set(rows());
    rs.merge_results(set(rows()));
    assert_eq!(rs.count, 3);
    assert!(rs.results.iter().all(|r| r.weight == 0));
}

#[test]
fn merge_sort_is_stable() {
    let mut rs = set(vec![result("x", 5), result("y", 3), result("z", 5)]);
    rs.merge_results(set(vec![result("w", 5), result("v", 3)]));
    let order: Vec<String> = rs.results.iter().map(|r| r.uri.clone()).collect();
    assert_eq!(order, vec!["y", "v", "x", "z", "w"]);
}

#[test]
fn merge_keeps_uri_identity_exact() {
    let mut rs = set(vec![result("http://a.com/", 10)]);
    rs.merge_results(set(vec![result("http://a.com", 3), result("HTTP://a.com/", 2)]));
    assert_eq!(rs.count, 3);
}

#[test]
fn regex_matching() {
    assert_eq!(build_regex("abc", true), "(?i)abc");
    assert_eq!(build_regex("abc", false), "abc");
    assert!(pattern_match("http://EVIL.com/x", "evil\\.com", true));
    assert!(!pattern_match("http://EVIL.com/x", "evil\\.com", false));
    assert!(!pattern_match("http://evilxcom", "evil\\.com", true));
    assert_eq!(pattern_match_opt("abc", "(", true), None);
    assert!(!pattern_match("abc", "(", true));
}

#[test]
fn exclusion_scenario_case_insensitive() {
    let mut rs = set(vec![
        result("https://good.org/1", 1),
        result("https://EVIL.COM/2", 2),
        result("http://sub.evil.com/", 3),
        result("https://evilxcom.net/", 4),
    ]);
    let patterns = vec!["evil\\.com".to_string()];
    rs.exclude_by_patterns(&patterns);
    let left: Vec<String> = rs.results.iter().map(|r| r.uri.clone()).collect();
    assert_eq!(left, vec!["https://good.org/1", "https://evilxcom.net/"]);
    assert_eq!(rs.removed, 2);
    assert_eq!(rs.count, 2);
}

#[test]
fn exclusion_twice_removes_nothing_more() {
    let mut rs = set(vec![result("a.com", 1), result("b.com", 2), result("c.org", 3)]);
    let patterns = vec!["\\.com$".to_string(), "[".to_string()];
    rs.exclude_by_patterns(&patterns);
    assert_eq!(rs.removed, 2);
    rs.exclude_by_patterns(&patterns);
    assert_eq!(rs.removed, 0);
    assert_eq!(rs.count, 1);
}

#[test]
fn invalid_patterns_never_match() {
    let patterns = vec!["(".to_string()];
    assert!(!uri_is_excluded(&patterns, "anything"));
    assert!(uri_is_excluded(&["X".to_string()], "abx"));
    assert!(!uri_is_excluded(&[], "abx"));
}

#[test]
fn pattern_strings_prefer_cache() {
    let cached = vec![UrlPattern::new("a".to_string(), "A".to_string())];
    let loaded = vec![UrlPattern::new("b".to_string(), "B".to_string())];
    assert_eq!(get_exclusion_pattern_strings(&cached, &loaded), vec!["a".to_string()]);
    assert_eq!(get_exclusion_pattern_strings(&vec![], &loaded), vec!["b".to_string()]);
    assert!(listing_uses_cache(None));
    assert!(!listing_uses_cache(Some(0)));
    assert!(listing_uses_cache(Some(1)));
    assert_eq!(plan_exclusion_listing(true, true, true), (true, false));
    assert_eq!(plan_exclusion_listing(false, true, true), (false, true));
    assert_eq!(plan_exclusion_listing(true, false, false), (false, false));
}

#[test]
fn record_round_trip() {
    let mut rs = set(vec![result("a", 1), result("b", 2)]);
    rs.lang = Some("en".to_string());
    rs.page = 4;
    rs.removed = 1;
    rs.cached = true;
    let back = ResultSet::from_record(&rs.to_record()).unwrap();
    assert_eq!(uris_weights(&back), uris_weights(&rs));
    assert_eq!(back.lang, Some("en".to_string()));
    assert_eq!(back.cc, None);
    assert_eq!(back.page, 4);
    assert_eq!(back.removed, 1);
    assert_eq!(back.ts, 1000);
    assert!(back.valid);
    assert!(!back.cached);
    let empty = ResultSet::from_record(&ResultSet::empty().to_record()).unwrap();
    assert_eq!(empty.count, 0);
    assert!(ResultSet::from_record(&text("x")).is_none());
}

#[test]
fn freshness_boundary() {
    assert!(is_fresh(1000, 1059, 60));
    assert!(!is_fresh(1000, 1060, 60));
    assert!(!is_fresh(1000, 1061, 60));
    assert!(is_fresh(i64::MIN, i64::MAX, i64::MAX) == false);
    assert_eq!(seconds_between(10, 4), 6);
    assert_eq!(seconds_between(i64::MAX, -1), i64::MAX);
}

#[test]
fn lookup_serves_fresh_records_as_cached() {
    let rs = set(vec![result("a", 1)]);
    let rec = rs.to_record();
    let served = lookup_results(Some(&rec), 1000 + 59, 60).unwrap();
    assert!(served.cached);
    assert_eq!(served.count, 1);
    assert!(lookup_results(Some(&rec), 1000 + 60, 60).is_none());
    assert!(lookup_results(None, 0, 60).is_none());
    let corrupt = lookup_results(Some(&text("garbage")), 10, 60).unwrap();
    assert_eq!(corrupt.count, 0);
    assert!(!corrupt.valid);
    assert!(corrupt.cached);
}

#[test]
fn suggest_record_lookup() {
    let mut s = AutoSuggestResultSet::empty();
    s.valid = true;
    s.results = vec!["x".to_string()];
    s.count = 1;
    s.ts = 50;
    let rec = s.to_record();
    let back = AutoSuggestResultSet::from_record(&rec).unwrap();
    assert_eq!(back.results, vec!["x".to_string()]);
    let served = lookup_suggest_results(Some(&rec), 60, 11).unwrap();
    assert!(served.cached);
    assert!(lookup_suggest_results(Some(&rec), 61, 11).is_none());
}

fn served(a: SearchAction) -> ResultSet {
    match a {
        SearchAction::Serve(rs) | SearchAction::StoreAndServe(rs) => rs,
        _ => panic!("expected a served set"),
    }
}

#[test]
fn miss_fetches_both_then_repeat_hits_cache() {
    let patterns: Vec<String> = vec![];
    let (st, act) = search_step(SearchStage::Lookup, SearchEvent::CacheMiss, true, &patterns);
    assert!(matches!(act, SearchAction::FetchPrimary));
    let primary = set(vec![result("a", 7), result("b", 14), result("c", 21)]);
    let (st, act) = search_step(st, SearchEvent::Primary(Ok(primary)), true, &patterns);
    assert!(matches!(act, SearchAction::FetchSecondary));
    let secondary = set(vec![result("b", 4), result("d", 8)]);
    let (st, act) = search_step(st, SearchEvent::Secondary(Ok(secondary)), true, &patterns);
    assert!(matches!(st, SearchStage::Finished));
    assert!(matches!(act, SearchAction::StoreAndServe(_)));
    let out = served(act);
    assert_eq!(out.count, 4);
    let rec = out.to_record();
    let hit = lookup_results(Some(&rec), out.ts + 1, 3600).unwrap();
    let (st2, act2) = search_step(SearchStage::Lookup, SearchEvent::CacheHit(hit), true, &patterns);
    assert!(matches!(st2, SearchStage::Finished));
    assert!(matches!(act2, SearchAction::Serve(_)));
}

#[test]
fn secondary_failure_serves_primary_only() {
    let patterns = vec!["c$".to_string()];
    let st = SearchStage::AwaitSecondary(set(vec![result("b", 14), result("a", 7), result("c", 21)]));
    let (st, act) = search_step(st, SearchEvent::Secondary(Err(FetchError::Transport)), true, &patterns);
    assert!(matches!(st, SearchStage::Finished));
    let out = served(act);
    let order: Vec<String> = out.results.iter().map(|r| r.uri.clone()).collect();
    assert_eq!(order, vec!["b", "a"]);
    assert_eq!(out.removed, 1);
    assert_eq!(out.ts, 1000);
}

#[test]
fn primary_failure_fails_request() {
    let patterns: Vec<String> = vec![];
    let (_, act) = search_step(SearchStage::AwaitPrimary, SearchEvent::Primary(Err(FetchError::Parse)), true, &patterns);
    assert!(matches!(act, SearchAction::Fail(FetchError::Parse)));
    let mut invalid = set(vec![]);
    invalid.valid = false;
    let (_, act) = search_step(SearchStage::AwaitPrimary, SearchEvent::Primary(Ok(invalid)), false, &patterns);
    assert!(matches!(act, SearchAction::Serve(_)));
    let (st, act) = search_step(SearchStage::Finished, SearchEvent::CacheMiss, true, &patterns);
    assert!(matches!(st, SearchStage::Finished));
    assert!(matches!(act, SearchAction::Ignore));
}

#[test]
fn suggestion_steps() {
    let (st, act) = suggest_step(SuggestStage::Lookup, SuggestEvent::CacheMiss);
    assert!(matches!(act, SuggestAction::Fetch));
    let mut s = AutoSuggestResultSet::empty();
    s.valid = true;
    let (_, act) = suggest_step(st, SuggestEvent::Fetched(Ok(s)));
    assert!(matches!(act, SuggestAction::StoreAndServe(_)));
    let (_, act) = suggest_step(SuggestStage::AwaitFetch, SuggestEvent::Fetched(Err(FetchError::Transport)));
    assert!(matches!(act, SuggestAction::Fail(FetchError::Transport)));
}

#[test]
fn object_vec_borrowed_items() {
    let j = obj(vec![("rows", JsonValue::Array(vec![text("a"), text("b")])), ("s", text("x"))]);
    assert_eq!(search_aggregator::models::extract_object_vec(&j, "rows").len(), 2);
    assert!(search_aggregator::models::extract_object_vec(&j, "s").is_empty());
    assert!(search_aggregator::models::extract_object_vec(&j, "none").is_empty());
}

#[test]
fn repeated_secondary_hits_fold_into_one_weight() {
    let mut rs = set(vec![result("a", 10), result("b", 2)]);
    rs.merge_results(set(vec![result("a", 3), result("a", 4), result("c", 9)]));
    assert_eq!(
        uris_weights(&rs),
        vec![("b".to_string(), 2), ("a".to_string(), 3), ("c".to_string(), 9)]
    );
}

#[test]
fn self_merge_with_distinct_uris_keeps_order() {
    let rows = || vec![result("c", 9), result("a", 1), result("b", 5)];
    let mut rs = set(rows());
    rs.merge_results(set(rows()));
    assert_eq!(
        uris_weights(&rs),
        vec![("c".to_string(), 0), ("a".to_string(), 0), ("b".to_string(), 0)]
    );
}
