//! Search results and result sets: the provider adapters that build them from
//! payloads, the weighted merge and the exclusion filter.
use vstd::prelude::*;
use crate::clock::{get_timestamp, now_rfc3339};
use crate::json::JsonValue;
use crate::options::{BraveSearchOptions, SearchProvider, opt_view, clone_opt};

verus! {

#[derive(Debug)]
pub struct SearchResult {
    pub uri: String,
    pub title: String,
    pub summary: String,
    pub date: String,
    pub provider: SearchProvider,
    pub weight: usize,
}

#[derive(Debug)]
pub struct ResultSet {
    pub valid: bool,
    pub count: usize,
    pub results: Vec<SearchResult>,
    pub ts: i64,
    pub lang: Option<String>,
    pub cc: Option<String>,
    pub page: u16,
    pub removed: usize,
    pub cached: bool,
}

#[derive(Debug)]
pub struct AutoSuggestResultSet {
    pub valid: bool,
    pub count: usize,
    pub results: Vec<String>,
    pub ts: i64,
    pub lang: Option<String>,
    pub cc: Option<String>,
    pub cached: bool,
}

pub open spec fn text_or_empty(t: Option<Seq<char>>) -> Seq<char> {
    match t {
        Some(s) => s,
        None => Seq::empty(),
    }
}

/// The items of the member `results` of the object under `key`.
pub open spec fn inner_rows(json: JsonValue, key: Seq<char>) -> Seq<JsonValue> {
    match json.field(key) {
        Some(v) => v.array_field("results"@),
        None => Seq::empty(),
    }
}

/// A primary-provider hit: its text fields are read from `url`, `title`,
/// `description` and `page_age`, and its weight is its position times four.
pub open spec fn is_brave_result(r: SearchResult, row: JsonValue, position: int) -> bool {
    &&& r.uri@ == text_or_empty(row.str_field("url"@))
    &&& r.title@ == text_or_empty(row.str_field("title"@))
    &&& r.summary@ == text_or_empty(row.str_field("description"@))
    &&& r.date@ == text_or_empty(row.str_field("page_age"@))
    &&& r.provider == SearchProvider::Brave
    &&& r.weight == position * 4
}

/// A secondary-provider hit: text fields from `url`, `title` and `desc`, the
/// retrieval time as its date, and its position times seven as its weight.
pub open spec fn is_mojeek_result(r: SearchResult, row: JsonValue, position: int) -> bool {
    &&& r.uri@ == text_or_empty(row.str_field("url"@))
    &&& r.title@ == text_or_empty(row.str_field("title"@))
    &&& r.summary@ == text_or_empty(row.str_field("desc"@))
    &&& r.provider == SearchProvider::Mojeek
    &&& r.weight == position * 7
}

pub open spec fn brave_results(rs: Seq<SearchResult>, rows: Seq<JsonValue>, offset: int) -> bool {
    &&& rs.len() == rows.len()
    &&& forall|i: int| 0 <= i < rows.len() ==> is_brave_result(#[trigger] rs[i], rows[i], offset + i)
}

pub open spec fn mojeek_results(rs: Seq<SearchResult>, rows: Seq<JsonValue>, offset: int) -> bool {
    &&& rs.len() == rows.len()
    &&& forall|i: int| 0 <= i < rows.len() ==> is_mojeek_result(#[trigger] rs[i], rows[i], offset + i)
}

/// The `query` texts of the suggestion rows that have one, in order.
pub open spec fn suggest_texts(rows: Seq<JsonValue>) -> Seq<Seq<char>>
    decreases rows.len(),
{
    if rows.len() == 0 {
        Seq::empty()
    } else {
        let prev = suggest_texts(rows.drop_last());
        match rows.last().str_field("query"@) {
            Some(t) => prev.push(t),
            None => prev,
        }
    }
}

pub open spec fn string_views(s: Seq<String>) -> Seq<Seq<char>> {
    s.map_values(|x: String| x@)
}

pub fn extract_string(value: &JsonValue, key: &str) -> (r: Option<String>)
    ensures
        opt_view(r) == value.str_field(key@),
{
    match value.get(key) {
        Some(inner) => match inner.as_str() {
            Some(text) => Some(text.to_owned()),
            None => None,
        },
        None => None,
    }
}

pub fn extract_string_or_empty(value: &JsonValue, key: &str) -> (r: String)
    ensures
        r@ == text_or_empty(value.str_field(key@)),
{
    match extract_string(value, key) {
        Some(s) => s,
        None => String::new(),
    }
}

/// The items of the array under `key`; empty when the member is missing or
/// holds no array. The items are borrowed from `value`.
pub fn extract_object_vec<'a>(value: &'a JsonValue, key: &str) -> (r: &'a [JsonValue])
    ensures
        r@ == value.array_field(key@),
{
    match value.get(key) {
        Some(v) => match v.as_array() {
            Some(rows) => rows.as_slice(),
            None => &[],
        },
        None => &[],
    }
}

pub fn extract_inner_results(json: &JsonValue, key: &str, offset: usize) -> (r: Vec<SearchResult>)
    requires
        (offset + inner_rows(*json, key@).len()) * 4 <= usize::MAX,
    ensures
        brave_results(r@, inner_rows(*json, key@), offset as int),
{
    let mut results: Vec<SearchResult> = Vec::new();
    if let Some(data_map) = json.get(key) {
        if data_map.is_object() {
            if let Some(inner) = data_map.get("results") {
                if let Some(rows) = inner.as_array() {
                    let mut i: usize = 0;
                    while i < rows.len()
                        invariant
                            i <= rows@.len(),
                            rows@ == inner_rows(*json, key@),
                            (offset + rows@.len()) * 4 <= usize::MAX,
                            results@.len() == i,
                            forall|j: int| 0 <= j < i ==> is_brave_result(#[trigger] results@[j], rows@[j], offset + j),
                        decreases rows@.len() - i,
                    {
                        results.push(SearchResult::new(&rows[i], offset + i));
                        i = i + 1;
                    }
                }
            }
        }
    }
    results
}

pub fn extract_mojeek_results(json: &JsonValue, key: &str, offset: usize) -> (r: Vec<SearchResult>)
    requires
        (offset + json.array_field(key@).len()) * 7 <= usize::MAX,
    ensures
        mojeek_results(r@, json.array_field(key@), offset as int),
{
    let mut results: Vec<SearchResult> = Vec::new();
    if let Some(v) = json.get(key) {
        if let Some(rows) = v.as_array() {
            let mut i: usize = 0;
            while i < rows.len()
                invariant
                    i <= rows@.len(),
                    rows@ == json.array_field(key@),
                    (offset + rows@.len()) * 7 <= usize::MAX,
                    results@.len() == i,
                    forall|j: int| 0 <= j < i ==> is_mojeek_result(#[trigger] results@[j], rows@[j], offset + j),
                decreases rows@.len() - i,
            {
                results.push(SearchResult::new_from_mojeek(&rows[i], offset + i));
                i = i + 1;
            }
        }
    }
    results
}

pub fn extract_suggest_results(json: &JsonValue) -> (r: Vec<String>)
    ensures
        string_views(r@) == suggest_texts(json.array_field("results"@)),
{
    let mut results: Vec<String> = Vec::new();
    if let Some(v) = json.get("results") {
        if let Some(rows) = v.as_array() {
            let mut i: usize = 0;
            while i < rows.len()
                invariant
                    i <= rows@.len(),
                    rows@ == json.array_field("results"@),
                    string_views(results@) == suggest_texts(rows@.take(i as int)),
                decreases rows@.len() - i,
            {
                proof {
                    assert(rows@.take(i + 1).drop_last() =~= rows@.take(i as int));
                    assert(rows@.take(i + 1).last() == rows@[i as int]);
                }
                if let Some(text) = extract_string(&rows[i], "query") {
                    results.push(text);
                }
                assert(string_views(results@) =~= suggest_texts(rows@.take(i + 1)));
                i = i + 1;
            }
            assert(rows@.take(rows@.len() as int) =~= rows@);
        }
    }
    results
}

impl SearchResult {
    pub fn new(json: &JsonValue, weight: usize) -> (r: SearchResult)
        requires
            weight * 4 <= usize::MAX,
        ensures
            is_brave_result(r, *json, weight as int),
    {
        let uri = extract_string_or_empty(json, "url");
        let title = extract_string_or_empty(json, "title");
        let summary = extract_string_or_empty(json, "description");
        let date = extract_string_or_empty(json, "page_age");
        SearchResult { uri, title, summary, date, provider: SearchProvider::Brave, weight: weight * 4 }
    }

    pub fn new_from_mojeek(json: &JsonValue, weight: usize) -> (r: SearchResult)
        requires
            weight * 7 <= usize::MAX,
        ensures
            is_mojeek_result(r, *json, weight as int),
    {
        let uri = extract_string_or_empty(json, "url");
        let title = extract_string_or_empty(json, "title");
        let summary = extract_string_or_empty(json, "desc");
        let date = now_rfc3339();
        SearchResult { uri, title, summary, date, provider: SearchProvider::Mojeek, weight: weight * 7 }
    }
}


/// The primary provider's payload is usable when it is an object with a
/// `mixed` member and a `news` or `web` member.
pub open spec fn brave_payload_valid(json: JsonValue) -> bool {
    json.has_key("mixed"@) && (json.has_key("news"@) || json.has_key("web"@))
}

/// The secondary provider's `response` member, when it is an object.
pub open spec fn mojeek_response(json: JsonValue) -> Option<JsonValue> {
    match json.field("response"@) {
        Some(v) => if v is Object { Some(v) } else { None },
        None => None,
    }
}

pub open spec fn brave_rows(json: JsonValue) -> Seq<JsonValue> {
    inner_rows(json, "news"@) + inner_rows(json, "web"@)
}

/// Whether a result set is empty in every field.
pub open spec fn is_empty_set(r: ResultSet) -> bool {
    &&& !r.valid
    &&& r.count == 0
    &&& r.results@.len() == 0
    &&& r.ts == 0
    &&& r.lang is None
    &&& r.cc is None
    &&& r.page == 0
    &&& r.removed == 0
    &&& !r.cached
}

/// Clamps a mathematical integer into `i64`.
pub open spec fn clamp_i64(x: int) -> i64 {
    if x > i64::MAX {
        i64::MAX
    } else if x < i64::MIN {
        i64::MIN
    } else {
        x as i64
    }
}

/// Seconds from `ts` to `now`, saturating at the bounds of `i64`.
pub open spec fn age_of(now: i64, ts: i64) -> i64 {
    clamp_i64(now - ts)
}

/// Seconds from `ts` to `now`, saturating at the bounds of `i64`.
pub fn seconds_between(now: i64, ts: i64) -> (r: i64)
    ensures
        r == age_of(now, ts),
{
    let d: i128 = now as i128 - ts as i128;
    if d > i64::MAX as i128 {
        i64::MAX
    } else if d < i64::MIN as i128 {
        i64::MIN
    } else {
        d as i64
    }
}

/// Seconds elapsed since `ts`, by the wall clock.
pub fn seconds_ago(ts: i64) -> (r: i64)
    ensures
        exists|now: i64| r == #[trigger] age_of(now, ts),
{
    let now = get_timestamp();
    seconds_between(now, ts)
}

impl SearchResult {
    pub fn duplicate(&self) -> (r: SearchResult)
        ensures
            r == *self,
    {
        SearchResult {
            uri: self.uri.clone(),
            title: self.title.clone(),
            summary: self.summary.clone(),
            date: self.date.clone(),
            provider: self.provider,
            weight: self.weight,
        }
    }
}

pub fn duplicate_results(v: &Vec<SearchResult>) -> (r: Vec<SearchResult>)
    ensures
        r@ == v@,
{
    let mut out: Vec<SearchResult> = Vec::new();
    let mut i: usize = 0;
    while i < v.len()
        invariant
            i <= v@.len(),
            out@ == v@.take(i as int),
        decreases v@.len() - i,
    {
        out.push(v[i].duplicate());
        assert(out@ =~= v@.take(i + 1));
        i = i + 1;
    }
    assert(v@.take(v@.len() as int) =~= v@);
    out
}

impl ResultSet {
    /// The count agrees with the results.
    pub open spec fn wf(self) -> bool {
        self.count == self.results@.len()
    }

    /// Normalises a primary-provider payload: news hits, then web hits, each
    /// weighted by its position counted on from the options' offset.
    pub fn new(json: &JsonValue, options: &BraveSearchOptions) -> (r: ResultSet)
        requires
            (options.offset_or_zero() + brave_rows(*json).len()) * 4 <= usize::MAX,
        ensures
            r.wf(),
            r.valid == brave_payload_valid(*json),
            brave_results(r.results@, brave_rows(*json), options.offset_or_zero() as int),
            r.page == options.page_number(),
            r.cc == options.cc,
            r.lang == options.language,
            r.removed == 0,
            !r.cached,
    {
        let has_mixed = json.get("mixed").is_some();
        let has_news = json.get("news").is_some();
        let has_web = json.get("web").is_some();
        let valid = json.is_object() && has_mixed && (has_news || has_web);
        let offset: usize = match options.offset {
            Some(o) => o as usize,
            None => 0,
        };
        let mut results = extract_inner_results(json, "news", offset);
        let web_results = extract_inner_results(json, "web", offset + results.len());
        let ghost news = results@;
        let mut i: usize = 0;
        while i < web_results.len()
            invariant
                i <= web_results@.len(),
                results@ == news + web_results@.take(i as int),
                brave_results(news, inner_rows(*json, "news"@), offset as int),
                brave_results(web_results@, inner_rows(*json, "web"@), offset + news.len()),
            decreases web_results@.len() - i,
        {
            results.push(web_results[i].duplicate());
            assert(results@ =~= news + web_results@.take(i + 1));
            i = i + 1;
        }
        assert(web_results@.take(web_results@.len() as int) =~= web_results@);
        proof {
            let rows = brave_rows(*json);
            let nr = inner_rows(*json, "news"@);
            assert forall|j: int| 0 <= j < rows.len() implies is_brave_result(
                #[trigger] results@[j],
                rows[j],
                offset + j,
            ) by {
                if j >= nr.len() {
                    assert(results@[j] == web_results@[j - nr.len()]);
                    assert(rows[j] == inner_rows(*json, "web"@)[j - nr.len()]);
                }
            }
        }
        let count = results.len();
        ResultSet {
            valid,
            count,
            results,
            ts: get_timestamp(),
            page: options.page(),
            cc: options.country_code(),
            lang: options.lang(),
            removed: 0,
            cached: false,
        }
    }

    /// Normalises a secondary-provider payload: valid when it holds an object
    /// under `response`; a payload without one gives the empty set.
    pub fn new_from_mojeek(json: &JsonValue, options: &BraveSearchOptions) -> (r: ResultSet)
        requires
            mojeek_response(*json) matches Some(resp)
                ==> (options.offset_or_zero() + resp.array_field("results"@).len()) * 7 <= usize::MAX,
        ensures
            r.wf(),
            r.valid == (mojeek_response(*json) is Some),
            match mojeek_response(*json) {
                Some(resp) => {
                    &&& mojeek_results(r.results@, resp.array_field("results"@), options.offset_or_zero() as int)
                    &&& r.page == options.page_number()
                    &&& r.cc == options.cc
                    &&& r.lang == options.language
                    &&& r.removed == 0
                    &&& !r.cached
                },
                None => is_empty_set(r),
            },
    {
        let offset: usize = match options.offset {
            Some(o) => o as usize,
            None => 0,
        };
        match json.get("response") {
            Some(resp) => {
                if resp.is_object() {
                    let results = extract_mojeek_results(resp, "results", offset);
                    let count = results.len();
                    ResultSet {
                        valid: true,
                        count,
                        results,
                        ts: get_timestamp(),
                        page: options.page(),
                        cc: options.country_code(),
                        lang: options.lang(),
                        removed: 0,
                        cached: false,
                    }
                } else {
                    ResultSet::empty()
                }
            },
            None => ResultSet::empty(),
        }
    }

    pub fn empty() -> (r: ResultSet)
        ensures
            r.wf(),
            is_empty_set(r),
    {
        ResultSet {
            valid: false,
            count: 0,
            results: Vec::new(),
            ts: 0,
            cached: false,
            lang: None,
            cc: None,
            removed: 0,
            page: 0,
        }
    }

    /// Seconds since the set was retrieved, by the wall clock.
    pub fn retrieved_age(&self) -> (r: i64)
        ensures
            exists|now: i64| r == #[trigger] age_of(now, self.ts),
    {
        seconds_ago(self.ts)
    }

    pub fn duplicate(&self) -> (r: ResultSet)
        ensures
            r.valid == self.valid,
            r.count == self.count,
            r.results@ == self.results@,
            r.ts == self.ts,
            r.lang == self.lang,
            r.cc == self.cc,
            r.page == self.page,
            r.removed == self.removed,
            r.cached == self.cached,
    {
        ResultSet {
            valid: self.valid,
            count: self.count,
            results: duplicate_results(&self.results),
            ts: self.ts,
            lang: clone_opt(&self.lang),
            cc: clone_opt(&self.cc),
            page: self.page,
            removed: self.removed,
            cached: self.cached,
        }
    }

    /// Marks the set as served from the cache and returns a copy of it.
    pub fn set_cached(&mut self) -> (r: ResultSet)
        ensures
            final(self).cached,
            final(self).valid == old(self).valid,
            final(self).count == old(self).count,
            final(self).results == old(self).results,
            final(self).ts == old(self).ts,
            final(self).lang == old(self).lang,
            final(self).cc == old(self).cc,
            final(self).page == old(self).page,
            final(self).removed == old(self).removed,
            r.cached,
            r.valid == old(self).valid,
            r.count == old(self).count,
            r.results@ == old(self).results@,
            r.ts == old(self).ts,
            r.lang == old(self).lang,
            r.cc == old(self).cc,
            r.page == old(self).page,
            r.removed == old(self).removed,
    {
        self.cached = true;
        self.duplicate()
    }
}

impl AutoSuggestResultSet {
    pub open spec fn wf(self) -> bool {
        self.count == self.results@.len()
    }

    /// Normalises a suggestion payload: valid when it is an object with a
    /// `results` member; the suggestions are the rows' `query` texts.
    pub fn new(json: &JsonValue, options: &BraveSearchOptions) -> (r: AutoSuggestResultSet)
        ensures
            r.wf(),
            r.valid == json.has_key("results"@),
            string_views(r.results@) == suggest_texts(json.array_field("results"@)),
            r.cc == options.cc,
            r.lang == options.language,
            !r.cached,
    {
        let valid = json.get("results").is_some();
        let results = extract_suggest_results(json);
        let count = results.len();
        AutoSuggestResultSet {
            valid,
            count,
            results,
            ts: get_timestamp(),
            cc: options.country_code(),
            lang: options.lang(),
            cached: false,
        }
    }

    pub fn empty() -> (r: AutoSuggestResultSet)
        ensures
            r.wf(),
            !r.valid,
            r.count == 0,
            r.results@.len() == 0,
            r.ts == 0,
            !r.cached,
            r.lang is None,
            r.cc is None,
    {
        AutoSuggestResultSet {
            valid: false,
            count: 0,
            results: Vec::new(),
            ts: 0,
            cached: false,
            lang: None,
            cc: None,
        }
    }

    /// Seconds since the set was retrieved, by the wall clock.
    pub fn retrieved_age(&self) -> (r: i64)
        ensures
            exists|now: i64| r == #[trigger] age_of(now, self.ts),
    {
        seconds_ago(self.ts)
    }

    pub fn duplicate(&self) -> (r: AutoSuggestResultSet)
        ensures
            r.valid == self.valid,
            r.count == self.count,
            string_views(r.results@) == string_views(self.results@),
            r.ts == self.ts,
            r.lang == self.lang,
            r.cc == self.cc,
            r.cached == self.cached,
    {
        let mut results: Vec<String> = Vec::new();
        let mut i: usize = 0;
        while i < self.results.len()
            invariant
                i <= self.results@.len(),
                results@ == self.results@.take(i as int),
            decreases self.results@.len() - i,
        {
            results.push(self.results[i].clone());
            assert(results@ =~= self.results@.take(i + 1));
            i = i + 1;
        }
        assert(self.results@.take(self.results@.len() as int) =~= self.results@);
        AutoSuggestResultSet {
            valid: self.valid,
            count: self.count,
            results,
            ts: self.ts,
            lang: clone_opt(&self.lang),
            cc: clone_opt(&self.cc),
            cached: self.cached,
        }
    }

    /// Marks the set as served from the cache and returns a copy of it.
    pub fn set_cached(&mut self) -> (r: AutoSuggestResultSet)
        ensures
            final(self).cached,
            final(self).valid == old(self).valid,
            final(self).count == old(self).count,
            final(self).results == old(self).results,
            final(self).ts == old(self).ts,
            final(self).lang == old(self).lang,
            final(self).cc == old(self).cc,
            r.cached,
            r.valid == old(self).valid,
            r.count == old(self).count,
            string_views(r.results@) == string_views(old(self).results@),
            r.ts == old(self).ts,
            r.lang == old(self).lang,
            r.cc == old(self).cc,
    {
        self.cached = true;
        self.duplicate()
    }
}

} // verus!
