//! Cache records: how a result set is written to and read back from the cache
//! store, the freshness ceiling, and the lookup that serves fresh records.
use vstd::prelude::*;
use crate::json::JsonValue;
use crate::models::{ResultSet, SearchResult, AutoSuggestResultSet, string_views};
use crate::options::{SearchProvider, opt_view};

verus! {

/// Upper bound on the configured search freshness ceiling: seven days.
pub const MAX_SEARCH_SECONDS: u32 = 604800;

/// Upper bound on the configured suggestion freshness ceiling: thirteen weeks.
pub const MAX_SUGGEST_SECONDS: u32 = 7862400;

/// A search result as plain values.
pub struct ResultView {
    pub uri: Seq<char>,
    pub title: Seq<char>,
    pub summary: Seq<char>,
    pub date: Seq<char>,
    pub provider: SearchProvider,
    pub weight: nat,
}

/// A result set as plain values.
pub struct RecordView {
    pub valid: bool,
    pub count: nat,
    pub results: Seq<ResultView>,
    pub ts: int,
    pub lang: Option<Seq<char>>,
    pub cc: Option<Seq<char>>,
    pub page: nat,
    pub removed: nat,
    pub cached: bool,
}

impl View for SearchResult {
    type V = ResultView;

    open spec fn view(&self) -> ResultView {
        ResultView {
            uri: self.uri@,
            title: self.title@,
            summary: self.summary@,
            date: self.date@,
            provider: self.provider,
            weight: self.weight as nat,
        }
    }
}

pub open spec fn result_views(s: Seq<SearchResult>) -> Seq<ResultView> {
    s.map_values(|r: SearchResult| r@)
}

impl View for ResultSet {
    type V = RecordView;

    open spec fn view(&self) -> RecordView {
        RecordView {
            valid: self.valid,
            count: self.count as nat,
            results: result_views(self.results@),
            ts: self.ts as int,
            lang: opt_view(self.lang),
            cc: opt_view(self.cc),
            page: self.page as nat,
            removed: self.removed as nat,
            cached: self.cached,
        }
    }
}

pub open spec fn provider_tag(p: SearchProvider) -> Seq<char> {
    match p {
        SearchProvider::Text => "textsurf"@,
        SearchProvider::Brave => "brave"@,
        SearchProvider::Mojeek => "mojeek"@,
    }
}

pub open spec fn provider_of_tag(t: Seq<char>) -> Option<SearchProvider> {
    if t == "textsurf"@ {
        Some(SearchProvider::Text)
    } else if t == "brave"@ {
        Some(SearchProvider::Brave)
    } else if t == "mojeek"@ {
        Some(SearchProvider::Mojeek)
    } else {
        None
    }
}

pub open spec fn int_member(j: JsonValue, key: Seq<char>) -> Option<int> {
    match j.field(key) {
        Some(JsonValue::Int(n)) => Some(n as int),
        _ => None,
    }
}

pub open spec fn bool_member(j: JsonValue, key: Seq<char>) -> Option<bool> {
    match j.field(key) {
        Some(JsonValue::Bool(b)) => Some(b),
        _ => None,
    }
}

/// An optional text member: absent or null reads as none; any other non-text
/// value makes the record unreadable.
pub open spec fn opt_text_member(j: JsonValue, key: Seq<char>) -> Option<Option<Seq<char>>> {
    match j.field(key) {
        None => Some(None),
        Some(JsonValue::Null) => Some(None),
        Some(JsonValue::Str(s)) => Some(Some(s@)),
        _ => None,
    }
}

pub open spec fn in_range(n: Option<int>, lo: int, hi: int) -> bool {
    n matches Some(v) && lo <= v <= hi
}

/// What a stored search result reads back as.
pub open spec fn decode_result(j: JsonValue) -> Option<ResultView> {
    if j is Object && j.str_field("uri"@) is Some && j.str_field("title"@) is Some
        && j.str_field("summary"@) is Some && j.str_field("date"@) is Some
        && j.str_field("provider"@) is Some && provider_of_tag(j.str_field("provider"@).unwrap()) is Some
        && in_range(int_member(j, "weight"@), 0, usize::MAX as int) {
        Some(ResultView {
            uri: j.str_field("uri"@).unwrap(),
            title: j.str_field("title"@).unwrap(),
            summary: j.str_field("summary"@).unwrap(),
            date: j.str_field("date"@).unwrap(),
            provider: provider_of_tag(j.str_field("provider"@).unwrap()).unwrap(),
            weight: int_member(j, "weight"@).unwrap() as nat,
        })
    } else {
        None
    }
}

pub open spec fn decode_results(items: Seq<JsonValue>) -> Option<Seq<ResultView>>
    decreases items.len(),
{
    if items.len() == 0 {
        Some(Seq::empty())
    } else {
        match (decode_results(items.drop_last()), decode_result(items.last())) {
            (Some(prev), Some(r)) => Some(prev.push(r)),
            _ => None,
        }
    }
}

/// What a stored result set reads back as: `None` when the record is not an
/// object, lacks a member, or holds a member of the wrong kind or range.
pub open spec fn decode_record(j: JsonValue) -> Option<RecordView> {
    let results = match j.field("results"@) {
        Some(v) => match v.array_items() {
            Some(items) => decode_results(items),
            None => None,
        },
        None => None,
    };
    if j is Object && bool_member(j, "valid"@) is Some && in_range(int_member(j, "count"@), 0, usize::MAX as int)
        && results is Some && in_range(int_member(j, "ts"@), i64::MIN as int, i64::MAX as int)
        && opt_text_member(j, "lang"@) is Some && opt_text_member(j, "cc"@) is Some
        && in_range(int_member(j, "page"@), 0, u16::MAX as int)
        && in_range(int_member(j, "removed"@), 0, usize::MAX as int) && bool_member(j, "cached"@) is Some {
        Some(RecordView {
            valid: bool_member(j, "valid"@).unwrap(),
            count: int_member(j, "count"@).unwrap() as nat,
            results: results.unwrap(),
            ts: int_member(j, "ts"@).unwrap(),
            lang: opt_text_member(j, "lang"@).unwrap(),
            cc: opt_text_member(j, "cc"@).unwrap(),
            page: int_member(j, "page"@).unwrap() as nat,
            removed: int_member(j, "removed"@).unwrap() as nat,
            cached: bool_member(j, "cached"@).unwrap(),
        })
    } else {
        None
    }
}


fn int_of(j: &JsonValue, key: &str) -> (r: Option<i128>)
    ensures
        match r {
            Some(n) => int_member(*j, key@) == Some(n as int),
            None => int_member(*j, key@) is None,
        },
{
    match j.get(key) {
        Some(JsonValue::Int(n)) => Some(*n),
        _ => None,
    }
}

fn bool_of(j: &JsonValue, key: &str) -> (r: Option<bool>)
    ensures
        r == bool_member(*j, key@),
{
    match j.get(key) {
        Some(JsonValue::Bool(b)) => Some(*b),
        _ => None,
    }
}

fn opt_text_of(j: &JsonValue, key: &str) -> (r: Option<Option<String>>)
    ensures
        match r {
            Some(o) => opt_text_member(*j, key@) == Some(opt_view(o)),
            None => opt_text_member(*j, key@) is None,
        },
{
    match j.get(key) {
        None => Some(None),
        Some(JsonValue::Null) => Some(None),
        Some(JsonValue::Str(s)) => Some(Some(s.clone())),
        _ => None,
    }
}

fn text_of(j: &JsonValue, key: &str) -> (r: Option<String>)
    ensures
        opt_view(r) == j.str_field(key@),
{
    match j.get(key) {
        Some(v) => match v.as_str() {
            Some(t) => Some(t.to_owned()),
            None => None,
        },
        None => None,
    }
}

pub fn provider_from_tag(t: &str) -> (r: Option<SearchProvider>)
    ensures
        r == provider_of_tag(t@),
{
    if crate::text::text_eq(t, "textsurf") {
        Some(SearchProvider::Text)
    } else if crate::text::text_eq(t, "brave") {
        Some(SearchProvider::Brave)
    } else if crate::text::text_eq(t, "mojeek") {
        Some(SearchProvider::Mojeek)
    } else {
        None
    }
}

pub fn provider_tag_text(p: SearchProvider) -> (r: &'static str)
    ensures
        r@ == provider_tag(p),
{
    match p {
        SearchProvider::Text => "textsurf",
        SearchProvider::Brave => "brave",
        SearchProvider::Mojeek => "mojeek",
    }
}

proof fn lemma_provider_tag(p: SearchProvider)
    ensures
        provider_of_tag(provider_tag(p)) == Some(p),
{
    reveal_strlit("textsurf");
    reveal_strlit("brave");
    reveal_strlit("mojeek");
    assert("textsurf"@.len() == 8 && "brave"@.len() == 5 && "mojeek"@.len() == 6);
}

/// Reads a stored search result back.
pub fn result_from_record(j: &JsonValue) -> (r: Option<SearchResult>)
    ensures
        match r {
            Some(x) => decode_result(*j) == Some(x@),
            None => decode_result(*j) is None,
        },
{
    if !j.is_object() {
        return None;
    }
    let uri = match text_of(j, "uri") { Some(t) => t, None => return None };
    let title = match text_of(j, "title") { Some(t) => t, None => return None };
    let summary = match text_of(j, "summary") { Some(t) => t, None => return None };
    let date = match text_of(j, "date") { Some(t) => t, None => return None };
    let tag = match text_of(j, "provider") { Some(t) => t, None => return None };
    let provider = match provider_from_tag(tag.as_str()) { Some(p) => p, None => return None };
    let weight = match int_of(j, "weight") { Some(w) => w, None => return None };
    if weight < 0 || weight > usize::MAX as i128 {
        return None;
    }
    Some(SearchResult { uri, title, summary, date, provider, weight: weight as usize })
}

/// Writes a search result as a record.
pub fn result_record(r: &SearchResult) -> (j: JsonValue)
    ensures
        decode_result(j) == Some(r@),
{
    let entries: Vec<(String, JsonValue)> = vec![
        ("uri".to_owned(), JsonValue::Str(r.uri.clone())),
        ("title".to_owned(), JsonValue::Str(r.title.clone())),
        ("summary".to_owned(), JsonValue::Str(r.summary.clone())),
        ("date".to_owned(), JsonValue::Str(r.date.clone())),
        ("provider".to_owned(), JsonValue::Str(provider_tag_text(r.provider).to_owned())),
        ("weight".to_owned(), JsonValue::Int(r.weight as i128)),
    ];
    let j = JsonValue::Object(entries);
    proof {
        reveal_strlit("uri");
        reveal_strlit("title");
        reveal_strlit("summary");
        reveal_strlit("date");
        reveal_strlit("provider");
        reveal_strlit("weight");
        reveal_with_fuel(crate::json::member, 7);
        lemma_provider_tag(r.provider);
        assert("uri"@.len() == 3 && "title"@.len() == 5 && "summary"@.len() == 7 && "date"@.len() == 4);
        assert("provider"@.len() == 8 && "weight"@.len() == 6);
    }
    j
}

proof fn lemma_decode_results_prefix(items: Seq<JsonValue>, k: int)
    requires
        0 <= k <= items.len(),
        decode_results(items.take(k)) is None,
    ensures
        decode_results(items) is None,
    decreases items.len() - k,
{
    if k < items.len() {
        assert(items.take(k + 1).drop_last() =~= items.take(k));
        lemma_decode_results_prefix(items, k + 1);
    } else {
        assert(items.take(k) =~= items);
    }
}

impl ResultSet {
    /// Writes the set as a cache record. The record reads back as this set,
    /// except that it is not marked as served from the cache.
    pub fn to_record(&self) -> (j: JsonValue)
        ensures
            decode_record(j) == Some(RecordView { cached: false, ..self@ }),
    {
        let mut items: Vec<JsonValue> = Vec::new();
        let mut i: usize = 0;
        while i < self.results.len()
            invariant
                i <= self.results@.len(),
                decode_results(items@) == Some(result_views(self.results@.take(i as int))),
            decreases self.results@.len() - i,
        {
            let item = result_record(&self.results[i]);
            proof {
                assert(items@.push(item).drop_last() =~= items@);
                assert(result_views(self.results@.take(i + 1)) =~= result_views(self.results@.take(i as int)).push(
                    self.results@[i as int]@,
                ));
            }
            items.push(item);
            i = i + 1;
        }
        assert(self.results@.take(self.results@.len() as int) =~= self.results@);
        let lang = match &self.lang {
            Some(l) => JsonValue::Str(l.clone()),
            None => JsonValue::Null,
        };
        let cc = match &self.cc {
            Some(c) => JsonValue::Str(c.clone()),
            None => JsonValue::Null,
        };
        let entries: Vec<(String, JsonValue)> = vec![
            ("valid".to_owned(), JsonValue::Bool(self.valid)),
            ("count".to_owned(), JsonValue::Int(self.count as i128)),
            ("results".to_owned(), JsonValue::Array(items)),
            ("ts".to_owned(), JsonValue::Int(self.ts as i128)),
            ("lang".to_owned(), lang),
            ("cc".to_owned(), cc),
            ("page".to_owned(), JsonValue::Int(self.page as i128)),
            ("removed".to_owned(), JsonValue::Int(self.removed as i128)),
            ("cached".to_owned(), JsonValue::Bool(false)),
        ];
        let j = JsonValue::Object(entries);
        proof {
            reveal_strlit("valid");
            reveal_strlit("count");
            reveal_strlit("results");
            reveal_strlit("ts");
            reveal_strlit("lang");
            reveal_strlit("cc");
            reveal_strlit("page");
            reveal_strlit("removed");
            reveal_strlit("cached");
            reveal_with_fuel(crate::json::member, 10);
            assert("valid"@.len() == 5 && "count"@.len() == 5 && "results"@.len() == 7 && "ts"@.len() == 2);
            assert("lang"@.len() == 4 && "cc"@.len() == 2 && "page"@.len() == 4 && "removed"@.len() == 7);
            assert("cached"@.len() == 6);
            assert("valid"@[0] != "count"@[0] && "results"@[2] != "removed"@[2]);
            assert("ts"@[0] != "cc"@[0] && "lang"@[0] != "page"@[0]);
        }
        j
    }

    /// Reads a cache record back; `None` when it is not a well-formed record.
    pub fn from_record(j: &JsonValue) -> (r: Option<ResultSet>)
        ensures
            match r {
                Some(rs) => decode_record(*j) == Some(rs@),
                None => decode_record(*j) is None,
            },
    {
        if !j.is_object() {
            return None;
        }
        let valid = match bool_of(j, "valid") { Some(b) => b, None => return None };
        let count = match int_of(j, "count") { Some(n) => n, None => return None };
        if count < 0 || count > usize::MAX as i128 {
            return None;
        }
        let items = match j.get("results") {
            Some(v) => match v.as_array() {
                Some(items) => items,
                None => return None,
            },
            None => return None,
        };
        let mut results: Vec<SearchResult> = Vec::new();
        let mut i: usize = 0;
        assert(items@.take(0) =~= Seq::<JsonValue>::empty());
        while i < items.len()
            invariant
                i <= items@.len(),
                decode_results(items@.take(i as int)) == Some(result_views(results@)),
                j.field("results"@) matches Some(v) && v.array_items() == Some(items@),
            decreases items@.len() - i,
        {
            proof {
                assert(items@.take(i + 1).drop_last() =~= items@.take(i as int));
                assert(items@.take(i + 1).last() == items@[i as int]);
            }
            match result_from_record(&items[i]) {
                Some(x) => {
                    assert(result_views(results@.push(x)) =~= result_views(results@).push(x@));
                    results.push(x);
                },
                None => {
                    proof {
                        lemma_decode_results_prefix(items@, i + 1);
                    }
                    return None;
                },
            }
            i = i + 1;
        }
        assert(items@.take(items@.len() as int) =~= items@);
        let ts = match int_of(j, "ts") { Some(n) => n, None => return None };
        if ts < i64::MIN as i128 || ts > i64::MAX as i128 {
            return None;
        }
        let lang = match opt_text_of(j, "lang") { Some(o) => o, None => return None };
        let cc = match opt_text_of(j, "cc") { Some(o) => o, None => return None };
        let page = match int_of(j, "page") { Some(n) => n, None => return None };
        if page < 0 || page > u16::MAX as i128 {
            return None;
        }
        let removed = match int_of(j, "removed") { Some(n) => n, None => return None };
        if removed < 0 || removed > usize::MAX as i128 {
            return None;
        }
        let cached = match bool_of(j, "cached") { Some(b) => b, None => return None };
        Some(ResultSet {
            valid,
            count: count as usize,
            results,
            ts: ts as i64,
            lang,
            cc,
            page: page as u16,
            removed: removed as usize,
            cached,
        })
    }
}


pub open spec fn is_digit(c: char) -> bool {
    '0' <= c <= '9'
}

/// The value of a string of decimal digits.
pub open spec fn digits_value(s: Seq<char>) -> int
    decreases s.len(),
{
    if s.len() == 0 {
        0
    } else {
        digits_value(s.drop_last()) * 10 + (s.last() as int - '0' as int)
    }
}

/// The text after an optional leading `+`.
pub open spec fn unsigned_digits(s: Seq<char>) -> Seq<char> {
    if s.len() > 0 && s[0] == '+' {
        s.drop_first()
    } else {
        s
    }
}

pub open spec fn all_digits(d: Seq<char>) -> bool {
    forall|i: int| 0 <= i < d.len() ==> is_digit(#[trigger] d[i])
}

/// What `str::parse::<u32>` accepts: an optional `+`, then one or more
/// decimal digits whose value fits in `u32`.
pub open spec fn parse_u32_spec(s: Seq<char>) -> Option<u32> {
    let d = unsigned_digits(s);
    if d.len() > 0 && all_digits(d) && digits_value(d) <= u32::MAX {
        Some(digits_value(d) as u32)
    } else {
        None
    }
}

proof fn lemma_digits_value_grows(s: Seq<char>, k: int)
    requires
        0 <= k <= s.len(),
        forall|i: int| 0 <= i < s.len() ==> is_digit(#[trigger] s[i]),
    ensures
        digits_value(s) >= digits_value(s.take(k)) >= 0,
    decreases s.len(),
{
    if s.len() > 0 {
        if k == s.len() {
            assert(s.take(k) =~= s);
            lemma_digits_value_grows(s.drop_last(), 0);
        } else {
            assert(s.drop_last().take(k) =~= s.take(k));
            lemma_digits_value_grows(s.drop_last(), k);
        }
    } else {
        assert(s.take(k) =~= s);
    }
}

/// Parses a decimal `u32` as `str::parse` does.
pub fn parse_u32(s: &str) -> (r: Option<u32>)
    ensures
        r == parse_u32_spec(s@),
{
    let n = s.unicode_len();
    let mut start: usize = 0;
    if n > 0 && s.get_char(0) == '+' {
        start = 1;
    }
    let ghost d = unsigned_digits(s@);
    assert(d =~= s@.subrange(start as int, n as int));
    if start >= n {
        return None;
    }
    let mut acc: u64 = 0;
    let mut i: usize = start;
    while i < n
        invariant
            n == s@.len(),
            start <= i <= n,
            d == s@.subrange(start as int, n as int),
            d == unsigned_digits(s@),
            d.len() > 0,
            forall|j: int| 0 <= j < i - start ==> is_digit(#[trigger] d[j]),
            acc == digits_value(d.take(i - start)),
            acc <= u32::MAX,
        decreases n - i,
    {
        let c = s.get_char(i);
        proof {
            assert(d[i - start] == c);
            assert(d.take(i - start + 1).drop_last() =~= d.take(i - start));
        }
        if c < '0' || c > '9' {
            assert(!is_digit(d[i - start]));
            return None;
        }
        let v: u64 = acc * 10 + (c as u64 - '0' as u64);
        proof {
            assert(d.take(i - start + 1).last() == c);
            assert(digits_value(d.take(i - start + 1)) == v);
        }
        if v > u32::MAX as u64 {
            proof {
                if all_digits(d) {
                    lemma_digits_value_grows(d, i - start + 1);
                    assert(digits_value(d) > u32::MAX);
                }
                assert(parse_u32_spec(s@) is None);
            }
            return None;
        }
        acc = v;
        i = i + 1;
    }
    assert(d.take(n - start) =~= d);
    Some(acc as u32)
}

/// The freshness ceiling in seconds: the configured value when it parses as a
/// `u32`, else the default, clamped into `0..=limit` either way.
pub open spec fn ceiling_for(setting: Option<Seq<char>>, def_secs: i64, limit: u32) -> i64 {
    let parsed = match setting {
        Some(t) => parse_u32_spec(t),
        None => None,
    };
    match parsed {
        Some(v) => if v <= limit { v as i64 } else { limit as i64 },
        None => if def_secs < 0 { 0 } else if def_secs > limit { limit as i64 } else { def_secs },
    }
}

fn resolve_ceiling(setting: Option<&str>, def_secs: i64, limit: u32) -> (r: i64)
    ensures
        r == ceiling_for(
            match setting {
                Some(t) => Some(t@),
                None => None,
            },
            def_secs,
            limit,
        ),
{
    let parsed = match setting {
        Some(t) => parse_u32(t),
        None => None,
    };
    match parsed {
        Some(v) => if v <= limit {
            v as i64
        } else {
            limit as i64
        },
        None => if def_secs < 0 {
            0
        } else if def_secs > limit as i64 {
            limit as i64
        } else {
            def_secs
        },
    }
}

/// The search freshness ceiling from an optional configured value.
pub fn get_max_seconds(setting: Option<&str>, def_secs: i64) -> (r: i64)
    ensures
        r == ceiling_for(
            match setting {
                Some(t) => Some(t@),
                None => None,
            },
            def_secs,
            MAX_SEARCH_SECONDS,
        ),
        0 <= r <= MAX_SEARCH_SECONDS,
{
    resolve_ceiling(setting, def_secs, MAX_SEARCH_SECONDS)
}

/// The suggestion freshness ceiling from an optional configured value.
pub fn get_max_suggest_seconds(setting: Option<&str>, def_secs: i64) -> (r: i64)
    ensures
        r == ceiling_for(
            match setting {
                Some(t) => Some(t@),
                None => None,
            },
            def_secs,
            MAX_SUGGEST_SECONDS,
        ),
        0 <= r <= MAX_SUGGEST_SECONDS,
{
    resolve_ceiling(setting, def_secs, MAX_SUGGEST_SECONDS)
}

/// Whether an artifact retrieved at `ts` is still fresh at `now`: its age is
/// below the ceiling.
pub fn is_fresh(ts: i64, now: i64, max_secs: i64) -> (r: bool)
    ensures
        r == (now - ts < max_secs),
{
    (now as i128 - ts as i128) < max_secs as i128
}

/// A result set with nothing in it.
pub open spec fn empty_view() -> RecordView {
    RecordView {
        valid: false,
        count: 0,
        results: Seq::empty(),
        ts: 0,
        lang: None,
        cc: None,
        page: 0,
        removed: 0,
        cached: false,
    }
}

/// What a lookup at `now` serves: nothing when nothing is stored; otherwise
/// the stored record, or the empty set when it does not read back, marked as
/// cached, while its age is below the ceiling.
pub open spec fn lookup_outcome(stored: Option<JsonValue>, now: i64, max_secs: i64) -> Option<RecordView> {
    match stored {
        None => None,
        Some(j) => {
            let v = match decode_record(j) {
                Some(v) => v,
                None => empty_view(),
            };
            if now - v.ts < max_secs {
                Some(RecordView { cached: true, ..v })
            } else {
                None
            }
        },
    }
}

/// A readable stored record is served, marked as cached, exactly while its age
/// is below the ceiling; at an age equal to the ceiling or above it is a miss.
pub proof fn lemma_freshness(j: JsonValue, v: RecordView, now: i64, max_secs: i64)
    requires
        decode_record(j) == Some(v),
    ensures
        now - v.ts < max_secs ==> lookup_outcome(Some(j), now, max_secs) == Some(RecordView { cached: true, ..v }),
        now - v.ts >= max_secs ==> lookup_outcome(Some(j), now, max_secs) is None,
{
}

pub open spec fn stored_value(stored: Option<&JsonValue>) -> Option<JsonValue> {
    match stored {
        Some(j) => Some(*j),
        None => None,
    }
}

/// Serves a stored search record at `now`, if there is one and it is fresh.
pub fn lookup_results(stored: Option<&JsonValue>, now: i64, max_secs: i64) -> (r: Option<ResultSet>)
    ensures
        match r {
            Some(rs) => lookup_outcome(stored_value(stored), now, max_secs) == Some(rs@),
            None => lookup_outcome(stored_value(stored), now, max_secs) is None,
        },
{
    match stored {
        None => None,
        Some(j) => {
            let mut data = match ResultSet::from_record(j) {
                Some(rs) => rs,
                None => {
                    let e = ResultSet::empty();
                    assert(result_views(e.results@) =~= Seq::<ResultView>::empty());
                    assert(e@ == empty_view());
                    e
                },
            };
            if is_fresh(data.ts, now, max_secs) {
                let served = data.set_cached();
                assert(served@ =~= (RecordView { cached: true, ..data@ }));
                Some(served)
            } else {
                None
            }
        },
    }
}


/// A suggestion set as plain values.
pub struct SuggestView {
    pub valid: bool,
    pub count: nat,
    pub results: Seq<Seq<char>>,
    pub ts: int,
    pub lang: Option<Seq<char>>,
    pub cc: Option<Seq<char>>,
    pub cached: bool,
}

impl View for AutoSuggestResultSet {
    type V = SuggestView;

    open spec fn view(&self) -> SuggestView {
        SuggestView {
            valid: self.valid,
            count: self.count as nat,
            results: string_views(self.results@),
            ts: self.ts as int,
            lang: opt_view(self.lang),
            cc: opt_view(self.cc),
            cached: self.cached,
        }
    }
}

pub open spec fn decode_texts(items: Seq<JsonValue>) -> Option<Seq<Seq<char>>>
    decreases items.len(),
{
    if items.len() == 0 {
        Some(Seq::empty())
    } else {
        match (decode_texts(items.drop_last()), items.last().str_value()) {
            (Some(prev), Some(t)) => Some(prev.push(t)),
            _ => None,
        }
    }
}

/// What a stored suggestion set reads back as.
pub open spec fn decode_suggest_record(j: JsonValue) -> Option<SuggestView> {
    let results = match j.field("results"@) {
        Some(v) => match v.array_items() {
            Some(items) => decode_texts(items),
            None => None,
        },
        None => None,
    };
    if j is Object && bool_member(j, "valid"@) is Some && in_range(int_member(j, "count"@), 0, usize::MAX as int)
        && results is Some && in_range(int_member(j, "ts"@), i64::MIN as int, i64::MAX as int)
        && opt_text_member(j, "lang"@) is Some && opt_text_member(j, "cc"@) is Some
        && bool_member(j, "cached"@) is Some {
        Some(SuggestView {
            valid: bool_member(j, "valid"@).unwrap(),
            count: int_member(j, "count"@).unwrap() as nat,
            results: results.unwrap(),
            ts: int_member(j, "ts"@).unwrap(),
            lang: opt_text_member(j, "lang"@).unwrap(),
            cc: opt_text_member(j, "cc"@).unwrap(),
            cached: bool_member(j, "cached"@).unwrap(),
        })
    } else {
        None
    }
}

proof fn lemma_decode_texts_prefix(items: Seq<JsonValue>, k: int)
    requires
        0 <= k <= items.len(),
        decode_texts(items.take(k)) is None,
    ensures
        decode_texts(items) is None,
    decreases items.len() - k,
{
    if k < items.len() {
        assert(items.take(k + 1).drop_last() =~= items.take(k));
        lemma_decode_texts_prefix(items, k + 1);
    } else {
        assert(items.take(k) =~= items);
    }
}

pub open spec fn empty_suggest_view() -> SuggestView {
    SuggestView { valid: false, count: 0, results: Seq::empty(), ts: 0, lang: None, cc: None, cached: false }
}

/// What a suggestion lookup at `now` serves, as for search records.
pub open spec fn suggest_lookup_outcome(stored: Option<JsonValue>, now: i64, max_secs: i64) -> Option<SuggestView> {
    match stored {
        None => None,
        Some(j) => {
            let v = match decode_suggest_record(j) {
                Some(v) => v,
                None => empty_suggest_view(),
            };
            if now - v.ts < max_secs {
                Some(SuggestView { cached: true, ..v })
            } else {
                None
            }
        },
    }
}

impl AutoSuggestResultSet {
    /// Writes the set as a cache record. The record reads back as this set,
    /// except that it is not marked as served from the cache.
    pub fn to_record(&self) -> (j: JsonValue)
        ensures
            decode_suggest_record(j) == Some(SuggestView { cached: false, ..self@ }),
    {
        let mut items: Vec<JsonValue> = Vec::new();
        let mut i: usize = 0;
        while i < self.results.len()
            invariant
                i <= self.results@.len(),
                decode_texts(items@) == Some(string_views(self.results@.take(i as int))),
            decreases self.results@.len() - i,
        {
            let item = JsonValue::Str(self.results[i].clone());
            proof {
                assert(items@.push(item).drop_last() =~= items@);
                assert(string_views(self.results@.take(i + 1)) =~= string_views(self.results@.take(i as int)).push(
                    self.results@[i as int]@,
                ));
            }
            items.push(item);
            i = i + 1;
        }
        assert(self.results@.take(self.results@.len() as int) =~= self.results@);
        let lang = match &self.lang {
            Some(l) => JsonValue::Str(l.clone()),
            None => JsonValue::Null,
        };
        let cc = match &self.cc {
            Some(c) => JsonValue::Str(c.clone()),
            None => JsonValue::Null,
        };
        let entries: Vec<(String, JsonValue)> = vec![
            ("valid".to_owned(), JsonValue::Bool(self.valid)),
            ("count".to_owned(), JsonValue::Int(self.count as i128)),
            ("results".to_owned(), JsonValue::Array(items)),
            ("ts".to_owned(), JsonValue::Int(self.ts as i128)),
            ("lang".to_owned(), lang),
            ("cc".to_owned(), cc),
            ("cached".to_owned(), JsonValue::Bool(false)),
        ];
        let j = JsonValue::Object(entries);
        proof {
            reveal_strlit("valid");
            reveal_strlit("count");
            reveal_strlit("results");
            reveal_strlit("ts");
            reveal_strlit("lang");
            reveal_strlit("cc");
            reveal_strlit("cached");
            reveal_with_fuel(crate::json::member, 8);
            assert("valid"@.len() == 5 && "count"@.len() == 5 && "results"@.len() == 7 && "ts"@.len() == 2);
            assert("lang"@.len() == 4 && "cc"@.len() == 2 && "cached"@.len() == 6);
            assert("valid"@[0] != "count"@[0] && "ts"@[0] != "cc"@[0]);
        }
        j
    }

    /// Reads a suggestion record back; `None` when it is not well formed.
    pub fn from_record(j: &JsonValue) -> (r: Option<AutoSuggestResultSet>)
        ensures
            match r {
                Some(rs) => decode_suggest_record(*j) == Some(rs@),
                None => decode_suggest_record(*j) is None,
            },
    {
        if !j.is_object() {
            return None;
        }
        let valid = match bool_of(j, "valid") { Some(b) => b, None => return None };
        let count = match int_of(j, "count") { Some(n) => n, None => return None };
        if count < 0 || count > usize::MAX as i128 {
            return None;
        }
        let items = match j.get("results") {
            Some(v) => match v.as_array() {
                Some(items) => items,
                None => return None,
            },
            None => return None,
        };
        let mut results: Vec<String> = Vec::new();
        let mut i: usize = 0;
        assert(items@.take(0) =~= Seq::<JsonValue>::empty());
        while i < items.len()
            invariant
                i <= items@.len(),
                decode_texts(items@.take(i as int)) == Some(string_views(results@)),
                j.field("results"@) matches Some(v) && v.array_items() == Some(items@),
            decreases items@.len() - i,
        {
            proof {
                assert(items@.take(i + 1).drop_last() =~= items@.take(i as int));
                assert(items@.take(i + 1).last() == items@[i as int]);
            }
            match items[i].as_str() {
                Some(t) => {
                    let x = t.to_owned();
                    assert(string_views(results@.push(x)) =~= string_views(results@).push(x@));
                    results.push(x);
                },
                None => {
                    proof {
                        lemma_decode_texts_prefix(items@, i + 1);
                    }
                    return None;
                },
            }
            i = i + 1;
        }
        assert(items@.take(items@.len() as int) =~= items@);
        let ts = match int_of(j, "ts") { Some(n) => n, None => return None };
        if ts < i64::MIN as i128 || ts > i64::MAX as i128 {
            return None;
        }
        let lang = match opt_text_of(j, "lang") { Some(o) => o, None => return None };
        let cc = match opt_text_of(j, "cc") { Some(o) => o, None => return None };
        let cached = match bool_of(j, "cached") { Some(b) => b, None => return None };
        Some(AutoSuggestResultSet { valid, count: count as usize, results, ts: ts as i64, lang, cc, cached })
    }
}

/// Serves a stored suggestion record at `now`, if there is one and it is fresh.
pub fn lookup_suggest_results(stored: Option<&JsonValue>, now: i64, max_secs: i64) -> (r: Option<AutoSuggestResultSet>)
    ensures
        match r {
            Some(rs) => suggest_lookup_outcome(stored_value(stored), now, max_secs) == Some(rs@),
            None => suggest_lookup_outcome(stored_value(stored), now, max_secs) is None,
        },
{
    match stored {
        None => None,
        Some(j) => {
            let mut data = match AutoSuggestResultSet::from_record(j) {
                Some(rs) => rs,
                None => {
                    let e = AutoSuggestResultSet::empty();
                    assert(string_views(e.results@) =~= Seq::<Seq<char>>::empty());
                    assert(e@ == empty_suggest_view());
                    e
                },
            };
            if is_fresh(data.ts, now, max_secs) {
                let served = data.set_cached();
                assert(served@ =~= (SuggestView { cached: true, ..data@ }));
                Some(served)
            } else {
                None
            }
        },
    }
}

} // verus!
