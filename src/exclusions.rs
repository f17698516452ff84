//! Exclusion patterns and the filter that drops results whose URI matches one.
use vstd::prelude::*;
use crate::models::{ResultSet, SearchResult};
use crate::string_patterns::{pattern_match, regex_search_of, regex_source, regex_valid_of};

verus! {

pub struct UrlPattern {
    pattern: String,
    name: String,
}

impl UrlPattern {
    pub fn new(pattern: String, name: String) -> (r: UrlPattern)
        ensures
            r.pattern_text() == pattern@,
            r.name_text() == name@,
    {
        UrlPattern { pattern, name }
    }

    pub closed spec fn pattern_text(self) -> Seq<char> {
        self.pattern@
    }

    pub closed spec fn name_text(self) -> Seq<char> {
        self.name@
    }

    pub fn pattern(&self) -> (r: String)
        ensures
            r@ == self.pattern_text(),
    {
        self.pattern.clone()
    }

    pub fn name(&self) -> (r: String)
        ensures
            r@ == self.name_text(),
    {
        self.name.clone()
    }
}

/// Whether a pattern matches a URI, ignoring case; an invalid pattern never does.
pub open spec fn pattern_hits(pattern: Seq<char>, uri: Seq<char>) -> bool {
    regex_valid_of(regex_source(pattern, true)) && regex_search_of(regex_source(pattern, true), uri) == Some(true)
}

pub open spec fn excluded_by(patterns: Seq<Seq<char>>, uri: Seq<char>) -> bool {
    exists|i: int| 0 <= i < patterns.len() && #[trigger] pattern_hits(patterns[i], uri)
}

/// The results a pattern set lets through.
pub open spec fn kept_by(patterns: Seq<Seq<char>>) -> spec_fn(SearchResult) -> bool {
    |r: SearchResult| !excluded_by(patterns, r.uri@)
}

pub open spec fn pattern_views(patterns: Seq<String>) -> Seq<Seq<char>> {
    patterns.map_values(|p: String| p@)
}

/// The results of `rows` that no pattern excludes, in their order.
pub open spec fn filter_results(rows: Seq<SearchResult>, patterns: Seq<Seq<char>>) -> Seq<SearchResult> {
    rows.filter(kept_by(patterns))
}

/// Whether any pattern matches the URI, ignoring case.
pub fn uri_is_excluded(patterns: &[String], uri: &str) -> (r: bool)
    ensures
        r == excluded_by(pattern_views(patterns@), uri@),
{
    let ghost pv = pattern_views(patterns@);
    let mut i: usize = 0;
    while i < patterns.len()
        invariant
            i <= patterns@.len(),
            pv == pattern_views(patterns@),
            forall|j: int| 0 <= j < i ==> !pattern_hits(#[trigger] pv[j], uri@),
        decreases patterns@.len() - i,
    {
        if pattern_match(uri, patterns[i].as_str(), true) {
            assert(pattern_hits(pv[i as int], uri@));
            return true;
        }
        i = i + 1;
    }
    assert forall|j: int| 0 <= j < pv.len() implies !#[trigger] pattern_hits(pv[j], uri@) by {}
    false
}

/// The pattern texts to apply: those from the cache when it holds any, else
/// those loaded from the pattern source.
pub fn get_exclusion_pattern_strings(cached_rows: &Vec<UrlPattern>, loaded_rows: &Vec<UrlPattern>) -> (r: Vec<String>)
    ensures
        string_seq(r@) == if cached_rows@.len() > 0 {
            cached_rows@.map_values(|p: UrlPattern| p.pattern_text())
        } else {
            loaded_rows@.map_values(|p: UrlPattern| p.pattern_text())
        },
{
    let rows = if cached_rows.len() > 0 { cached_rows } else { loaded_rows };
    let mut out: Vec<String> = Vec::new();
    let mut i: usize = 0;
    while i < rows.len()
        invariant
            i <= rows@.len(),
            out@.len() == i,
            string_seq(out@) == rows@.take(i as int).map_values(|p: UrlPattern| p.pattern_text()),
        decreases rows@.len() - i,
    {
        let t = rows[i].pattern();
        proof {
            assert forall|j: int| 0 <= j < i implies out@[j]@ == rows@[j].pattern_text() by {
                assert(string_seq(out@)[j] == out@[j]@);
                assert(rows@.take(i as int).map_values(|p: UrlPattern| p.pattern_text())[j] == rows@[j].pattern_text());
            }
        }
        out.push(t);
        assert(string_seq(out@) =~= rows@.take(i + 1).map_values(|p: UrlPattern| p.pattern_text()));
        i = i + 1;
    }
    assert(rows@.take(rows@.len() as int) =~= rows@);
    out
}

pub open spec fn string_seq(s: Seq<String>) -> Seq<Seq<char>> {
    s.map_values(|x: String| x@)
}

/// Filtering twice by the same patterns gives what filtering once gives.
pub proof fn lemma_filter_idempotent(rows: Seq<SearchResult>, patterns: Seq<Seq<char>>)
    ensures
        filter_results(filter_results(rows, patterns), patterns) == filter_results(rows, patterns),
        filter_results(rows, patterns).len() <= rows.len(),
    decreases rows.len(),
{
    let p = kept_by(patterns);
    rows.lemma_filter_len(p);
    if rows.len() == 0 {
        reveal(Seq::filter);
    } else {
        let prev = rows.drop_last();
        lemma_filter_idempotent(prev, patterns);
        assert(prev.push(rows.last()) =~= rows);
        prev.lemma_filter_push(rows.last(), p);
        if p(rows.last()) {
            prev.filter(p).lemma_filter_push(rows.last(), p);
        }
    }
}

impl ResultSet {
    /// Drops every result whose URI one of the patterns matches, ignoring
    /// case, keeps the others in order, and records how many were dropped.
    pub fn exclude_by_patterns(&mut self, patterns: &Vec<String>)
        requires
            old(self).wf(),
        ensures
            final(self).wf(),
            final(self).results@ == filter_results(old(self).results@, pattern_views(patterns@)),
            final(self).removed == old(self).count - final(self).count,
            final(self).valid == old(self).valid,
            final(self).ts == old(self).ts,
            final(self).lang == old(self).lang,
            final(self).cc == old(self).cc,
            final(self).page == old(self).page,
            final(self).cached == old(self).cached,
    {
        let full_count = self.count;
        let ghost rows = self.results@;
        let ghost pv = pattern_views(patterns@);
        let mut kept: Vec<SearchResult> = Vec::new();
        let mut i: usize = 0;
        while i < self.results.len()
            invariant
                i <= rows.len(),
                self.results@ == rows,
                pv == pattern_views(patterns@),
                kept@ == rows.take(i as int).filter(kept_by(pv)),
            decreases rows.len() - i,
        {
            let excluded = uri_is_excluded(patterns.as_slice(), self.results[i].uri.as_str());
            proof {
                assert(rows.take(i + 1) =~= rows.take(i as int).push(rows[i as int]));
                rows.take(i as int).lemma_filter_push(rows[i as int], kept_by(pv));
            }
            if !excluded {
                kept.push(self.results[i].duplicate());
            }
            i = i + 1;
        }
        assert(rows.take(rows.len() as int) =~= rows);
        proof {
            lemma_filter_idempotent(rows, pv);
        }
        self.results = kept;
        self.count = self.results.len();
        self.removed = full_count - self.count;
    }
}


/// Whether a pattern listing may be answered from the cache: unless the
/// request's `cached` parameter is below one.
pub fn listing_uses_cache(cached: Option<i16>) -> (r: bool)
    ensures
        r == !(match cached {
            Some(c) => c < 1,
            None => false,
        }),
{
    match cached {
        Some(c) => c >= 1,
        None => true,
    }
}


/// How a pattern listing is answered: from the cache when the request allows
/// it and the cache holds patterns; otherwise from the pattern source, which
/// then refills the cache when it holds any. Returns `(from_cache, refill)`.
pub fn plan_exclusion_listing(use_cache: bool, cached_nonempty: bool, loaded_nonempty: bool) -> (r: (bool, bool))
    ensures
        r.0 == (use_cache && cached_nonempty),
        r.1 == (!r.0 && loaded_nonempty),
{
    let from_cache = use_cache && cached_nonempty;
    (from_cache, !from_cache && loaded_nonempty)
}

} // verus!
