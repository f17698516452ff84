//! The per-request decisions of a search: cache lookup, primary fetch,
//! optional secondary fetch, merge, exclusion and write-back. The caller
//! performs each action and hands the outcome back as the next event.
use vstd::prelude::*;
use crate::cache::{RecordView, decode_record, lookup_outcome};
use crate::exclusions::{filter_results, pattern_views};
use crate::models::{ResultSet, AutoSuggestResultSet};
use crate::json::JsonValue;
use crate::ranking::{merge_rows, sort_by_weight};

verus! {

/// Default search freshness ceiling: sixty minutes.
pub const SEARCH_MAX_AGE_DEFAULT: i64 = 3600;

/// Default suggestion freshness ceiling: one day.
pub const SUGGEST_MAX_AGE_DEFAULT: i64 = 86400;

/// Why a provider contributed nothing.
#[derive(Clone, Copy, Debug, PartialEq, Eq, Structural)]
pub enum FetchError {
    /// The provider could not be reached.
    Transport,
    /// The provider's payload was not JSON.
    Parse,
}

pub enum SearchStage {
    Lookup,
    AwaitPrimary,
    AwaitSecondary(ResultSet),
    Finished,
}

pub enum SearchEvent {
    CacheHit(ResultSet),
    CacheMiss,
    Primary(Result<ResultSet, FetchError>),
    Secondary(Result<ResultSet, FetchError>),
}

pub enum SearchAction {
    FetchPrimary,
    FetchSecondary,
    Serve(ResultSet),
    /// Write the set to the cache, then serve it.
    StoreAndServe(ResultSet),
    Fail(FetchError),
    /// The event does not belong to the current stage.
    Ignore,
}

#[derive(PartialEq, Eq, Structural)]
pub enum ActionKind {
    FetchPrimary,
    FetchSecondary,
    Serve,
    StoreAndServe,
    Fail,
    Ignore,
}

impl SearchAction {
    pub open spec fn kind(self) -> ActionKind {
        match self {
            SearchAction::FetchPrimary => ActionKind::FetchPrimary,
            SearchAction::FetchSecondary => ActionKind::FetchSecondary,
            SearchAction::Serve(_) => ActionKind::Serve,
            SearchAction::StoreAndServe(_) => ActionKind::StoreAndServe,
            SearchAction::Fail(_) => ActionKind::Fail,
            SearchAction::Ignore => ActionKind::Ignore,
        }
    }
}

/// How a finished set is handed out: written through only when valid.
pub open spec fn finish_kind(valid: bool) -> ActionKind {
    if valid {
        ActionKind::StoreAndServe
    } else {
        ActionKind::Serve
    }
}

/// The kind of action that an event calls for in a stage.
pub open spec fn planned_kind(stage: SearchStage, event: SearchEvent, wants_secondary: bool) -> ActionKind {
    match (stage, event) {
        (SearchStage::Lookup, SearchEvent::CacheHit(_)) => ActionKind::Serve,
        (SearchStage::Lookup, SearchEvent::CacheMiss) => ActionKind::FetchPrimary,
        (SearchStage::AwaitPrimary, SearchEvent::Primary(Err(_))) => ActionKind::Fail,
        (SearchStage::AwaitPrimary, SearchEvent::Primary(Ok(rs))) => if wants_secondary {
            ActionKind::FetchSecondary
        } else {
            finish_kind(rs.valid)
        },
        (SearchStage::AwaitSecondary(p), SearchEvent::Secondary(_)) => finish_kind(p.valid),
        _ => ActionKind::Ignore,
    }
}

/// The set handed out by a finishing action.
pub open spec fn served(a: SearchAction) -> Option<ResultSet> {
    match a {
        SearchAction::Serve(rs) => Some(rs),
        SearchAction::StoreAndServe(rs) => Some(rs),
        _ => None,
    }
}

/// `out` is `base` with its results replaced by `rows` after exclusion.
pub open spec fn finished_from(out: ResultSet, base: ResultSet, rows: Seq<crate::models::SearchResult>, patterns: Seq<String>) -> bool {
    &&& out.wf()
    &&& out.results@ == filter_results(rows, pattern_views(patterns))
    &&& out.removed == rows.len() - out.count
    &&& out.valid == base.valid
    &&& out.lang == base.lang
    &&& out.cc == base.cc
    &&& out.page == base.page
    &&& out.cached == base.cached
}

/// The request finished, handing out `base` with `rows` as its results after
/// exclusion.
pub open spec fn finishes_with(
    r: (SearchStage, SearchAction),
    base: ResultSet,
    rows: Seq<crate::models::SearchResult>,
    patterns: Seq<String>,
) -> bool {
    &&& r.0 is Finished
    &&& served(r.1) matches Some(out)
    &&& finished_from(out, base, rows, patterns)
}

/// The request finished as `finishes_with` says, with no merge: the set keeps
/// `base`'s retrieval time.
pub open spec fn finishes_unmerged(r: (SearchStage, SearchAction), base: ResultSet, patterns: Seq<String>) -> bool {
    &&& finishes_with(r, base, base.results@, patterns)
    &&& served(r.1) matches Some(out)
    &&& out.ts == base.ts
}

/// Applies the exclusion patterns and decides whether to write through.
fn finish(rs: ResultSet, patterns: &Vec<String>) -> (r: (SearchStage, SearchAction))
    requires
        rs.wf(),
    ensures
        r.1.kind() == finish_kind(rs.valid),
        finishes_unmerged(r, rs, patterns@),
{
    let mut rs = rs;
    rs.exclude_by_patterns(patterns);
    if rs.valid {
        (SearchStage::Finished, SearchAction::StoreAndServe(rs))
    } else {
        (SearchStage::Finished, SearchAction::Serve(rs))
    }
}

/// One decision of a search. A cache hit is served as it is; a miss fetches
/// the primary provider, whose failure fails the request; a primary result
/// then waits for the secondary provider when the mode asks for it. A
/// secondary result is merged in; a secondary failure leaves the primary
/// result alone. The finished set has the exclusion patterns applied and is
/// written through to the cache only when valid.
pub fn search_step(stage: SearchStage, event: SearchEvent, wants_secondary: bool, patterns: &Vec<String>) -> (r: (
    SearchStage,
    SearchAction,
))
    requires
        stage matches SearchStage::AwaitSecondary(p) ==> p.wf(),
        event matches SearchEvent::Primary(Ok(rs)) ==> rs.wf(),
    ensures
        r.1.kind() == planned_kind(stage, event, wants_secondary),
        match (stage, event) {
            (SearchStage::Lookup, SearchEvent::CacheHit(rs)) => r.0 is Finished && r.1 == SearchAction::Serve(rs),
            (SearchStage::Lookup, SearchEvent::CacheMiss) => r.0 is AwaitPrimary,
            (SearchStage::AwaitPrimary, SearchEvent::Primary(Err(e))) => r.0 is Finished && r.1 == SearchAction::Fail(e),
            (SearchStage::AwaitPrimary, SearchEvent::Primary(Ok(rs))) => if wants_secondary {
                r.0 == SearchStage::AwaitSecondary(rs)
            } else {
                finishes_unmerged(r, rs, patterns@)
            },
            (SearchStage::AwaitSecondary(p), SearchEvent::Secondary(Ok(s))) => finishes_with(
                r,
                p,
                sort_by_weight(merge_rows(p.results@, s.results@)),
                patterns@,
            ),
            (SearchStage::AwaitSecondary(p), SearchEvent::Secondary(Err(_))) => finishes_unmerged(r, p, patterns@),
            _ => r.0 == stage,
        },
{
    match (stage, event) {
        (SearchStage::Lookup, SearchEvent::CacheHit(rs)) => (SearchStage::Finished, SearchAction::Serve(rs)),
        (SearchStage::Lookup, SearchEvent::CacheMiss) => (SearchStage::AwaitPrimary, SearchAction::FetchPrimary),
        (SearchStage::AwaitPrimary, SearchEvent::Primary(Err(e))) => (SearchStage::Finished, SearchAction::Fail(e)),
        (SearchStage::AwaitPrimary, SearchEvent::Primary(Ok(rs))) => {
            if wants_secondary {
                (SearchStage::AwaitSecondary(rs), SearchAction::FetchSecondary)
            } else {
                finish(rs, patterns)
            }
        },
        (SearchStage::AwaitSecondary(p), SearchEvent::Secondary(Ok(s))) => {
            let mut merged = p;
            merged.merge_results(s);
            finish(merged, patterns)
        },
        (SearchStage::AwaitSecondary(p), SearchEvent::Secondary(Err(_))) => finish(p, patterns),
        (stage, _) => (stage, SearchAction::Ignore),
    }
}


/// A search whose record was written to the cache and is still fresh is served
/// from the cache with no provider fetch, while a cache miss fetches the
/// primary provider, and a primary result then fetches the secondary provider
/// when the mode asks for both.
pub proof fn lemma_fresh_repeat_skips_fetches(rs: ResultSet, j: JsonValue, now: i64, max_secs: i64)
    requires
        decode_record(j) == Some(RecordView { cached: false, ..rs@ }),
        now - rs.ts < max_secs,
    ensures
        lookup_outcome(Some(j), now, max_secs) == Some(RecordView { cached: true, ..rs@ }),
        forall|hit: ResultSet, w: bool| #[trigger] planned_kind(SearchStage::Lookup, SearchEvent::CacheHit(hit), w) == ActionKind::Serve,
        forall|w: bool| #[trigger] planned_kind(SearchStage::Lookup, SearchEvent::CacheMiss, w) == ActionKind::FetchPrimary,
        forall|p: ResultSet| #[trigger] planned_kind(SearchStage::AwaitPrimary, SearchEvent::Primary(Ok(p)), true)
            == ActionKind::FetchSecondary,
{
}

/// A failing secondary provider does not fail the request: the primary result
/// is finished on its own.
pub proof fn lemma_secondary_failure_tolerated(p: ResultSet, e: FetchError, w: bool)
    ensures
        planned_kind(SearchStage::AwaitSecondary(p), SearchEvent::Secondary(Err(e)), w) == finish_kind(p.valid),
        planned_kind(SearchStage::AwaitSecondary(p), SearchEvent::Secondary(Err(e)), w) != ActionKind::Fail,
{
}


pub enum SuggestStage {
    Lookup,
    AwaitFetch,
    Finished,
}

pub enum SuggestEvent {
    CacheHit(AutoSuggestResultSet),
    CacheMiss,
    Fetched(Result<AutoSuggestResultSet, FetchError>),
}

pub enum SuggestAction {
    Fetch,
    Serve(AutoSuggestResultSet),
    /// Write the set to the cache, then serve it.
    StoreAndServe(AutoSuggestResultSet),
    Fail(FetchError),
    /// The event does not belong to the current stage.
    Ignore,
}

/// One decision of a suggestion request: a cache hit is served, a miss
/// fetches, a fetched set is served and written through when valid, and a
/// failed fetch fails the request.
pub fn suggest_step(stage: SuggestStage, event: SuggestEvent) -> (r: (SuggestStage, SuggestAction))
    ensures
        match (stage, event) {
            (SuggestStage::Lookup, SuggestEvent::CacheHit(rs)) => r.0 is Finished && r.1 == SuggestAction::Serve(rs),
            (SuggestStage::Lookup, SuggestEvent::CacheMiss) => r.0 is AwaitFetch && r.1 is Fetch,
            (SuggestStage::AwaitFetch, SuggestEvent::Fetched(Ok(rs))) => r.0 is Finished && if rs.valid {
                r.1 == SuggestAction::StoreAndServe(rs)
            } else {
                r.1 == SuggestAction::Serve(rs)
            },
            (SuggestStage::AwaitFetch, SuggestEvent::Fetched(Err(e))) => r.0 is Finished && r.1 == SuggestAction::Fail(e),
            _ => r.0 == stage && r.1 is Ignore,
        },
{
    match (stage, event) {
        (SuggestStage::Lookup, SuggestEvent::CacheHit(rs)) => (SuggestStage::Finished, SuggestAction::Serve(rs)),
        (SuggestStage::Lookup, SuggestEvent::CacheMiss) => (SuggestStage::AwaitFetch, SuggestAction::Fetch),
        (SuggestStage::AwaitFetch, SuggestEvent::Fetched(Ok(rs))) => {
            if rs.valid {
                (SuggestStage::Finished, SuggestAction::StoreAndServe(rs))
            } else {
                (SuggestStage::Finished, SuggestAction::Serve(rs))
            }
        },
        (SuggestStage::AwaitFetch, SuggestEvent::Fetched(Err(e))) => (SuggestStage::Finished, SuggestAction::Fail(e)),
        (stage, _) => (stage, SuggestAction::Ignore),
    }
}

} // verus!
