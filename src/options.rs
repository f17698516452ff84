//! Request options: safe-search levels, provider modes, the normalised
//! `BraveSearchOptions`, cache keys and outbound query parameters.
use vstd::prelude::*;
use crate::constants::{match_country_code, country_code_for};
use crate::text::{text_eq, to_lower, to_upper, slugify, decimal_string, lower_of, upper_of, slug_of, decimal};

verus! {

/// Raw request parameters as they arrive from the request layer.
pub struct QueryParams {
    pub q: Option<String>,
    pub safe: Option<String>,
    pub cc: Option<String>,
    pub lang: Option<String>,
    pub p: Option<i64>,
    pub cached: Option<i16>,
    pub mode: Option<String>,
}

#[derive(Clone, Copy, Debug, PartialEq, Eq, Structural)]
pub enum SafeMode {
    Off,
    Moderate,
    Strict,
}

#[derive(Clone, Copy, Debug, PartialEq, Eq, Structural)]
pub enum SearchProvider {
    Text,
    Brave,
    Mojeek,
}

#[derive(Clone, Copy, Debug, PartialEq, Eq, Structural)]
pub enum SearchProviderMode {
    All,
    FullText,
    Core,
    Brave,
    Mojeek,
}

pub struct BraveSearchOptions {
    pub q: String,
    pub safesearch: SafeMode,
    pub cc: Option<String>,
    pub language: Option<String>,
    pub offset: Option<u16>,
    pub mode: SearchProviderMode,
}

/// The safe-search level named by an already lower-cased key.
pub open spec fn safe_mode_for(key: Seq<char>) -> SafeMode {
    if key == "on"@ || key == "2"@ || key == "strict"@ {
        SafeMode::Strict
    } else if key == "m"@ || key == "mild"@ || key == "partial"@ || key == "1"@ || key == "moderate"@ {
        SafeMode::Moderate
    } else {
        SafeMode::Off
    }
}

pub open spec fn mode_for(key: Seq<char>) -> SearchProviderMode {
    if key == "all"@ {
        SearchProviderMode::All
    } else if key == "text"@ || key == "fulltext"@ {
        SearchProviderMode::FullText
    } else if key == "brave"@ {
        SearchProviderMode::Brave
    } else if key == "mojeek"@ {
        SearchProviderMode::Mojeek
    } else {
        SearchProviderMode::Core
    }
}

pub open spec fn opt_text(o: Option<String>, default: Seq<char>) -> Seq<char> {
    match o {
        Some(s) => s@,
        None => default,
    }
}

pub open spec fn opt_view(o: Option<String>) -> Option<Seq<char>> {
    match o {
        Some(s) => Some(s@),
        None => None,
    }
}

pub open spec fn pair_views(s: Seq<(&str, String)>) -> Seq<(Seq<char>, Seq<char>)> {
    s.map_values(|p: (&str, String)| (p.0@, p.1@))
}

pub fn clone_opt(o: &Option<String>) -> (r: Option<String>)
    ensures
        r == *o,
{
    match o {
        Some(s) => Some(s.clone()),
        None => None,
    }
}

fn text_or(o: &Option<String>, default: &str) -> (r: String)
    ensures
        r@ == opt_text(*o, default@),
{
    match o {
        Some(s) => s.clone(),
        None => default.to_owned(),
    }
}

impl SafeMode {
    pub open spec fn short_code(self) -> Seq<char> {
        match self {
            SafeMode::Strict => "y"@,
            SafeMode::Moderate => "m"@,
            SafeMode::Off => "n"@,
        }
    }

    pub open spec fn option_value(self) -> Seq<char> {
        match self {
            SafeMode::Strict => "strict"@,
            SafeMode::Moderate => "moderate"@,
            SafeMode::Off => "off"@,
        }
    }

    /// Reads a safe-search key, ignoring case; unknown keys mean `Off`.
    pub fn from_key(key: &str) -> (r: SafeMode)
        ensures
            r == safe_mode_for(lower_of(key@)),
    {
        let lc = to_lower(key);
        let k = lc.as_str();
        if text_eq(k, "on") || text_eq(k, "2") || text_eq(k, "strict") {
            SafeMode::Strict
        } else if text_eq(k, "m") || text_eq(k, "mild") || text_eq(k, "partial") || text_eq(k, "1")
            || text_eq(k, "moderate") {
            SafeMode::Moderate
        } else {
            SafeMode::Off
        }
    }

    /// Reads an optional key; an absent key reads as `"off"`.
    pub fn from_opt_key(key: Option<String>) -> (r: SafeMode)
        ensures
            r == safe_mode_for(lower_of(opt_text(key, "off"@))),
    {
        match key {
            Some(k) => SafeMode::from_key(k.as_str()),
            None => SafeMode::from_key("off"),
        }
    }

    pub fn to_option(&self) -> (r: (&'static str, String))
        ensures
            r.0@ == "safemode"@,
            r.1@ == self.option_value(),
    {
        let value = match self {
            SafeMode::Strict => "strict",
            SafeMode::Moderate => "moderate",
            SafeMode::Off => "off",
        };
        ("safemode", value.to_owned())
    }

    pub fn to_short(&self) -> (r: String)
        ensures
            r@ == self.short_code(),
    {
        match self {
            SafeMode::Strict => "y",
            SafeMode::Moderate => "m",
            SafeMode::Off => "n",
        }.to_owned()
    }
}

impl SearchProviderMode {
    pub open spec fn key_text(self) -> Option<Seq<char>> {
        match self {
            SearchProviderMode::All => Some("all"@),
            SearchProviderMode::FullText => Some("fulltext"@),
            SearchProviderMode::Brave => Some("brave"@),
            SearchProviderMode::Mojeek => Some("mojeek"@),
            SearchProviderMode::Core => None,
        }
    }

    /// Whether this mode asks the secondary provider too.
    pub open spec fn uses_secondary(self) -> bool {
        self is Mojeek || self is Core || self is All
    }

    /// Reads a mode key exactly as given; unknown keys mean `Core`.
    pub fn from_key(key: &str) -> (r: SearchProviderMode)
        ensures
            r == mode_for(key@),
    {
        if text_eq(key, "all") {
            SearchProviderMode::All
        } else if text_eq(key, "text") || text_eq(key, "fulltext") {
            SearchProviderMode::FullText
        } else if text_eq(key, "brave") {
            SearchProviderMode::Brave
        } else if text_eq(key, "mojeek") {
            SearchProviderMode::Mojeek
        } else {
            SearchProviderMode::Core
        }
    }

    pub fn search_mojeek(&self) -> (r: bool)
        ensures
            r == self.uses_secondary(),
    {
        match self {
            SearchProviderMode::Mojeek | SearchProviderMode::Core | SearchProviderMode::All => true,
            _ => false,
        }
    }

    pub fn param_key(&self) -> (r: Option<&'static str>)
        ensures
            match r {
                Some(s) => self.key_text() == Some(s@),
                None => self.key_text() is None,
            },
    {
        match self {
            SearchProviderMode::All => Some("all"),
            SearchProviderMode::FullText => Some("fulltext"),
            SearchProviderMode::Brave => Some("brave"),
            SearchProviderMode::Mojeek => Some("mojeek"),
            SearchProviderMode::Core => None,
        }
    }

    /// `suffix` followed by the mode's key, if it has one.
    pub fn to_param_key(&self, suffix: &str) -> (r: String)
        ensures
            r@ == suffix@ + opt_text_seq(self.key_text()),
    {
        let out = suffix.to_owned();
        match self.param_key() {
            Some(k) => out.concat(k),
            None => {
                assert(out@ =~= suffix@ + Seq::<char>::empty());
                out
            },
        }
    }
}

pub open spec fn opt_text_seq(o: Option<Seq<char>>) -> Seq<char> {
    match o {
        Some(s) => s,
        None => Seq::empty(),
    }
}


/// The zero-based offset for a one-based page number: pages below one, and
/// pages whose offset does not fit in `u16`, give none.
pub open spec fn offset_for(p: Option<i64>) -> Option<u16> {
    let n = match p {
        Some(v) => v as int,
        None => 0,
    } - 1;
    if 0 <= n <= u16::MAX {
        Some(n as u16)
    } else {
        None
    }
}

/// A language key of one to three characters, lower-cased; anything else
/// gives none.
pub open spec fn language_for(lang: Option<String>) -> Option<Seq<char>> {
    let s = opt_text(lang, ""@);
    if 0 < s.len() < 4 {
        Some(lower_of(s))
    } else {
        None
    }
}

pub open spec fn country_for(cc: Option<String>) -> Option<Seq<char>> {
    match cc {
        Some(c) => country_code_for(upper_of(c@)),
        None => None,
    }
}

pub open spec fn opt_param(key: Seq<char>, v: Option<Seq<char>>) -> Seq<(Seq<char>, Seq<char>)> {
    match v {
        Some(x) => seq![(key, x)],
        None => Seq::empty(),
    }
}

impl BraveSearchOptions {
    pub open spec fn offset_or_zero(self) -> nat {
        match self.offset {
            Some(o) => o as nat,
            None => 0,
        }
    }

    /// The cache key before slugging: namespace, query, safe-search and mode
    /// code, country, language and offset, joined by underscores.
    pub open spec fn raw_cache_key(self, mode: SearchProviderMode) -> Seq<char> {
        "cs"@ + "_"@ + self.q@ + "_"@ + (self.safesearch.short_code() + opt_text_seq(mode.key_text()))
            + "_"@ + opt_text(self.cc, "all"@) + "_"@ + opt_text(self.language, "_"@) + "_"@
            + decimal(self.offset_or_zero())
    }

    pub open spec fn raw_suggest_key(self) -> Seq<char> {
        "br_sugg"@ + "_"@ + self.q@ + "_"@ + opt_text(self.cc, "all"@) + "_"@ + opt_text(self.language, "_"@)
    }

    pub open spec fn search_params(self) -> Seq<(Seq<char>, Seq<char>)> {
        let geo = match self.cc {
            Some(c) => seq![("country"@, c@), ("is_geolocal"@, "true"@)],
            None => seq![("is_geolocal"@, "false"@)],
        };
        let off = match self.offset {
            Some(o) => seq![("offset"@, decimal(o as nat))],
            None => Seq::empty(),
        };
        seq![("q"@, self.q@), ("safemode"@, self.safesearch.option_value())] + geo + off
            + opt_param("language"@, opt_view(self.language))
    }

    pub open spec fn mojeek_params(self, api_key: Seq<char>) -> Seq<(Seq<char>, Seq<char>)> {
        let rbb = match self.cc {
            Some(c) => seq![("rbb"@, upper_of(c@))],
            None => Seq::empty(),
        };
        let lbb = match self.language {
            Some(_) => Seq::empty(),
            None => seq![("lbb"@, "50"@)],
        };
        seq![("q"@, self.q@), ("api_key"@, api_key), ("fmt"@, "json"@), ("t"@, "20"@)] + rbb
            + seq![("lb"@, upper_of(opt_text(self.language, "en"@)))] + lbb
    }

    pub open spec fn suggest_params(self) -> Seq<(Seq<char>, Seq<char>)> {
        seq![("q"@, self.q@), ("safemode"@, self.safesearch.option_value()), ("count"@, "20"@)]
            + opt_param("country"@, opt_view(self.cc)) + opt_param("lang"@, opt_view(self.language))
    }

    /// Normalises raw request parameters.
    pub fn new(params: &QueryParams) -> (r: BraveSearchOptions)
        ensures
            r.q@ == opt_text(params.q, ""@),
            r.safesearch == safe_mode_for(lower_of(opt_text(params.safe, "off"@))),
            opt_view(r.cc) == country_for(params.cc),
            opt_view(r.language) == language_for(params.lang),
            r.offset == offset_for(params.p),
            r.mode == mode_for(opt_text(params.mode, "core"@)),
    {
        let q = text_or(&params.q, "");
        let safesearch = SafeMode::from_opt_key(clone_opt(&params.safe));
        let p: i64 = match params.p {
            Some(v) => v,
            None => 0,
        };
        let offset: Option<u16> = if p >= 1 && p <= 65536 {
            Some((p - 1) as u16)
        } else {
            None
        };
        let lang_str = text_or(&params.lang, "");
        let n = lang_str.as_str().unicode_len();
        let language = if n > 0 && n < 4 {
            Some(to_lower(lang_str.as_str()))
        } else {
            None
        };
        let cc = match &params.cc {
            Some(cc_key) => match_country_code(cc_key.as_str()),
            None => None,
        };
        let mode_key = text_or(&params.mode, "core");
        let mode = SearchProviderMode::from_key(mode_key.as_str());
        BraveSearchOptions { q, safesearch, cc, language, offset, mode }
    }

    /// The cache key of a search under `mode`.
    pub fn to_cache_key(&self, mode: SearchProviderMode) -> (r: String)
        ensures
            r@ == slug_of(self.raw_cache_key(mode)),
    {
        let safe_search_key = self.safesearch.to_short();
        let second_param = mode.to_param_key(safe_search_key.as_str());
        let off: u16 = match self.offset {
            Some(o) => o,
            None => 0,
        };
        let offset_text = decimal_string(off as u64);
        let cc = text_or(&self.cc, "all");
        let lang = text_or(&self.language, "_");
        let raw = "cs".to_owned().concat("_").concat(self.q.as_str()).concat("_").concat(
            second_param.as_str(),
        ).concat("_").concat(cc.as_str()).concat("_").concat(lang.as_str()).concat("_").concat(
            offset_text.as_str(),
        );
        slugify(raw.as_str())
    }

    /// The cache key of a suggestion request.
    pub fn to_suggest_cache_key(&self) -> (r: String)
        ensures
            r@ == slug_of(self.raw_suggest_key()),
    {
        let cc = text_or(&self.cc, "all");
        let lang = text_or(&self.language, "_");
        let raw = "br_sugg".to_owned().concat("_").concat(self.q.as_str()).concat("_").concat(
            cc.as_str(),
        ).concat("_").concat(lang.as_str());
        slugify(raw.as_str())
    }

    pub fn cc_val(&self) -> (r: String)
        ensures
            r@ == opt_text(self.cc, ""@),
    {
        text_or(&self.cc, "")
    }

    pub fn lang_code(&self, default_code: &str) -> (r: String)
        ensures
            r@ == opt_text(self.language, default_code@),
    {
        text_or(&self.language, default_code)
    }

    pub fn lang(&self) -> (r: Option<String>)
        ensures
            r == self.language,
    {
        clone_opt(&self.language)
    }

    pub fn country_code(&self) -> (r: Option<String>)
        ensures
            r == self.cc,
    {
        clone_opt(&self.cc)
    }

    /// The one-based page number, saturating at `u16::MAX` for the last offset.
    pub open spec fn page_number(self) -> u16 {
        if self.offset_or_zero() < u16::MAX {
            (self.offset_or_zero() + 1) as u16
        } else {
            u16::MAX
        }
    }

    /// The one-based page number, saturating at `u16::MAX` for the last offset.
    pub fn page(&self) -> (r: u16)
        ensures
            r == self.page_number(),
    {
        match self.offset {
            Some(o) => if o < u16::MAX {
                o + 1
            } else {
                u16::MAX
            },
            None => 1,
        }
    }

    /// Query parameters for the primary provider's search endpoint.
    pub fn to_tuples(&self) -> (r: Vec<(&'static str, String)>)
        ensures
            pair_views(r@) == self.search_params(),
    {
        let mut tuples: Vec<(&'static str, String)> = Vec::new();
        tuples.push(("q", self.q.clone()));
        tuples.push(self.safesearch.to_option());
        if self.cc.is_some() {
            tuples.push(("country", self.cc_val()));
            tuples.push(("is_geolocal", "true".to_owned()));
        } else {
            tuples.push(("is_geolocal", "false".to_owned()));
        }
        if let Some(o) = self.offset {
            tuples.push(("offset", decimal_string(o as u64)));
        }
        if self.language.is_some() {
            tuples.push(("language", self.lang_code("")));
        }
        assert(pair_views(tuples@) =~= self.search_params());
        tuples
    }

    /// Query parameters for the secondary provider, which takes its key as a
    /// parameter.
    pub fn to_mojeek_tuples(&self, api_key: &str) -> (r: Vec<(&'static str, String)>)
        ensures
            pair_views(r@) == self.mojeek_params(api_key@),
    {
        let mut tuples: Vec<(&'static str, String)> = Vec::new();
        tuples.push(("q", self.q.clone()));
        tuples.push(("api_key", api_key.to_owned()));
        tuples.push(("fmt", "json".to_owned()));
        tuples.push(("t", "20".to_owned()));
        if self.cc.is_some() {
            let c = self.cc_val();
            tuples.push(("rbb", to_upper(c.as_str())));
        }
        let lang = self.lang_code("en");
        tuples.push(("lb", to_upper(lang.as_str())));
        if self.language.is_none() {
            tuples.push(("lbb", "50".to_owned()));
        }
        assert(pair_views(tuples@) =~= self.mojeek_params(api_key@));
        tuples
    }

    /// Query parameters for the suggestion endpoint.
    pub fn to_suggest_tuples(&self) -> (r: Vec<(&'static str, String)>)
        ensures
            pair_views(r@) == self.suggest_params(),
    {
        let mut tuples: Vec<(&'static str, String)> = Vec::new();
        tuples.push(("q", self.q.clone()));
        tuples.push(self.safesearch.to_option());
        tuples.push(("count", "20".to_owned()));
        if self.cc.is_some() {
            tuples.push(("country", self.cc_val()));
        }
        if self.language.is_some() {
            tuples.push(("lang", self.lang_code("")));
        }
        assert(pair_views(tuples@) =~= self.suggest_params());
        tuples
    }
}


proof fn lemma_same_around(p: Seq<char>, x: Seq<char>, y: Seq<char>, s: Seq<char>)
    requires
        p + x + s == p + y + s,
    ensures
        x == y,
{
    assert((p + x + s).len() == p.len() + x.len() + s.len());
    assert((p + y + s).len() == p.len() + y.len() + s.len());
    assert(x.len() == y.len());
    assert(x =~= (p + x + s).subrange(p.len() as int, (p.len() + x.len()) as int));
    assert(y =~= (p + y + s).subrange(p.len() as int, (p.len() + y.len()) as int));
}

/// Field-wise equality of two option values, on the fields a cache key reads.
pub open spec fn same_key_fields(a: BraveSearchOptions, b: BraveSearchOptions) -> bool {
    &&& a.q@ == b.q@
    &&& a.safesearch == b.safesearch
    &&& opt_view(a.cc) == opt_view(b.cc)
    &&& opt_view(a.language) == opt_view(b.language)
    &&& a.offset == b.offset
    &&& a.mode == b.mode
}

/// The search cache key of options under their own mode.
pub open spec fn search_key_of(o: BraveSearchOptions) -> Seq<char> {
    slug_of(o.raw_cache_key(o.mode))
}

/// Options that agree on every field get the same cache key. Before slugging,
/// options that differ in exactly one field get different keys, where for the
/// optional fields the difference is in what the key writes for them (`all`
/// for no country, `_` for no language, `0` for no offset).
pub proof fn lemma_cache_key_fields(a: BraveSearchOptions, b: BraveSearchOptions)
    ensures
        same_key_fields(a, b) ==> search_key_of(a) == search_key_of(b),
        a.q@ != b.q@ && same_key_fields(a, BraveSearchOptions { q: a.q, ..b })
            ==> a.raw_cache_key(a.mode) != b.raw_cache_key(b.mode),
        a.safesearch != b.safesearch && same_key_fields(a, BraveSearchOptions { safesearch: a.safesearch, ..b })
            ==> a.raw_cache_key(a.mode) != b.raw_cache_key(b.mode),
        a.mode != b.mode && same_key_fields(a, BraveSearchOptions { mode: a.mode, ..b })
            ==> a.raw_cache_key(a.mode) != b.raw_cache_key(b.mode),
        opt_text(a.cc, "all"@) != opt_text(b.cc, "all"@) && same_key_fields(a, BraveSearchOptions { cc: a.cc, ..b })
            ==> a.raw_cache_key(a.mode) != b.raw_cache_key(b.mode),
        opt_text(a.language, "_"@) != opt_text(b.language, "_"@)
            && same_key_fields(a, BraveSearchOptions { language: a.language, ..b })
            ==> a.raw_cache_key(a.mode) != b.raw_cache_key(b.mode),
        a.offset_or_zero() != b.offset_or_zero() && same_key_fields(a, BraveSearchOptions { offset: a.offset, ..b })
            ==> a.raw_cache_key(a.mode) != b.raw_cache_key(b.mode),
{
    if same_key_fields(a, b) {
        assert(a.raw_cache_key(a.mode) =~= b.raw_cache_key(b.mode));
    }
    if a.q@ != b.q@ && same_key_fields(a, BraveSearchOptions { q: a.q, ..b }) {
        lemma_key_query(a, b);
    }
    if a.safesearch != b.safesearch && same_key_fields(a, BraveSearchOptions { safesearch: a.safesearch, ..b }) {
        lemma_key_second(a, b);
    }
    if a.mode != b.mode && same_key_fields(a, BraveSearchOptions { mode: a.mode, ..b }) {
        lemma_key_second(a, b);
    }
    if opt_text(a.cc, "all"@) != opt_text(b.cc, "all"@) && same_key_fields(a, BraveSearchOptions { cc: a.cc, ..b }) {
        lemma_key_country(a, b);
    }
    if opt_text(a.language, "_"@) != opt_text(b.language, "_"@)
        && same_key_fields(a, BraveSearchOptions { language: a.language, ..b }) {
        lemma_key_language(a, b);
    }
    if a.offset_or_zero() != b.offset_or_zero() && same_key_fields(a, BraveSearchOptions { offset: a.offset, ..b }) {
        lemma_key_offset(a, b);
    }
}

pub open spec fn second_param(o: BraveSearchOptions) -> Seq<char> {
    o.safesearch.short_code() + opt_text_seq(o.mode.key_text())
}

#[verifier::rlimit(80)]
proof fn lemma_key_query(a: BraveSearchOptions, b: BraveSearchOptions)
    requires
        a.q@ != b.q@,
        same_key_fields(a, BraveSearchOptions { q: a.q, ..b }),
    ensures
        a.raw_cache_key(a.mode) != b.raw_cache_key(b.mode),
{
    let u = "_"@;
    let pre = "cs"@ + u;
    let suf = u + second_param(a) + u + opt_text(a.cc, "all"@) + u + opt_text(a.language, "_"@) + u
        + decimal(a.offset_or_zero());
    assert(a.raw_cache_key(a.mode) =~= pre + a.q@ + suf);
    assert(b.raw_cache_key(b.mode) =~= pre + b.q@ + suf);
    if a.raw_cache_key(a.mode) == b.raw_cache_key(b.mode) {
        lemma_same_around(pre, a.q@, b.q@, suf);
    }
}

#[verifier::rlimit(80)]
proof fn lemma_key_second(a: BraveSearchOptions, b: BraveSearchOptions)
    requires
        (a.safesearch != b.safesearch && same_key_fields(a, BraveSearchOptions { safesearch: a.safesearch, ..b }))
            || (a.mode != b.mode && same_key_fields(a, BraveSearchOptions { mode: a.mode, ..b })),
    ensures
        a.raw_cache_key(a.mode) != b.raw_cache_key(b.mode),
{
    reveal_strlit("y");
    reveal_strlit("m");
    reveal_strlit("n");
    reveal_strlit("all");
    reveal_strlit("fulltext");
    reveal_strlit("brave");
    reveal_strlit("mojeek");
    let u = "_"@;
    let pre = "cs"@ + u + a.q@ + u;
    let suf = u + opt_text(a.cc, "all"@) + u + opt_text(a.language, "_"@) + u + decimal(a.offset_or_zero());
    let sa = second_param(a);
    let sb = second_param(b);
    assert(a.raw_cache_key(a.mode) =~= pre + sa + suf);
    assert(b.raw_cache_key(b.mode) =~= pre + sb + suf);
    if a.raw_cache_key(a.mode) == b.raw_cache_key(b.mode) {
        lemma_same_around(pre, sa, sb, suf);
        if a.safesearch != b.safesearch {
            assert(sa[0] == a.safesearch.short_code()[0]);
            assert(sb[0] == b.safesearch.short_code()[0]);
        } else {
            assert(sa.len() == sb.len());
        }
    }
}

#[verifier::rlimit(80)]
proof fn lemma_key_country(a: BraveSearchOptions, b: BraveSearchOptions)
    requires
        opt_text(a.cc, "all"@) != opt_text(b.cc, "all"@),
        same_key_fields(a, BraveSearchOptions { cc: a.cc, ..b }),
    ensures
        a.raw_cache_key(a.mode) != b.raw_cache_key(b.mode),
{
    let u = "_"@;
    let pre = "cs"@ + u + a.q@ + u + second_param(a) + u;
    let suf = u + opt_text(a.language, "_"@) + u + decimal(a.offset_or_zero());
    assert(a.raw_cache_key(a.mode) =~= pre + opt_text(a.cc, "all"@) + suf);
    assert(b.raw_cache_key(b.mode) =~= pre + opt_text(b.cc, "all"@) + suf);
    if a.raw_cache_key(a.mode) == b.raw_cache_key(b.mode) {
        lemma_same_around(pre, opt_text(a.cc, "all"@), opt_text(b.cc, "all"@), suf);
    }
}

#[verifier::rlimit(80)]
proof fn lemma_key_language(a: BraveSearchOptions, b: BraveSearchOptions)
    requires
        opt_text(a.language, "_"@) != opt_text(b.language, "_"@),
        same_key_fields(a, BraveSearchOptions { language: a.language, ..b }),
    ensures
        a.raw_cache_key(a.mode) != b.raw_cache_key(b.mode),
{
    let u = "_"@;
    let pre = "cs"@ + u + a.q@ + u + second_param(a) + u + opt_text(a.cc, "all"@) + u;
    let suf = u + decimal(a.offset_or_zero());
    assert(a.raw_cache_key(a.mode) =~= pre + opt_text(a.language, "_"@) + suf);
    assert(b.raw_cache_key(b.mode) =~= pre + opt_text(b.language, "_"@) + suf);
    if a.raw_cache_key(a.mode) == b.raw_cache_key(b.mode) {
        lemma_same_around(pre, opt_text(a.language, "_"@), opt_text(b.language, "_"@), suf);
    }
}

#[verifier::rlimit(80)]
proof fn lemma_key_offset(a: BraveSearchOptions, b: BraveSearchOptions)
    requires
        a.offset_or_zero() != b.offset_or_zero(),
        same_key_fields(a, BraveSearchOptions { offset: a.offset, ..b }),
    ensures
        a.raw_cache_key(a.mode) != b.raw_cache_key(b.mode),
{
    crate::text::lemma_decimal_injective(a.offset_or_zero(), b.offset_or_zero());
    let u = "_"@;
    let pre = "cs"@ + u + a.q@ + u + second_param(a) + u + opt_text(a.cc, "all"@) + u + opt_text(a.language, "_"@)
        + u;
    let e = Seq::<char>::empty();
    let da = decimal(a.offset_or_zero());
    let db = decimal(b.offset_or_zero());
    assert(a.raw_cache_key(a.mode) =~= pre + da + e);
    assert(b.raw_cache_key(b.mode) =~= pre + db + e);
    if a.raw_cache_key(a.mode) == b.raw_cache_key(b.mode) {
        lemma_same_around(pre, da, db, e);
    }
}

} // verus!
