//! Regular-expression matching on text, through the regex crate.
use vstd::prelude::*;

verus! {

/// What compiling `source` with `regex::Regex::new` and searching `text` with
/// `Regex::is_match` gives: `None` when the source does not compile.
pub uninterp spec fn regex_search_of(source: Seq<char>, text: Seq<char>) -> Option<bool>;

/// Whether `regex::Regex::new` accepts `source`.
pub uninterp spec fn regex_valid_of(source: Seq<char>) -> bool;

/// What `Regex::replace_all` gives for `text` and `replacement` with the regex
/// compiled from `source`: `None` when the source does not compile.
pub uninterp spec fn regex_replace_of(source: Seq<char>, text: Seq<char>, replacement: Seq<char>) -> Option<Seq<char>>;

/// Relies on `regex::Regex::new`, which rejects an invalid or oversized
/// pattern with an error, and on `Regex::is_match`, which reports whether the
/// regex matches anywhere in the text.
#[verifier::external_body]
fn regex_search(source: &str, text: &str) -> (r: Option<bool>)
    ensures
        r == regex_search_of(source@, text@),
        r is Some <==> regex_valid_of(source@),
{
    match regex::Regex::new(source) {
        Ok(re) => Some(re.is_match(text)),
        Err(_) => None,
    }
}

/// The regex source for `pattern`, with the case-insensitive flag prefixed
/// when asked for.
pub open spec fn regex_source(pattern: Seq<char>, case_insensitive: bool) -> Seq<char> {
    if case_insensitive {
        "(?i)"@ + pattern
    } else {
        pattern
    }
}

pub fn build_regex(pattern: &str, case_insensitive: bool) -> (r: String)
    ensures
        r@ == regex_source(pattern@, case_insensitive),
{
    if case_insensitive {
        "(?i)".to_owned().concat(pattern)
    } else {
        pattern.to_owned()
    }
}

/// Whether `pattern` matches anywhere in `text`; `None` when the pattern is
/// not a valid regex.
pub fn pattern_match_opt(text: &str, pattern: &str, case_insensitive: bool) -> (r: Option<bool>)
    ensures
        r == regex_search_of(regex_source(pattern@, case_insensitive), text@),
        r is Some <==> regex_valid_of(regex_source(pattern@, case_insensitive)),
{
    let source = build_regex(pattern, case_insensitive);
    regex_search(source.as_str(), text)
}

/// Whether `pattern` matches anywhere in `text`; an invalid pattern never matches.
pub fn pattern_match(text: &str, pattern: &str, case_insensitive: bool) -> (r: bool)
    ensures
        r == (regex_search_of(regex_source(pattern@, case_insensitive), text@) == Some(true)),
        r ==> regex_valid_of(regex_source(pattern@, case_insensitive)),
{
    match pattern_match_opt(text, pattern, case_insensitive) {
        Some(b) => b,
        None => false,
    }
}


/// Relies on `regex::Regex::new`, which returns an error exactly for a source
/// it rejects.
#[verifier::external_body]
fn regex_compiles(source: &str) -> (r: bool)
    ensures
        r == regex_valid_of(source@),
{
    regex::Regex::new(source).is_ok()
}

/// Relies on `regex::Regex::new` and `Regex::replace_all`, which replaces every
/// non-overlapping match in the text, expanding `$` references in the
/// replacement.
#[verifier::external_body]
fn regex_replace(source: &str, text: &str, replacement: &str) -> (r: Option<String>)
    ensures
        match r {
            Some(t) => regex_replace_of(source@, text@, replacement@) == Some(t@),
            None => regex_replace_of(source@, text@, replacement@) is None,
        },
        r is Some <==> regex_valid_of(source@),
{
    match regex::Regex::new(source) {
        Ok(re) => Some(re.replace_all(text, replacement).into_owned()),
        Err(_) => None,
    }
}

/// Whether `char::is_alphanumeric` holds of `c`.
pub uninterp spec fn alphanumeric(c: char) -> bool;

/// Whether `char::is_alphabetic` holds of `c`.
pub uninterp spec fn alphabetic(c: char) -> bool;

/// Relies on `char::is_alphanumeric`, a property of the character alone.
#[verifier::external_body]
fn is_alphanumeric(c: char) -> (r: bool)
    ensures
        r == alphanumeric(c),
{
    c.is_alphanumeric()
}

/// Relies on `char::is_alphabetic`, a property of the character alone.
#[verifier::external_body]
fn is_alphabetic(c: char) -> (r: bool)
    ensures
        r == alphabetic(c),
{
    c.is_alphabetic()
}

/// Relies on the `Display` impl of `char` (through `ToString`), which writes
/// the character itself.
#[verifier::external_body]
fn char_text(c: char) -> (r: String)
    ensures
        r@ == seq![c],
{
    c.to_string()
}

pub open spec fn keep_alphanumeric(s: Seq<char>) -> Seq<char> {
    s.filter(|c: char| alphanumeric(c))
}

pub open spec fn views_of(s: Seq<String>) -> Seq<Seq<char>> {
    s.map_values(|x: String| x@)
}

/// The characters of `s` that are alphanumeric, in order.
pub fn strip_non_chars(s: &str) -> (r: String)
    ensures
        r@ == keep_alphanumeric(s@),
{
    let n = s.unicode_len();
    let mut out = String::new();
    let mut i: usize = 0;
    while i < n
        invariant
            n == s@.len(),
            i <= n,
            out@ == s@.take(i as int).filter(|c: char| alphanumeric(c)),
        decreases n - i,
    {
        let c = s.get_char(i);
        proof {
            assert(s@.take(i + 1) =~= s@.take(i as int).push(c));
            s@.take(i as int).lemma_filter_push(c, |c: char| alphanumeric(c));
        }
        if is_alphanumeric(c) {
            let t = char_text(c);
            out = out.concat(t.as_str());
        }
        i = i + 1;
    }
    assert(s@.take(n as int) =~= s@);
    out
}

/// Whether some character satisfies `is_digit(10)`: an ASCII decimal digit.
pub fn has_digits(s: &str) -> (r: bool)
    ensures
        r == exists|i: int| 0 <= i < s@.len() && '0' <= #[trigger] s@[i] <= '9',
{
    let n = s.unicode_len();
    let mut i: usize = 0;
    while i < n
        invariant
            n == s@.len(),
            i <= n,
            forall|j: int| 0 <= j < i ==> !('0' <= #[trigger] s@[j] <= '9'),
        decreases n - i,
    {
        let c = s.get_char(i);
        if '0' <= c && c <= '9' {
            return true;
        }
        i = i + 1;
    }
    false
}

pub fn has_alphanumeric(s: &str) -> (r: bool)
    ensures
        r == exists|i: int| 0 <= i < s@.len() && alphanumeric(#[trigger] s@[i]),
{
    let n = s.unicode_len();
    let mut i: usize = 0;
    while i < n
        invariant
            n == s@.len(),
            i <= n,
            forall|j: int| 0 <= j < i ==> !alphanumeric(#[trigger] s@[j]),
        decreases n - i,
    {
        if is_alphanumeric(s.get_char(i)) {
            return true;
        }
        i = i + 1;
    }
    false
}

pub fn has_alphabetic(s: &str) -> (r: bool)
    ensures
        r == exists|i: int| 0 <= i < s@.len() && alphabetic(#[trigger] s@[i]),
{
    let n = s.unicode_len();
    let mut i: usize = 0;
    while i < n
        invariant
            n == s@.len(),
            i <= n,
            forall|j: int| 0 <= j < i ==> !alphabetic(#[trigger] s@[j]),
        decreases n - i,
    {
        if is_alphabetic(s.get_char(i)) {
            return true;
        }
        i = i + 1;
    }
    false
}

/// Replaces every match of `pattern` in `text`; `None` when the pattern is not
/// a valid regex.
pub fn pattern_replace_opt(text: &str, pattern: &str, replacement: &str, case_insensitive: bool) -> (r: Option<String>)
    ensures
        match r {
            Some(t) => regex_replace_of(regex_source(pattern@, case_insensitive), text@, replacement@) == Some(t@),
            None => regex_replace_of(regex_source(pattern@, case_insensitive), text@, replacement@) is None,
        },
{
    let source = build_regex(pattern, case_insensitive);
    regex_replace(source.as_str(), text, replacement)
}

/// Replaces every match of `pattern` in `text`; an invalid pattern leaves the
/// text as it is.
pub fn pattern_replace(text: &str, pattern: &str, replacement: &str, case_insensitive: bool) -> (r: String)
    ensures
        r@ == match regex_replace_of(regex_source(pattern@, case_insensitive), text@, replacement@) {
            Some(t) => t,
            None => text@,
        },
{
    match pattern_replace_opt(text, pattern, replacement, case_insensitive) {
        Some(t) => t,
        None => text.to_owned(),
    }
}

/// Whether `pattern` matches anywhere in any of the texts; `None` when the
/// pattern is not a valid regex.
pub fn pattern_match_any_opt(texts: &Vec<String>, pattern: &str, case_insensitive: bool) -> (r: Option<bool>)
    ensures
        r == if regex_valid_of(regex_source(pattern@, case_insensitive)) {
            Some(exists|i: int| 0 <= i < texts@.len()
                && #[trigger] regex_search_of(regex_source(pattern@, case_insensitive), texts@[i]@) == Some(true))
        } else {
            None
        },
{
    let source = build_regex(pattern, case_insensitive);
    if !regex_compiles(source.as_str()) {
        return None;
    }
    let mut i: usize = 0;
    while i < texts.len()
        invariant
            i <= texts@.len(),
            source@ == regex_source(pattern@, case_insensitive),
            regex_valid_of(source@),
            forall|j: int| 0 <= j < i ==> #[trigger] regex_search_of(source@, texts@[j]@) != Some(true),
        decreases texts@.len() - i,
    {
        let found = regex_search(source.as_str(), texts[i].as_str());
        if found == Some(true) {
            return Some(true);
        }
        i = i + 1;
    }
    Some(false)
}

/// Whether `pattern` matches anywhere in any of the texts; an invalid pattern
/// never matches.
pub fn pattern_match_any(texts: &Vec<String>, pattern: &str, case_insensitive: bool) -> (r: bool)
    ensures
        r == (regex_valid_of(regex_source(pattern@, case_insensitive)) && exists|i: int| 0 <= i < texts@.len()
            && #[trigger] regex_search_of(regex_source(pattern@, case_insensitive), texts@[i]@) == Some(true)),
{
    match pattern_match_any_opt(texts, pattern, case_insensitive) {
        Some(b) => b,
        None => false,
    }
}

/// Replaces every match in each of the texts; `None` when the pattern is not a
/// valid regex.
pub fn pattern_replace_all_opt(texts: &Vec<String>, pattern: &str, replacement: &str, case_insensitive: bool) -> (r:
    Option<Vec<String>>)
    ensures
        match r {
            Some(out) => regex_valid_of(regex_source(pattern@, case_insensitive)) && out@.len() == texts@.len()
                && forall|i: int| 0 <= i < texts@.len() ==> regex_replace_of(
                    regex_source(pattern@, case_insensitive),
                    texts@[i]@,
                    replacement@,
                ) == Some(#[trigger] out@[i]@),
            None => !regex_valid_of(regex_source(pattern@, case_insensitive)),
        },
{
    let source = build_regex(pattern, case_insensitive);
    if !regex_compiles(source.as_str()) {
        return None;
    }
    let mut out: Vec<String> = Vec::new();
    let mut i: usize = 0;
    while i < texts.len()
        invariant
            i <= texts@.len(),
            out@.len() == i,
            source@ == regex_source(pattern@, case_insensitive),
            regex_valid_of(source@),
            forall|j: int| 0 <= j < i ==> regex_replace_of(source@, texts@[j]@, replacement@) == Some(#[trigger] out@[j]@),
        decreases texts@.len() - i,
    {
        match regex_replace(source.as_str(), texts[i].as_str(), replacement) {
            Some(t) => out.push(t),
            None => return None,
        }
        i = i + 1;
    }
    Some(out)
}


/// What `str::split` yields for `s` and the separator `sep`, in order.
pub uninterp spec fn split_of(s: Seq<char>, sep: Seq<char>) -> Seq<Seq<char>>;

/// What `str::split_once` gives for `s` and `sep`: the text before and after
/// the first occurrence of the separator.
pub uninterp spec fn split_once_of(s: Seq<char>, sep: Seq<char>) -> Option<(Seq<char>, Seq<char>)>;

/// Relies on `str::split`: the pieces between occurrences of the separator,
/// which depend on the two strings alone.
#[verifier::external_body]
fn split_text(s: &str, sep: &str) -> (r: Vec<String>)
    ensures
        views_of(r@) == split_of(s@, sep@),
{
    s.split(sep).map(|p| p.to_string()).collect()
}

/// Relies on `str::split_once`, which splits at the first occurrence of the
/// separator, or gives `None` when there is none.
#[verifier::external_body]
fn split_once_text(s: &str, sep: &str) -> (r: Option<(String, String)>)
    ensures
        match r {
            Some((h, t)) => split_once_of(s@, sep@) == Some((h@, t@)),
            None => split_once_of(s@, sep@) is None,
        },
{
    match s.split_once(sep) {
        Some((h, t)) => Some((h.to_string(), t.to_string())),
        None => None,
    }
}

/// Position `index` in a list of `len` items, counting from the end when
/// negative.
pub open spec fn segment_index(len: int, index: int) -> int {
    if index >= 0 {
        index
    } else {
        len + index
    }
}

pub open spec fn segment_of(s: Seq<char>, sep: Seq<char>, index: int) -> Option<Seq<char>> {
    let parts = split_of(s, sep);
    let t = segment_index(parts.len() as int, index);
    if 0 <= t < parts.len() {
        Some(parts[t])
    } else {
        None
    }
}

/// Successive segment extraction: each step splits what the previous one
/// found, the first the text itself; a step on an empty text changes nothing,
/// so an empty text finds nothing.
pub open spec fn inner_segment_of(s: Seq<char>, groups: Seq<(Seq<char>, int)>) -> Option<Seq<char>>
    decreases groups.len(),
{
    if groups.len() == 0 {
        None
    } else {
        let prev = inner_segment_of(s, groups.drop_last());
        let current = if groups.len() == 1 {
            s
        } else {
            match prev {
                Some(t) => t,
                None => Seq::empty(),
            }
        };
        if current.len() > 0 {
            segment_of(current, groups.last().0, groups.last().1)
        } else {
            prev
        }
    }
}

/// The pieces joined by the separator.
pub open spec fn joined_with(parts: Seq<Seq<char>>, sep: Seq<char>) -> Seq<char>
    decreases parts.len(),
{
    if parts.len() == 0 {
        Seq::empty()
    } else if parts.len() == 1 {
        parts[0]
    } else {
        joined_with(parts.drop_last(), sep) + sep + parts.last()
    }
}

pub fn extract_segments(s: &str, separator: &str) -> (r: Vec<String>)
    ensures
        views_of(r@) == split_of(s@, separator@),
{
    split_text(s, separator)
}

/// The text before the first separator, or all of it.
pub fn extract_head(s: &str, separator: &str) -> (r: String)
    ensures
        r@ == match split_once_of(s@, separator@) {
            Some((h, _)) => h,
            None => s@,
        },
{
    match split_once_text(s, separator) {
        Some((h, _)) => h,
        None => s.to_owned(),
    }
}

/// The last segment, or all of the text when splitting gives none.
pub fn extract_tail(s: &str, separator: &str) -> (r: String)
    ensures
        r@ == if split_of(s@, separator@).len() > 0 {
            split_of(s@, separator@).last()
        } else {
            s@
        },
{
    let parts = split_text(s, separator);
    if parts.len() > 0 {
        assert(views_of(parts@)[parts@.len() - 1] == parts@[parts@.len() - 1]@);
        parts[parts.len() - 1].clone()
    } else {
        s.to_owned()
    }
}

/// The segment at `index`, counted from the end when negative.
pub fn extract_segment(s: &str, separator: &str, index: i32) -> (r: Option<String>)
    ensures
        match r {
            Some(t) => segment_of(s@, separator@, index as int) == Some(t@),
            None => segment_of(s@, separator@, index as int) is None,
        },
{
    let parts = split_text(s, separator);
    let n = parts.len();
    let target: i128 = if index >= 0 { index as i128 } else { n as i128 + index as i128 };
    if 0 <= target && target < n as i128 {
        let t = target as usize;
        assert(views_of(parts@)[t as int] == parts@[t as int]@);
        Some(parts[t].clone())
    } else {
        None
    }
}

pub open spec fn group_views(groups: Seq<(&str, i32)>) -> Seq<(Seq<char>, int)> {
    groups.map_values(|g: (&str, i32)| (g.0@, g.1 as int))
}

/// Applies `extract_segment` group by group, each to the previous result.
pub fn extract_inner_segment(s: &str, groups: &[(&str, i32)]) -> (r: Option<String>)
    ensures
        match r {
            Some(t) => inner_segment_of(s@, group_views(groups@)) == Some(t@),
            None => inner_segment_of(s@, group_views(groups@)) is None,
        },
{
    if groups.len() == 0 {
        return None;
    }
    let ghost gv = group_views(groups@);
    let mut matched: Option<String> = None;
    let mut current = s.to_owned();
    let mut i: usize = 0;
    while i < groups.len()
        invariant
            0 < groups@.len(),
            i <= groups@.len(),
            gv == group_views(groups@),
            i == 0 ==> current@ == s@ && matched is None,
            i > 0 ==> match matched {
                Some(t) => inner_segment_of(s@, gv.take(i as int)) == Some(t@) && current@ == t@,
                None => inner_segment_of(s@, gv.take(i as int)) is None && current@.len() == 0,
            },
        decreases groups@.len() - i,
    {
        proof {
            assert(gv.take(i + 1).drop_last() =~= gv.take(i as int));
            assert(gv.take(i + 1).last() == gv[i as int]);
        }
        if current.as_str().unicode_len() > 0 {
            let (separator, index) = groups[i];
            matched = extract_segment(current.as_str(), separator, index);
            current = match &matched {
                Some(t) => t.clone(),
                None => String::new(),
            };
        }
        i = i + 1;
    }
    assert(gv.take(groups@.len() as int) =~= gv);
    matched
}

/// The text before and after the first separator; without one, an empty head
/// and the whole text.
pub fn extract_head_pair(s: &str, separator: &str) -> (r: (String, String))
    ensures
        (r.0@, r.1@) == match split_once_of(s@, separator@) {
            Some(p) => p,
            None => (Seq::<char>::empty(), s@),
        },
{
    match split_once_text(s, separator) {
        Some((h, t)) => (h, t),
        None => (String::new(), s.to_owned()),
    }
}

/// The last segment and the segments before it joined back by the separator;
/// without segments, the whole text and an empty head.
pub fn extract_tail_pair(s: &str, separator: &str) -> (r: (String, String))
    ensures
        (r.0@, r.1@) == if split_of(s@, separator@).len() > 0 {
            let parts = split_of(s@, separator@);
            (parts.last(), joined_with(parts.drop_last(), separator@))
        } else {
            (s@, Seq::<char>::empty())
        },
{
    let parts = split_text(s, separator);
    let ghost pv = views_of(parts@);
    if parts.len() == 0 {
        return (s.to_owned(), String::new());
    }
    let n = parts.len();
    assert(pv[n - 1] == parts@[n - 1]@);
    let tail = parts[n - 1].clone();
    let mut head = String::new();
    let mut i: usize = 0;
    while i < n - 1
        invariant
            n == parts@.len(),
            n > 0,
            i <= n - 1,
            pv == views_of(parts@),
            head@ == joined_with(pv.take(i as int), separator@),
        decreases n - 1 - i,
    {
        proof {
            assert(pv.take(i + 1).drop_last() =~= pv.take(i as int));
            assert(pv.take(i + 1).last() == parts@[i as int]@);
        }
        if i == 0 {
            head = parts[i].clone();
        } else {
            head = head.concat(separator).concat(parts[i].as_str());
        }
        i = i + 1;
    }
    assert(pv.take(n - 1) =~= pv.drop_last());
    (tail, head)
}


/// Regular-expression matching and replacement on text.
pub trait PatternMatch: Sized {
    fn pattern_match_opt(&self, pattern: &str, case_insensitive: bool) -> Option<bool>;

    fn pattern_match(&self, pattern: &str, case_insensitive: bool) -> bool;

    fn pattern_replace(&self, pattern: &str, replacement: &str, case_insensitive: bool) -> Self;

    fn pattern_replace_opt(&self, pattern: &str, replacement: &str, case_insensitive: bool) -> Option<Self>;

    fn strip_non_chars(&self) -> Self;
}

/// Tests on the kinds of characters a text holds.
pub trait CharGroupMatch {
    fn has_digits(&self) -> bool;

    fn has_alphanumeric(&self) -> bool;

    fn has_alphabetic(&self) -> bool;
}

/// Segments of a text between occurrences of a separator.
pub trait ExtractSegments: Sized {
    fn extract_segments(&self, separator: &str) -> Vec<Self>;

    fn extract_head(&self, separator: &str) -> Self;

    fn extract_segment(&self, separator: &str, index: i32) -> Option<Self>;

    fn extract_inner_segment(&self, groups: &[(&str, i32)]) -> Option<Self>;

    fn extract_tail(&self, separator: &str) -> Self;

    fn extract_head_pair(&self, separator: &str) -> (Self, Self);

    fn extract_tail_pair(&self, separator: &str) -> (Self, Self);
}

impl PatternMatch for String {
    fn pattern_match_opt(&self, pattern: &str, case_insensitive: bool) -> (r: Option<bool>)
        ensures
            r == regex_search_of(regex_source(pattern@, case_insensitive), self@),
    {
        pattern_match_opt(self.as_str(), pattern, case_insensitive)
    }

    fn pattern_match(&self, pattern: &str, case_insensitive: bool) -> (r: bool)
        ensures
            r == (regex_search_of(regex_source(pattern@, case_insensitive), self@) == Some(true)),
    {
        pattern_match(self.as_str(), pattern, case_insensitive)
    }

    fn pattern_replace(&self, pattern: &str, replacement: &str, case_insensitive: bool) -> (r: String)
        ensures
            r@ == match regex_replace_of(regex_source(pattern@, case_insensitive), self@, replacement@) {
                Some(t) => t,
                None => self@,
            },
    {
        pattern_replace(self.as_str(), pattern, replacement, case_insensitive)
    }

    fn pattern_replace_opt(&self, pattern: &str, replacement: &str, case_insensitive: bool) -> (r: Option<String>)
        ensures
            match r {
                Some(t) => regex_replace_of(regex_source(pattern@, case_insensitive), self@, replacement@) == Some(t@),
                None => regex_replace_of(regex_source(pattern@, case_insensitive), self@, replacement@) is None,
            },
    {
        pattern_replace_opt(self.as_str(), pattern, replacement, case_insensitive)
    }

    fn strip_non_chars(&self) -> (r: String)
        ensures
            r@ == keep_alphanumeric(self@),
    {
        strip_non_chars(self.as_str())
    }
}

impl PatternMatch for Vec<String> {
    fn pattern_match_opt(&self, pattern: &str, case_insensitive: bool) -> (r: Option<bool>)
        ensures
            r == if regex_valid_of(regex_source(pattern@, case_insensitive)) {
                Some(exists|i: int| 0 <= i < self@.len()
                    && #[trigger] regex_search_of(regex_source(pattern@, case_insensitive), self@[i]@) == Some(true))
            } else {
                None
            },
    {
        pattern_match_any_opt(self, pattern, case_insensitive)
    }

    fn pattern_match(&self, pattern: &str, case_insensitive: bool) -> (r: bool)
        ensures
            r == (regex_valid_of(regex_source(pattern@, case_insensitive)) && exists|i: int| 0 <= i < self@.len()
                && #[trigger] regex_search_of(regex_source(pattern@, case_insensitive), self@[i]@) == Some(true)),
    {
        pattern_match_any(self, pattern, case_insensitive)
    }

    fn pattern_replace(&self, pattern: &str, replacement: &str, case_insensitive: bool) -> (r: Vec<String>)
        ensures
            regex_valid_of(regex_source(pattern@, case_insensitive)) ==> r@.len() == self@.len() && forall|i: int|
                0 <= i < self@.len() ==> regex_replace_of(regex_source(pattern@, case_insensitive), self@[i]@, replacement@)
                    == Some(#[trigger] r@[i]@),
            !regex_valid_of(regex_source(pattern@, case_insensitive)) ==> views_of(r@) == views_of(self@),
    {
        match pattern_replace_all_opt(self, pattern, replacement, case_insensitive) {
            Some(out) => out,
            None => {
                let mut copy: Vec<String> = Vec::new();
                let mut i: usize = 0;
                while i < self.len()
                    invariant
                        i <= self@.len(),
                        copy@ == self@.take(i as int),
                    decreases self@.len() - i,
                {
                    copy.push(self[i].clone());
                    assert(copy@ =~= self@.take(i + 1));
                    i = i + 1;
                }
                assert(self@.take(self@.len() as int) =~= self@);
                copy
            },
        }
    }

    fn pattern_replace_opt(&self, pattern: &str, replacement: &str, case_insensitive: bool) -> (r: Option<Vec<String>>)
        ensures
            match r {
                Some(out) => regex_valid_of(regex_source(pattern@, case_insensitive)) && out@.len() == self@.len()
                    && forall|i: int| 0 <= i < self@.len() ==> regex_replace_of(
                        regex_source(pattern@, case_insensitive),
                        self@[i]@,
                        replacement@,
                    ) == Some(#[trigger] out@[i]@),
                None => !regex_valid_of(regex_source(pattern@, case_insensitive)),
            },
    {
        pattern_replace_all_opt(self, pattern, replacement, case_insensitive)
    }

    fn strip_non_chars(&self) -> (r: Vec<String>)
        ensures
            r@.len() == self@.len(),
            forall|i: int| 0 <= i < self@.len() ==> (#[trigger] r@[i])@ == keep_alphanumeric(self@[i]@),
    {
        let mut out: Vec<String> = Vec::new();
        let mut i: usize = 0;
        while i < self.len()
            invariant
                i <= self@.len(),
                out@.len() == i,
                forall|j: int| 0 <= j < i ==> (#[trigger] out@[j])@ == keep_alphanumeric(self@[j]@),
            decreases self@.len() - i,
        {
            out.push(strip_non_chars(self[i].as_str()));
            i = i + 1;
        }
        out
    }
}

impl CharGroupMatch for String {
    fn has_digits(&self) -> (r: bool)
        ensures
            r == exists|i: int| 0 <= i < self@.len() && '0' <= #[trigger] self@[i] <= '9',
    {
        has_digits(self.as_str())
    }

    fn has_alphanumeric(&self) -> (r: bool)
        ensures
            r == exists|i: int| 0 <= i < self@.len() && alphanumeric(#[trigger] self@[i]),
    {
        has_alphanumeric(self.as_str())
    }

    fn has_alphabetic(&self) -> (r: bool)
        ensures
            r == exists|i: int| 0 <= i < self@.len() && alphabetic(#[trigger] self@[i]),
    {
        has_alphabetic(self.as_str())
    }
}

impl ExtractSegments for String {
    fn extract_segments(&self, separator: &str) -> (r: Vec<String>)
        ensures
            views_of(r@) == split_of(self@, separator@),
    {
        extract_segments(self.as_str(), separator)
    }

    fn extract_head(&self, separator: &str) -> (r: String)
        ensures
            r@ == match split_once_of(self@, separator@) {
                Some((h, _)) => h,
                None => self@,
            },
    {
        extract_head(self.as_str(), separator)
    }

    fn extract_segment(&self, separator: &str, index: i32) -> (r: Option<String>)
        ensures
            match r {
                Some(t) => segment_of(self@, separator@, index as int) == Some(t@),
                None => segment_of(self@, separator@, index as int) is None,
            },
    {
        extract_segment(self.as_str(), separator, index)
    }

    fn extract_inner_segment(&self, groups: &[(&str, i32)]) -> (r: Option<String>)
        ensures
            match r {
                Some(t) => inner_segment_of(self@, group_views(groups@)) == Some(t@),
                None => inner_segment_of(self@, group_views(groups@)) is None,
            },
    {
        extract_inner_segment(self.as_str(), groups)
    }

    fn extract_tail(&self, separator: &str) -> (r: String)
        ensures
            r@ == if split_of(self@, separator@).len() > 0 {
                split_of(self@, separator@).last()
            } else {
                self@
            },
    {
        extract_tail(self.as_str(), separator)
    }

    fn extract_head_pair(&self, separator: &str) -> (r: (String, String))
        ensures
            (r.0@, r.1@) == match split_once_of(self@, separator@) {
                Some(p) => p,
                None => (Seq::<char>::empty(), self@),
            },
    {
        extract_head_pair(self.as_str(), separator)
    }

    fn extract_tail_pair(&self, separator: &str) -> (r: (String, String))
        ensures
            (r.0@, r.1@) == if split_of(self@, separator@).len() > 0 {
                let parts = split_of(self@, separator@);
                (parts.last(), joined_with(parts.drop_last(), separator@))
            } else {
                (self@, Seq::<char>::empty())
            },
    {
        extract_tail_pair(self.as_str(), separator)
    }
}

} // verus!
