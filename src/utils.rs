//! Small helpers: query strings and string lookup.
use vstd::prelude::*;
use crate::options::pair_views;
use crate::text::{url_encode, url_encoded, text_eq};

verus! {

/// The position of the first string equal to `sample`.
pub fn find_position_in_strings(strings: &[String], sample: &str) -> (r: Option<usize>)
    ensures
        match r {
            Some(i) => i < strings@.len() && strings@[i as int]@ == sample@ && forall|j: int|
                0 <= j < i ==> strings@[j]@ != sample@,
            None => forall|j: int| 0 <= j < strings@.len() ==> strings@[j]@ != sample@,
        },
{
    let mut i: usize = 0;
    while i < strings.len()
        invariant
            i <= strings@.len(),
            forall|j: int| 0 <= j < i ==> strings@[j]@ != sample@,
        decreases strings@.len() - i,
    {
        if text_eq(strings[i].as_str(), sample) {
            return Some(i);
        }
        i = i + 1;
    }
    None
}

pub fn build_query_option(key: &str, value: String) -> (r: (&str, String))
    ensures
        r.0@ == key@,
        r.1@ == value@,
{
    (key, value)
}


/// One `key=value` parameter, the value percent-encoded.
pub open spec fn param_text(p: (Seq<char>, Seq<char>)) -> Seq<char> {
    p.0 + "="@ + url_encoded(p.1)
}

/// The parameters joined by `&`.
pub open spec fn joined_params(pairs: Seq<(Seq<char>, Seq<char>)>) -> Seq<char>
    decreases pairs.len(),
{
    if pairs.len() == 0 {
        Seq::empty()
    } else if pairs.len() == 1 {
        param_text(pairs[0])
    } else {
        joined_params(pairs.drop_last()) + "&"@ + param_text(pairs.last())
    }
}

/// A URL query string: `?` and the joined parameters, or nothing when there
/// are none.
pub open spec fn query_string(pairs: Seq<(Seq<char>, Seq<char>)>) -> Seq<char> {
    if pairs.len() == 0 {
        Seq::empty()
    } else {
        "?"@ + joined_params(pairs)
    }
}

pub fn build_query_string(options: &[(&str, String)]) -> (r: String)
    ensures
        r@ == query_string(pair_views(options@)),
{
    let ghost pv = pair_views(options@);
    let mut joined = String::new();
    let mut i: usize = 0;
    while i < options.len()
        invariant
            i <= options@.len(),
            pv == pair_views(options@),
            joined@ == joined_params(pv.take(i as int)),
        decreases options@.len() - i,
    {
        let (key, value) = &options[i];
        let part = (*key).to_owned().concat("=").concat(url_encode(value.as_str()).as_str());
        proof {
            assert(pv[i as int] == (key@, value@));
            assert(pv.take(i + 1).drop_last() =~= pv.take(i as int));
            assert(pv.take(i + 1).last() == pv[i as int]);
        }
        if i == 0 {
            joined = part;
        } else {
            joined = joined.concat("&").concat(part.as_str());
        }
        i = i + 1;
    }
    assert(pv.take(options@.len() as int) =~= pv);
    if options.len() > 0 {
        "?".to_owned().concat(joined.as_str())
    } else {
        String::new()
    }
}

} // verus!
