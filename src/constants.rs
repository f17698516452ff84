//! The country codes a search may be restricted to.
use vstd::prelude::*;
use crate::text::{text_eq, to_upper, upper_of};

verus! {

/// The supported country codes, in upper case.
pub open spec fn country_codes() -> Seq<Seq<char>> {
    seq![
        "AR"@, "AU"@, "AT"@, "BE"@, "BR"@, "CA"@,
        "CL"@, "DK"@, "FI"@, "FR"@, "DE"@, "HK"@,
        "IN"@, "ID"@, "IT"@, "JP"@, "KR"@, "MY"@,
        "MX"@, "NL"@, "NZ"@, "NO"@, "CN"@, "PL"@,
        "PT"@, "PH"@, "RU"@, "SA"@, "ZA"@, "ES"@,
        "SE"@, "CH"@, "TW"@, "TR"@, "GB"@, "US"@,
    ]
}

/// The code that an already upper-cased key selects: `UK` stands for `GB`.
pub open spec fn country_code_for(key: Seq<char>) -> Option<Seq<char>> {
    let k = if key == "UK"@ { "GB"@ } else { key };
    if country_codes().contains(k) {
        Some(k)
    } else {
        None
    }
}

pub fn country_code_list() -> (r: Vec<&'static str>)
    ensures
        r@.map_values(|s: &str| s@) == country_codes(),
{
    let r = vec![
        "AR", "AU", "AT", "BE", "BR", "CA",
        "CL", "DK", "FI", "FR", "DE", "HK",
        "IN", "ID", "IT", "JP", "KR", "MY",
        "MX", "NL", "NZ", "NO", "CN", "PL",
        "PT", "PH", "RU", "SA", "ZA", "ES",
        "SE", "CH", "TW", "TR", "GB", "US",
    ];
    assert(r@.map_values(|s: &str| s@) =~= country_codes());
    r
}

/// Looks a country key up, ignoring case.
pub fn match_country_code(key: &str) -> (r: Option<String>)
    ensures
        opt_seq(r) == country_code_for(upper_of(key@)),
{
    let cc = to_upper(key);
    let cc_key: &str = if text_eq(cc.as_str(), "UK") { "GB" } else { cc.as_str() };
    let codes = country_code_list();
    let ghost k = if cc@ == "UK"@ { "GB"@ } else { cc@ };
    assert(cc_key@ == k);
    let mut i: usize = 0;
    while i < codes.len()
        invariant
            i <= codes@.len(),
            codes@.map_values(|s: &str| s@) == country_codes(),
            cc_key@ == k,
            cc@ == upper_of(key@),
            k == (if cc@ == "UK"@ { "GB"@ } else { cc@ }),
            forall|j: int| 0 <= j < i ==> country_codes()[j] != k,
        decreases codes@.len() - i,
    {
        assert(country_codes()[i as int] == codes@[i as int]@);
        if text_eq(codes[i], cc_key) {
            assert(country_codes().contains(k));
            return Some(codes[i].to_owned());
        }
        i = i + 1;
    }
    assert(!country_codes().contains(k));
    None
}

pub open spec fn opt_seq(o: Option<String>) -> Option<Seq<char>> {
    match o {
        Some(s) => Some(s@),
        None => None,
    }
}

} // verus!
