//! Ranking: the weighted merge of two providers' results and the stable sort
//! by ascending weight that orders a result set.
use vstd::prelude::*;
use crate::clock::get_timestamp;
use crate::models::{SearchResult, ResultSet, duplicate_results};
use crate::utils::find_position_in_strings;

verus! {

/// `w` lowered by `v`, floored at zero.
pub open spec fn reduced(w: usize, v: usize) -> usize {
    if v < w {
        (w - v) as usize
    } else {
        0
    }
}

/// The first position of a result with this URI.
pub open spec fn first_uri_index(rows: Seq<SearchResult>, uri: Seq<char>) -> Option<int>
    decreases rows.len(),
{
    if rows.len() == 0 {
        None
    } else {
        match first_uri_index(rows.drop_last(), uri) {
            Some(i) => Some(i),
            None => if rows.last().uri@ == uri {
                Some(rows.len() - 1)
            } else {
                None
            },
        }
    }
}

/// The merge before sorting: each secondary row whose URI the primary list
/// holds lowers the weight of that primary entry (its first occurrence) by its
/// own weight; any other secondary row is appended.
pub open spec fn merge_rows(primary: Seq<SearchResult>, secondary: Seq<SearchResult>) -> Seq<SearchResult>
    decreases secondary.len(),
{
    if secondary.len() == 0 {
        primary
    } else {
        let acc = merge_rows(primary, secondary.drop_last());
        let row = secondary.last();
        match first_uri_index(primary, row.uri@) {
            Some(i) => acc.update(i, SearchResult { weight: reduced(acc[i].weight, row.weight), ..acc[i] }),
            None => acc.push(row),
        }
    }
}

/// `x` placed after every entry of `t` whose weight is at most its own.
pub open spec fn insert_by_weight(t: Seq<SearchResult>, x: SearchResult) -> Seq<SearchResult>
    decreases t.len(),
{
    if t.len() == 0 {
        seq![x]
    } else if t.last().weight <= x.weight {
        t.push(x)
    } else {
        insert_by_weight(t.drop_last(), x).push(t.last())
    }
}

/// Insertion sort by ascending weight, keeping equal weights in input order.
pub open spec fn sort_by_weight(s: Seq<SearchResult>) -> Seq<SearchResult>
    decreases s.len(),
{
    if s.len() == 0 {
        s
    } else {
        insert_by_weight(sort_by_weight(s.drop_last()), s.last())
    }
}

pub open spec fn sorted_by_weight(s: Seq<SearchResult>) -> bool {
    forall|i: int, j: int| 0 <= i <= j < s.len() ==> s[i].weight <= s[j].weight
}

pub open spec fn has_weight(w: usize) -> spec_fn(SearchResult) -> bool {
    |r: SearchResult| r.weight == w
}

proof fn lemma_first_uri_index(rows: Seq<SearchResult>, uri: Seq<char>)
    ensures
        match first_uri_index(rows, uri) {
            Some(i) => 0 <= i < rows.len() && rows[i].uri@ == uri && forall|j: int|
                0 <= j < i ==> rows[j].uri@ != uri,
            None => forall|j: int| 0 <= j < rows.len() ==> rows[j].uri@ != uri,
        },
    decreases rows.len(),
{
    if rows.len() > 0 {
        lemma_first_uri_index(rows.drop_last(), uri);
        assert(forall|j: int| 0 <= j < rows.len() - 1 ==> rows[j] == rows.drop_last()[j]);
    }
}

proof fn lemma_merge_rows_len(primary: Seq<SearchResult>, secondary: Seq<SearchResult>)
    ensures
        merge_rows(primary, secondary).len() >= primary.len(),
    decreases secondary.len(),
{
    if secondary.len() > 0 {
        lemma_merge_rows_len(primary, secondary.drop_last());
        lemma_first_uri_index(primary, secondary.last().uri@);
    }
}

proof fn lemma_insert_len(t: Seq<SearchResult>, x: SearchResult)
    ensures
        insert_by_weight(t, x).len() == t.len() + 1,
    decreases t.len(),
{
    if t.len() > 0 && t.last().weight > x.weight {
        lemma_insert_len(t.drop_last(), x);
    }
}

proof fn lemma_sort_len(s: Seq<SearchResult>)
    ensures
        sort_by_weight(s).len() == s.len(),
    decreases s.len(),
{
    if s.len() > 0 {
        lemma_sort_len(s.drop_last());
        lemma_insert_len(sort_by_weight(s.drop_last()), s.last());
    }
}

/// Where `x` lands: after the entries of `t` of weight at most its own.
proof fn lemma_insert_shape(t: Seq<SearchResult>, x: SearchResult, k: int)
    requires
        0 <= k <= t.len(),
        forall|j: int| k <= j < t.len() ==> t[j].weight > x.weight,
        k == 0 || t[k - 1].weight <= x.weight,
    ensures
        insert_by_weight(t, x) == t.take(k).push(x) + t.skip(k),
    decreases t.len(),
{
    if t.len() == 0 {
        assert(t.take(k).push(x) + t.skip(k) =~= seq![x]);
    } else if t.last().weight <= x.weight {
        assert(k == t.len());
        assert(t.take(k).push(x) + t.skip(k) =~= t.push(x));
    } else {
        let t2 = t.drop_last();
        lemma_insert_shape(t2, x, k);
        assert(t2.take(k).push(x) + t2.skip(k) + seq![t.last()] =~= t.take(k).push(x) + t.skip(k));
        assert(insert_by_weight(t, x) == insert_by_weight(t2, x).push(t.last()));
        assert((t2.take(k).push(x) + t2.skip(k)).push(t.last()) =~= t2.take(k).push(x) + t2.skip(k) + seq![t.last()]);
    }
}

proof fn lemma_insert_bounded(t: Seq<SearchResult>, x: SearchResult, b: usize)
    requires
        forall|j: int| 0 <= j < t.len() ==> t[j].weight <= b,
        x.weight <= b,
    ensures
        forall|j: int| 0 <= j < insert_by_weight(t, x).len() ==> insert_by_weight(t, x)[j].weight <= b,
    decreases t.len(),
{
    if t.len() > 0 && t.last().weight > x.weight {
        lemma_insert_bounded(t.drop_last(), x, b);
    }
}

proof fn lemma_insert_sorted(t: Seq<SearchResult>, x: SearchResult)
    requires
        sorted_by_weight(t),
    ensures
        sorted_by_weight(insert_by_weight(t, x)),
    decreases t.len(),
{
    if t.len() > 0 && t.last().weight > x.weight {
        let t2 = t.drop_last();
        lemma_insert_sorted(t2, x);
        lemma_insert_bounded(t2, x, t.last().weight);
        lemma_insert_len(t2, x);
    }
}

proof fn lemma_insert_filter(t: Seq<SearchResult>, x: SearchResult, w: usize)
    ensures
        insert_by_weight(t, x).filter(has_weight(w)) == if x.weight == w {
            t.filter(has_weight(w)).push(x)
        } else {
            t.filter(has_weight(w))
        },
    decreases t.len(),
{
    let p = has_weight(w);
    if t.len() == 0 {
        assert(seq![x] =~= t.push(x));
        t.lemma_filter_push(x, p);
    } else if t.last().weight <= x.weight {
        t.lemma_filter_push(x, p);
    } else {
        let t2 = t.drop_last();
        lemma_insert_filter(t2, x, w);
        let ins = insert_by_weight(t2, x);
        ins.lemma_filter_push(t.last(), p);
        assert(t2.push(t.last()) =~= t);
        t2.lemma_filter_push(t.last(), p);
        if x.weight == w {
            t2.filter(p).lemma_filter_push(x, p);
        }
    }
}

/// The sort keeps its input's length, orders by ascending weight, and keeps
/// the entries of each weight in their input order.
pub proof fn lemma_sort_by_weight(s: Seq<SearchResult>)
    ensures
        sort_by_weight(s).len() == s.len(),
        sorted_by_weight(sort_by_weight(s)),
        forall|w: usize| #[trigger] sort_by_weight(s).filter(has_weight(w)) == s.filter(has_weight(w)),
    decreases s.len(),
{
    lemma_sort_len(s);
    if s.len() > 0 {
        let s2 = s.drop_last();
        lemma_sort_by_weight(s2);
        lemma_insert_sorted(sort_by_weight(s2), s.last());
        assert forall|w: usize| #[trigger] sort_by_weight(s).filter(has_weight(w)) == s.filter(has_weight(w)) by {
            lemma_insert_filter(sort_by_weight(s2), s.last(), w);
            assert(s2.push(s.last()) =~= s);
            s2.lemma_filter_push(s.last(), has_weight(w));
            assert(sort_by_weight(s2).filter(has_weight(w)) == s2.filter(has_weight(w)));
        }
    }
}

/// Sorts by ascending weight; entries of equal weight keep their order.
pub fn sort_results(v: Vec<SearchResult>) -> (r: Vec<SearchResult>)
    ensures
        r@ == sort_by_weight(v@),
{
    let mut out: Vec<SearchResult> = Vec::new();
    let mut rest = v;
    let ghost all = rest@;
    let mut i: usize = 0;
    let n = rest.len();
    while i < n
        invariant
            n == all.len(),
            i <= n,
            out@ == sort_by_weight(all.take(i as int)),
            sorted_by_weight(out@),
            out@.len() == i,
            rest@ == all,
        decreases n - i,
    {
        let x = rest[i].duplicate();
        proof {
            assert(all.take(i + 1).drop_last() =~= all.take(i as int));
            assert(all.take(i + 1).last() == x);
            lemma_sort_by_weight(all.take(i as int));
        }
        let mut k: usize = out.len();
        while k > 0 && out[k - 1].weight > x.weight
            invariant
                k <= out@.len(),
                forall|j: int| k <= j < out@.len() ==> out@[j].weight > x.weight,
            decreases k,
        {
            k = k - 1;
        }
        proof {
            lemma_insert_shape(out@, x, k as int);
            lemma_insert_sorted(out@, x);
        }
        out.insert(k, x);
        assert(out@ =~= sort_by_weight(all.take(i + 1)));
        proof {
            lemma_sort_len(all.take(i + 1));
        }
        i = i + 1;
    }
    assert(all.take(n as int) =~= all);
    out
}


/// Merging never raises the weight of a primary entry nor changes anything
/// else about it; secondary rows only ever add entries after the primary ones.
pub proof fn lemma_merge_keeps_primary(primary: Seq<SearchResult>, secondary: Seq<SearchResult>)
    ensures
        merge_rows(primary, secondary).len() >= primary.len(),
        forall|i: int| 0 <= i < primary.len() ==> {
            let m = #[trigger] merge_rows(primary, secondary)[i];
            &&& m == SearchResult { weight: m.weight, ..primary[i] }
            &&& m.weight <= primary[i].weight
        },
    decreases secondary.len(),
{
    if secondary.len() > 0 {
        lemma_merge_keeps_primary(primary, secondary.drop_last());
        lemma_first_uri_index(primary, secondary.last().uri@);
    }
}

/// All the primary's URIs are found among the primary's results, so merging a
/// set's results with themselves adds no entry; the first entry of each URI
/// drops to weight zero, and no weight rises.
pub proof fn lemma_merge_with_itself(rows: Seq<SearchResult>)
    ensures
        merge_rows(rows, rows).len() == rows.len(),
        sort_by_weight(merge_rows(rows, rows)).len() == rows.len(),
        forall|i: int| 0 <= i < rows.len() ==> (#[trigger] merge_rows(rows, rows)[i]).weight <= rows[i].weight,
        forall|i: int|
            0 <= i < rows.len() && first_uri_index(rows, rows[i].uri@) == Some(i)
                ==> (#[trigger] merge_rows(rows, rows)[i]).weight == 0,
{
    lemma_merge_self_prefix(rows, rows.len() as int);
    assert(rows.take(rows.len() as int) =~= rows);
    lemma_merge_keeps_primary(rows, rows);
    lemma_sort_len(merge_rows(rows, rows));
}

proof fn lemma_merge_self_prefix(rows: Seq<SearchResult>, k: int)
    requires
        0 <= k <= rows.len(),
    ensures
        merge_rows(rows, rows.take(k)).len() == rows.len(),
        forall|i: int|
            0 <= i < k && first_uri_index(rows, rows[i].uri@) == Some(i)
                ==> (#[trigger] merge_rows(rows, rows.take(k))[i]).weight == 0,
    decreases k,
{
    if k > 0 {
        let prev = rows.take(k - 1);
        lemma_merge_self_prefix(rows, k - 1);
        assert(rows.take(k).drop_last() =~= prev);
        assert(rows.take(k).last() == rows[k - 1]);
        lemma_merge_keeps_primary(rows, prev);
        lemma_first_uri_index(rows, rows[k - 1].uri@);
        let acc = merge_rows(rows, prev);
        let m = merge_rows(rows, rows.take(k));
        assert forall|i: int|
            0 <= i < k && first_uri_index(rows, rows[i].uri@) == Some(i) implies (#[trigger] m[i]).weight == 0 by {
            let f = first_uri_index(rows, rows[k - 1].uri@).unwrap();
            if i == k - 1 {
                assert(f == i);
                assert(acc[i].weight <= rows[i].weight);
            } else if i != f {
                assert(m[i] == acc[i]);
            }
        }
    }
}


proof fn lemma_insert_multiset(t: Seq<SearchResult>, x: SearchResult)
    ensures
        insert_by_weight(t, x).to_multiset() == t.to_multiset().insert(x),
    decreases t.len(),
{
    broadcast use vstd::seq_lib::to_multiset_build, vstd::multiset::group_multiset_axioms;

    if t.len() == 0 {
        assert(seq![x] =~= t.push(x));
    } else if t.last().weight <= x.weight {
    } else {
        let t2 = t.drop_last();
        lemma_insert_multiset(t2, x);
        assert(t2.push(t.last()) =~= t);
        assert(insert_by_weight(t, x).to_multiset() =~= t.to_multiset().insert(x));
    }
}

/// The sort only reorders: its output holds the same results, each as often.
pub proof fn lemma_sort_permutes(s: Seq<SearchResult>)
    ensures
        sort_by_weight(s).to_multiset() == s.to_multiset(),
    decreases s.len(),
{
    broadcast use vstd::seq_lib::to_multiset_build;

    if s.len() > 0 {
        let s2 = s.drop_last();
        lemma_sort_permutes(s2);
        lemma_insert_multiset(sort_by_weight(s2), s.last());
        assert(s2.push(s.last()) =~= s);
    }
}

/// Sorting a list already in ascending weight order leaves it as it is.
pub proof fn lemma_sort_sorted(s: Seq<SearchResult>)
    requires
        sorted_by_weight(s),
    ensures
        sort_by_weight(s) == s,
    decreases s.len(),
{
    if s.len() > 0 {
        let s2 = s.drop_last();
        assert(sorted_by_weight(s2));
        lemma_sort_sorted(s2);
        if s2.len() > 0 {
            assert(s2.last().weight <= s.last().weight);
        }
        assert(s2.push(s.last()) =~= s);
    }
}

pub open spec fn distinct_uris(rows: Seq<SearchResult>) -> bool {
    forall|i: int, j: int| 0 <= i < j < rows.len() ==> rows[i].uri@ != rows[j].uri@
}

/// The results with every weight set to zero.
pub open spec fn zero_weights(rows: Seq<SearchResult>) -> Seq<SearchResult> {
    Seq::new(rows.len(), |i: int| SearchResult { weight: 0, ..rows[i] })
}

proof fn lemma_merge_distinct_prefix(rows: Seq<SearchResult>, k: int)
    requires
        0 <= k <= rows.len(),
        distinct_uris(rows),
    ensures
        merge_rows(rows, rows.take(k)) == zero_weights(rows.take(k)) + rows.skip(k),
    decreases k,
{
    if k == 0 {
        assert(zero_weights(rows.take(0)) + rows.skip(0) =~= rows);
    } else {
        let prev = rows.take(k - 1);
        lemma_merge_distinct_prefix(rows, k - 1);
        assert(rows.take(k).drop_last() =~= prev);
        assert(rows.take(k).last() == rows[k - 1]);
        lemma_first_uri_index(rows, rows[k - 1].uri@);
        assert(first_uri_index(rows, rows[k - 1].uri@) == Some(k - 1));
        let acc = merge_rows(rows, prev);
        assert(acc[k - 1] == rows[k - 1]);
        assert(merge_rows(rows, rows.take(k)) =~= zero_weights(rows.take(k)) + rows.skip(k));
    }
}

/// Merging results whose URIs are distinct with themselves keeps every entry,
/// in order, with its weight dropped to zero; the sort then changes nothing.
pub proof fn lemma_merge_with_itself_distinct(rows: Seq<SearchResult>)
    requires
        distinct_uris(rows),
    ensures
        merge_rows(rows, rows) == zero_weights(rows),
        sort_by_weight(merge_rows(rows, rows)) == zero_weights(rows),
{
    lemma_merge_distinct_prefix(rows, rows.len() as int);
    assert(rows.take(rows.len() as int) =~= rows);
    assert(zero_weights(rows) + rows.skip(rows.len() as int) =~= zero_weights(rows));
    lemma_sort_sorted(zero_weights(rows));
}

/// After a merge the result count is the primary count plus the secondary
/// rows whose URI the primary results do not hold.
pub open spec fn new_uri_count(primary: Seq<SearchResult>, secondary: Seq<SearchResult>) -> nat
    decreases secondary.len(),
{
    if secondary.len() == 0 {
        0
    } else {
        new_uri_count(primary, secondary.drop_last()) + if first_uri_index(primary, secondary.last().uri@) is Some {
            0nat
        } else {
            1nat
        }
    }
}

/// The merge adds exactly one entry per secondary row whose URI the primary
/// results do not hold, and the sort keeps that count.
pub proof fn lemma_merge_count(primary: Seq<SearchResult>, secondary: Seq<SearchResult>)
    ensures
        merge_rows(primary, secondary).len() == primary.len() + new_uri_count(primary, secondary),
        sort_by_weight(merge_rows(primary, secondary)).len() == primary.len() + new_uri_count(primary, secondary),
    decreases secondary.len(),
{
    if secondary.len() > 0 {
        lemma_merge_count(primary, secondary.drop_last());
        lemma_merge_rows_len(primary, secondary.drop_last());
        lemma_first_uri_index(primary, secondary.last().uri@);
    }
    lemma_sort_len(merge_rows(primary, secondary));
}

/// `w` lowered, floored at zero, by each secondary row with this URI in turn.
pub open spec fn folded_weight(w: usize, uri: Seq<char>, secondary: Seq<SearchResult>) -> usize
    decreases secondary.len(),
{
    if secondary.len() == 0 {
        w
    } else {
        let prev = folded_weight(w, uri, secondary.drop_last());
        if secondary.last().uri@ == uri {
            reduced(prev, secondary.last().weight)
        } else {
            prev
        }
    }
}

/// The first primary entry of each URI takes every secondary row with that
/// URI: its weight is lowered by each of their weights in turn, floored at
/// zero, and nothing else about it changes. Later entries with the same URI
/// keep their weight.
pub proof fn lemma_merge_folds_weights(primary: Seq<SearchResult>, secondary: Seq<SearchResult>, i: int)
    requires
        0 <= i < primary.len(),
    ensures
        merge_rows(primary, secondary)[i] == (SearchResult {
            weight: if first_uri_index(primary, primary[i].uri@) == Some(i) {
                folded_weight(primary[i].weight, primary[i].uri@, secondary)
            } else {
                primary[i].weight
            },
            ..primary[i]
        }),
    decreases secondary.len(),
{
    lemma_first_uri_index(primary, primary[i].uri@);
    if secondary.len() > 0 {
        lemma_merge_folds_weights(primary, secondary.drop_last(), i);
        lemma_merge_rows_len(primary, secondary.drop_last());
        lemma_first_uri_index(primary, secondary.last().uri@);
    }
}

pub open spec fn has_uri(uri: Seq<char>) -> spec_fn(SearchResult) -> bool {
    |r: SearchResult| r.uri@ == uri
}

proof fn lemma_insert_count(t: Seq<SearchResult>, x: SearchResult, pred: spec_fn(SearchResult) -> bool)
    ensures
        insert_by_weight(t, x).filter(pred).len() == t.filter(pred).len() + if pred(x) { 1int } else { 0int },
    decreases t.len(),
{
    if t.len() == 0 {
        assert(seq![x] =~= t.push(x));
        t.lemma_filter_push(x, pred);
    } else if t.last().weight <= x.weight {
        t.lemma_filter_push(x, pred);
    } else {
        let t2 = t.drop_last();
        lemma_insert_count(t2, x, pred);
        insert_by_weight(t2, x).lemma_filter_push(t.last(), pred);
        assert(t2.push(t.last()) =~= t);
        t2.lemma_filter_push(t.last(), pred);
    }
}

proof fn lemma_sort_count(s: Seq<SearchResult>, pred: spec_fn(SearchResult) -> bool)
    ensures
        sort_by_weight(s).filter(pred).len() == s.filter(pred).len(),
    decreases s.len(),
{
    if s.len() > 0 {
        let s2 = s.drop_last();
        lemma_sort_count(s2, pred);
        lemma_insert_count(sort_by_weight(s2), s.last(), pred);
        assert(s2.push(s.last()) =~= s);
        s2.lemma_filter_push(s.last(), pred);
    }
}

proof fn lemma_filter_single(s: Seq<SearchResult>, pred: spec_fn(SearchResult) -> bool, i: int)
    requires
        0 <= i < s.len(),
        pred(s[i]),
        forall|j: int| 0 <= j < s.len() && j != i ==> !pred(#[trigger] s[j]),
    ensures
        s.filter(pred) == seq![s[i]],
    decreases s.len(),
{
    let s2 = s.drop_last();
    assert(s2.push(s.last()) =~= s);
    s2.lemma_filter_push(s.last(), pred);
    if i == s.len() - 1 {
        assert forall|j: int| 0 <= j < s2.len() implies !pred(#[trigger] s2[j]) by {
            assert(s2[j] == s[j]);
        }
        lemma_filter_none(s2, pred);
        assert(Seq::<SearchResult>::empty().push(s[i]) =~= seq![s[i]]);
    } else {
        assert forall|j: int| 0 <= j < s2.len() && j != i implies !pred(#[trigger] s2[j]) by {
            assert(s2[j] == s[j]);
        }
        assert(s2[i] == s[i]);
        lemma_filter_single(s2, pred, i);
    }
}

proof fn lemma_filter_none(s: Seq<SearchResult>, pred: spec_fn(SearchResult) -> bool)
    requires
        forall|j: int| 0 <= j < s.len() ==> !pred(#[trigger] s[j]),
    ensures
        s.filter(pred) == Seq::<SearchResult>::empty(),
    decreases s.len(),
{
    if s.len() == 0 {
        reveal(Seq::filter);
    } else {
        let s2 = s.drop_last();
        assert(s2.push(s.last()) =~= s);
        s2.lemma_filter_push(s.last(), pred);
        assert forall|j: int| 0 <= j < s2.len() implies !pred(#[trigger] s2[j]) by {
            assert(s2[j] == s[j]);
        }
        lemma_filter_none(s2, pred);
    }
}

/// Entries past the primary ones are secondary rows whose URI the primary
/// results do not hold.
proof fn lemma_merge_appended(primary: Seq<SearchResult>, secondary: Seq<SearchResult>)
    ensures
        merge_rows(primary, secondary).len() >= primary.len(),
        forall|j: int|
            primary.len() <= j < merge_rows(primary, secondary).len() ==> first_uri_index(
                primary,
                (#[trigger] merge_rows(primary, secondary)[j]).uri@,
            ) is None,
    decreases secondary.len(),
{
    lemma_merge_rows_len(primary, secondary);
    if secondary.len() > 0 {
        lemma_merge_appended(primary, secondary.drop_last());
        lemma_merge_rows_len(primary, secondary.drop_last());
        lemma_first_uri_index(primary, secondary.last().uri@);
    }
}

/// When the primary URIs are distinct, a merge leaves exactly one entry per
/// primary URI: the primary result with its weight lowered, in turn and
/// floored at zero, by every secondary row with that URI.
pub proof fn lemma_merge_one_entry_per_uri(primary: Seq<SearchResult>, secondary: Seq<SearchResult>, i: int)
    requires
        distinct_uris(primary),
        0 <= i < primary.len(),
    ensures
        sort_by_weight(merge_rows(primary, secondary)).filter(has_uri(primary[i].uri@)) == seq![
            SearchResult { weight: folded_weight(primary[i].weight, primary[i].uri@, secondary), ..primary[i] },
        ],
{
    broadcast use vstd::seq_lib::to_multiset_contains;

    let u = primary[i].uri@;
    let pred = has_uri(u);
    let m = merge_rows(primary, secondary);
    let e = SearchResult { weight: folded_weight(primary[i].weight, u, secondary), ..primary[i] };
    lemma_first_uri_index(primary, u);
    assert(first_uri_index(primary, u) == Some(i));
    lemma_merge_folds_weights(primary, secondary, i);
    lemma_merge_appended(primary, secondary);
    assert forall|j: int| 0 <= j < m.len() && j != i implies !pred(#[trigger] m[j]) by {
        if j < primary.len() {
            lemma_merge_folds_weights(primary, secondary, j);
        } else {
            lemma_first_uri_index(primary, m[j].uri@);
            if m[j].uri@ == u {
                assert(primary[i].uri@ == m[j].uri@);
            }
        }
    }
    lemma_filter_single(m, pred, i);
    let sorted = sort_by_weight(m);
    lemma_sort_count(m, pred);
    lemma_sort_permutes(m);
    assert(m.contains(e)) by {
        assert(m[i] == e);
    }
    assert(m.to_multiset().count(e) > 0);
    assert(sorted.contains(e));
    let k = choose|k: int| 0 <= k < sorted.len() && sorted[k] == e;
    sorted.lemma_filter_contains(pred, k);
    let f = sorted.filter(pred);
    assert(f.len() == 1);
    assert(f.contains(e));
    assert(f =~= seq![e]);
}

impl SearchResult {
    /// Lowers the weight by `value`, flooring at zero.
    pub fn subtract_weight(&mut self, value: usize)
        ensures
            *final(self) == (SearchResult { weight: reduced(old(self).weight, value), ..*old(self) }),
    {
        if value < self.weight {
            self.weight = self.weight - value;
        } else {
            self.weight = 0;
        }
    }
}

pub fn result_uris(rows: &Vec<SearchResult>) -> (r: Vec<String>)
    ensures
        r@.len() == rows@.len(),
        forall|j: int| 0 <= j < rows@.len() ==> #[trigger] r@[j]@ == rows@[j].uri@,
{
    let mut out: Vec<String> = Vec::new();
    let mut i: usize = 0;
    while i < rows.len()
        invariant
            i <= rows@.len(),
            out@.len() == i,
            forall|j: int| 0 <= j < i ==> #[trigger] out@[j]@ == rows@[j].uri@,
        decreases rows@.len() - i,
    {
        out.push(rows[i].uri.clone());
        i = i + 1;
    }
    out
}

impl ResultSet {
    /// Merges another provider's results into this set: a row whose URI this
    /// set already holds lowers that entry's weight by its own; other rows are
    /// appended. The results are then stably sorted by ascending weight, the
    /// count recomputed and the retrieval time refreshed.
    pub fn merge_results(&mut self, other_set: ResultSet)
        ensures
            final(self).results@ == sort_by_weight(merge_rows(old(self).results@, other_set.results@)),
            final(self).wf(),
            final(self).valid == old(self).valid,
            final(self).lang == old(self).lang,
            final(self).cc == old(self).cc,
            final(self).page == old(self).page,
            final(self).removed == old(self).removed,
            final(self).cached == old(self).cached,
    {
        self.ts = get_timestamp();
        let current_uris = result_uris(&self.results);
        let ghost primary = self.results@;
        let others = &other_set.results;
        let mut k: usize = 0;
        assert(others@.take(0) =~= Seq::<SearchResult>::empty());
        while k < others.len()
            invariant
                k <= others@.len(),
                self.results@ == merge_rows(primary, others@.take(k as int)),
                self.valid == old(self).valid,
                self.lang == old(self).lang,
                self.cc == old(self).cc,
                self.page == old(self).page,
                self.removed == old(self).removed,
                self.cached == old(self).cached,
                current_uris@.len() == primary.len(),
                forall|j: int| 0 <= j < primary.len() ==> #[trigger] current_uris@[j]@ == primary[j].uri@,
            decreases others@.len() - k,
        {
            let row = others[k].duplicate();
            proof {
                assert(others@.take(k + 1).drop_last() =~= others@.take(k as int));
                assert(others@.take(k + 1).last() == row);
                lemma_first_uri_index(primary, row.uri@);
                lemma_merge_rows_len(primary, others@.take(k as int));
            }
            match find_position_in_strings(current_uris.as_slice(), row.uri.as_str()) {
                Some(idx) => {
                    proof {
                        assert(primary[idx as int].uri@ == row.uri@);
                        if first_uri_index(primary, row.uri@) != Some(idx as int) {
                            let f = first_uri_index(primary, row.uri@).unwrap();
                            assert(current_uris@[f]@ == primary[f].uri@);
                        }
                    }
                    self.results[idx].subtract_weight(row.weight);
                },
                None => {
                    proof {
                        if first_uri_index(primary, row.uri@) is Some {
                            let f = first_uri_index(primary, row.uri@).unwrap();
                            assert(current_uris@[f]@ == primary[f].uri@);
                        }
                    }
                    self.results.push(row);
                },
            }
            assert(self.results@ =~= merge_rows(primary, others@.take(k + 1)));
            k = k + 1;
        }
        assert(others@.take(others@.len() as int) =~= others@);
        let merged = duplicate_results(&self.results);
        self.results = sort_results(merged);
        proof {
            lemma_sort_len(merge_rows(primary, others@));
        }
        self.count = self.results.len();
    }
}

} // verus!
