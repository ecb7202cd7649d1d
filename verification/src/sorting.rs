//! The orders a profile can list its pairs in, and the sort that puts a list
//! into one of them.

use vstd::prelude::*;
use crate::pair::{views_of, PairView, URLTitlePair};
use crate::profile::{titles_unique, SortMode};
use crate::text::{lemma_lex_le_order, lemma_lex_lt_total, lex_le, str_lt};

verus! {

/// `a` may stand before `b` in a list ordered by `mode`: by title or by URL
/// in lexicographic order, or by time of creation, each forwards or
/// backwards. Pairs that agree in what `mode` looks at may stand either way.
pub open spec fn in_order(a: PairView, b: PairView, mode: SortMode) -> bool {
    match mode {
        SortMode::ByTitle => lex_le(a.title, b.title),
        SortMode::ByTitleRev => lex_le(b.title, a.title),
        SortMode::ByURL => lex_le(a.url, b.url),
        SortMode::ByURLRev => lex_le(b.url, a.url),
        SortMode::ByDateCreation => a.created.at_or_before(b.created),
        SortMode::ByDateCreationRev => b.created.at_or_before(a.created),
    }
}

/// Every pair may stand before every pair that comes after it.
pub open spec fn is_sorted(pairs: Seq<PairView>, mode: SortMode) -> bool {
    forall|i: int, j: int| 0 <= i < j < pairs.len() ==> in_order(pairs[i], pairs[j], mode)
}

/// In each mode `in_order` compares any two pairs, and is reflexive and
/// transitive.
pub proof fn lemma_in_order_total_preorder(a: PairView, b: PairView, c: PairView, mode: SortMode)
    ensures
        in_order(a, a, mode),
        in_order(a, b, mode) || in_order(b, a, mode),
        in_order(a, b, mode) && in_order(b, c, mode) ==> in_order(a, c, mode),
{
    lemma_lex_le_order(a.title, b.title, c.title);
    lemma_lex_le_order(c.title, b.title, a.title);
    lemma_lex_le_order(a.url, b.url, c.url);
    lemma_lex_le_order(c.url, b.url, a.url);
}

/// Whether `a` may stand before `b` in a list ordered by `mode`.
pub fn precedes(a: &URLTitlePair, b: &URLTitlePair, mode: SortMode) -> (r: bool)
    ensures
        r == in_order(a@, b@, mode),
{
    proof {
        lemma_lex_lt_total(b@.title, a@.title);
        lemma_lex_lt_total(b@.url, a@.url);
    }
    match mode {
        SortMode::ByTitle => !str_lt(b.get_title().as_str(), a.get_title().as_str()),
        SortMode::ByTitleRev => !str_lt(a.get_title().as_str(), b.get_title().as_str()),
        SortMode::ByURL => !str_lt(b.get_url().as_str(), a.get_url().as_str()),
        SortMode::ByURLRev => !str_lt(a.get_url().as_str(), b.get_url().as_str()),
        SortMode::ByDateCreation => a.created_at().is_at_or_before(&b.created_at()),
        SortMode::ByDateCreationRev => b.created_at().is_at_or_before(&a.created_at()),
    }
}

/// A position from `from` on whose pair may stand before every pair from
/// `from` on.
fn least_from(pairs: &Vec<URLTitlePair>, from: usize, mode: SortMode) -> (m: usize)
    requires
        from < pairs.len(),
    ensures
        from <= m < pairs.len(),
        forall|j: int| from <= j < pairs.len() ==> in_order(pairs[m as int]@, pairs[j]@, mode),
{
    let mut m: usize = from;
    let mut j: usize = from + 1;
    while j < pairs.len()
        invariant
            from <= m < j <= pairs.len(),
            forall|t: int| from <= t < j ==> in_order(pairs[m as int]@, pairs[t]@, mode),
        decreases pairs.len() - j,
    {
        if !precedes(&pairs[m], &pairs[j], mode) {
            proof {
                assert forall|t: int| from <= t < j + 1 implies in_order(
                    pairs[j as int]@,
                    pairs[t]@,
                    mode,
                ) by {
                    lemma_in_order_total_preorder(pairs[j as int]@, pairs[m as int]@, pairs[t]@, mode);
                }
            }
            m = j;
        }
        j += 1;
    }
    m
}

/// Puts the pairs into the order of `mode`. The same pairs come out, each as
/// often as it went in; which of two pairs that `mode` does not tell apart
/// comes first is left open.
pub fn sort_pairs(pairs: &mut Vec<URLTitlePair>, mode: SortMode)
    ensures
        is_sorted(views_of(final(pairs)@), mode),
        views_of(final(pairs)@).to_multiset() == views_of(old(pairs)@).to_multiset(),
        final(pairs).len() == old(pairs).len(),
        titles_unique(views_of(old(pairs)@)) ==> titles_unique(views_of(final(pairs)@)),
{
    let ghost start = views_of(pairs@);
    let mut i: usize = 0;
    while i < pairs.len()
        invariant
            i <= pairs.len(),
            pairs.len() == start.len(),
            views_of(pairs@).to_multiset() == start.to_multiset(),
            titles_unique(start) ==> titles_unique(views_of(pairs@)),
            forall|a: int, b: int|
                0 <= a < b < pairs.len() && a < i ==> in_order(pairs[a]@, pairs[b]@, mode),
        decreases pairs.len() - i,
    {
        let ghost before = pairs@;
        let m = least_from(pairs, i, mode);
        let pair = pairs.remove(m);
        pairs.insert(i, pair);
        proof {
            let now = pairs@;
            assert(views_of(now) =~= views_of(before).remove(m as int).insert(
                i as int,
                views_of(before)[m as int],
            ));
            vstd::seq_lib::to_multiset_remove(views_of(before), m as int);
            vstd::seq_lib::to_multiset_insert(
                views_of(before).remove(m as int),
                i as int,
                views_of(before)[m as int],
            );
            vstd::seq_lib::to_multiset_contains(views_of(before), views_of(before)[m as int]);
        }
        i += 1;
    }
    assert forall|a: int, b: int| 0 <= a < b < pairs.len() implies in_order(
        views_of(pairs@)[a],
        views_of(pairs@)[b],
        mode,
    ) by {
    }
}

} // verus!
