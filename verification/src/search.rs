//! Searching a profile through its two indices.

use vstd::prelude::*;
use crate::index::{find_title, find_url, titles_ok, urls_ok, TitleEntry, UrlBucket};
use crate::pair::PairView;
use crate::text::{chars_contain, chars_of, is_substring, same_chars};

verus! {

/// What a search looks at. The flag says whether the query only needs to
/// occur somewhere in the URL or title (`true`), or has to be all of it
/// (`false`).
#[derive(Debug, Clone, Copy, PartialEq, Eq, Structural)]
pub enum SearchMode {
    ByURL(bool),
    ByTitle(bool),
    EitherMatch(bool),
}

impl Default for SearchMode {
    fn default() -> (mode: Self)
        ensures
            mode == SearchMode::ByTitle(true),
    {
        SearchMode::ByTitle(true)
    }
}

/// `text` answers `query`: it holds the query somewhere, or, where the search
/// is exact, it is the query.
pub open spec fn text_matches(text: Seq<char>, query: Seq<char>, blurry: bool) -> bool {
    if blurry {
        is_substring(query, text)
    } else {
        text == query
    }
}

/// The pair at position `i` is the one its title leads to: no later pair
/// has the same title. Where titles are unique that is every pair.
pub open spec fn holds_title(pairs: Seq<PairView>, i: int) -> bool {
    forall|j: int| i < j < pairs.len() ==> (#[trigger] pairs[j]).title != pairs[i].title
}

/// The pair at position `i` is found by URL.
pub open spec fn found_by_url(pairs: Seq<PairView>, query: Seq<char>, blurry: bool, i: int) -> bool {
    0 <= i < pairs.len() && text_matches(pairs[i].url, query, blurry)
}

/// The pair at position `i` is found by title. The search goes through the
/// index by title, so it finds only the pair that a title leads to.
pub open spec fn found_by_title(
    pairs: Seq<PairView>,
    query: Seq<char>,
    blurry: bool,
    i: int,
) -> bool {
    0 <= i < pairs.len() && holds_title(pairs, i) && text_matches(pairs[i].title, query, blurry)
}

/// The pair at position `i` is found by a search for `query`.
pub open spec fn is_match(pairs: Seq<PairView>, query: Seq<char>, mode: SearchMode, i: int) -> bool {
    match mode {
        SearchMode::ByURL(blurry) => found_by_url(pairs, query, blurry, i),
        SearchMode::ByTitle(blurry) => found_by_title(pairs, query, blurry, i),
        SearchMode::EitherMatch(blurry) => found_by_url(pairs, query, blurry, i) || found_by_title(
            pairs,
            query,
            blurry,
            i,
        ),
    }
}

/// `found` is what a search for `query` returns: the positions of all pairs
/// that are found, each once, in ascending order.
pub open spec fn is_search_result(
    pairs: Seq<PairView>,
    query: Seq<char>,
    mode: SearchMode,
    found: Seq<usize>,
) -> bool {
    &&& forall|a: int, b: int| 0 <= a < b < found.len() ==> found[a] < found[b]
    &&& forall|a: int| 0 <= a < found.len() ==> is_match(pairs, query, mode, found[a] as int)
    &&& forall|i: int| is_match(pairs, query, mode, i) ==> found.contains(i as usize)
}

/// Whether `text` answers the query, whose characters are `query`.
fn text_hits(text: &str, query: &Vec<char>, blurry: bool) -> (hit: bool)
    ensures
        hit == text_matches(text@, query@, blurry),
{
    let chars = chars_of(text);
    if blurry {
        chars_contain(&chars, query)
    } else {
        same_chars(&chars, query)
    }
}

/// Marks the pair at `position`.
fn mark(marks: &mut Vec<bool>, position: usize)
    requires
        position < old(marks).len(),
    ensures
        final(marks)@ == old(marks)@.update(position as int, true),
{
    marks[position] = true;
}

/// Marks every pair that a bucket lists.
fn mark_bucket(marks: &mut Vec<bool>, positions: &Vec<usize>)
    requires
        forall|x: int| 0 <= x < positions.len() ==> positions[x] < old(marks).len(),
    ensures
        final(marks).len() == old(marks).len(),
        forall|i: int|
            0 <= i < final(marks).len() ==> final(marks)[i] == (old(marks)[i]
                || positions@.contains(i as usize)),
{
    let ghost start = marks@;
    let mut x: usize = 0;
    while x < positions.len()
        invariant
            x <= positions.len(),
            marks.len() == start.len(),
            forall|y: int| 0 <= y < positions.len() ==> positions[y] < marks.len(),
            forall|i: int| 0 <= i < marks.len() && start[i] ==> marks[i],
            forall|i: int|
                0 <= i < marks.len() && marks[i] ==> start[i] || positions@.contains(i as usize),
            forall|y: int| 0 <= y < x ==> marks[(#[trigger] positions[y]) as int],
        decreases positions.len() - x,
    {
        mark(marks, positions[x]);
        x += 1;
    }
}

/// Marks the pairs that a search by URL finds: the one bucket of the query
/// where the search is exact, else every bucket whose URL holds the query.
pub(crate) fn mark_urls(
    marks: &mut Vec<bool>,
    buckets: &Vec<UrlBucket>,
    query: &str,
    blurry: bool,
    Ghost(pairs): Ghost<Seq<PairView>>,
)
    requires
        urls_ok(pairs, buckets@),
        old(marks).len() == pairs.len(),
    ensures
        final(marks).len() == old(marks).len(),
        forall|i: int|
            0 <= i < pairs.len() ==> final(marks)[i] == (old(marks)[i] || found_by_url(
                pairs,
                query@,
                blurry,
                i,
            )),
{
    let ghost start = marks@;
    if !blurry {
        if let Some(k) = find_url(buckets, query) {
            mark_bucket(marks, &buckets[k].positions);
        }
        return ;
    }
    let wanted = chars_of(query);
    let mut k: usize = 0;
    while k < buckets.len()
        invariant
            k <= buckets.len(),
            blurry,
            wanted@ == query@,
            urls_ok(pairs, buckets@),
            marks.len() == pairs.len(),
            start.len() == pairs.len(),
            forall|i: int| 0 <= i < pairs.len() && start[i] ==> marks[i],
            forall|i: int|
                0 <= i < pairs.len() && marks[i] ==> start[i] || found_by_url(
                    pairs,
                    query@,
                    blurry,
                    i,
                ),
            forall|j: int, x: int|
                0 <= j < k && 0 <= x < buckets[j].positions.len() && is_substring(
                    query@,
                    buckets[j].url@,
                ) ==> marks[(#[trigger] buckets[j].positions[x]) as int],
        decreases buckets.len() - k,
    {
        if text_hits(buckets[k].url.as_str(), &wanted, true) {
            mark_bucket(marks, &buckets[k].positions);
        }
        k += 1;
    }
}

/// Marks the pairs that a search by title finds: the pair the query leads to
/// where the search is exact, else the pair of every title that holds the
/// query.
pub(crate) fn mark_titles(
    marks: &mut Vec<bool>,
    entries: &Vec<TitleEntry>,
    query: &str,
    blurry: bool,
    Ghost(pairs): Ghost<Seq<PairView>>,
)
    requires
        titles_ok(pairs, entries@),
        old(marks).len() == pairs.len(),
    ensures
        final(marks).len() == old(marks).len(),
        forall|i: int|
            0 <= i < pairs.len() ==> final(marks)[i] == (old(marks)[i] || found_by_title(
                pairs,
                query@,
                blurry,
                i,
            )),
{
    let ghost start = marks@;
    if !blurry {
        if let Some(k) = find_title(entries, query) {
            mark(marks, entries[k].position);
        }
        return ;
    }
    let wanted = chars_of(query);
    let mut k: usize = 0;
    while k < entries.len()
        invariant
            k <= entries.len(),
            blurry,
            wanted@ == query@,
            titles_ok(pairs, entries@),
            marks.len() == pairs.len(),
            start.len() == pairs.len(),
            forall|i: int| 0 <= i < pairs.len() && start[i] ==> marks[i],
            forall|i: int|
                0 <= i < pairs.len() && marks[i] ==> start[i] || found_by_title(
                    pairs,
                    query@,
                    blurry,
                    i,
                ),
            forall|j: int|
                0 <= j < k && is_substring(query@, (#[trigger] entries[j]).title@)
                    ==> marks[entries[j].position as int],
            forall|j: int|
                0 <= j < entries.len() ==> holds_title(
                    pairs,
                    (#[trigger] entries[j]).position as int,
                ),
        decreases entries.len() - k,
    {
        if text_hits(entries[k].title.as_str(), &wanted, true) {
            mark(marks, entries[k].position);
        }
        k += 1;
    }
}

/// The marked positions, in ascending order.
pub(crate) fn collect_marked(marks: &Vec<bool>) -> (found: Vec<usize>)
    ensures
        forall|a: int, b: int| 0 <= a < b < found.len() ==> found[a] < found[b],
        forall|a: int| 0 <= a < found.len() ==> found[a] < marks.len() && marks[found[a] as int],
        forall|i: int| 0 <= i < marks.len() && marks[i] ==> found@.contains(i as usize),
{
    let mut found: Vec<usize> = Vec::new();
    let mut i: usize = 0;
    while i < marks.len()
        invariant
            i <= marks.len(),
            forall|a: int, b: int| 0 <= a < b < found.len() ==> found[a] < found[b],
            forall|a: int| 0 <= a < found.len() ==> found[a] < i && marks[found[a] as int],
            forall|j: int| 0 <= j < i && marks[j] ==> found@.contains(j as usize),
        decreases marks.len() - i,
    {
        if marks[i] {
            let ghost before = found@;
            found.push(i);
            proof {
                assert(found@[before.len() as int] == i);
                assert forall|j: int| 0 <= j < i + 1 && marks[j] implies found@.contains(
                    j as usize,
                ) by {
                    if j < i {
                        let a = choose|a: int| 0 <= a < before.len() && before[a] == j as usize;
                        assert(found@[a] == j as usize);
                    }
                }
            }
        }
        i += 1;
    }
    found
}

/// A list of `n` marks, none set.
pub(crate) fn no_marks(n: usize) -> (marks: Vec<bool>)
    ensures
        marks.len() == n,
        forall|i: int| 0 <= i < n ==> !marks[i],
{
    let mut marks: Vec<bool> = Vec::new();
    while marks.len() < n
        invariant
            marks.len() <= n,
            forall|i: int| 0 <= i < marks.len() ==> !marks[i],
        decreases n - marks.len(),
    {
        marks.push(false);
    }
    marks
}

/// Two ascending lists with the same members are the same list.
pub proof fn lemma_ascending_same_members(first: Seq<usize>, second: Seq<usize>)
    requires
        forall|a: int, b: int| 0 <= a < b < first.len() ==> first[a] < first[b],
        forall|a: int, b: int| 0 <= a < b < second.len() ==> second[a] < second[b],
        forall|p: usize| first.contains(p) <==> second.contains(p),
    ensures
        first == second,
    decreases first.len(),
{
    if first.len() == 0 {
        if second.len() > 0 {
            assert(second.contains(second[0]));
        }
    } else if second.len() == 0 {
        assert(first.contains(first[0]));
    } else {
        let x = first.last();
        let y = second.last();
        assert(first.contains(x));
        assert(second.contains(y));
        let f = first.drop_last();
        let s = second.drop_last();
        assert forall|p: usize| f.contains(p) <==> s.contains(p) by {
            if f.contains(p) {
                assert(first.contains(p));
                let j = choose|j: int| 0 <= j < second.len() && second[j] == p;
                assert(s[j] == p);
            }
            if s.contains(p) {
                assert(second.contains(p));
                let j = choose|j: int| 0 <= j < first.len() && first[j] == p;
                assert(f[j] == p);
            }
        }
        lemma_ascending_same_members(f, s);
        assert(second =~= s.push(y));
    }
}

} // verus!
