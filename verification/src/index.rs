//! The two indices of a profile: for each URL the positions of the pairs that
//! have it, and for each title the position of the pair that holds it.

use vstd::prelude::*;
use crate::pair::{views_of, PairView, URLTitlePair};
use crate::profile::index_consistent;
use crate::text::str_eq;

verus! {

/// The pairs of one URL, by position, in ascending order.
#[derive(Debug)]
pub struct UrlBucket {
    pub url: String,
    pub positions: Vec<usize>,
}

/// The pair that a title leads to, by position.
#[derive(Debug)]
pub struct TitleEntry {
    pub title: String,
    pub position: usize,
}

/// A bucket is never empty, lists its positions in ascending order, and
/// lists only pairs that have its URL.
pub open spec fn bucket_ok(pairs: Seq<PairView>, bucket: UrlBucket) -> bool {
    &&& bucket.positions.len() > 0
    &&& forall|x: int, y: int|
        0 <= x < y < bucket.positions.len() ==> bucket.positions[x] < bucket.positions[y]
    &&& forall|x: int|
        0 <= x < bucket.positions.len() ==> {
            &&& (#[trigger] bucket.positions[x]) < pairs.len()
            &&& pairs[bucket.positions[x] as int].url == bucket.url@
        }
}

/// Position `i` is listed under `url`.
pub open spec fn listed(buckets: Seq<UrlBucket>, url: Seq<char>, i: int) -> bool {
    exists|k: int|
        0 <= k < buckets.len() && (#[trigger] buckets[k]).url@ == url
            && buckets[k].positions@.contains(i as usize)
}

/// The buckets index the pairs by URL: one bucket for each URL, each in
/// order, and every pair listed under its URL.
pub open spec fn urls_ok(pairs: Seq<PairView>, buckets: Seq<UrlBucket>) -> bool {
    &&& pairs.len() <= usize::MAX
    &&& forall|a: int, b: int|
        0 <= a < b < buckets.len() ==> (#[trigger] buckets[a]).url@ != (#[trigger] buckets[b]).url@
    &&& forall|k: int| 0 <= k < buckets.len() ==> bucket_ok(pairs, #[trigger] buckets[k])
    &&& forall|i: int| 0 <= i < pairs.len() ==> listed(buckets, (#[trigger] pairs[i]).url, i)
}

/// Title `title` leads to position `i` or to a later one.
pub open spec fn entered(entries: Seq<TitleEntry>, title: Seq<char>, i: int) -> bool {
    exists|k: int|
        0 <= k < entries.len() && (#[trigger] entries[k]).title@ == title && entries[k].position
            >= i
}

/// The entries index the pairs by title: one entry for each title, which
/// leads to the last pair that has it.
pub open spec fn titles_ok(pairs: Seq<PairView>, entries: Seq<TitleEntry>) -> bool {
    &&& forall|a: int, b: int|
        0 <= a < b < entries.len() ==> (#[trigger] entries[a]).title@ != (
        #[trigger] entries[b]).title@
    &&& forall|k: int|
        0 <= k < entries.len() ==> {
            &&& (#[trigger] entries[k]).position < pairs.len()
            &&& pairs[entries[k].position as int].title == entries[k].title@
        }
    &&& forall|i: int| 0 <= i < pairs.len() ==> entered(entries, (#[trigger] pairs[i]).title, i)
}

/// The bucket of `url`, if there is one.
pub fn find_url(buckets: &Vec<UrlBucket>, url: &str) -> (found: Option<usize>)
    ensures
        match found {
            Some(k) => k < buckets.len() && buckets[k as int].url@ == url@,
            None => forall|k: int| 0 <= k < buckets.len() ==> (#[trigger] buckets[k]).url@ != url@,
        },
{
    let mut k: usize = 0;
    while k < buckets.len()
        invariant
            k <= buckets.len(),
            forall|j: int| 0 <= j < k ==> (#[trigger] buckets[j]).url@ != url@,
        decreases buckets.len() - k,
    {
        if str_eq(buckets[k].url.as_str(), url) {
            return Some(k);
        }
        k += 1;
    }
    None
}

/// The entry of `title`, if there is one.
pub fn find_title(entries: &Vec<TitleEntry>, title: &str) -> (found: Option<usize>)
    ensures
        match found {
            Some(k) => k < entries.len() && entries[k as int].title@ == title@,
            None => forall|k: int|
                0 <= k < entries.len() ==> (#[trigger] entries[k]).title@ != title@,
        },
{
    let mut k: usize = 0;
    while k < entries.len()
        invariant
            k <= entries.len(),
            forall|j: int| 0 <= j < k ==> (#[trigger] entries[j]).title@ != title@,
        decreases entries.len() - k,
    {
        if str_eq(entries[k].title.as_str(), title) {
            return Some(k);
        }
        k += 1;
    }
    None
}

/// Lists a pair that has just been put behind all the others under its URL.
pub fn enter_url(
    buckets: &mut Vec<UrlBucket>,
    url: &str,
    position: usize,
    Ghost(pairs): Ghost<Seq<PairView>>,
    Ghost(pair): Ghost<PairView>,
)
    requires
        urls_ok(pairs, old(buckets)@),
        position == pairs.len(),
        pairs.len() < usize::MAX,
        pair.url == url@,
    ensures
        urls_ok(pairs.push(pair), final(buckets)@),
{
    let ghost after = pairs.push(pair);
    let ghost before = buckets@;
    match find_url(buckets, url) {
        Some(k) => {
            buckets[k].positions.push(position);
            proof {
                let now = buckets@;
                let grown = now[k as int].positions@;
                assert forall|i: int| 0 <= i < after.len() implies listed(
                    now,
                    (#[trigger] after[i]).url,
                    i,
                ) by {
                    if i < pairs.len() {
                        let w = choose|w: int|
                            0 <= w < before.len() && (#[trigger] before[w]).url@ == pairs[i].url
                                && before[w].positions@.contains(i as usize);
                        let x = choose|x: int|
                            0 <= x < before[w].positions@.len() && before[w].positions@[x]
                                == i as usize;
                        assert(now[w].positions@[x] == i as usize);
                    } else {
                        assert(grown[grown.len() - 1] == i as usize);
                    }
                }
            }
        },
        None => {
            let mut positions: Vec<usize> = Vec::new();
            positions.push(position);
            buckets.push(UrlBucket { url: url.to_owned(), positions });
            proof {
                let now = buckets@;
                let k = before.len() as int;
                assert(now[k].positions@[0] == position);
                assert forall|i: int| 0 <= i < after.len() implies listed(
                    now,
                    (#[trigger] after[i]).url,
                    i,
                ) by {
                    if i < pairs.len() {
                        let w = choose|w: int|
                            0 <= w < before.len() && (#[trigger] before[w]).url@ == pairs[i].url
                                && before[w].positions@.contains(i as usize);
                        assert(now[w] == before[w]);
                    }
                }
            }
        },
    }
}

/// Makes the title of a pair that has just been put behind all the others
/// lead to it.
pub fn enter_title(
    entries: &mut Vec<TitleEntry>,
    title: &str,
    position: usize,
    Ghost(pairs): Ghost<Seq<PairView>>,
    Ghost(pair): Ghost<PairView>,
)
    requires
        titles_ok(pairs, old(entries)@),
        position == pairs.len(),
        pair.title == title@,
    ensures
        titles_ok(pairs.push(pair), final(entries)@),
{
    let ghost after = pairs.push(pair);
    let ghost before = entries@;
    match find_title(entries, title) {
        Some(k) => {
            entries[k].position = position;
            proof {
                let now = entries@;
                assert forall|i: int| 0 <= i < after.len() implies entered(
                    now,
                    (#[trigger] after[i]).title,
                    i,
                ) by {
                    if i < pairs.len() {
                        let w = choose|w: int|
                            0 <= w < before.len() && (#[trigger] before[w]).title@
                                == pairs[i].title && before[w].position >= i;
                        assert(now[w].title@ == after[i].title);
                    }
                }
            }
        },
        None => {
            entries.push(TitleEntry { title: title.to_owned(), position });
            proof {
                let now = entries@;
                let k = before.len() as int;
                assert forall|i: int| 0 <= i < after.len() implies entered(
                    now,
                    (#[trigger] after[i]).title,
                    i,
                ) by {
                    if i < pairs.len() {
                        let w = choose|w: int|
                            0 <= w < before.len() && (#[trigger] before[w]).title@
                                == pairs[i].title && before[w].position >= i;
                        assert(now[w] == before[w]);
                    } else {
                        assert(now[k].title@ == after[i].title);
                    }
                }
            }
        },
    }
}

/// Both indices of `pairs`, built from nothing.
pub fn rebuild(pairs: &Vec<URLTitlePair>) -> (built: (Vec<UrlBucket>, Vec<TitleEntry>))
    ensures
        urls_ok(views_of(pairs@), built.0@),
        titles_ok(views_of(pairs@), built.1@),
{
    let mut buckets: Vec<UrlBucket> = Vec::new();
    let mut entries: Vec<TitleEntry> = Vec::new();
    let ghost all = views_of(pairs@);
    let mut i: usize = 0;
    while i < pairs.len()
        invariant
            i <= pairs.len(),
            all == views_of(pairs@),
            urls_ok(all.take(i as int), buckets@),
            titles_ok(all.take(i as int), entries@),
        decreases pairs.len() - i,
    {
        let pair = &pairs[i];
        assert(all.take(i + 1) =~= all.take(i as int).push(all[i as int]));
        enter_url(
            &mut buckets,
            pair.get_url().as_str(),
            i,
            Ghost(all.take(i as int)),
            Ghost(all[i as int]),
        );
        enter_title(
            &mut entries,
            pair.get_title().as_str(),
            i,
            Ghost(all.take(i as int)),
            Ghost(all[i as int]),
        );
        i += 1;
    }
    assert(all.take(i as int) =~= all);
    (buckets, entries)
}

/// The index by URL as a map: each URL that has a bucket, with the set of
/// the positions listed there.
pub open spec fn url_map(buckets: Seq<UrlBucket>) -> Map<Seq<char>, Set<int>> {
    Map::new(
        |u: Seq<char>| exists|k: int| 0 <= k < buckets.len() && (#[trigger] buckets[k]).url@ == u,
        |u: Seq<char>|
            {
                let k = choose|k: int|
                    0 <= k < buckets.len() && (#[trigger] buckets[k]).url@ == u;
                Set::new(
                    |i: int| 0 <= i <= usize::MAX && buckets[k].positions@.contains(i as usize),
                )
            },
    )
}

/// The index by title as a map: each title that has an entry, with the
/// position it leads to.
pub open spec fn title_map(entries: Seq<TitleEntry>) -> Map<Seq<char>, int> {
    Map::new(
        |t: Seq<char>|
            exists|k: int| 0 <= k < entries.len() && (#[trigger] entries[k]).title@ == t,
        |t: Seq<char>|
            {
                let k = choose|k: int|
                    0 <= k < entries.len() && (#[trigger] entries[k]).title@ == t;
                entries[k].position as int
            },
    )
}

/// Indices that are in order, read as maps, agree with the list of pairs.
pub proof fn lemma_maps_consistent(
    pairs: Seq<PairView>,
    buckets: Seq<UrlBucket>,
    entries: Seq<TitleEntry>,
)
    requires
        urls_ok(pairs, buckets),
        titles_ok(pairs, entries),
    ensures
        index_consistent(pairs, url_map(buckets), title_map(entries)),
{
    let by_url = url_map(buckets);
    assert forall|i: int| 0 <= i < pairs.len() implies by_url.contains_key(
        (#[trigger] pairs[i]).url,
    ) && by_url[pairs[i].url].contains(i) by {
    }
    assert forall|u: Seq<char>| #[trigger] by_url.contains_key(u) implies exists|i: int|
        by_url[u].contains(i) by {
        let k = choose|k: int| 0 <= k < buckets.len() && (#[trigger] buckets[k]).url@ == u;
        assert(by_url[u].contains(buckets[k].positions[0] as int));
    }
}

} // verus!
