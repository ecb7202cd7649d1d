//! What holds of a profile whatever is done with it, stated over the same
//! models that the operations' contracts use.

use vstd::prelude::*;
use crate::pair::PairView;
use crate::profile::{
    first_entry, has_entry, lemma_first_entry, titles_unique, ProfileView, SortMode,
};
use crate::search::{is_match, is_search_result, lemma_ascending_same_members, SearchMode};
use crate::sorting::is_sorted;
use crate::time::Timestamp;

verus! {

/// A pair to be added: its URL, its title and the time of the call.
pub ghost struct Addition {
    pub url: Seq<char>,
    pub title: Seq<char>,
    pub at: Timestamp,
}

/// The profile after the additions were tried one after the other: each
/// that is accepted puts its pair behind the others, each that is refused
/// changes nothing.
pub open spec fn after_additions(start: ProfileView, additions: Seq<Addition>) -> ProfileView
    decreases additions.len(),
{
    if additions.len() == 0 {
        start
    } else {
        let before = after_additions(start, additions.drop_last());
        let next = additions.last();
        if before.add_error(next.url, next.title) is None {
            before.added(next.url, next.title, next.at)
        } else {
            before
        }
    }
}

/// Adding a pair to a profile whose titles are unique leaves them unique.
pub proof fn lemma_addition_keeps_titles_unique(
    before: ProfileView,
    url: Seq<char>,
    title: Seq<char>,
    at: Timestamp,
)
    requires
        titles_unique(before.pairs),
        before.add_error(url, title) is None,
    ensures
        titles_unique(before.added(url, title, at).pairs),
{
}

/// Title uniqueness: whatever additions are tried on a profile whose titles
/// are unique, and so on an empty one, no two of its pairs share a title
/// afterwards.
pub proof fn lemma_titles_stay_unique(start: ProfileView, additions: Seq<Addition>)
    requires
        titles_unique(start.pairs),
    ensures
        titles_unique(after_additions(start, additions).pairs),
    decreases additions.len(),
{
    if additions.len() > 0 {
        lemma_titles_stay_unique(start, additions.drop_last());
    }
}

/// Taking a pair out of a profile whose titles are unique leaves them
/// unique.
pub proof fn lemma_removal_keeps_titles_unique(pairs: Seq<PairView>, i: int)
    requires
        titles_unique(pairs),
        0 <= i < pairs.len(),
    ensures
        titles_unique(pairs.remove(i)),
{
}

/// A change to the pairs of a profile: an addition, or the removal of the
/// pair with a URL and a title.
pub ghost enum Change {
    Add(Addition),
    Remove { url: Seq<char>, title: Seq<char>, at: Timestamp },
}

/// The profile after the changes were tried one after the other: each that
/// is accepted is made, each that is refused changes nothing.
pub open spec fn after_changes(start: ProfileView, changes: Seq<Change>) -> ProfileView
    decreases changes.len(),
{
    if changes.len() == 0 {
        start
    } else {
        let before = after_changes(start, changes.drop_last());
        match changes.last() {
            Change::Add(next) => if before.add_error(next.url, next.title) is None {
                before.added(next.url, next.title, next.at)
            } else {
                before
            },
            Change::Remove { url, title, at } => if has_entry(before.pairs, url, title) {
                before.removed(url, title, at)
            } else {
                before
            },
        }
    }
}

/// Whatever additions and removals are tried on a profile whose titles are
/// unique, no two of its pairs share a title afterwards.
pub proof fn lemma_titles_stay_unique_under_changes(start: ProfileView, changes: Seq<Change>)
    requires
        titles_unique(start.pairs),
    ensures
        titles_unique(after_changes(start, changes).pairs),
    decreases changes.len(),
{
    if changes.len() > 0 {
        lemma_titles_stay_unique_under_changes(start, changes.drop_last());
        let before = after_changes(start, changes.drop_last());
        match changes.last() {
            Change::Add(next) => {
                if before.add_error(next.url, next.title) is None {
                    lemma_addition_keeps_titles_unique(before, next.url, next.title, next.at);
                }
            },
            Change::Remove { url, title, at } => {
                if has_entry(before.pairs, url, title) {
                    lemma_first_entry(before.pairs, url, title);
                    lemma_removal_keeps_titles_unique(
                        before.pairs,
                        first_entry(before.pairs, url, title),
                    );
                }
            },
        }
    }
}

/// A list that is in the order of `mode` stays in it when a pair is taken
/// out.
pub proof fn lemma_removal_keeps_order(pairs: Seq<PairView>, i: int, mode: SortMode)
    requires
        is_sorted(pairs, mode),
        0 <= i < pairs.len(),
    ensures
        is_sorted(pairs.remove(i), mode),
{
}

/// A profile that lists its pairs by date of creation, oldest first, stays
/// in that order when a pair is added that was made no earlier than the
/// pairs it has. In any other order, and with a clock that was set back, a
/// new pair stands last all the same, until the profile is sorted anew.
pub proof fn lemma_addition_keeps_date_order(
    before: ProfileView,
    url: Seq<char>,
    title: Seq<char>,
    at: Timestamp,
)
    requires
        is_sorted(before.pairs, SortMode::ByDateCreation),
        forall|i: int|
            0 <= i < before.pairs.len() ==> (#[trigger] before.pairs[i]).created.at_or_before(at),
    ensures
        is_sorted(before.added(url, title, at).pairs, SortMode::ByDateCreation),
{
}

/// Sort idempotence: listing a profile by `mode` and then by `mode` again
/// leaves what the first call left, the order of the pairs included.
pub proof fn lemma_sorting_twice_is_sorting_once(
    start: ProfileView,
    once: ProfileView,
    twice: ProfileView,
    mode: SortMode,
    first_at: Timestamp,
    second_at: Timestamp,
)
    requires
        start.sorted_to(once, mode, first_at),
        once.sorted_to(twice, mode, second_at),
    ensures
        twice == once,
        twice.pairs == once.pairs,
{
}

/// Round-trip search: a pair that was just added is the one and only pair
/// that an exact search for its title finds, and an exact search for its URL
/// finds it too.
pub proof fn lemma_added_pair_is_found(
    before: ProfileView,
    url: Seq<char>,
    title: Seq<char>,
    at: Timestamp,
)
    requires
        before.add_error(url, title) is None,
    ensures
        ({
            let after = before.added(url, title, at).pairs;
            let position = before.pairs.len() as int;
            &&& after[position].url == url
            &&& after[position].title == title
            &&& forall|i: int|
                is_match(after, title, SearchMode::ByTitle(false), i) <==> i == position
            &&& is_match(after, url, SearchMode::ByURL(false), position)
            &&& forall|found: Seq<usize>|
                is_search_result(after, title, SearchMode::ByTitle(false), found) ==> found.len()
                    == 1 && found[0] == position
            &&& forall|found: Seq<usize>|
                is_search_result(after, url, SearchMode::ByURL(false), found) ==> found.contains(
                    position as usize,
                )
        }),
{
    let after = before.added(url, title, at).pairs;
    let position = before.pairs.len() as int;
    assert forall|found: Seq<usize>|
        is_search_result(after, title, SearchMode::ByTitle(false), found) implies found.len() == 1
        && found[0] == position by {
        assert(is_match(after, title, SearchMode::ByTitle(false), position));
        if found.len() > 1 {
            assert(found[0] < found[1]);
        }
    }
    assert forall|found: Seq<usize>|
        is_search_result(after, url, SearchMode::ByURL(false), found) implies found.contains(
        position as usize,
    ) by {
        assert(is_match(after, url, SearchMode::ByURL(false), position));
    }
}

/// A search has one answer: two lists that both are what a search returns
/// are the same list.
pub proof fn lemma_search_result_unique(
    pairs: Seq<PairView>,
    query: Seq<char>,
    mode: SearchMode,
    first: Seq<usize>,
    second: Seq<usize>,
)
    requires
        is_search_result(pairs, query, mode, first),
        is_search_result(pairs, query, mode, second),
    ensures
        first == second,
{
    lemma_ascending_same_members(first, second);
}

} // verus!
