//! A profile: an ordered list of pairs with an index by URL and an index by
//! title, and the operations that keep the three in step.

use vstd::prelude::*;
use crate::errors::Errors;
use crate::ids::IdAllocator;
use crate::index::{
    enter_title, enter_url, find_title, find_url, lemma_maps_consistent, rebuild, title_map,
    titles_ok, url_map, urls_ok, TitleEntry, UrlBucket,
};
use crate::search::{
    collect_marked, is_match, is_search_result, mark_titles, mark_urls, no_marks, SearchMode,
};
use crate::pair::{placeholder_title, views_of, PairView, URLTitlePair};
use crate::sorting::{is_sorted, sort_pairs};
use crate::text::{decimal_digits, decimal_text, str_eq};
use vstd::string::StringExecFns;
use crate::time::{now, Timestamp};

verus! {

/// The order in which a profile lists its pairs.
#[derive(Debug, Clone, Copy, PartialEq, Eq, Structural)]
pub enum SortMode {
    ByTitle,
    ByTitleRev,
    ByURL,
    ByURLRev,
    ByDateCreation,
    ByDateCreationRev,
}

impl Default for SortMode {
    fn default() -> (mode: Self)
        ensures
            mode == SortMode::ByDateCreation,
    {
        SortMode::ByDateCreation
    }
}

/// What a profile holds, as mathematics.
pub ghost struct ProfileView {
    pub id: usize,
    pub name: Seq<char>,
    pub pairs: Seq<PairView>,
    pub sort_mode: SortMode,
    pub created: Timestamp,
    pub last_modified: Timestamp,
}

/// The pair at position `i` has this URL and this title.
pub open spec fn entry_at(pairs: Seq<PairView>, url: Seq<char>, title: Seq<char>, i: int) -> bool {
    0 <= i < pairs.len() && pairs[i].url == url && pairs[i].title == title
}

/// Some pair has this URL and this title.
pub open spec fn has_entry(pairs: Seq<PairView>, url: Seq<char>, title: Seq<char>) -> bool {
    exists|i: int| entry_at(pairs, url, title, i)
}

/// Position `i` is the first whose pair has this URL and this title.
pub open spec fn first_entry_at(
    pairs: Seq<PairView>,
    url: Seq<char>,
    title: Seq<char>,
    i: int,
) -> bool {
    entry_at(pairs, url, title, i) && forall|j: int| 0 <= j < i ==> !entry_at(pairs, url, title, j)
}

/// The first position whose pair has this URL and this title.
pub open spec fn first_entry(pairs: Seq<PairView>, url: Seq<char>, title: Seq<char>) -> int {
    choose|i: int| first_entry_at(pairs, url, title, i)
}

/// Where some pair has this URL and this title, `first_entry` is the first
/// position of such a pair.
pub proof fn lemma_first_entry(pairs: Seq<PairView>, url: Seq<char>, title: Seq<char>)
    requires
        has_entry(pairs, url, title),
    ensures
        first_entry_at(pairs, url, title, first_entry(pairs, url, title)),
{
    let some = choose|i: int| entry_at(pairs, url, title, i);
    lemma_first_entry_before(pairs, url, title, some);
}

proof fn lemma_first_entry_before(pairs: Seq<PairView>, url: Seq<char>, title: Seq<char>, i: int)
    requires
        entry_at(pairs, url, title, i),
    ensures
        exists|k: int| first_entry_at(pairs, url, title, k),
    decreases i,
{
    if exists|j: int| 0 <= j < i && entry_at(pairs, url, title, j) {
        let j = choose|j: int| 0 <= j < i && entry_at(pairs, url, title, j);
        lemma_first_entry_before(pairs, url, title, j);
    } else {
        assert(first_entry_at(pairs, url, title, i));
    }
}

/// Some pair has this title.
pub open spec fn has_title(pairs: Seq<PairView>, title: Seq<char>) -> bool {
    exists|i: int| 0 <= i < pairs.len() && (#[trigger] pairs[i]).title == title
}

/// No two pairs share a title.
pub open spec fn titles_unique(pairs: Seq<PairView>) -> bool {
    forall|i: int, j: int|
        0 <= i < j < pairs.len() ==> (#[trigger] pairs[i]).title != (#[trigger] pairs[j]).title
}

/// The title that a new pair gets: the one supplied, or the placeholder.
pub open spec fn resolved_title(title_opt: Option<&str>) -> Seq<char> {
    match title_opt {
        Some(title) => title@,
        None => placeholder_title(),
    }
}

/// The two indices agree with the list of pairs. Every pair is listed under
/// its URL. Every position listed under a URL is that of a pair with that
/// URL, and no URL is kept without a pair. Every title of a pair is a key of
/// the index by title, and leads to the last pair with that title: to the
/// pair itself where titles are unique.
pub open spec fn index_consistent(
    pairs: Seq<PairView>,
    by_url: Map<Seq<char>, Set<int>>,
    by_title: Map<Seq<char>, int>,
) -> bool {
    &&& forall|i: int|
        0 <= i < pairs.len() ==> by_url.contains_key((#[trigger] pairs[i]).url)
            && by_url[pairs[i].url].contains(i)
    &&& forall|u: Seq<char>, i: int|
        by_url.contains_key(u) && #[trigger] by_url[u].contains(i) ==> 0 <= i < pairs.len()
            && pairs[i].url == u
    &&& forall|u: Seq<char>| #[trigger]
        by_url.contains_key(u) ==> exists|i: int| by_url[u].contains(i)
    &&& forall|i: int|
        0 <= i < pairs.len() ==> by_title.contains_key((#[trigger] pairs[i]).title)
            && by_title[pairs[i].title] >= i
    &&& forall|t: Seq<char>| #[trigger]
        by_title.contains_key(t) ==> 0 <= by_title[t] < pairs.len() && pairs[by_title[t]].title
            == t
}

impl ProfileView {
    /// Why a pair with this URL and this title cannot be added, if it
    /// cannot: the same entry is there already, or the title is taken by
    /// another URL.
    pub open spec fn add_error(self, url: Seq<char>, title: Seq<char>) -> Option<Errors> {
        if has_entry(self.pairs, url, title) {
            Some(Errors::PairAlreadyExistsError)
        } else if has_title(self.pairs, title) {
            Some(Errors::TitleCollisionError)
        } else {
            None
        }
    }

    /// The profile after a pair made at `at` was put behind the others.
    pub open spec fn added(self, url: Seq<char>, title: Seq<char>, at: Timestamp) -> ProfileView {
        ProfileView {
            pairs: self.pairs.push(PairView { url, title, created: at, highlighted: false }),
            last_modified: at,
            ..self
        }
    }

    /// The profile after the first pair with this URL and this title was
    /// taken out at `at`.
    pub open spec fn removed(self, url: Seq<char>, title: Seq<char>, at: Timestamp) -> ProfileView {
        ProfileView {
            pairs: self.pairs.remove(first_entry(self.pairs, url, title)),
            last_modified: at,
            ..self
        }
    }

    /// `after` is this profile put into the order of `mode` at `at`: it
    /// holds the same pairs, each as often as before, in an order that
    /// `mode` allows, and nothing else about it has changed. Which of two
    /// pairs that `mode` does not tell apart comes first is left open.
    pub open spec fn resorted(self, after: ProfileView, mode: SortMode, at: Timestamp) -> bool {
        &&& after.id == self.id
        &&& after.name == self.name
        &&& after.created == self.created
        &&& after.sort_mode == mode
        &&& after.last_modified == at
        &&& after.pairs.to_multiset() == self.pairs.to_multiset()
        &&& is_sorted(after.pairs, mode)
    }

    /// `after` is what listing this profile by `mode` at `at` leaves: the
    /// profile as it was where it is listed by `mode` already, else the
    /// profile put into that order.
    pub open spec fn sorted_to(self, after: ProfileView, mode: SortMode, at: Timestamp) -> bool {
        if mode == self.sort_mode {
            after == self
        } else {
            self.resorted(after, mode, at)
        }
    }

    /// Some pair other than the one at `except` has this URL and this title.
    pub open spec fn other_has_entry(self, url: Seq<char>, title: Seq<char>, except: int) -> bool {
        exists|i: int| i != except && entry_at(self.pairs, url, title, i)
    }

    /// Some pair other than the one at `except` has this title.
    pub open spec fn other_has_title(self, title: Seq<char>, except: int) -> bool {
        exists|i: int|
            0 <= i < self.pairs.len() && i != except && (#[trigger] self.pairs[i]).title == title
    }

    /// Why the first pair with `url` and `title` cannot be given `new_url`
    /// and `new_title`, if it cannot: there is no such pair, or another pair
    /// is that entry already, or the new title is taken by another pair.
    pub open spec fn update_error(
        self,
        url: Seq<char>,
        title: Seq<char>,
        new_url: Seq<char>,
        new_title: Seq<char>,
    ) -> Option<Errors> {
        let position = first_entry(self.pairs, url, title);
        if !has_entry(self.pairs, url, title) {
            Some(Errors::LookupFailedError)
        } else if self.other_has_entry(new_url, new_title, position) {
            Some(Errors::PairAlreadyExistsError)
        } else if self.other_has_title(new_title, position) {
            Some(Errors::TitleCollisionError)
        } else {
            None
        }
    }

    /// The profile after the first pair with `url` and `title` was given
    /// `new_url` and `new_title` at `at`. The pair keeps its place, its time
    /// of creation and its highlight.
    pub open spec fn updated(
        self,
        url: Seq<char>,
        title: Seq<char>,
        new_url: Seq<char>,
        new_title: Seq<char>,
        at: Timestamp,
    ) -> ProfileView {
        let position = first_entry(self.pairs, url, title);
        ProfileView {
            pairs: self.pairs.update(
                position,
                PairView { url: new_url, title: new_title, ..self.pairs[position] },
            ),
            last_modified: at,
            ..self
        }
    }

    /// The profile with the highlight of the pair at `position` set or
    /// taken away. Nothing else changes, the time of last change included.
    pub open spec fn with_highlight(self, position: int, is: bool) -> ProfileView {
        ProfileView {
            pairs: self.pairs.update(position, PairView { highlighted: is, ..self.pairs[position] }),
            ..self
        }
    }

    /// The profile after it was given another name at `at`.
    pub open spec fn renamed(self, name: Seq<char>, at: Timestamp) -> ProfileView {
        ProfileView { name, last_modified: at, ..self }
    }
}

/// A named list of pairs with its two indices.
#[derive(Debug)]
pub struct Profile {
    id: usize,
    name: String,
    pairs: Vec<URLTitlePair>,
    by_url: Vec<UrlBucket>,
    by_title: Vec<TitleEntry>,
    sort: SortMode,
    t_created: Timestamp,
    t_last_modified: Timestamp,
}

impl View for Profile {
    type V = ProfileView;

    closed spec fn view(&self) -> ProfileView {
        ProfileView {
            id: self.id,
            name: self.name@,
            pairs: views_of(self.pairs@),
            sort_mode: self.sort,
            created: self.t_created,
            last_modified: self.t_last_modified,
        }
    }
}

impl Profile {
    /// The index by URL: for each URL of a pair, the positions of the pairs
    /// that have it.
    pub closed spec fn by_url(&self) -> Map<Seq<char>, Set<int>> {
        url_map(self.by_url@)
    }

    /// The index by title: for each title of a pair, the position of the
    /// pair that holds it.
    pub closed spec fn by_title(&self) -> Map<Seq<char>, int> {
        title_map(self.by_title@)
    }

    /// The profile is well formed: its two indices are those of its list of
    /// pairs. Every constructor gives a well-formed profile and every
    /// operation keeps it so.
    pub closed spec fn wf(&self) -> bool {
        &&& urls_ok(self@.pairs, self.by_url@)
        &&& titles_ok(self@.pairs, self.by_title@)
    }

    /// In a well-formed profile the two indices agree with the list of
    /// pairs: every pair can be reached through both, and neither leads to
    /// anything that is not a pair of the list.
    pub proof fn lemma_indices_consistent(&self)
        requires
            self.wf(),
        ensures
            index_consistent(self@.pairs, self.by_url(), self.by_title()),
            titles_unique(self@.pairs) ==> forall|i: int|
                0 <= i < self@.pairs.len() ==> self.by_title()[(#[trigger] self@.pairs[i]).title]
                    == i,
    {
        lemma_maps_consistent(self@.pairs, self.by_url@, self.by_title@);
    }

    /// An empty profile made at `at`, listed by date of creation.
    pub fn new_at(id: usize, name: &str, at: Timestamp) -> (profile: Self)
        ensures
            profile.wf(),
            profile@ == (ProfileView {
                id,
                name: name@,
                pairs: Seq::empty(),
                sort_mode: SortMode::ByDateCreation,
                created: at,
                last_modified: at,
            }),
    {
        let profile = Profile {
            id,
            name: name.to_owned(),
            pairs: Vec::new(),
            by_url: Vec::new(),
            by_title: Vec::new(),
            sort: SortMode::ByDateCreation,
            t_created: at,
            t_last_modified: at,
        };
        assert(profile@.pairs =~= Seq::empty());
        profile
    }

    /// An empty profile made now, listed by date of creation.
    pub fn new(id: usize, name: &str) -> (profile: Self)
        ensures
            profile.wf(),
            profile@ == (ProfileView {
                id,
                name: name@,
                pairs: Seq::empty(),
                sort_mode: SortMode::ByDateCreation,
                created: profile@.created,
                last_modified: profile@.created,
            }),
    {
        Self::new_at(id, name, now())
    }

    /// A profile of pairs that were made elsewhere, in the order given and
    /// listed by date of creation. Nothing is refused: where two of the
    /// pairs share a title both stay, and the title leads to the later one.
    pub fn hydrate(id: usize, name: &str, created_at: Timestamp, pairs: Vec<URLTitlePair>) -> (profile:
        Self)
        ensures
            profile.wf(),
            profile@ == (ProfileView {
                id,
                name: name@,
                pairs: views_of(pairs@),
                sort_mode: SortMode::ByDateCreation,
                created: created_at,
                last_modified: created_at,
            }),
    {
        let (by_url, by_title) = rebuild(&pairs);
        Profile {
            id,
            name: name.to_owned(),
            pairs,
            by_url,
            by_title,
            sort: SortMode::ByDateCreation,
            t_created: created_at,
            t_last_modified: created_at,
        }
    }

    /// The first position whose pair has this URL and this title, found
    /// through the index by URL.
    fn find_entry(&self, url: &str, title: &str) -> (found: Option<usize>)
        requires
            self.wf(),
        ensures
            match found {
                Some(p) => first_entry_at(self@.pairs, url@, title@, p as int),
                None => !has_entry(self@.pairs, url@, title@),
            },
    {
        let ghost pairs = self@.pairs;
        match find_url(&self.by_url, url) {
            None => None,
            Some(k) => {
                let positions = &self.by_url[k].positions;
                let mut x: usize = 0;
                while x < positions.len()
                    invariant
                        x <= positions.len(),
                        self.wf(),
                        pairs == self@.pairs,
                        k < self.by_url.len(),
                        positions == self.by_url[k as int].positions,
                        self.by_url[k as int].url@ == url@,
                        forall|y: int|
                            0 <= y < x ==> pairs[(#[trigger] positions[y]) as int].title != title@,
                    decreases positions.len() - x,
                {
                    let p = positions[x];
                    if str_eq(self.pairs[p].get_title().as_str(), title) {
                        return Some(p);
                    }
                    x += 1;
                }
                None
            },
        }
    }

    /// Puts a pair made at `at` behind the others, unless the same entry is
    /// there already or its title is taken. Without a title the pair gets
    /// the placeholder title. On an error nothing changes.
    pub fn add_new_at(&mut self, url: &str, title_opt: Option<&str>, at: Timestamp) -> (r: Result<
        (),
        Errors,
    >)
        requires
            old(self).wf(),
            old(self)@.pairs.len() < usize::MAX,
        ensures
            final(self).wf(),
            match old(self)@.add_error(url@, resolved_title(title_opt)) {
                Some(e) => r == Err::<(), Errors>(e) && *final(self) == *old(self),
                None => r is Ok && final(self)@ == old(self)@.added(
                    url@,
                    resolved_title(title_opt),
                    at,
                ),
            },
            titles_unique(old(self)@.pairs) ==> titles_unique(final(self)@.pairs),
    {
        let title: &str = match title_opt {
            Some(given) => given,
            None => "Title not given",
        };
        let ghost pairs = self@.pairs;
        if self.find_entry(url, title).is_some() {
            return Err(Errors::PairAlreadyExistsError);
        }
        if find_title(&self.by_title, title).is_some() {
            return Err(Errors::TitleCollisionError);
        }
        let position = self.pairs.len();
        let pair = URLTitlePair::from_save(url.to_owned(), title.to_owned(), at);
        enter_url(&mut self.by_url, url, position, Ghost(pairs), Ghost(pair@));
        enter_title(&mut self.by_title, title, position, Ghost(pairs), Ghost(pair@));
        self.pairs.push(pair);
        self.t_last_modified = at;
        assert(self@.pairs =~= pairs.push(pair@));
        Ok(())
    }

    /// Puts a pair made now behind the others, unless the same entry is
    /// there already or its title is taken. On success the pair's time of
    /// creation is the profile's new time of last change.
    pub fn add_new(&mut self, url: &str, title_opt: Option<&str>) -> (r: Result<(), Errors>)
        requires
            old(self).wf(),
            old(self)@.pairs.len() < usize::MAX,
        ensures
            final(self).wf(),
            match old(self)@.add_error(url@, resolved_title(title_opt)) {
                Some(e) => r == Err::<(), Errors>(e) && *final(self) == *old(self),
                None => r is Ok && final(self)@ == old(self)@.added(
                    url@,
                    resolved_title(title_opt),
                    final(self)@.last_modified,
                ),
            },
            titles_unique(old(self)@.pairs) ==> titles_unique(final(self)@.pairs),
    {
        self.add_new_at(url, title_opt, now())
    }

    /// Takes out the first pair that is the same entry as `pair`, at `at`.
    /// On an error nothing changes.
    pub fn remove_pair_at(&mut self, pair: &URLTitlePair, at: Timestamp) -> (r: Result<(), Errors>)
        requires
            old(self).wf(),
        ensures
            final(self).wf(),
            r is Ok <==> has_entry(old(self)@.pairs, pair@.url, pair@.title),
            r is Ok ==> final(self)@ == old(self)@.removed(pair@.url, pair@.title, at),
            r is Err ==> r == Err::<(), Errors>(Errors::LookupDeletionFailedError) && *final(self)
                == *old(self),
            titles_unique(old(self)@.pairs) ==> titles_unique(final(self)@.pairs),
    {
        let ghost pairs = self@.pairs;
        match self.find_entry(pair.get_url().as_str(), pair.get_title().as_str()) {
            None => Err(Errors::LookupDeletionFailedError),
            Some(p) => {
                self.pairs.remove(p);
                let (by_url, by_title) = rebuild(&self.pairs);
                self.by_url = by_url;
                self.by_title = by_title;
                self.t_last_modified = at;
                proof {
                    assert(self@.pairs =~= pairs.remove(p as int));
                }
                Ok(())
            },
        }
    }

    /// Takes out the first pair that is the same entry as `pair`, now.
    pub fn remove_pair(&mut self, pair: &URLTitlePair) -> (r: Result<(), Errors>)
        requires
            old(self).wf(),
        ensures
            final(self).wf(),
            r is Ok <==> has_entry(old(self)@.pairs, pair@.url, pair@.title),
            r is Ok ==> final(self)@ == old(self)@.removed(
                pair@.url,
                pair@.title,
                final(self)@.last_modified,
            ),
            r is Err ==> r == Err::<(), Errors>(Errors::LookupDeletionFailedError) && *final(self)
                == *old(self),
            titles_unique(old(self)@.pairs) ==> titles_unique(final(self)@.pairs),
    {
        self.remove_pair_at(pair, now())
    }

    /// Gives the first pair that is the same entry as `pair` another URL and
    /// another title, at `at`, and puts the indices in step. On an error
    /// nothing changes; nor does anything change where the pair has that URL
    /// and that title already.
    pub fn update_pair_at(
        &mut self,
        pair: &URLTitlePair,
        new_url: &str,
        new_title: &str,
        at: Timestamp,
    ) -> (r: Result<(), Errors>)
        requires
            old(self).wf(),
        ensures
            final(self).wf(),
            match old(self)@.update_error(pair@.url, pair@.title, new_url@, new_title@) {
                Some(e) => r == Err::<(), Errors>(e) && *final(self) == *old(self),
                None => r is Ok && if pair@.url == new_url@ && pair@.title == new_title@ {
                    *final(self) == *old(self)
                } else {
                    final(self)@ == old(self)@.updated(
                        pair@.url,
                        pair@.title,
                        new_url@,
                        new_title@,
                        at,
                    )
                },
            },
            titles_unique(old(self)@.pairs) ==> titles_unique(final(self)@.pairs),
    {
        let ghost pairs = self@.pairs;
        let url = pair.get_url().as_str();
        let title = pair.get_title().as_str();
        let position = match self.find_entry(url, title) {
            Some(position) => position,
            None => {
                return Err(Errors::LookupFailedError);
            },
        };
        let mut entry_taken = false;
        let mut title_taken = false;
        let mut i: usize = 0;
        while i < self.pairs.len()
            invariant
                i <= self.pairs.len(),
                pairs == self@.pairs,
                position < pairs.len(),
                entry_taken ==> self@.other_has_entry(new_url@, new_title@, position as int),
                title_taken ==> self@.other_has_title(new_title@, position as int),
                forall|j: int|
                    0 <= j < i && j != position && entry_at(pairs, new_url@, new_title@, j)
                        ==> entry_taken,
                forall|j: int|
                    0 <= j < i && j != position && (#[trigger] pairs[j]).title == new_title@
                        ==> title_taken,
            decreases self.pairs.len() - i,
        {
            if i != position && str_eq(self.pairs[i].get_title().as_str(), new_title) {
                assert(pairs[i as int].title == new_title@);
                title_taken = true;
                if str_eq(self.pairs[i].get_url().as_str(), new_url) {
                    assert(entry_at(pairs, new_url@, new_title@, i as int));
                    entry_taken = true;
                }
            }
            i += 1;
        }
        if entry_taken {
            return Err(Errors::PairAlreadyExistsError);
        }
        if title_taken {
            return Err(Errors::TitleCollisionError);
        }
        if str_eq(url, new_url) && str_eq(title, new_title) {
            return Ok(());
        }
        let _ = self.pairs[position].update_url(new_url);
        let _ = self.pairs[position].update_title(new_title);
        let (by_url, by_title) = rebuild(&self.pairs);
        self.by_url = by_url;
        self.by_title = by_title;
        self.t_last_modified = at;
        proof {
            let after = self@.pairs;
            assert(after =~= pairs.update(
                position as int,
                PairView { url: new_url@, title: new_title@, ..pairs[position as int] },
            ));
        }
        Ok(())
    }

    /// Gives the first pair that is the same entry as `pair` another URL and
    /// another title, now.
    pub fn update_pair(&mut self, pair: &URLTitlePair, new_url: &str, new_title: &str) -> (r:
        Result<(), Errors>)
        requires
            old(self).wf(),
        ensures
            final(self).wf(),
            match old(self)@.update_error(pair@.url, pair@.title, new_url@, new_title@) {
                Some(e) => r == Err::<(), Errors>(e) && *final(self) == *old(self),
                None => r is Ok && if pair@.url == new_url@ && pair@.title == new_title@ {
                    *final(self) == *old(self)
                } else {
                    final(self)@ == old(self)@.updated(
                        pair@.url,
                        pair@.title,
                        new_url@,
                        new_title@,
                        final(self)@.last_modified,
                    )
                },
            },
            titles_unique(old(self)@.pairs) ==> titles_unique(final(self)@.pairs),
    {
        self.update_pair_at(pair, new_url, new_title, now())
    }

    /// Sets or takes away the highlight of the pair at `position`. It is an
    /// error, and nothing changes, where there is no such pair.
    pub fn highlight_pair(&mut self, position: usize, is: bool) -> (r: Result<(), Errors>)
        requires
            old(self).wf(),
        ensures
            final(self).wf(),
            r is Ok <==> position < old(self)@.pairs.len(),
            r is Ok ==> final(self)@ == old(self)@.with_highlight(position as int, is),
            r is Err ==> r == Err::<(), Errors>(Errors::LookupFailedError) && *final(self) == *old(
                self,
            ),
    {
        if position >= self.pairs.len() {
            return Err(Errors::LookupFailedError);
        }
        let ghost before = self@.pairs;
        self.pairs[position].set_highlighted(is);
        proof {
            let after = self@.pairs;
            assert(after =~= before.update(
                position as int,
                PairView { highlighted: is, ..before[position as int] },
            ));
        }
        Ok(())
    }

    /// Gives the profile another name, at `at`.
    pub fn change_name_at(&mut self, new_name: &str, at: Timestamp)
        requires
            old(self).wf(),
        ensures
            final(self).wf(),
            final(self)@ == old(self)@.renamed(new_name@, at),
    {
        self.name = new_name.to_owned();
        self.t_last_modified = at;
    }

    /// Gives the profile another name, now.
    pub fn change_name(&mut self, new_name: &str)
        requires
            old(self).wf(),
        ensures
            final(self).wf(),
            final(self)@ == old(self)@.renamed(new_name@, final(self)@.last_modified),
    {
        self.change_name_at(new_name, now())
    }

    /// Lists the pairs in the order of `mode`, at `at`. Nothing changes, the
    /// time of last change included, where the profile is listed by `mode`
    /// already.
    pub fn change_sort_mode_at(&mut self, mode: SortMode, at: Timestamp)
        requires
            old(self).wf(),
        ensures
            final(self).wf(),
            old(self)@.sorted_to(final(self)@, mode, at),
            mode == old(self)@.sort_mode ==> *final(self) == *old(self),
            titles_unique(old(self)@.pairs) ==> titles_unique(final(self)@.pairs),
    {
        if self.sort == mode {
            return ;
        }
        sort_pairs(&mut self.pairs, mode);
        let (by_url, by_title) = rebuild(&self.pairs);
        self.by_url = by_url;
        self.by_title = by_title;
        self.sort = mode;
        self.t_last_modified = at;
    }

    /// Lists the pairs in the order of `mode`, now.
    pub fn change_sort_mode(&mut self, mode: SortMode)
        requires
            old(self).wf(),
        ensures
            final(self).wf(),
            old(self)@.sorted_to(final(self)@, mode, final(self)@.last_modified),
            mode == old(self)@.sort_mode ==> *final(self) == *old(self),
            titles_unique(old(self)@.pairs) ==> titles_unique(final(self)@.pairs),
    {
        self.change_sort_mode_at(mode, now())
    }

    /// The positions of the pairs that a search for `query` finds, in
    /// ascending order; an error where it finds none.
    pub fn search(&self, query: &str, mode: SearchMode) -> (r: Result<Vec<usize>, Errors>)
        requires
            self.wf(),
        ensures
            match r {
                Ok(found) => found.len() > 0 && is_search_result(
                    self@.pairs,
                    query@,
                    mode,
                    found@,
                ),
                Err(e) => e == Errors::NothingFoundError && forall|i: int|
                    !is_match(self@.pairs, query@, mode, i),
            },
    {
        let mut marks = no_marks(self.pairs.len());
        match mode {
            SearchMode::ByURL(blurry) => {
                mark_urls(&mut marks, &self.by_url, query, blurry, Ghost(self@.pairs));
            },
            SearchMode::ByTitle(blurry) => {
                mark_titles(&mut marks, &self.by_title, query, blurry, Ghost(self@.pairs));
            },
            SearchMode::EitherMatch(blurry) => {
                mark_urls(&mut marks, &self.by_url, query, blurry, Ghost(self@.pairs));
                mark_titles(&mut marks, &self.by_title, query, blurry, Ghost(self@.pairs));
            },
        }
        let found = collect_marked(&marks);
        proof {
            let pairs = self@.pairs;
            assert forall|i: int| is_match(pairs, query@, mode, i) implies found@.contains(
                i as usize,
            ) by {
                assert(marks[i]);
            }
        }
        if found.len() == 0 {
            Err(Errors::NothingFoundError)
        } else {
            Ok(found)
        }
    }

    /// The positions listed under `url` in the index by URL, in ascending
    /// order; none where the index has no such URL.
    pub fn positions_of_url(&self, url: &str) -> (positions: Vec<usize>)
        requires
            self.wf(),
        ensures
            positions.len() > 0 <==> self.by_url().contains_key(url@),
            forall|a: int, b: int| 0 <= a < b < positions.len() ==> positions[a] < positions[b],
            forall|i: int|
                0 <= i <= usize::MAX ==> (positions@.contains(i as usize) <==> self.by_url().contains_key(
                    url@,
                ) && self.by_url()[url@].contains(i)),
    {
        match find_url(&self.by_url, url) {
            Some(k) => {
                self.by_url[k].positions.clone()
            },
            None => Vec::new(),
        }
    }

    /// The position that `title` leads to in the index by title, if the
    /// index has the title.
    pub fn position_of_title(&self, title: &str) -> (position: Option<usize>)
        requires
            self.wf(),
        ensures
            position is Some <==> self.by_title().contains_key(title@),
            position is Some ==> position->0 == self.by_title()[title@],
    {
        match find_title(&self.by_title, title) {
            Some(k) => {
                Some(self.by_title[k].position)
            },
            None => None,
        }
    }

    pub fn get_sort_mode(self) -> (mode: SortMode)
        ensures
            mode == self@.sort_mode,
    {
        self.sort
    }

    /// The order the pairs are listed in.
    pub fn sort_mode(&self) -> (mode: SortMode)
        ensures
            mode == self@.sort_mode,
    {
        self.sort
    }

    pub fn get_id(self) -> (id: usize)
        ensures
            id == self@.id,
    {
        self.id
    }

    pub fn id(&self) -> (id: usize)
        ensures
            id == self@.id,
    {
        self.id
    }

    pub fn get_name(&self) -> (name: &String)
        ensures
            name@ == self@.name,
    {
        &self.name
    }

    pub fn get_pairs(&self) -> (pairs: &Vec<URLTitlePair>)
        ensures
            views_of(pairs@) == self@.pairs,
    {
        &self.pairs
    }

    pub fn get_time_created(&self) -> (t: Timestamp)
        ensures
            t == self@.created,
    {
        self.t_created
    }

    pub fn get_time_last_visited(&self) -> (t: Timestamp)
        ensures
            t == self@.last_modified,
    {
        self.t_last_modified
    }
}

/// What the profiles of a list hold, in the list's order.
pub open spec fn profile_views(profiles: Seq<Profile>) -> Seq<ProfileView> {
    profiles.map_values(|p: Profile| p@)
}

impl Default for Profile {
    /// The empty profile with number 0 and no name, made at the start of
    /// 1970.
    fn default() -> (profile: Self)
        ensures
            profile.wf(),
            profile@ == (ProfileView {
                id: 0,
                name: Seq::empty(),
                pairs: Seq::empty(),
                sort_mode: SortMode::ByDateCreation,
                created: Timestamp { secs: 0, nanos: 0 },
                last_modified: Timestamp { secs: 0, nanos: 0 },
            }),
    {
        let name = String::new();
        Profile::new_at(0, name.as_str(), Timestamp::new(0, 0))
    }
}

/// What a builder has been told so far, as mathematics.
pub ghost struct BuilderView {
    pub id: usize,
    pub name: Option<Seq<char>>,
    pub pairs: Option<Seq<PairView>>,
    pub sort_mode: SortMode,
}

/// The name of a profile that was given none: a fixed text and the
/// profile's number in decimal.
pub open spec fn unnamed(id: usize) -> Seq<char> {
    "# Unnamed Profile No. "@ + decimal_digits(id as nat)
}

impl BuilderView {
    /// The profile that is built from this at `at`.
    pub open spec fn built(self, at: Timestamp) -> ProfileView {
        ProfileView {
            id: self.id,
            name: match self.name {
                Some(name) => name,
                None => unnamed(self.id),
            },
            pairs: match self.pairs {
                Some(pairs) => pairs,
                None => Seq::empty(),
            },
            sort_mode: self.sort_mode,
            created: at,
            last_modified: at,
        }
    }
}

/// Collects what a profile is to be made of.
#[derive(Debug)]
pub struct ProfileBuilder {
    id: usize,
    name: Option<String>,
    pairs: Option<Vec<URLTitlePair>>,
    sort: SortMode,
}

impl View for ProfileBuilder {
    type V = BuilderView;

    closed spec fn view(&self) -> BuilderView {
        BuilderView {
            id: self.id,
            name: match self.name {
                Some(name) => Some(name@),
                None => None,
            },
            pairs: match self.pairs {
                Some(pairs) => Some(views_of(pairs@)),
                None => None,
            },
            sort_mode: self.sort,
        }
    }
}

impl Profile {
    /// A builder for a profile with the next number of `ids`.
    pub fn builder(ids: &mut IdAllocator) -> (builder: ProfileBuilder)
        ensures
            builder@ == (BuilderView {
                id: old(ids).upcoming(),
                name: None,
                pairs: None,
                sort_mode: SortMode::ByDateCreation,
            }),
            final(ids).upcoming() == if old(ids).upcoming() == usize::MAX {
                0
            } else {
                old(ids).upcoming() + 1
            },
    {
        ProfileBuilder::new(ids)
    }
}

impl ProfileBuilder {
    /// A builder for a profile with the next number of `ids`, so far without
    /// a name and without pairs, to be listed by date of creation.
    pub fn new(ids: &mut IdAllocator) -> (builder: Self)
        ensures
            builder@ == (BuilderView {
                id: old(ids).upcoming(),
                name: None,
                pairs: None,
                sort_mode: SortMode::ByDateCreation,
            }),
            final(ids).upcoming() == if old(ids).upcoming() == usize::MAX {
                0
            } else {
                old(ids).upcoming() + 1
            },
    {
        ProfileBuilder { id: ids.next_id(), name: None, pairs: None, sort: SortMode::ByDateCreation }
    }

    pub fn add_name(self, name: &str) -> (builder: Self)
        ensures
            builder@ == (BuilderView { name: Some(name@), ..self@ }),
    {
        let mut builder = self;
        builder.name = Some(name.to_owned());
        builder
    }

    /// Puts a pair made now behind the pairs collected so far.
    pub fn add_title_url_pair(self, url: &str, title: &str) -> (builder: Self)
        ensures
            builder@.id == self@.id,
            builder@.name == self@.name,
            builder@.sort_mode == self@.sort_mode,
            builder@.pairs is Some,
            builder@.pairs->0.len() > 0,
            builder@.pairs->0.drop_last() == match self@.pairs {
                Some(pairs) => pairs,
                None => Seq::empty(),
            },
            builder@.pairs->0.last() == (PairView {
                url: url@,
                title: title@,
                created: builder@.pairs->0.last().created,
                highlighted: false,
            }),
    {
        let mut one: Vec<URLTitlePair> = Vec::new();
        one.push(URLTitlePair::new(url, title));
        let builder = self.add_many_title_url_pairs(one);
        builder
    }

    /// Puts the pairs behind the pairs collected so far.
    pub fn add_many_title_url_pairs(self, url_titles: Vec<URLTitlePair>) -> (builder: Self)
        ensures
            builder@ == (BuilderView {
                pairs: Some(
                    match self@.pairs {
                        Some(pairs) => pairs + views_of(url_titles@),
                        None => views_of(url_titles@),
                    },
                ),
                ..self@
            }),
    {
        let ProfileBuilder { id, name, pairs, sort } = self;
        let mut url_titles = url_titles;
        let ghost more = views_of(url_titles@);
        let pairs = match pairs {
            Some(mut pairs) => {
                let ghost before = views_of(pairs@);
                pairs.append(&mut url_titles);
                assert(views_of(pairs@) =~= before + more);
                pairs
            },
            None => url_titles,
        };
        ProfileBuilder { id, name, pairs: Some(pairs), sort }
    }

    pub fn set_sort_mode(self, mode: SortMode) -> (builder: Self)
        ensures
            builder@ == (BuilderView { sort_mode: mode, ..self@ }),
    {
        let mut builder = self;
        builder.sort = mode;
        builder
    }

    /// The profile, made at `at`. The pairs stay in the order they were
    /// collected in, whatever the order the profile is to be listed by.
    pub fn build_at(self, at: Timestamp) -> (profile: Profile)
        ensures
            profile.wf(),
            profile@ == self@.built(at),
    {
        let ProfileBuilder { id, name, pairs, sort } = self;
        let name = match name {
            Some(name) => name,
            None => {
                let mut name = "# Unnamed Profile No. ".to_owned();
                let number = decimal_text(id);
                name.append(number.as_str());
                name
            },
        };
        let pairs = match pairs {
            Some(pairs) => pairs,
            None => Vec::new(),
        };
        let (by_url, by_title) = rebuild(&pairs);
        let profile = Profile {
            id,
            name,
            pairs,
            by_url,
            by_title,
            sort,
            t_created: at,
            t_last_modified: at,
        };
        assert(profile@.pairs =~= self@.built(at).pairs);
        profile
    }

    /// The profile, made now.
    pub fn build(self) -> (profile: Profile)
        ensures
            profile.wf(),
            profile@ == self@.built(profile@.created),
    {
        self.build_at(now())
    }
}

} // verus!
