//! One bookmark: a URL, its title, the time it was made and a highlight flag.

use vstd::prelude::*;
use vstd::std_specs::cmp::PartialEqSpecImpl;
use crate::errors::Errors;
use crate::time::{now, Timestamp};

verus! {

/// What a pair holds, as mathematics.
pub ghost struct PairView {
    pub url: Seq<char>,
    pub title: Seq<char>,
    pub created: Timestamp,
    pub highlighted: bool,
}

/// A URL with its title. Two pairs are the same entry when both their URLs
/// and their titles agree; when they were made and whether they are
/// highlighted plays no part in that.
#[derive(Debug, Clone)]
pub struct URLTitlePair {
    pub url: String,
    pub title: String,
    t_created: Timestamp,
    is_highlighted: bool,
}

impl View for URLTitlePair {
    type V = PairView;

    closed spec fn view(&self) -> PairView {
        PairView {
            url: self.url@,
            title: self.title@,
            created: self.t_created,
            highlighted: self.is_highlighted,
        }
    }
}

/// What the pairs of a list hold, in the list's order.
pub open spec fn views_of(pairs: Seq<URLTitlePair>) -> Seq<PairView> {
    pairs.map_values(|p: URLTitlePair| p@)
}

/// Two pairs are the same entry: same URL, same title.
pub open spec fn same_entry(a: PairView, b: PairView) -> bool {
    a.url == b.url && a.title == b.title
}

/// The URL of the pair that stands in where no pair has been chosen yet.
pub open spec fn placeholder_url() -> Seq<char> {
    "about:blank"@
}

/// The title given to a pair that comes without one.
pub open spec fn placeholder_title() -> Seq<char> {
    "Title not given"@
}

impl URLTitlePair {
    /// A pair made now, not highlighted.
    pub fn new(url: &str, title: &str) -> (pair: Self)
        ensures
            pair@.url == url@,
            pair@.title == title@,
            !pair@.highlighted,
    {
        Self::from_save(url.to_owned(), title.to_owned(), now())
    }

    /// A pair with a known time of creation, not highlighted.
    pub fn from_save(url: String, title: String, t_created: Timestamp) -> (pair: Self)
        ensures
            pair@ == (PairView { url: url@, title: title@, created: t_created, highlighted: false }),
    {
        URLTitlePair { url, title, t_created, is_highlighted: false }
    }

    pub fn is_highlighted(self) -> (r: bool)
        ensures
            r == self@.highlighted,
    {
        self.is_highlighted
    }

    /// Whether the pair is highlighted.
    pub fn highlighted(&self) -> (r: bool)
        ensures
            r == self@.highlighted,
    {
        self.is_highlighted
    }

    pub fn set_highlighted(&mut self, is: bool)
        ensures
            final(self)@ == (PairView { highlighted: is, ..old(self)@ }),
    {
        self.is_highlighted = is;
    }

    pub fn get_url(&self) -> (url: &String)
        ensures
            url@ == self@.url,
    {
        &self.url
    }

    pub fn get_title(&self) -> (title: &String)
        ensures
            title@ == self@.title,
    {
        &self.title
    }

    /// The time the pair was made.
    pub fn created_at(&self) -> (t: Timestamp)
        ensures
            t == self@.created,
    {
        self.t_created
    }

    /// Replaces the URL. Never fails.
    pub fn update_url(&mut self, new_url: &str) -> (r: Result<(), Errors>)
        ensures
            r is Ok,
            final(self)@ == (PairView { url: new_url@, ..old(self)@ }),
    {
        self.url = new_url.to_owned();
        Ok(())
    }

    /// Replaces the title. Never fails.
    pub fn update_title(&mut self, new_title: &str) -> (r: Result<(), Errors>)
        ensures
            r is Ok,
            final(self)@ == (PairView { title: new_title@, ..old(self)@ }),
    {
        self.title = new_title.to_owned();
        Ok(())
    }

    /// Whether `self` and `other` are the same entry.
    pub fn same_as(&self, other: &URLTitlePair) -> (r: bool)
        ensures
            r == same_entry(self@, other@),
    {
        self.url == other.url && self.title == other.title
    }
}

impl Default for URLTitlePair {
    /// The placeholder pair: a blank page under the placeholder title, made
    /// at the start of 1970.
    fn default() -> (pair: Self)
        ensures
            pair@ == (PairView {
                url: placeholder_url(),
                title: placeholder_title(),
                created: Timestamp { secs: 0, nanos: 0 },
                highlighted: false,
            }),
    {
        URLTitlePair::from_save(
            "about:blank".to_owned(),
            "Title not given".to_owned(),
            Timestamp::new(0, 0),
        )
    }
}

impl PartialEq for URLTitlePair {
    fn eq(&self, other: &URLTitlePair) -> (r: bool) {
        self.same_as(other)
    }
}

impl PartialEqSpecImpl for URLTitlePair {
    open spec fn obeys_eq_spec() -> bool {
        true
    }

    open spec fn eq_spec(&self, other: &URLTitlePair) -> bool {
        same_entry(self@, other@)
    }
}

} // verus!
