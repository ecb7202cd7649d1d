//! Profiles as they are kept in files: which files count, how a saved time
//! is read, and how the records of one file become a profile.

use vstd::prelude::*;
use vstd::string::{StrSliceExecFns, StringExecFns};
use crate::errors::Errors;
use crate::pair::{views_of, PairView, URLTitlePair};
use crate::profile::{profile_views, Profile, ProfileView, SortMode};
use crate::text::{
    chars_occur_at, chars_of, number_of_text, parse_number, fields_of, split_chars, split_fields,
};
use crate::time::{civil_seconds, seconds_of_civil, Timestamp};

verus! {

/// What the name of a profile file begins with.
pub const FILE_PREFIX: &'static str = "ITR_PRFL_";

/// What the name of a profile file ends with.
pub const FILE_EXTSN: &'static str = ".toml";

/// What stands between the six numbers of a saved time.
pub const TIME_SEPARATOR: &'static str = "::";

/// The title that a saved tab without a title gets.
pub const MISSING_TITLE: &'static str = "No Title Given";

/// One saved tab, as its file gives it.
#[derive(Debug, Clone)]
pub struct BrowserTab {
    pub url: String,
    pub title: String,
    pub t_created: String,
}

/// What a profile file says of the profile itself.
#[derive(Debug, Clone)]
pub struct General {
    pub name: String,
    pub id: u16,
    pub time_created: String,
}

/// The records of one profile file.
#[derive(Debug, Clone)]
pub struct Config {
    pub general: General,
    pub browser_tabs: Vec<BrowserTab>,
}

/// A file of the directory: its name, and its records where it was read.
#[derive(Debug, Clone)]
pub struct ProfileFile {
    pub file_name: String,
    pub config: Option<Config>,
}

/// The name is that of a profile file: it begins with the prefix and ends
/// with the extension.
pub open spec fn is_profile_file_name(name: Seq<char>) -> bool {
    FILE_PREFIX@.is_prefix_of(name) && FILE_EXTSN@.is_suffix_of(name)
}

/// Whether the name is that of a profile file.
pub fn is_file_pattern_correct(file_name: &str) -> (r: bool)
    ensures
        r == is_profile_file_name(file_name@),
{
    let name = chars_of(file_name);
    let prefix = chars_of(FILE_PREFIX);
    let ending = chars_of(FILE_EXTSN);
    if prefix.len() > name.len() || ending.len() > name.len() {
        return false;
    }
    let begins = chars_occur_at(&prefix, &name, 0);
    let ends = chars_occur_at(&ending, &name, name.len() - ending.len());
    begins && ends
}

/// The numbers among the fields of a text: each field that writes a number
/// gives it, and the other fields are passed over.
pub open spec fn numbers_of(fields: Seq<Seq<char>>) -> Seq<u32> {
    fields.filter_map(|field: Seq<char>| number_of_text(field))
}

/// The time that a text gives: the text is cut at the separator, and the
/// numbers among its fields, which have to be six, are read as year, month,
/// day, hour, minute and second. The year is taken as a signed number of 32
/// bits. There is no time where the calendar has no such day or the day no
/// such second.
pub open spec fn time_of_text(text: Seq<char>, separator: Seq<char>) -> Option<Timestamp> {
    let numbers = numbers_of(split_fields(text, separator));
    if numbers.len() != 6 {
        None
    } else {
        match civil_seconds(
            numbers[0] as i32,
            numbers[1],
            numbers[2],
            numbers[3],
            numbers[4],
            numbers[5],
        ) {
            Some(secs) => Some(Timestamp { secs, nanos: 0 }),
            None => None,
        }
    }
}

/// The numbers among the fields that `separator` cuts `text` into.
pub fn time_numbers(text: &str, separator: &str) -> (numbers: Vec<u32>)
    ensures
        numbers@ == numbers_of(split_fields(text@, separator@)),
{
    let chars = chars_of(text);
    let cut = chars_of(separator);
    let fields = split_chars(&chars, &cut);
    let mut numbers: Vec<u32> = Vec::new();
    let ghost all = fields_of(fields@);
    let ghost read = |field: Seq<char>| number_of_text(field);
    let mut i: usize = 0;
    while i < fields.len()
        invariant
            i <= fields.len(),
            all == fields_of(fields@),
            read == |field: Seq<char>| number_of_text(field),
            numbers@ == all.take(i as int).filter_map(read),
        decreases fields.len() - i,
    {
        proof {
            all.lemma_filter_map_take_succ(read, i as int);
        }
        match parse_number(&fields[i]) {
            Some(n) => {
                numbers.push(n);
            },
            None => {},
        }
        i += 1;
    }
    assert(all.take(i as int) =~= all);
    numbers
}

/// Reads a saved time.
pub fn parse_into_naivedatetime(t: String, separator: &str) -> (r: Option<Timestamp>)
    ensures
        r == time_of_text(t@, separator@),
{
    let numbers = time_numbers(t.as_str(), separator);
    if numbers.len() != 6 {
        return None;
    }
    match seconds_of_civil(
        numbers[0] as i32,
        numbers[1],
        numbers[2],
        numbers[3],
        numbers[4],
        numbers[5],
    ) {
        Some(secs) => Some(Timestamp::new(secs, 0)),
        None => None,
    }
}

/// The pair that a saved tab gives: none where the tab has no URL or its
/// time cannot be read; the placeholder for saved tabs where it has no
/// title.
pub open spec fn pair_of_tab(tab: BrowserTab) -> Option<PairView> {
    if tab.url@.len() == 0 {
        None
    } else {
        match time_of_text(tab.t_created@, TIME_SEPARATOR@) {
            Some(created) => Some(
                PairView {
                    url: tab.url@,
                    title: if tab.title@.len() == 0 {
                        MISSING_TITLE@
                    } else {
                        tab.title@
                    },
                    created,
                    highlighted: false,
                },
            ),
            None => None,
        }
    }
}

/// The profile that the records of a file give: none where the time of the
/// profile cannot be read; else the profile with the saved number, name and
/// time, and with the pairs of the saved tabs in their order.
pub open spec fn profile_of_config(config: Config) -> Option<ProfileView> {
    match time_of_text(config.general.time_created@, TIME_SEPARATOR@) {
        Some(created) => Some(
            ProfileView {
                id: config.general.id as usize,
                name: config.general.name@,
                pairs: config.browser_tabs@.filter_map(|tab: BrowserTab| pair_of_tab(tab)),
                sort_mode: SortMode::ByDateCreation,
                created,
                last_modified: created,
            },
        ),
        None => None,
    }
}

/// The pair that a saved tab gives.
fn pair_from_tab(tab: &BrowserTab) -> (r: Option<URLTitlePair>)
    ensures
        r is Some == pair_of_tab(*tab) is Some,
        r is Some ==> r->0@ == pair_of_tab(*tab)->0,
{
    if tab.url.as_str().is_empty() {
        return None;
    }
    let title = if tab.title.as_str().is_empty() {
        MISSING_TITLE.to_owned()
    } else {
        tab.title.clone()
    };
    match parse_into_naivedatetime(tab.t_created.clone(), TIME_SEPARATOR) {
        Some(created) => Some(URLTitlePair::from_save(tab.url.clone(), title, created)),
        None => None,
    }
}

/// Builds the profile that the records of a file give.
pub fn parse_toml(config: &Config) -> (r: Option<Profile>)
    ensures
        r is Some == profile_of_config(*config) is Some,
        r is Some ==> r->0.wf() && r->0@ == profile_of_config(*config)->0,
{
    let created = match parse_into_naivedatetime(
        config.general.time_created.clone(),
        TIME_SEPARATOR,
    ) {
        Some(created) => created,
        None => {
            return None;
        },
    };
    let mut pairs: Vec<URLTitlePair> = Vec::new();
    let ghost tabs = config.browser_tabs@;
    let ghost read = |tab: BrowserTab| pair_of_tab(tab);
    let mut i: usize = 0;
    while i < config.browser_tabs.len()
        invariant
            i <= config.browser_tabs.len(),
            tabs == config.browser_tabs@,
            read == |tab: BrowserTab| pair_of_tab(tab),
            views_of(pairs@) == tabs.take(i as int).filter_map(read),
        decreases config.browser_tabs.len() - i,
    {
        proof {
            tabs.lemma_filter_map_take_succ(read, i as int);
        }
        match pair_from_tab(&config.browser_tabs[i]) {
            Some(pair) => {
                pairs.push(pair);
            },
            None => {},
        }
        i += 1;
    }
    assert(tabs.take(i as int) =~= tabs);
    Some(Profile::hydrate(config.general.id as usize, config.general.name.as_str(), created, pairs))
}

/// The profile that a file of the directory gives: none unless its name is
/// that of a profile file, it was read, and its records give a profile.
pub open spec fn profile_of_file(file: ProfileFile) -> Option<ProfileView> {
    if !is_profile_file_name(file.file_name@) {
        None
    } else {
        match file.config {
            Some(config) => profile_of_config(config),
            None => None,
        }
    }
}

/// The profiles of a directory, in the order of its files. It is an error
/// if the directory gives no profile at all.
pub fn read_profiles(files: Vec<ProfileFile>) -> (r: Result<Vec<Profile>, Errors>)
    ensures
        match r {
            Ok(profiles) => {
                &&& profiles.len() > 0
                &&& profile_views(profiles@) == files@.filter_map(
                    |file: ProfileFile| profile_of_file(file),
                )
                &&& forall|i: int| 0 <= i < profiles.len() ==> (#[trigger] profiles[i]).wf()
            },
            Err(e) => {
                &&& e == Errors::NoTOMLFilesFoundError
                &&& files@.filter_map(|file: ProfileFile| profile_of_file(file)).len() == 0
            },
        },
{
    let mut profiles: Vec<Profile> = Vec::new();
    let ghost read = |file: ProfileFile| profile_of_file(file);
    let mut i: usize = 0;
    while i < files.len()
        invariant
            i <= files.len(),
            read == |file: ProfileFile| profile_of_file(file),
            profile_views(profiles@) == files@.take(i as int).filter_map(read),
            forall|j: int| 0 <= j < profiles.len() ==> (#[trigger] profiles[j]).wf(),
        decreases files.len() - i,
    {
        proof {
            files@.lemma_filter_map_take_succ(read, i as int);
        }
        let file = &files[i];
        if is_file_pattern_correct(file.file_name.as_str()) {
            match &file.config {
                Some(config) => {
                    match parse_toml(config) {
                        Some(profile) => {
                            profiles.push(profile);
                        },
                        None => {},
                    }
                },
                None => {},
            }
        }
        i += 1;
    }
    assert(files@.take(i as int) =~= files@);
    if profiles.len() > 0 {
        Ok(profiles)
    } else {
        Err(Errors::NoTOMLFilesFoundError)
    }
}

/// How a character of a printed time is saved: a separator stands for a
/// colon, a blank or a hyphen, and every other character for itself.
pub open spec fn saved_char(c: char) -> Seq<char> {
    if c == ':' || c == ' ' || c == '-' {
        "::"@
    } else {
        seq![c]
    }
}

/// How a run of characters of a printed time is saved.
pub open spec fn saved_chars(s: Seq<char>) -> Seq<char>
    decreases s.len(),
{
    if s.len() == 0 {
        Seq::empty()
    } else {
        saved_chars(s.drop_last()) + saved_char(s.last())
    }
}

/// The first full stop of `s` stands at position `k`.
pub open spec fn first_stop_at(s: Seq<char>, k: int) -> bool {
    &&& 0 <= k < s.len()
    &&& s[k] == '.'
    &&& forall|j: int| 0 <= j < k ==> s[j] != '.'
}

/// Turns a time with a fraction of a second, as it is printed, into the
/// form it is saved in: what stands before the first full stop, with a
/// separator in place of each colon, blank and hyphen. A text without a
/// full stop has no such form.
pub fn time_for_saving(printed: &str) -> (r: Option<String>)
    ensures
        match r {
            Some(text) => exists|k: int|
                first_stop_at(printed@, k) && text@ == saved_chars(printed@.take(k)),
            None => forall|k: int| 0 <= k < printed@.len() ==> printed@[k] != '.',
        },
{
    let chars = chars_of(printed);
    let mut text = String::new();
    let mut i: usize = 0;
    while i < chars.len()
        invariant
            i <= chars.len(),
            chars@ == printed@,
            forall|j: int| 0 <= j < i ==> chars[j] != '.',
            text@ == saved_chars(chars@.take(i as int)),
        decreases chars.len() - i,
    {
        let c = chars[i];
        if c == '.' {
            assert(first_stop_at(printed@, i as int));
            return Some(text);
        }
        assert(chars@.take(i + 1).drop_last() =~= chars@.take(i as int));
        if c == ':' || c == ' ' || c == '-' {
            text.append("::");
        } else {
            let one = printed.substring_char(i, i + 1);
            text.append(one);
        }
        i += 1;
    }
    None
}

} // verus!
