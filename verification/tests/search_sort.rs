use firefox_resumer::pair::URLTitlePair;
use firefox_resumer::sorting::{precedes, sort_pairs};
use firefox_resumer::{Errors, Profile, SearchMode, SortMode, Timestamp};

fn stamp(secs: i64) -> Timestamp {
    Timestamp::new(secs, 0)
}

fn sample() -> Profile {
    let mut profile = Profile::new_at(1, "sample", stamp(0));
    profile.add_new_at("https://rust-lang.org", Some("Rust"), stamp(30)).unwrap();
    profile.add_new_at("https://docs.rs", Some("Docs"), stamp(10)).unwrap();
    profile.add_new_at("https://rust-lang.org/learn", Some("Learn Rust"), stamp(20)).unwrap();
    profile.add_new_at("https://example.com", Some("docs.rs mirror"), stamp(40)).unwrap();
    profile.add_new_at("https://docs.rs", Some("Crates"), stamp(20)).unwrap();
    profile
}

fn shown(profile: &Profile) -> Vec<String> {
    profile.get_pairs().iter().map(|pair| pair.title.clone()).collect()
}

#[test]
fn nothing_found_on_no_match() {
    let profile = sample();
    assert_eq!(profile.search("zzz", SearchMode::EitherMatch(true)), Err(Errors::NothingFoundError));
    assert_eq!(profile.search("zzz", SearchMode::ByURL(true)), Err(Errors::NothingFoundError));
    assert_eq!(profile.search("zzz", SearchMode::ByTitle(false)), Err(Errors::NothingFoundError));
    let empty = Profile::new_at(2, "empty", stamp(0));
    assert_eq!(empty.search("", SearchMode::EitherMatch(true)), Err(Errors::NothingFoundError));
}

#[test]
fn exact_search_by_url_gives_the_bucket() {
    let profile = sample();
    assert_eq!(profile.search("https://docs.rs", SearchMode::ByURL(false)), Ok(vec![1, 4]));
    assert_eq!(profile.search("https://rust-lang.org", SearchMode::ByURL(false)), Ok(vec![0]));
    assert_eq!(profile.search("docs.rs", SearchMode::ByURL(false)), Err(Errors::NothingFoundError));
}

#[test]
fn blurry_search_by_url_scans_the_urls() {
    let profile = sample();
    assert_eq!(profile.search("rust", SearchMode::ByURL(true)), Ok(vec![0, 2]));
    assert_eq!(profile.search("docs.rs", SearchMode::ByURL(true)), Ok(vec![1, 4]));
    assert_eq!(profile.search("https://", SearchMode::ByURL(true)), Ok(vec![0, 1, 2, 3, 4]));
    assert_eq!(profile.search("", SearchMode::ByURL(true)), Ok(vec![0, 1, 2, 3, 4]));
    assert_eq!(profile.search("RUST", SearchMode::ByURL(true)), Err(Errors::NothingFoundError));
}

#[test]
fn search_by_title_exact_and_blurry() {
    let profile = sample();
    assert_eq!(profile.search("Rust", SearchMode::ByTitle(false)), Ok(vec![0]));
    assert_eq!(profile.search("Rust", SearchMode::ByTitle(true)), Ok(vec![0, 2]));
    assert_eq!(profile.search("rust", SearchMode::ByTitle(true)), Err(Errors::NothingFoundError));
    assert_eq!(profile.search("s", SearchMode::ByTitle(true)), Ok(vec![0, 1, 2, 3, 4]));
    assert_eq!(profile.search("Learn Rust!", SearchMode::ByTitle(true)), Err(Errors::NothingFoundError));
}

#[test]
fn either_match_is_the_union() {
    let profile = sample();
    assert_eq!(profile.search("docs.rs", SearchMode::EitherMatch(true)), Ok(vec![1, 3, 4]));
    assert_eq!(profile.search("docs.rs", SearchMode::EitherMatch(false)), Err(Errors::NothingFoundError));
    assert_eq!(profile.search("https://docs.rs", SearchMode::EitherMatch(false)), Ok(vec![1, 4]));
    assert_eq!(profile.search("Crates", SearchMode::EitherMatch(false)), Ok(vec![4]));
    assert_eq!(profile.search("rust", SearchMode::EitherMatch(true)), Ok(vec![0, 2]));
    assert_eq!(profile.search("Rust", SearchMode::EitherMatch(true)), Ok(vec![0, 2]));
}

#[test]
fn search_mode_defaults_to_blurry_title() {
    assert_eq!(SearchMode::default(), SearchMode::ByTitle(true));
    assert_eq!(SortMode::default(), SortMode::ByDateCreation);
}

#[test]
fn sort_by_title_then_by_date() {
    let mut profile = Profile::new_at(1, "p", stamp(0));
    profile.add_new_at("https://u1.com", Some("Zeta"), stamp(1)).unwrap();
    profile.add_new_at("https://u2.com", Some("Alpha"), stamp(2)).unwrap();
    profile.change_sort_mode_at(SortMode::ByTitle, stamp(3));
    assert_eq!(shown(&profile), vec!["Alpha", "Zeta"]);
    assert_eq!(profile.sort_mode(), SortMode::ByTitle);
    assert_eq!(profile.get_time_last_visited(), stamp(3));
    assert_eq!(profile.position_of_title("Alpha"), Some(0));
    assert_eq!(profile.positions_of_url("https://u1.com"), vec![1]);
    profile.change_sort_mode_at(SortMode::ByDateCreation, stamp(4));
    assert_eq!(shown(&profile), vec!["Zeta", "Alpha"]);
    assert_eq!(profile.get_pairs()[0].created_at(), stamp(1));
    assert_eq!(profile.get_pairs()[1].created_at(), stamp(2));
    assert_eq!(profile.position_of_title("Alpha"), Some(1));
    assert_eq!(profile.get_time_last_visited(), stamp(4));
}

#[test]
fn sorting_twice_changes_nothing_more() {
    let mut profile = sample();
    profile.change_sort_mode_at(SortMode::ByURL, stamp(100));
    let once = shown(&profile);
    let once_urls: Vec<String> = profile.get_pairs().iter().map(|p| p.url.clone()).collect();
    profile.change_sort_mode_at(SortMode::ByURL, stamp(200));
    assert_eq!(shown(&profile), once);
    let twice_urls: Vec<String> = profile.get_pairs().iter().map(|p| p.url.clone()).collect();
    assert_eq!(twice_urls, once_urls);
    assert_eq!(profile.get_time_last_visited(), stamp(100));
    profile.change_sort_mode(SortMode::ByURL);
    assert_eq!(shown(&profile), once);
    assert_eq!(profile.get_time_last_visited(), stamp(100));
}

#[test]
fn sort_in_the_current_mode_does_nothing() {
    let mut profile = Profile::new_at(1, "p", stamp(0));
    profile.add_new_at("https://b.com", Some("B"), stamp(9)).unwrap();
    profile.add_new_at("https://a.com", Some("A"), stamp(5)).unwrap();
    profile.change_sort_mode_at(SortMode::ByDateCreation, stamp(50));
    assert_eq!(shown(&profile), vec!["B", "A"]);
    assert_eq!(profile.get_time_last_visited(), stamp(5));
}

#[test]
fn every_mode_orders_by_its_key() {
    let mut profile = sample();
    profile.change_sort_mode_at(SortMode::ByTitle, stamp(100));
    assert_eq!(shown(&profile), vec!["Crates", "Docs", "Learn Rust", "Rust", "docs.rs mirror"]);
    profile.change_sort_mode_at(SortMode::ByTitleRev, stamp(101));
    assert_eq!(shown(&profile), vec!["docs.rs mirror", "Rust", "Learn Rust", "Docs", "Crates"]);
    profile.change_sort_mode_at(SortMode::ByURL, stamp(102));
    let by_url: Vec<String> = profile.get_pairs().iter().map(|p| p.url.clone()).collect();
    let mut wanted = by_url.clone();
    wanted.sort();
    assert_eq!(by_url, wanted);
    assert_eq!(by_url[0], "https://docs.rs");
    assert_eq!(by_url[4], "https://rust-lang.org/learn");
    profile.change_sort_mode_at(SortMode::ByURLRev, stamp(103));
    let by_url_rev: Vec<String> = profile.get_pairs().iter().map(|p| p.url.clone()).collect();
    wanted.reverse();
    assert_eq!(by_url_rev, wanted);
    profile.change_sort_mode_at(SortMode::ByDateCreation, stamp(104));
    let by_date: Vec<i64> = profile.get_pairs().iter().map(|p| p.created_at().secs).collect();
    assert_eq!(by_date, vec![10, 20, 20, 30, 40]);
    profile.change_sort_mode_at(SortMode::ByDateCreationRev, stamp(105));
    let by_date_rev: Vec<i64> = profile.get_pairs().iter().map(|p| p.created_at().secs).collect();
    assert_eq!(by_date_rev, vec![40, 30, 20, 20, 10]);
    assert_eq!(profile.get_pairs().len(), 5);
    // the indices lead to the pairs where they stand now
    for (position, pair) in profile.get_pairs().iter().enumerate() {
        assert!(profile.positions_of_url(&pair.url).contains(&position));
        assert_eq!(profile.position_of_title(&pair.title), Some(position));
    }
}

#[test]
fn sort_agrees_with_the_standard_sort() {
    let titles = ["pear", "Apple", "apple", "", "zebra", "apples", "a", "é", "z", "ab", "b"];
    let mut pairs: Vec<URLTitlePair> = titles
        .iter()
        .enumerate()
        .map(|(i, title)| {
            URLTitlePair::from_save(format!("https://{}.com", i), title.to_string(), stamp(i as i64))
        })
        .collect();
    sort_pairs(&mut pairs, SortMode::ByTitle);
    let got: Vec<String> = pairs.iter().map(|p| p.title.clone()).collect();
    let mut wanted: Vec<String> = titles.iter().map(|t| t.to_string()).collect();
    wanted.sort();
    assert_eq!(got, wanted);
    sort_pairs(&mut pairs, SortMode::ByTitleRev);
    let got_rev: Vec<String> = pairs.iter().map(|p| p.title.clone()).collect();
    wanted.reverse();
    assert_eq!(got_rev, wanted);
}

#[test]
fn time_orders_by_seconds_then_nanoseconds() {
    let early = URLTitlePair::from_save("u".to_string(), "a".to_string(), Timestamp::new(5, 900));
    let late = URLTitlePair::from_save("u".to_string(), "b".to_string(), Timestamp::new(6, 100));
    let later = URLTitlePair::from_save("u".to_string(), "c".to_string(), Timestamp::new(6, 200));
    let before_epoch = URLTitlePair::from_save("u".to_string(), "d".to_string(), Timestamp::new(-1, 0));
    assert!(precedes(&early, &late, SortMode::ByDateCreation));
    assert!(!precedes(&late, &early, SortMode::ByDateCreation));
    assert!(precedes(&late, &later, SortMode::ByDateCreation));
    assert!(precedes(&later, &late, SortMode::ByDateCreationRev));
    assert!(!precedes(&late, &later, SortMode::ByDateCreationRev));
    assert!(precedes(&late, &late, SortMode::ByDateCreation));
    assert!(precedes(&before_epoch, &early, SortMode::ByDateCreation));
    assert!(Timestamp::new(5, 900).is_at_or_before(&Timestamp::new(5, 900)));
    assert!(!Timestamp::new(5, 901).is_at_or_before(&Timestamp::new(5, 900)));
}
