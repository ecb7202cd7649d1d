use firefox_resumer::io::{
    is_file_pattern_correct, parse_into_naivedatetime, parse_toml, read_profiles, time_for_saving,
    time_numbers,
    BrowserTab, Config, General, ProfileFile, FILE_EXTSN, FILE_PREFIX, TIME_SEPARATOR,
};
use firefox_resumer::{Errors, SearchMode, SortMode, Timestamp};

fn tab(url: &str, title: &str, t_created: &str) -> BrowserTab {
    BrowserTab { url: url.to_string(), title: title.to_string(), t_created: t_created.to_string() }
}

fn config(name: &str, id: u16, time_created: &str, tabs: Vec<BrowserTab>) -> Config {
    Config {
        general: General { name: name.to_string(), id, time_created: time_created.to_string() },
        browser_tabs: tabs,
    }
}

fn read(text: &str) -> Option<Timestamp> {
    parse_into_naivedatetime(text.to_string(), "::")
}

fn by_chrono(text: &str, separator: &str) -> Option<Timestamp> {
    let mut time: Vec<u32> = text.split(separator).filter_map(|s| s.parse::<u32>().ok()).collect();
    time.reverse();
    if time.len() != 6 {
        return None;
    }
    let at = chrono::NaiveDate::from_ymd_opt(time.pop()? as i32, time.pop()?, time.pop()?)?
        .and_hms_opt(time.pop()?, time.pop()?, time.pop()?)?;
    Some(Timestamp::new(at.and_utc().timestamp(), at.and_utc().timestamp_subsec_nanos()))
}

#[test]
fn file_names_need_prefix_and_extension() {
    assert_eq!(FILE_PREFIX, "ITR_PRFL_");
    assert_eq!(FILE_EXTSN, ".toml");
    assert!(is_file_pattern_correct("ITR_PRFL_work.toml"));
    assert!(is_file_pattern_correct("ITR_PRFL_.toml"));
    assert!(!is_file_pattern_correct("ITR_PRFL_work.tom"));
    assert!(!is_file_pattern_correct("ITR_PRFL_work.toml.bak"));
    assert!(!is_file_pattern_correct("itr_prfl_work.toml"));
    assert!(!is_file_pattern_correct("xITR_PRFL_work.toml"));
    assert!(!is_file_pattern_correct("ITR_PRFL.toml"));
    assert!(!is_file_pattern_correct(".toml"));
    assert!(!is_file_pattern_correct("ITR_PRFL_"));
    assert!(!is_file_pattern_correct(""));
    for name in ["ITR_PRFL_日本.toml", "ITR_PRFL_toml", "ITR_PRFL_a.TOML", "ITR_PRFL_.tom"] {
        assert_eq!(
            is_file_pattern_correct(name),
            name.starts_with("ITR_PRFL_") & name.ends_with(".toml")
        );
    }
}

#[test]
fn saved_time_is_read_as_seconds_since_1970() {
    assert_eq!(TIME_SEPARATOR, "::");
    assert_eq!(read("1970::01::01::00::00::00"), Some(Timestamp::new(0, 0)));
    assert_eq!(read("1970::1::2::0::0::1"), Some(Timestamp::new(86_401, 0)));
    assert_eq!(read("2015::05::15::00::00::00"), Some(Timestamp::new(1_431_648_000, 0)));
    assert_eq!(read("2024::01::02::03::04::05"), Some(Timestamp::new(1_704_164_645, 0)));
    assert_eq!(read("1969::12::31::23::59::59"), Some(Timestamp::new(-1, 0)));
    assert_eq!(read("2024::02::29::12::00::00"), Some(Timestamp::new(1_709_208_000, 0)));
}

#[test]
fn numbers_of_a_saved_time() {
    assert_eq!(time_numbers("2024::01::02::03::04::05", "::"), vec![2024, 1, 2, 3, 4, 5]);
    assert_eq!(time_numbers("2024::x::+7::::-1::4294967296::9", "::"), vec![2024, 7, 9]);
    assert_eq!(time_numbers("", "::"), Vec::<u32>::new());
    assert_eq!(time_numbers("12", ""), vec![1, 2]);
}

#[test]
fn saved_time_needs_six_numbers_of_a_real_date() {
    assert_eq!(read(""), None);
    assert_eq!(read("2024::01::02::03::04"), None);
    assert_eq!(read("2024::01::02::03::04::05::06"), None);
    assert_eq!(read("2023::02::29::00::00::00"), None);
    assert_eq!(read("2024::13::01::00::00::00"), None);
    assert_eq!(read("2024::00::01::00::00::00"), None);
    assert_eq!(read("2024::04::31::00::00::00"), None);
    assert_eq!(read("2024::01::01::24::00::00"), None);
    assert_eq!(read("2024::01::01::00::60::00"), None);
    assert_eq!(read("2024::01::01::00::00::60"), None);
    assert_eq!(read("400000::01::01::00::00::00"), None);
    assert_eq!(read("2024-01-02 03:04:05"), None);
}

#[test]
fn fields_that_write_no_number_are_passed_over() {
    let plain = read("2024::01::02::03::04::05");
    assert_eq!(read("2024::xx::01::02::03::04::05"), plain);
    assert_eq!(read("::2024::01::02::03::04::05::"), plain);
    assert_eq!(read("+2024::01::02::03::04::05"), plain);
    assert_eq!(read("2024::01::02::03::04::05::-7"), plain);
    assert_eq!(read("2024::01::02::03::04::99999999999::05"), plain);
    assert_eq!(read("2024::01::02:::03::04::05"), read("2024::01::02::04::05"));
}

#[test]
fn saved_time_agrees_with_chrono() {
    let texts = [
        "2024::01::02::03::04::05",
        "0::1::1::0::0::0",
        "1::1::1::0::0::0",
        "262142::12::31::23::59::59",
        "262143::1::1::0::0::0",
        "262144::1::1::0::0::0",
        "4294967295::1::1::0::0::0",
        "4294967292::2::29::0::0::0",
        "4294705153::1::1::0::0::0",
        "4294705152::1::1::0::0::0",
        "2147483648::1::1::0::0::0",
        "1900::02::29::00::00::00",
        "2000::02::29::00::00::00",
        "2024::12::31::23::59::59",
        "2024:12:31:23:59:59",
        "a::b",
        "",
    ];
    for text in texts {
        for separator in ["::", ":", ""] {
            assert_eq!(
                parse_into_naivedatetime(text.to_string(), separator),
                by_chrono(text, separator),
                "{:?} {:?}",
                text,
                separator
            );
        }
    }
    assert_eq!(read("4294967295::1::1::0::0::0"), Some(Timestamp::new(-62_198_755_200, 0)));
}

#[test]
fn records_become_a_profile() {
    let records = config(
        "saved",
        12,
        "2024::01::02::03::04::05",
        vec![
            tab("https://a.com", "A", "2024::01::01::00::00::00"),
            tab("", "no url", "2024::01::01::00::00::00"),
            tab("https://b.com", "", "2024::01::01::00::00::01"),
            tab("https://c.com", "C", "not a time"),
            tab("https://d.com", "A", "2024::01::01::00::00::02"),
        ],
    );
    let profile = parse_toml(&records).unwrap();
    assert_eq!(profile.id(), 12);
    assert_eq!(profile.get_name(), "saved");
    assert_eq!(profile.get_time_created(), Timestamp::new(1_704_164_645, 0));
    assert_eq!(profile.get_time_last_visited(), Timestamp::new(1_704_164_645, 0));
    assert_eq!(profile.sort_mode(), SortMode::ByDateCreation);
    let pairs = profile.get_pairs();
    assert_eq!(pairs.len(), 3);
    assert_eq!(pairs[0].url, "https://a.com");
    assert_eq!(pairs[0].title, "A");
    assert_eq!(pairs[0].created_at(), Timestamp::new(1_704_067_200, 0));
    assert_eq!(pairs[1].url, "https://b.com");
    assert_eq!(pairs[1].title, "No Title Given");
    assert_eq!(pairs[1].created_at(), Timestamp::new(1_704_067_201, 0));
    assert_eq!(pairs[2].url, "https://d.com");
    assert_eq!(pairs[2].title, "A");
    assert!(!pairs[2].highlighted());
    assert_eq!(profile.position_of_title("A"), Some(2));
    assert_eq!(profile.search("A", SearchMode::ByTitle(false)), Ok(vec![2]));
}

#[test]
fn records_without_a_time_give_no_profile() {
    let records = config("saved", 1, "yesterday", vec![tab("https://a.com", "A", "2024::1::1::0::0::0")]);
    assert!(parse_toml(&records).is_none());
    let empty = config("empty", 2, "2024::01::02::03::04::05", vec![]);
    let profile = parse_toml(&empty).unwrap();
    assert!(profile.get_pairs().is_empty());
    assert_eq!(profile.id(), 2);
}

#[test]
fn directory_gives_its_profiles_in_order() {
    let files = vec![
        ProfileFile { file_name: "notes.txt".to_string(), config: None },
        ProfileFile {
            file_name: "ITR_PRFL_one.toml".to_string(),
            config: Some(config("one", 1, "2024::01::02::03::04::05", vec![])),
        },
        ProfileFile {
            file_name: "other.toml".to_string(),
            config: Some(config("skipped", 2, "2024::01::02::03::04::05", vec![])),
        },
        ProfileFile { file_name: "ITR_PRFL_unread.toml".to_string(), config: None },
        ProfileFile {
            file_name: "ITR_PRFL_bad.toml".to_string(),
            config: Some(config("bad", 3, "no time", vec![])),
        },
        ProfileFile {
            file_name: "ITR_PRFL_two.toml".to_string(),
            config: Some(config(
                "two",
                4,
                "2024::01::02::03::04::06",
                vec![tab("https://a.com", "A", "2024::01::01::00::00::00")],
            )),
        },
    ];
    let profiles = read_profiles(files).unwrap();
    assert_eq!(profiles.len(), 2);
    assert_eq!(profiles[0].get_name(), "one");
    assert_eq!(profiles[0].id(), 1);
    assert_eq!(profiles[1].get_name(), "two");
    assert_eq!(profiles[1].get_pairs().len(), 1);
}

#[test]
fn directory_without_profiles_is_an_error() {
    assert_eq!(read_profiles(vec![]).err(), Some(Errors::NoTOMLFilesFoundError));
    let files = vec![
        ProfileFile { file_name: "ITR_PRFL_unread.toml".to_string(), config: None },
        ProfileFile {
            file_name: "other.toml".to_string(),
            config: Some(config("skipped", 2, "2024::01::02::03::04::05", vec![])),
        },
    ];
    assert_eq!(read_profiles(files).err(), Some(Errors::NoTOMLFilesFoundError));
}

#[test]
fn printed_time_is_put_into_the_saved_form() {
    assert_eq!(
        time_for_saving("2024-01-02 03:04:05.123456789"),
        Some("2024::01::02::03::04::05".to_string())
    );
    assert_eq!(time_for_saving("2024-01-02 03:04:05"), None);
    assert_eq!(time_for_saving(""), None);
    assert_eq!(time_for_saving(".5"), Some(String::new()));
    assert_eq!(time_for_saving("a.b.c"), Some("a".to_string()));
    assert_eq!(time_for_saving("日 本.x"), Some("日::本".to_string()));
    let printed = chrono::DateTime::from_timestamp(1_704_164_645, 500).unwrap().naive_utc().to_string();
    let wanted = printed
        .split_once(".")
        .unwrap()
        .0
        .to_string()
        .replace(":", "::")
        .replace(" ", "::")
        .replace("-", "::");
    let saved = time_for_saving(&printed).unwrap();
    assert_eq!(saved, wanted);
    assert_eq!(read(&saved), Some(Timestamp::new(1_704_164_645, 0)));
}
