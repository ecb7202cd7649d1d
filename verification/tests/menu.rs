use firefox_resumer::menu::NO_PROFILES;
use firefox_resumer::{Key, Menu, Profile, Timestamp, WhatToRender};

fn profile(id: usize, name: &str, pairs: usize) -> Profile {
    let mut profile = Profile::new_at(id, name, Timestamp::new(0, 0));
    for i in 0..pairs {
        profile
            .add_new_at(&format!("https://{}.com", i), Some(&format!("T{}", i)), Timestamp::new(1, 0))
            .unwrap();
    }
    profile
}

fn three() -> Menu {
    Menu::new(vec![profile(1, "one", 2), profile(2, "two", 0), profile(3, "three", 1)])
}

fn show(step: &firefox_resumer::Step) -> Vec<String> {
    step.commands.iter().map(|command| format!("{:?}", command)).collect()
}

#[test]
fn menu_starts_on_the_list() {
    let menu = three();
    assert_eq!(menu.render_what(), WhatToRender::ListProfiles);
    assert_eq!(menu.highlight_idx(), None);
    assert_eq!(menu.profiles().len(), 3);
}

#[test]
fn first_turn_draws_and_highlights_the_first_profile() {
    let mut menu = three();
    let step = menu.step(Key::Other);
    assert!(!step.quit);
    assert_eq!(menu.highlight_idx(), Some(0));
    let shown = show(&step);
    // the head, the cursor, and three profiles of which the first is highlighted
    assert_eq!(shown.len(), 6 + 1 + 3 * 2 + 2);
    assert_eq!(shown[0], "Clear(All)");
    assert_eq!(shown[6], "MoveTo(0, 12)");
    assert_eq!(shown[7], "SetForegroundColor(Cyan)");
    assert_eq!(shown[8], "SetBackgroundColor(White)");
    assert_eq!(shown[9], "Print(\">> one | 2 | 1970-01-01 00:00:01\\n\")");
    assert_eq!(shown[10], "ResetColor");
    assert_eq!(shown[11], "Print(\">> two | 0 | 1970-01-01 00:00:00\\n\")");
}

#[test]
fn arrows_move_the_highlight_around() {
    let mut menu = three();
    menu.step(Key::Down);
    assert_eq!(menu.highlight_idx(), Some(1));
    menu.step(Key::Down);
    assert_eq!(menu.highlight_idx(), Some(2));
    let step = menu.step(Key::Down);
    assert_eq!(menu.highlight_idx(), Some(0));
    // what was drawn had the last profile highlighted still
    let shown = show(&step);
    assert_eq!(shown[11], "SetForegroundColor(Cyan)");
    menu.step(Key::Up);
    assert_eq!(menu.highlight_idx(), Some(2));
    menu.step(Key::Up);
    assert_eq!(menu.highlight_idx(), Some(1));
    assert_eq!(menu.render_what(), WhatToRender::ListProfiles);
}

#[test]
fn escape_on_the_list_wipes_and_ends() {
    let mut menu = three();
    let step = menu.step(Key::Esc);
    assert!(step.quit);
    let shown = show(&step);
    let n = shown.len();
    assert_eq!(&shown[n - 3..], ["Clear(All)", "MoveTo(0, 0)", "ResetColor"]);
    assert_eq!(menu.render_what(), WhatToRender::ListProfiles);
}

#[test]
fn enter_opens_the_highlighted_profile() {
    let mut menu = three();
    menu.step(Key::Enter);
    assert_eq!(menu.render_what(), WhatToRender::Profile(0));
    assert_eq!(menu.highlight_idx(), Some(0));
    let step = menu.step(Key::Other);
    assert_eq!(
        show(&step),
        vec![
            "MoveTo(12, 0)",
            "Clear(All)",
            "Print(\">> Title: T0 | URL: https://0.com\\n\")",
            "Print(\">> Title: T1 | URL: https://1.com\\n\")",
        ]
    );
    assert!(!step.quit);
    // the highlight moves among as many entries as there are profiles
    menu.step(Key::Up);
    assert_eq!(menu.highlight_idx(), Some(2));
    menu.step(Key::Down);
    assert_eq!(menu.highlight_idx(), Some(0));
    menu.step(Key::Enter);
    assert_eq!(menu.render_what(), WhatToRender::Profile(0));
    let back = menu.step(Key::Esc);
    assert!(!back.quit);
    assert_eq!(menu.render_what(), WhatToRender::ListProfiles);
    assert_eq!(menu.highlight_idx(), None);
    menu.step(Key::Other);
    assert_eq!(menu.highlight_idx(), Some(0));
}

#[test]
fn profile_without_pairs_opens_without_highlight() {
    let mut menu = three();
    menu.step(Key::Down);
    menu.step(Key::Enter);
    assert_eq!(menu.render_what(), WhatToRender::Profile(1));
    assert_eq!(menu.highlight_idx(), None);
    let step = menu.step(Key::Down);
    assert_eq!(menu.highlight_idx(), None);
    let shown = show(&step);
    assert_eq!(shown.len(), 3);
    assert_eq!(shown[0], "MoveTo(12, 0)");
    assert_eq!(shown[1], "SetForegroundColor(Cyan)");
}

#[test]
fn empty_menu_shows_the_notice_and_ignores_keys() {
    let mut menu = Menu::new(vec![]);
    for key in [Key::Up, Key::Down, Key::Enter, Key::Other] {
        let step = menu.step(key);
        assert!(!step.quit);
        assert_eq!(menu.highlight_idx(), None);
        assert_eq!(menu.render_what(), WhatToRender::ListProfiles);
        let shown = show(&step);
        assert_eq!(shown.len(), 8);
        assert_eq!(shown[6], "SetForegroundColor(Green)");
        assert_eq!(shown[7], format!("Print({:?})", NO_PROFILES));
    }
    assert!(menu.step(Key::Esc).quit);
}
