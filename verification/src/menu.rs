//! The main menu: what each turn of the event loop draws, and what a key
//! does to it. The loop itself, which waits for keys and writes to the
//! terminal, belongs to the program.

use vstd::prelude::*;
use crate::errors::Errors;
use crate::profile::{profile_views, Profile, ProfileView};
use crate::renderer::{
    beginning_commands, commands_of, draws, line_commands, list_commands, one_profile_commands,
    render_beginning, render_line, render_list_of_profiles, render_one_profile, ClearType, Command,
    CommandView, COLOR_FG_DECLARE, STATIC_INFO_MAINMENU_LEN,
};

verus! {

/// The keys that the menu tells apart.
#[derive(Debug, Clone, Copy, PartialEq, Eq, Structural)]
pub enum Key {
    Esc,
    Up,
    Down,
    Enter,
    Other,
}

/// What the menu shows: the list of profiles, the profile at a position of
/// that list, or a single tab.
#[derive(Debug, Clone, Copy, PartialEq, Eq, Structural)]
pub enum WhatToRender {
    ListProfiles,
    Profile(usize),
    BrowserTab,
}

/// What is shown where there is no profile.
pub const NO_PROFILES: &'static str =
    " == You currently do not have any profiles, or the reading failed for some reason.";

/// The menu, as mathematics.
pub ghost struct MenuView {
    pub profiles: Seq<ProfileView>,
    pub render_what: WhatToRender,
    pub highlight_idx: Option<usize>,
    pub profile_count: usize,
}

/// What one turn of the loop leaves: the menu after it, the commands to
/// write, and whether the loop ends.
pub ghost struct Turn {
    pub menu: MenuView,
    pub commands: Seq<CommandView>,
    pub quit: bool,
}

/// The highlight one step up: from the first entry it goes to the last.
pub open spec fn moved_up(idx: usize, count: usize) -> usize {
    if idx == 0 {
        (count - 1) as usize
    } else {
        (idx - 1) as usize
    }
}

/// The highlight one step down: from the last entry it goes to the first.
pub open spec fn moved_down(idx: usize, count: usize) -> usize {
    if idx + 1 < count {
        (idx + 1) as usize
    } else {
        0
    }
}

impl MenuView {
    /// The menu is in order: the profiles have been counted or not yet, a
    /// highlight lies below the number of entries it moves among, and a
    /// profile that is shown is one of the list.
    pub open spec fn wf(self) -> bool {
        &&& self.profile_count == 0 || self.profile_count == self.profiles.len()
        &&& self.highlight_idx matches Some(idx) ==> idx < self.profile_count
        &&& self.render_what matches WhatToRender::Profile(shown) ==> shown < self.profiles.len()
            && self.profile_count >= 1
    }

    /// The menu as drawing leaves it. Drawing a list that is not empty
    /// highlights the first profile if none is highlighted, and counts the
    /// profiles.
    pub open spec fn drawn(self) -> MenuView {
        if self.render_what == WhatToRender::ListProfiles && self.profiles.len() > 0 {
            MenuView {
                highlight_idx: Some(
                    match self.highlight_idx {
                        Some(idx) => idx,
                        None => 0,
                    },
                ),
                profile_count: self.profiles.len() as usize,
                ..self
            }
        } else {
            self
        }
    }

    /// What a turn draws before it looks at the key: the head of the menu
    /// and the list of profiles or the notice that there are none; or the
    /// profile that is shown; or nothing.
    pub open spec fn drawing(self) -> Result<Seq<CommandView>, Errors> {
        match self.render_what {
            WhatToRender::ListProfiles => if self.profiles.len() == 0 {
                Ok(beginning_commands() + line_commands(NO_PROFILES@, Some(COLOR_FG_DECLARE)))
            } else {
                match list_commands(
                    self.profiles,
                    STATIC_INFO_MAINMENU_LEN,
                    0,
                    self.drawn().highlight_idx->0,
                ) {
                    Ok(list) => Ok(beginning_commands() + list),
                    Err(e) => Err(e),
                }
            },
            WhatToRender::Profile(shown) => one_profile_commands(
                self.profiles[shown as int].pairs,
                STATIC_INFO_MAINMENU_LEN,
                0,
                self.highlight_idx,
            ),
            WhatToRender::BrowserTab => Ok(Seq::empty()),
        }
    }

    /// The menu with its highlight, if it has one, moved by a key.
    pub open spec fn with_highlight_moved(self, key: Key) -> MenuView {
        match (self.highlight_idx, key) {
            (Some(idx), Key::Up) => MenuView {
                highlight_idx: Some(moved_up(idx, self.profile_count)),
                ..self
            },
            (Some(idx), Key::Down) => MenuView {
                highlight_idx: Some(moved_down(idx, self.profile_count)),
                ..self
            },
            _ => self,
        }
    }

    /// What a key does to a menu that has just been drawn. On the list, Esc
    /// wipes the terminal and ends the loop, Up and Down move the highlight,
    /// and Enter shows the highlighted profile, with its first pair
    /// highlighted if it has one. On a profile, Esc goes back to the list
    /// without a highlight, and Up and Down move the highlight. Any other
    /// key does nothing.
    pub open spec fn keyed(self, key: Key) -> Turn {
        let stay = Turn { menu: self, commands: Seq::empty(), quit: false };
        match self.render_what {
            WhatToRender::ListProfiles => match key {
                Key::Esc => Turn {
                    menu: self,
                    commands: seq![
                        CommandView::Clear(ClearType::All),
                        CommandView::MoveTo(0, 0),
                        CommandView::ResetColor,
                    ],
                    quit: true,
                },
                Key::Up | Key::Down => Turn { menu: self.with_highlight_moved(key), ..stay },
                Key::Enter => match self.highlight_idx {
                    Some(idx) => if idx < self.profiles.len() {
                        Turn {
                            menu: MenuView {
                                render_what: WhatToRender::Profile(idx),
                                highlight_idx: if self.profiles[idx as int].pairs.len() > 0 {
                                    Some(0)
                                } else {
                                    None
                                },
                                ..self
                            },
                            ..stay
                        }
                    } else {
                        stay
                    },
                    None => stay,
                },
                Key::Other => stay,
            },
            WhatToRender::Profile(_) => match key {
                Key::Esc => Turn {
                    menu: MenuView {
                        render_what: WhatToRender::ListProfiles,
                        highlight_idx: None,
                        ..self
                    },
                    ..stay
                },
                Key::Up | Key::Down => Turn { menu: self.with_highlight_moved(key), ..stay },
                _ => stay,
            },
            WhatToRender::BrowserTab => stay,
        }
    }

    /// One turn of the loop: the menu is drawn, and then the key is acted
    /// on.
    pub open spec fn turn(self, key: Key) -> Turn {
        let after = self.drawn().keyed(key);
        Turn { commands: self.drawing()->Ok_0 + after.commands, ..after }
    }
}

/// What one turn of the loop asks of the program: the commands to write, in
/// their order, and whether to end the loop after them.
#[derive(Debug)]
pub struct Step {
    pub commands: Vec<Command>,
    pub quit: bool,
}

/// The profiles and what of them is on show.
#[derive(Debug)]
pub struct Menu {
    profiles: Vec<Profile>,
    render_what: WhatToRender,
    highlight_idx: Option<usize>,
    profile_count: usize,
}

impl View for Menu {
    type V = MenuView;

    closed spec fn view(&self) -> MenuView {
        MenuView {
            profiles: profile_views(self.profiles@),
            render_what: self.render_what,
            highlight_idx: self.highlight_idx,
            profile_count: self.profile_count,
        }
    }
}

impl Menu {
    /// The menu at the start of the loop: it shows the list, and nothing is
    /// highlighted or counted yet.
    pub fn new(profiles: Vec<Profile>) -> (menu: Self)
        ensures
            menu@.wf(),
            menu@ == (MenuView {
                profiles: profile_views(profiles@),
                render_what: WhatToRender::ListProfiles,
                highlight_idx: None,
                profile_count: 0,
            }),
    {
        Menu {
            profiles,
            render_what: WhatToRender::ListProfiles,
            highlight_idx: None,
            profile_count: 0,
        }
    }

    /// The profiles of the menu.
    pub fn profiles(&self) -> (profiles: &Vec<Profile>)
        ensures
            profile_views(profiles@) == self@.profiles,
    {
        &self.profiles
    }

    /// What the menu shows.
    pub fn render_what(&self) -> (what: WhatToRender)
        ensures
            what == self@.render_what,
    {
        self.render_what
    }

    /// The position of the highlight, if there is one.
    pub fn highlight_idx(&self) -> (idx: Option<usize>)
        ensures
            idx == self@.highlight_idx,
    {
        self.highlight_idx
    }

    /// Moves the highlight, if there is one, up or down.
    fn move_highlight(&mut self, key: Key)
        requires
            old(self)@.wf(),
        ensures
            final(self)@ == old(self)@.with_highlight_moved(key),
            final(self)@.wf(),
    {
        if let Some(idx) = self.highlight_idx {
            match key {
                Key::Up => {
                    self.highlight_idx = Some(
                        if idx == 0 {
                            self.profile_count - 1
                        } else {
                            idx - 1
                        },
                    );
                },
                Key::Down => {
                    self.highlight_idx = Some(
                        if idx + 1 < self.profile_count {
                            idx + 1
                        } else {
                            0
                        },
                    );
                },
                _ => {},
            }
        }
    }

    /// Draws the menu as it stands.
    fn draw(&mut self) -> (commands: Vec<Command>)
        requires
            old(self)@.wf(),
        ensures
            final(self)@ == old(self)@.drawn(),
            final(self)@.wf(),
            old(self)@.drawing() is Ok,
            commands_of(commands@) == old(self)@.drawing()->Ok_0,
    {
        match self.render_what {
            WhatToRender::ListProfiles => {
                let mut commands = render_beginning();
                if self.profiles.len() == 0 {
                    let mut notice = render_line(NO_PROFILES, Some(COLOR_FG_DECLARE));
                    commands.append(&mut notice);
                } else {
                    let idx = match self.highlight_idx {
                        Some(idx) => idx,
                        None => 0,
                    };
                    self.highlight_idx = Some(idx);
                    let mut list = match render_list_of_profiles(
                        &self.profiles,
                        STATIC_INFO_MAINMENU_LEN,
                        0,
                        idx,
                    ) {
                        Ok(list) => list,
                        Err(_) => vstd::pervasive::unreached(),
                    };
                    self.profile_count = self.profiles.len();
                    commands.append(&mut list);
                }
                commands
            },
            WhatToRender::Profile(shown) => {
                match render_one_profile(
                    &self.profiles[shown],
                    STATIC_INFO_MAINMENU_LEN,
                    0,
                    self.highlight_idx,
                ) {
                    Ok(commands) => commands,
                    Err(_) => vstd::pervasive::unreached(),
                }
            },
            WhatToRender::BrowserTab => {
                let commands: Vec<Command> = Vec::new();
                commands
            },
        }
    }

    /// One turn of the loop: draws the menu, then acts on the key.
    pub fn step(&mut self, key: Key) -> (step: Step)
        requires
            old(self)@.wf(),
        ensures
            final(self)@.wf(),
            final(self)@ == old(self)@.turn(key).menu,
            commands_of(step.commands@) == old(self)@.turn(key).commands,
            step.quit == old(self)@.turn(key).quit,
    {
        let mut commands = self.draw();
        let mut quit = false;
        match self.render_what {
            WhatToRender::ListProfiles => match key {
                Key::Esc => {
                    commands.push(Command::Clear(ClearType::All));
                    commands.push(Command::MoveTo(0, 0));
                    commands.push(Command::ResetColor);
                    quit = true;
                },
                Key::Up | Key::Down => {
                    self.move_highlight(key);
                },
                Key::Enter => {
                    if let Some(idx) = self.highlight_idx {
                        if idx < self.profiles.len() {
                            self.render_what = WhatToRender::Profile(idx);
                            self.highlight_idx = if self.profiles[idx].get_pairs().len() > 0 {
                                Some(0)
                            } else {
                                None
                            };
                        }
                    }
                },
                Key::Other => {},
            },
            WhatToRender::Profile(_) => match key {
                Key::Esc => {
                    self.render_what = WhatToRender::ListProfiles;
                    self.highlight_idx = None;
                },
                Key::Up | Key::Down => {
                    self.move_highlight(key);
                },
                _ => {},
            },
            WhatToRender::BrowserTab => {},
        }
        Step { commands, quit }
    }
}

} // verus!
