//! What is drawn on the terminal, as lists of commands. Nothing here writes
//! anything: the caller hands the commands to the terminal in their order.

use vstd::prelude::*;
use vstd::string::StringExecFns;
use crate::errors::Errors;
use crate::pair::{views_of, PairView, URLTitlePair};
use crate::profile::{profile_views, Profile, ProfileView};
use crate::text::{decimal_digits, decimal_text};
use crate::time::{display_of, naive_display, Timestamp};

verus! {

/// The colours that are drawn with.
#[derive(Debug, Clone, Copy, PartialEq, Eq, Structural)]
pub enum Color {
    Green,
    White,
    Cyan,
}

/// How much of the terminal a clear command wipes.
#[derive(Debug, Clone, Copy, PartialEq, Eq, Structural)]
pub enum ClearType {
    All,
    Purge,
}

/// One command for the terminal. `MoveTo` holds its two numbers in the
/// order they are handed to the terminal.
#[derive(Debug, Clone)]
pub enum Command {
    Clear(ClearType),
    MoveTo(u16, u16),
    SetForegroundColor(Color),
    SetBackgroundColor(Color),
    Print(String),
    ResetColor,
}

/// A command, as mathematics.
pub ghost enum CommandView {
    Clear(ClearType),
    MoveTo(u16, u16),
    SetForegroundColor(Color),
    SetBackgroundColor(Color),
    Print(Seq<char>),
    ResetColor,
}

impl View for Command {
    type V = CommandView;

    open spec fn view(&self) -> CommandView {
        match *self {
            Command::Clear(kind) => CommandView::Clear(kind),
            Command::MoveTo(a, b) => CommandView::MoveTo(a, b),
            Command::SetForegroundColor(color) => CommandView::SetForegroundColor(color),
            Command::SetBackgroundColor(color) => CommandView::SetBackgroundColor(color),
            Command::Print(text) => CommandView::Print(text@),
            Command::ResetColor => CommandView::ResetColor,
        }
    }
}

/// What the commands of a list are, in the list's order.
pub open spec fn commands_of(commands: Seq<Command>) -> Seq<CommandView> {
    commands.map_values(|c: Command| c@)
}

pub const COLOR_FG_DECLARE: Color = Color::Green;

pub const COLOR_FG_DEFAULT: Color = Color::White;

pub const COLOR_FG_HILIT: Color = Color::Cyan;

pub const COLOR_BG_HILIT: Color = Color::White;

/// The number of lines at the head of the main menu.
pub const STATIC_INFO_MAINMENU_LEN: u16 = 11;

/// The line that separates the parts of the main menu's head.
pub const SEP: &'static str = "======================================";

/// What is shown in place of a profile's pairs where it has none.
pub const NO_PAIRS: &'static str =
    "No URL-Title pairs available in this profile. Press A to ADD a new one.";

/// The lines at the head of the main menu.
pub open spec fn menu_lines() -> Seq<Seq<char>> {
    seq![
        "=== Firefox Tab Resumer ==="@,
        "Author: Lucius Y. Men, Written in Rust"@,
        "Latest Version: v0.1, Updated: 2 Jan 2024"@,
        SEP@,
        ">> Below is the list of all existing profiles."@,
        ">> Use UP / DOWN ARROWS to navigate and select a profile"@,
        ">> Press I to INITIALIZE (start) the highlighted profile"@,
        ">> Press E to EDIT the profile,"@,
        ">> Press D to DELETE the profile"@,
        ">> If you want a new profile, press N to enter its name"@,
        SEP@,
    ]
}

/// The lines one after the other, with `sep` between any two of them.
pub open spec fn joined(lines: Seq<Seq<char>>, sep: Seq<char>) -> Seq<char>
    decreases lines.len(),
{
    if lines.len() == 0 {
        Seq::empty()
    } else if lines.len() == 1 {
        lines[0]
    } else {
        joined(lines.drop_last(), sep) + sep + lines.last()
    }
}

/// What the texts of a list hold, in the list's order.
pub open spec fn texts_of(lines: Seq<&'static str>) -> Seq<Seq<char>> {
    lines.map_values(|line: &'static str| line@)
}

/// The lines at the head of the main menu.
pub fn static_info_mainmenu() -> (lines: Vec<&'static str>)
    ensures
        texts_of(lines@) == menu_lines(),
{
    let mut lines: Vec<&'static str> = Vec::new();
    lines.push("=== Firefox Tab Resumer ===");
    lines.push("Author: Lucius Y. Men, Written in Rust");
    lines.push("Latest Version: v0.1, Updated: 2 Jan 2024");
    lines.push(SEP);
    lines.push(">> Below is the list of all existing profiles.");
    lines.push(">> Use UP / DOWN ARROWS to navigate and select a profile");
    lines.push(">> Press I to INITIALIZE (start) the highlighted profile");
    lines.push(">> Press E to EDIT the profile,");
    lines.push(">> Press D to DELETE the profile");
    lines.push(">> If you want a new profile, press N to enter its name");
    lines.push(SEP);
    lines
}

/// The lines one after the other, with `sep` between any two of them.
pub fn join_lines(lines: &Vec<&'static str>, sep: &str) -> (text: String)
    ensures
        text@ == joined(texts_of(lines@), sep@),
{
    let mut text = String::new();
    let ghost all = texts_of(lines@);
    let mut i: usize = 0;
    while i < lines.len()
        invariant
            i <= lines.len(),
            all == texts_of(lines@),
            text@ == joined(all.take(i as int), sep@),
        decreases lines.len() - i,
    {
        assert(all.take(i + 1).drop_last() =~= all.take(i as int));
        if i > 0 {
            text.append(sep);
        }
        text.append(lines[i]);
        i += 1;
    }
    assert(all.take(i as int) =~= all);
    text
}

/// The commands that draw one line, in a colour if one is given.
pub open spec fn line_commands(line: Seq<char>, color: Option<Color>) -> Seq<CommandView> {
    match color {
        Some(color) => seq![CommandView::SetForegroundColor(color), CommandView::Print(line)],
        None => seq![CommandView::Print(line)],
    }
}

/// The commands that draw one line, in a colour if one is given.
pub fn render_line(line: &str, opt_fg_color: Option<Color>) -> (commands: Vec<Command>)
    ensures
        commands_of(commands@) == line_commands(line@, opt_fg_color),
{
    let mut commands: Vec<Command> = Vec::new();
    if let Some(color) = opt_fg_color {
        commands.push(Command::SetForegroundColor(color));
    }
    commands.push(Command::Print(line.to_owned()));
    commands
}

/// The commands that draw the head of the main menu on a wiped terminal and
/// leave the cursor two rows below it.
pub open spec fn beginning_commands() -> Seq<CommandView> {
    seq![
        CommandView::Clear(ClearType::All),
        CommandView::MoveTo(0, 0),
        CommandView::SetForegroundColor(COLOR_FG_DECLARE),
        CommandView::Print(joined(menu_lines(), "\n\r"@)),
        CommandView::MoveTo(0, 12),
        CommandView::ResetColor,
    ]
}

/// The commands that draw the head of the main menu.
pub fn render_beginning() -> (commands: Vec<Command>)
    ensures
        commands_of(commands@) == beginning_commands(),
{
    let lines = static_info_mainmenu();
    let mut commands: Vec<Command> = Vec::new();
    commands.push(Command::Clear(ClearType::All));
    commands.push(Command::MoveTo(0, 0));
    commands.push(Command::SetForegroundColor(COLOR_FG_DECLARE));
    commands.push(Command::Print(join_lines(&lines, "\n\r")));
    commands.push(Command::MoveTo(0, STATIC_INFO_MAINMENU_LEN + 1));
    commands.push(Command::ResetColor);
    commands
}

/// The line that shows a pair.
pub open spec fn pair_line(pair: PairView) -> Seq<char> {
    ">> Title: "@ + pair.title + " | URL: "@ + pair.url + "\n"@
}

/// The line that shows a pair.
pub fn format_pair(pair: &URLTitlePair) -> (line: String)
    ensures
        line@ == pair_line(pair@),
{
    let mut line = ">> Title: ".to_owned();
    line.append(pair.get_title().as_str());
    line.append(" | URL: ");
    line.append(pair.get_url().as_str());
    line.append("\n");
    line
}

/// The line that shows a profile with `count` pairs, whose time of last
/// change is written `stamp`.
pub open spec fn profile_line(name: Seq<char>, count: nat, stamp: Seq<char>) -> Seq<char> {
    ">> "@ + name + " | "@ + decimal_digits(count) + " | "@ + stamp + "\n"@
}

/// How a time is written: as chrono prints it, or not at all where it lies
/// outside the dates chrono can hold.
pub open spec fn time_text(at: Timestamp) -> Seq<char> {
    match naive_display(at.secs, at.nanos) {
        Some(text) => text,
        None => Seq::empty(),
    }
}

/// The line that shows a profile with `count` pairs, whose time of last
/// change is written `stamp`.
pub fn profile_line_of(name: &str, count: usize, stamp: &str) -> (line: String)
    ensures
        line@ == profile_line(name@, count as nat, stamp@),
{
    let mut line = ">> ".to_owned();
    line.append(name);
    line.append(" | ");
    line.append(decimal_text(count).as_str());
    line.append(" | ");
    line.append(stamp);
    line.append("\n");
    line
}

/// The line that shows a profile: its name, the number of its pairs and the
/// time of its last change.
pub fn format_profile(prfl: &Profile) -> (line: String)
    ensures
        line@ == profile_line(
            prfl@.name,
            prfl@.pairs.len(),
            time_text(prfl@.last_modified),
        ),
{
    let at = prfl.get_time_last_visited();
    let stamp = match display_of(at.secs, at.nanos) {
        Some(text) => text,
        None => String::new(),
    };
    profile_line_of(prfl.get_name().as_str(), prfl.get_pairs().len(), stamp.as_str())
}

/// The row below `pos_row_last`, if the cursor's range has one.
pub open spec fn row_below(pos_row_last: u16) -> Option<u16> {
    if pos_row_last < u16::MAX {
        Some((pos_row_last + 1) as u16)
    } else {
        None
    }
}

/// The row below `pos_row_last`; an error where the cursor's range has
/// none.
pub fn next_row(pos_row_last: u16) -> (r: Result<u16, Errors>)
    ensures
        match r {
            Ok(row) => row_below(pos_row_last) == Some(row),
            Err(e) => row_below(pos_row_last) is None && e == Errors::CursorPosOverflowError,
        },
{
    match pos_row_last.checked_add(1) {
        Some(row) => Ok(row),
        None => Err(Errors::CursorPosOverflowError),
    }
}

/// The commands that print the pairs one after the other.
pub open spec fn pairs_printed(pairs: Seq<PairView>) -> Seq<CommandView> {
    pairs.map_values(|pair: PairView| CommandView::Print(pair_line(pair)))
}

/// The commands that show one profile below row `pos_row_last`: the cursor
/// is moved, and then either the pairs are printed on a wiped terminal, or,
/// where nothing is highlighted, the notice that there are none.
pub open spec fn one_profile_commands(
    pairs: Seq<PairView>,
    pos_row_last: u16,
    pos_col: u16,
    highlight_idx: Option<usize>,
) -> Result<Seq<CommandView>, Errors> {
    match row_below(pos_row_last) {
        None => Err(Errors::CursorPosOverflowError),
        Some(pos_row) => Ok(
            seq![CommandView::MoveTo(pos_row, pos_col)] + (match highlight_idx {
                None => line_commands(NO_PAIRS@, Some(COLOR_FG_HILIT)),
                Some(_) => seq![CommandView::Clear(ClearType::All)] + pairs_printed(pairs),
            }),
        ),
    }
}

/// Whether a list of commands, or the error in its place, is what `wanted`
/// says.
pub open spec fn draws(r: Result<Vec<Command>, Errors>, wanted: Result<Seq<CommandView>, Errors>) -> bool {
    match (r, wanted) {
        (Ok(commands), Ok(views)) => commands_of(commands@) == views,
        (Err(e), Err(f)) => e == f,
        _ => false,
    }
}

/// The commands that show one profile.
pub fn render_one_profile(
    prfl: &Profile,
    pos_row_last: u16,
    pos_col: u16,
    highlight_idx: Option<usize>,
) -> (r: Result<Vec<Command>, Errors>)
    ensures
        draws(r, one_profile_commands(prfl@.pairs, pos_row_last, pos_col, highlight_idx)),
{
    let pos_row = match next_row(pos_row_last) {
        Ok(row) => row,
        Err(e) => {
            return Err(e);
        },
    };
    let mut commands: Vec<Command> = Vec::new();
    commands.push(Command::MoveTo(pos_row, pos_col));
    assert(commands_of(commands@) =~= seq![CommandView::MoveTo(pos_row, pos_col)]);
    if highlight_idx.is_none() {
        let mut notice = render_line(NO_PAIRS, Some(COLOR_FG_HILIT));
        let ghost head = commands_of(commands@);
        let ghost tail = commands_of(notice@);
        commands.append(&mut notice);
        assert(commands_of(commands@) =~= head + tail);
        return Ok(commands);
    }
    commands.push(Command::Clear(ClearType::All));
    let pairs = prfl.get_pairs();
    let ghost shown = prfl@.pairs;
    let ghost head = commands_of(commands@);
    let mut i: usize = 0;
    while i < pairs.len()
        invariant
            i <= pairs.len(),
            shown == views_of(pairs@),
            commands_of(commands@) == head + pairs_printed(shown.take(i as int)),
        decreases pairs.len() - i,
    {
        let ghost before = commands_of(commands@);
        let line = format_pair(&pairs[i]);
        commands.push(Command::Print(line));
        proof {
            assert(commands_of(commands@) =~= before.push(
                CommandView::Print(pair_line(shown[i as int])),
            ));
        }
        i += 1;
    }
    proof {
        assert(commands_of(commands@) =~= seq![CommandView::MoveTo(pos_row, pos_col)] + (seq![
            CommandView::Clear(ClearType::All),
        ] + pairs_printed(shown)));
    }
    Ok(commands)
}

/// The commands that list one profile: its line, in the highlight colours
/// where it is the highlighted one, and a reset of the colours.
pub open spec fn listed_profile(profile: ProfileView, highlighted: bool) -> Seq<CommandView> {
    let line = seq![
        CommandView::Print(
            profile_line(profile.name, profile.pairs.len(), time_text(profile.last_modified)),
        ),
        CommandView::ResetColor,
    ];
    if highlighted {
        seq![
            CommandView::SetForegroundColor(COLOR_FG_HILIT),
            CommandView::SetBackgroundColor(COLOR_BG_HILIT),
        ] + line
    } else {
        line
    }
}

/// The commands that list the profiles one after the other, the one at
/// `highlight_idx` highlighted.
pub open spec fn profiles_listed(profiles: Seq<ProfileView>, highlight_idx: usize) -> Seq<
    CommandView,
>
    decreases profiles.len(),
{
    if profiles.len() == 0 {
        Seq::empty()
    } else {
        profiles_listed(profiles.drop_last(), highlight_idx) + listed_profile(
            profiles.last(),
            profiles.len() - 1 == highlight_idx,
        )
    }
}

/// The commands that list the profiles below row `pos_row_last`.
pub open spec fn list_commands(
    profiles: Seq<ProfileView>,
    pos_row_last: u16,
    pos_col: u16,
    highlight_idx: usize,
) -> Result<Seq<CommandView>, Errors> {
    match row_below(pos_row_last) {
        None => Err(Errors::CursorPosOverflowError),
        Some(pos_row) => Ok(
            seq![CommandView::MoveTo(pos_col, pos_row)] + profiles_listed(profiles, highlight_idx),
        ),
    }
}

/// The commands that list the profiles.
pub fn render_list_of_profiles(
    prfls: &Vec<Profile>,
    pos_row_last: u16,
    pos_col: u16,
    highlight_idx: usize,
) -> (r: Result<Vec<Command>, Errors>)
    ensures
        draws(
            r,
            list_commands(profile_views(prfls@), pos_row_last, pos_col, highlight_idx),
        ),
{
    let pos_row = match next_row(pos_row_last) {
        Ok(row) => row,
        Err(e) => {
            return Err(e);
        },
    };
    let mut commands: Vec<Command> = Vec::new();
    commands.push(Command::MoveTo(pos_col, pos_row));
    assert(commands_of(commands@) =~= seq![CommandView::MoveTo(pos_col, pos_row)]);
    let ghost all = profile_views(prfls@);
    let ghost head = commands_of(commands@);
    let mut idx: usize = 0;
    while idx < prfls.len()
        invariant
            idx <= prfls.len(),
            all == profile_views(prfls@),
            commands_of(commands@) == head + profiles_listed(all.take(idx as int), highlight_idx),
        decreases prfls.len() - idx,
    {
        let ghost before = commands_of(commands@);
        let printstr = format_profile(&prfls[idx]);
        if idx == highlight_idx {
            commands.push(Command::SetForegroundColor(COLOR_FG_HILIT));
            commands.push(Command::SetBackgroundColor(COLOR_BG_HILIT));
        }
        commands.push(Command::Print(printstr));
        commands.push(Command::ResetColor);
        proof {
            assert(all.take(idx + 1).drop_last() =~= all.take(idx as int));
            assert(commands_of(commands@) =~= before + listed_profile(
                all[idx as int],
                idx == highlight_idx,
            ));
        }
        idx += 1;
    }
    assert(all.take(idx as int) =~= all);
    Ok(commands)
}

/// The commands that draw one pair: in the highlight colours where it is
/// highlighted, else in the usual colour, and a reset of the colours.
pub open spec fn drawn_pair(pair: PairView) -> Seq<CommandView> {
    if pair.highlighted {
        seq![
            CommandView::SetBackgroundColor(COLOR_BG_HILIT),
            CommandView::SetForegroundColor(COLOR_FG_HILIT),
            CommandView::Print(pair_line(pair)),
            CommandView::ResetColor,
        ]
    } else {
        seq![
            CommandView::SetForegroundColor(COLOR_FG_DEFAULT),
            CommandView::Print(pair_line(pair)),
            CommandView::ResetColor,
        ]
    }
}

/// The commands that draw the pairs one after the other.
pub open spec fn pairs_drawn(pairs: Seq<PairView>) -> Seq<CommandView>
    decreases pairs.len(),
{
    if pairs.len() == 0 {
        Seq::empty()
    } else {
        pairs_drawn(pairs.drop_last()) + drawn_pair(pairs.last())
    }
}

/// The commands that draw a profile's pairs below row `pos_row_last`.
pub open spec fn profile_commands(pairs: Seq<PairView>, pos_row_last: u16, pos_col: u16) -> Result<
    Seq<CommandView>,
    Errors,
> {
    match row_below(pos_row_last) {
        None => Err(Errors::CursorPosOverflowError),
        Some(pos_row) => Ok(seq![CommandView::MoveTo(pos_col, pos_row)] + pairs_drawn(pairs)),
    }
}

/// The commands that draw a profile's pairs.
fn render_profile_impl(prfl: &Profile) -> (commands: Vec<Command>)
    ensures
        commands_of(commands@) == pairs_drawn(prfl@.pairs),
{
    let mut commands: Vec<Command> = Vec::new();
    let pairs = prfl.get_pairs();
    let ghost shown = prfl@.pairs;
    let mut i: usize = 0;
    while i < pairs.len()
        invariant
            i <= pairs.len(),
            shown == views_of(pairs@),
            commands_of(commands@) == pairs_drawn(shown.take(i as int)),
        decreases pairs.len() - i,
    {
        let pair = &pairs[i];
        let mut fg_color = COLOR_FG_DEFAULT;
        if pair.highlighted() {
            fg_color = COLOR_FG_HILIT;
            commands.push(Command::SetBackgroundColor(COLOR_BG_HILIT));
        }
        commands.push(Command::SetForegroundColor(fg_color));
        commands.push(Command::Print(format_pair(pair)));
        commands.push(Command::ResetColor);
        proof {
            assert(shown.take(i + 1).drop_last() =~= shown.take(i as int));
        }
        i += 1;
    }
    assert(shown.take(i as int) =~= shown);
    commands
}

/// The commands that draw a profile's pairs below row `pos_row_last`.
pub fn render_profile(prfl: &Profile, pos_row_last: u16, pos_col: u16) -> (r: Result<
    Vec<Command>,
    Errors,
>)
    ensures
        draws(r, profile_commands(prfl@.pairs, pos_row_last, pos_col)),
{
    let pos_row = match next_row(pos_row_last) {
        Ok(row) => row,
        Err(e) => {
            return Err(e);
        },
    };
    let mut commands: Vec<Command> = Vec::new();
    commands.push(Command::MoveTo(pos_col, pos_row));
    assert(commands_of(commands@) =~= seq![CommandView::MoveTo(pos_col, pos_row)]);
    let mut drawn = render_profile_impl(prfl);
    let ghost head = commands_of(commands@);
    let ghost tail = commands_of(drawn@);
    commands.append(&mut drawn);
    assert(commands_of(commands@) =~= head + tail);
    Ok(commands)
}

} // verus!
