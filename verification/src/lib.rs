//! Profiles of browser tabs: a store of URL/title pairs with two indices,
//! together with the parsing, menu and rendering rules built around it.

pub mod errors;
pub mod ids;
mod index;
pub mod io;
pub mod laws;
pub mod menu;
pub mod pair;
pub mod profile;
pub mod renderer;
pub mod search;
pub mod sorting;
pub mod text;
pub mod time;

pub use errors::Errors;
pub use ids::IdAllocator;
pub use menu::{Key, Menu, Step, WhatToRender};
pub use pair::URLTitlePair;
pub use profile::{Profile, ProfileBuilder, SortMode};
pub use renderer::{
    render_beginning, render_line, render_list_of_profiles, render_one_profile, render_profile,
    ClearType, Color, Command, COLOR_BG_HILIT, COLOR_FG_DECLARE, COLOR_FG_DEFAULT, COLOR_FG_HILIT,
    STATIC_INFO_MAINMENU_LEN,
};
pub use search::SearchMode;
pub use time::Timestamp;
