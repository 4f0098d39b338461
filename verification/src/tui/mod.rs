//! The terminal interface's state and decisions: tabs, list navigation, the
//! search popup and what each key asks the application to do.

use vstd::prelude::*;

pub mod navigation;
pub mod search_popup;
pub mod keys;
pub mod layout;
pub mod paging;
pub mod log_file;
pub mod highlight;
pub mod browse;
pub mod panels;
pub mod actions;

verus! {

/// The tabs of the main screen.
#[derive(Debug, Clone, Copy, PartialEq, Eq, Structural)]
pub enum Tab {
    Browse,
    Favorites,
    History,
    Autovote,
}

/// The tabs of the help popup.
#[derive(Debug, Clone, Copy, PartialEq, Eq, Structural)]
pub enum HelpTab {
    Keys,
    Settings,
    Log,
}

/// Target of a pending deletion confirmation.
#[derive(Debug, Clone)]
pub enum ConfirmDelete {
    /// A favorite, by uuid and name.
    Favorite(String, String),
    /// An automatic-vote entry, by uuid and name.
    Autovote(String, String),
}

/// Where the stations of the browse tab come from.
#[derive(Debug, Clone, Copy, PartialEq, Eq, Structural)]
pub enum BrowseMode {
    Popular,
    Search,
    ByCountry,
    ByGenre,
    ByLanguage,
}

/// Which focusable widget currently has keyboard focus on the main screen.
#[derive(Debug, Clone, Copy, PartialEq, Eq, Structural)]
pub enum FocusedWidget {
    StationList,
}

} // verus!
