//! What a key press asks the application to do. The popups take keys in a
//! fixed order of precedence: the help popup, a message popup, a deletion
//! confirmation, the search popup; otherwise the main screen gets the key.

use vstd::prelude::*;
use crate::tui::{Tab, HelpTab};
use crate::player::PlayerState;

verus! {

/// A key as the terminal reports it.
#[derive(Debug, Clone, Copy, PartialEq, Eq, Structural)]
pub enum Key {
    Char(char),
    Esc,
    Enter,
    Tab,
    BackTab,
    Backspace,
    Up,
    Down,
    Left,
    Right,
    PageUp,
    PageDown,
    Home,
    End,
    /// A function key, by number.
    F(u8),
    /// Any other key.
    Other,
}

/// What the key dispatch needs to know of the application.
#[derive(Debug, Clone, Copy)]
pub struct KeyContext {
    /// Whether the control key is held.
    pub ctrl: bool,
    pub help_popup: bool,
    pub help_tab: HelpTab,
    pub help_log_scroll: usize,
    pub status_log_len: usize,
    pub settings_selected: usize,
    /// Whether an error or warning popup is open.
    pub message_popup: bool,
    /// Whether a deletion waits for confirmation.
    pub confirm_delete: bool,
    pub search_popup: bool,
    /// Whether the search popup shows its completions.
    pub autocomplete_shown: bool,
    pub current_tab: Tab,
    pub selected_index: usize,
    pub stations_len: usize,
    pub autovote_selected: usize,
    pub autovote_len: usize,
    pub player_state: PlayerState,
    /// Whether a station is remembered from an earlier session.
    pub has_station_url: bool,
    pub autovote_enabled: bool,
    pub is_last_page: bool,
    pub current_page: usize,
}

impl KeyContext {
    /// Whether a popup that takes the keys away from the main screen is open.
    pub fn has_popup(&self) -> (b: bool)
        ensures
            b == (self.help_popup || self.search_popup || self.message_popup || self.confirm_delete),
    {
        self.help_popup || self.search_popup || self.message_popup || self.confirm_delete
    }
}

/// The warnings a key can raise.
#[derive(Debug, Clone, Copy, PartialEq, Eq, Structural)]
pub enum KeyWarning {
    /// Paging keys outside the browse tab.
    NoPagination,
    AlreadyLastPage,
    AlreadyFirstPage,
}

/// The last entry of the settings list.
pub const LAST_SETTING: usize = 4;

/// What a key asks the application to do.
#[derive(Debug, Clone, Copy, PartialEq, Eq, Structural)]
pub enum KeyAction {
    Quit,
    /// Close the help popup.
    CloseHelp,
    /// Show this tab of the help popup.
    ShowHelpTab(HelpTab),
    /// Scroll the help log to this entry.
    SetHelpLogScroll(usize),
    /// Show the next log level in the help log, from the top.
    CycleLogFilter,
    /// Highlight this entry of the settings list.
    SelectSetting(usize),
    /// Change the setting at this position, forward or back.
    ChangeSetting(usize, bool),
    /// Close the error or warning popup and clear the player's error.
    DismissMessage,
    ConfirmDeletion,
    CancelDeletion,
    /// Type this character into the search popup.
    SearchType(char),
    /// Delete before the cursor in the search popup.
    SearchBackspace,
    /// Accept the highlighted completion.
    SearchComplete,
    SearchNextCompletion,
    SearchPrevCompletion,
    /// Parse the query and search with it.
    SearchSubmit,
    HideCompletions,
    CloseSearch,
    OpenHelp,
    SelectPrev,
    SelectNext,
    /// Highlight this entry of the automatic-vote list.
    SelectAutovote(usize),
    PageUp,
    PageDown,
    /// Highlight the first station and scroll to the top.
    SelectFirst,
    /// Highlight the station at this position.
    SelectStation(usize),
    PlaySelected,
    Pause,
    Resume,
    /// Play the station remembered from the last session.
    PlayRestored,
    Stop,
    Reload,
    VolumeUp,
    VolumeDown,
    ToggleFavorite,
    Vote,
    ToggleAutovote,
    /// Switch to this tab.
    SwitchTab(Tab),
    /// Ask to confirm removing the automatic-vote entry at this position.
    AskDeleteAutovote(usize),
    /// Ask to confirm removing the favorite at this position of the list.
    AskDeleteFavorite(usize),
    OpenSearch,
    /// Show the first result page again.
    FirstPage,
    NextTab,
    PrevTab,
    /// Ask for the next result page (`true`) or the previous one.
    RequestPage(bool),
    Warn(KeyWarning),
    Nothing,
}

/// The action of `key` while the help popup shows its keys.
pub open spec fn help_keys_action(key: Key) -> KeyAction {
    match key {
        Key::Esc | Key::Char('?') => KeyAction::CloseHelp,
        Key::Tab => KeyAction::ShowHelpTab(HelpTab::Settings),
        _ => KeyAction::Nothing,
    }
}

/// The action of `key` while the help popup shows the log.
pub open spec fn help_log_action(key: Key, scroll: usize, count: usize) -> KeyAction {
    match key {
        Key::Esc | Key::Char('?') => KeyAction::CloseHelp,
        Key::Tab => KeyAction::ShowHelpTab(HelpTab::Keys),
        Key::Up | Key::Char('k') => if scroll > 0 { KeyAction::SetHelpLogScroll((scroll - 1) as usize) } else { KeyAction::Nothing },
        Key::Down | Key::Char('j') => if count > 0 && scroll + 1 < count {
            KeyAction::SetHelpLogScroll((scroll + 1) as usize)
        } else {
            KeyAction::Nothing
        },
        Key::Char('f') => KeyAction::CycleLogFilter,
        _ => KeyAction::Nothing,
    }
}

/// The action of `key` while the help popup shows the settings.
pub open spec fn help_settings_action(key: Key, selected: usize) -> KeyAction {
    match key {
        Key::Esc | Key::Char('?') => KeyAction::CloseHelp,
        Key::Tab => KeyAction::ShowHelpTab(HelpTab::Log),
        Key::Up | Key::Char('k') => if selected > 0 { KeyAction::SelectSetting((selected - 1) as usize) } else { KeyAction::Nothing },
        Key::Down | Key::Char('j') => if selected < LAST_SETTING { KeyAction::SelectSetting((selected + 1) as usize) } else { KeyAction::Nothing },
        Key::Right | Key::Enter => KeyAction::ChangeSetting(selected, true),
        Key::Left => KeyAction::ChangeSetting(selected, false),
        _ => KeyAction::Nothing,
    }
}

/// The action of `key` while the search popup is open.
pub open spec fn search_popup_action(key: Key, completions_shown: bool) -> KeyAction {
    match key {
        Key::Char(c) => KeyAction::SearchType(c),
        Key::Backspace => KeyAction::SearchBackspace,
        Key::Tab => KeyAction::SearchComplete,
        Key::Down => if completions_shown { KeyAction::SearchNextCompletion } else { KeyAction::Nothing },
        Key::Up => if completions_shown { KeyAction::SearchPrevCompletion } else { KeyAction::Nothing },
        Key::Enter => KeyAction::SearchSubmit,
        Key::Esc => if completions_shown { KeyAction::HideCompletions } else { KeyAction::CloseSearch },
        _ => KeyAction::Nothing,
    }
}

/// The switch to `target` that a number key asks for: none when it is the current tab.
pub open spec fn switch_to(current: Tab, target: Tab) -> KeyAction {
    if current != target { KeyAction::SwitchTab(target) } else { KeyAction::Nothing }
}

/// The action of `key` on the main screen.
pub open spec fn main_screen_action(ctx: KeyContext, key: Key) -> KeyAction {
    match key {
        Key::Char('?') => KeyAction::OpenHelp,
        Key::Char('q') | Key::Char('Q') => KeyAction::Quit,
        Key::Up => if ctx.current_tab == Tab::Autovote {
            if ctx.autovote_selected > 0 { KeyAction::SelectAutovote((ctx.autovote_selected - 1) as usize) } else { KeyAction::Nothing }
        } else {
            KeyAction::SelectPrev
        },
        Key::Down => if ctx.current_tab == Tab::Autovote {
            if ctx.autovote_selected + 1 < ctx.autovote_len {
                KeyAction::SelectAutovote((ctx.autovote_selected + 1) as usize)
            } else {
                KeyAction::Nothing
            }
        } else {
            KeyAction::SelectNext
        },
        Key::PageUp => KeyAction::PageUp,
        Key::PageDown => KeyAction::PageDown,
        Key::Home => KeyAction::SelectFirst,
        Key::End => if ctx.stations_len > 0 { KeyAction::SelectStation((ctx.stations_len - 1) as usize) } else { KeyAction::Nothing },
        Key::Enter => KeyAction::PlaySelected,
        Key::Char(' ') => if ctx.player_state == PlayerState::Playing {
            KeyAction::Pause
        } else if ctx.player_state == PlayerState::Paused {
            KeyAction::Resume
        } else if ctx.player_state == PlayerState::Stopped && ctx.has_station_url {
            KeyAction::PlayRestored
        } else {
            KeyAction::Resume
        },
        Key::Char('s') | Key::Char('S') => KeyAction::Stop,
        Key::Char('r') | Key::Char('R') => KeyAction::Reload,
        Key::Char('+') | Key::Char('=') => KeyAction::VolumeUp,
        Key::Char('-') | Key::Char('_') => KeyAction::VolumeDown,
        Key::Char('f') | Key::Char('F') => KeyAction::ToggleFavorite,
        Key::Char('v') => KeyAction::Vote,
        Key::Char('V') => KeyAction::ToggleAutovote,
        Key::Char('1') => switch_to(ctx.current_tab, Tab::Browse),
        Key::Char('2') => switch_to(ctx.current_tab, Tab::Favorites),
        Key::Char('3') => switch_to(ctx.current_tab, Tab::History),
        Key::Char('4') => if ctx.autovote_enabled { switch_to(ctx.current_tab, Tab::Autovote) } else { KeyAction::Nothing },
        Key::Char('d') | Key::Char('D') => if ctx.current_tab == Tab::Autovote {
            if ctx.autovote_selected < ctx.autovote_len { KeyAction::AskDeleteAutovote(ctx.autovote_selected) } else { KeyAction::Nothing }
        } else if ctx.current_tab == Tab::Favorites {
            if ctx.selected_index < ctx.stations_len { KeyAction::AskDeleteFavorite(ctx.selected_index) } else { KeyAction::Nothing }
        } else {
            KeyAction::Nothing
        },
        Key::Char('/') => KeyAction::OpenSearch,
        Key::F(1) => KeyAction::FirstPage,
        Key::Tab => KeyAction::NextTab,
        Key::BackTab => KeyAction::PrevTab,
        Key::Char('n') | Key::Char(']') => if ctx.current_tab != Tab::Browse {
            KeyAction::Warn(KeyWarning::NoPagination)
        } else if !ctx.is_last_page {
            KeyAction::RequestPage(true)
        } else {
            KeyAction::Warn(KeyWarning::AlreadyLastPage)
        },
        Key::Char('p') | Key::Char('[') => if ctx.current_tab != Tab::Browse {
            KeyAction::Warn(KeyWarning::NoPagination)
        } else if ctx.current_page > 1 {
            KeyAction::RequestPage(false)
        } else {
            KeyAction::Warn(KeyWarning::AlreadyFirstPage)
        },
        _ => KeyAction::Nothing,
    }
}

/// The action of `key` in context `ctx`: control-C always quits; otherwise
/// the open popup of highest precedence takes the key, else the main screen.
pub open spec fn key_action_of(ctx: KeyContext, key: Key) -> KeyAction {
    if ctx.ctrl && key == Key::Char('c') {
        KeyAction::Quit
    } else if ctx.help_popup {
        match ctx.help_tab {
            HelpTab::Keys => help_keys_action(key),
            HelpTab::Log => help_log_action(key, ctx.help_log_scroll, ctx.status_log_len),
            HelpTab::Settings => help_settings_action(key, ctx.settings_selected),
        }
    } else if ctx.message_popup {
        match key {
            Key::Esc | Key::Enter => KeyAction::DismissMessage,
            _ => KeyAction::Nothing,
        }
    } else if ctx.confirm_delete {
        match key {
            Key::Enter | Key::Char('y') | Key::Char('Y') => KeyAction::ConfirmDeletion,
            Key::Esc | Key::Char('n') | Key::Char('N') => KeyAction::CancelDeletion,
            _ => KeyAction::Nothing,
        }
    } else if ctx.search_popup {
        search_popup_action(key, ctx.autocomplete_shown)
    } else {
        main_screen_action(ctx, key)
    }
}

fn help_log_key(key: Key, scroll: usize, count: usize) -> (a: KeyAction)
    ensures
        a == help_log_action(key, scroll, count),
{
    match key {
        Key::Esc | Key::Char('?') => KeyAction::CloseHelp,
        Key::Tab => KeyAction::ShowHelpTab(HelpTab::Keys),
        Key::Up | Key::Char('k') => if scroll > 0 { KeyAction::SetHelpLogScroll(scroll - 1) } else { KeyAction::Nothing },
        Key::Down | Key::Char('j') => if count > 0 && scroll < count - 1 {
            KeyAction::SetHelpLogScroll(scroll + 1)
        } else {
            KeyAction::Nothing
        },
        Key::Char('f') => KeyAction::CycleLogFilter,
        _ => KeyAction::Nothing,
    }
}

fn help_settings_key(key: Key, selected: usize) -> (a: KeyAction)
    ensures
        a == help_settings_action(key, selected),
{
    match key {
        Key::Esc | Key::Char('?') => KeyAction::CloseHelp,
        Key::Tab => KeyAction::ShowHelpTab(HelpTab::Log),
        Key::Up | Key::Char('k') => if selected > 0 { KeyAction::SelectSetting(selected - 1) } else { KeyAction::Nothing },
        Key::Down | Key::Char('j') => if selected < LAST_SETTING { KeyAction::SelectSetting(selected + 1) } else { KeyAction::Nothing },
        Key::Right | Key::Enter => KeyAction::ChangeSetting(selected, true),
        Key::Left => KeyAction::ChangeSetting(selected, false),
        _ => KeyAction::Nothing,
    }
}

fn search_popup_key(key: Key, completions_shown: bool) -> (a: KeyAction)
    ensures
        a == search_popup_action(key, completions_shown),
{
    match key {
        Key::Char(c) => KeyAction::SearchType(c),
        Key::Backspace => KeyAction::SearchBackspace,
        Key::Tab => KeyAction::SearchComplete,
        Key::Down => if completions_shown { KeyAction::SearchNextCompletion } else { KeyAction::Nothing },
        Key::Up => if completions_shown { KeyAction::SearchPrevCompletion } else { KeyAction::Nothing },
        Key::Enter => KeyAction::SearchSubmit,
        Key::Esc => if completions_shown { KeyAction::HideCompletions } else { KeyAction::CloseSearch },
        _ => KeyAction::Nothing,
    }
}

fn switch_tab_key(current: Tab, target: Tab) -> (a: KeyAction)
    ensures
        a == switch_to(current, target),
{
    if current != target { KeyAction::SwitchTab(target) } else { KeyAction::Nothing }
}

fn main_screen_key(ctx: &KeyContext, key: Key) -> (a: KeyAction)
    ensures
        a == main_screen_action(*ctx, key),
{
    match key {
        Key::Char('?') => KeyAction::OpenHelp,
        Key::Char('q') | Key::Char('Q') => KeyAction::Quit,
        Key::Up => if ctx.current_tab == Tab::Autovote {
            if ctx.autovote_selected > 0 { KeyAction::SelectAutovote(ctx.autovote_selected - 1) } else { KeyAction::Nothing }
        } else {
            KeyAction::SelectPrev
        },
        Key::Down => if ctx.current_tab == Tab::Autovote {
            if ctx.autovote_selected < ctx.autovote_len && ctx.autovote_selected + 1 < ctx.autovote_len {
                KeyAction::SelectAutovote(ctx.autovote_selected + 1)
            } else {
                KeyAction::Nothing
            }
        } else {
            KeyAction::SelectNext
        },
        Key::PageUp => KeyAction::PageUp,
        Key::PageDown => KeyAction::PageDown,
        Key::Home => KeyAction::SelectFirst,
        Key::End => if ctx.stations_len > 0 { KeyAction::SelectStation(ctx.stations_len - 1) } else { KeyAction::Nothing },
        Key::Enter => KeyAction::PlaySelected,
        Key::Char(' ') => match ctx.player_state {
            PlayerState::Playing => KeyAction::Pause,
            PlayerState::Paused => KeyAction::Resume,
            PlayerState::Stopped => if ctx.has_station_url { KeyAction::PlayRestored } else { KeyAction::Resume },
            _ => KeyAction::Resume,
        },
        Key::Char('s') | Key::Char('S') => KeyAction::Stop,
        Key::Char('r') | Key::Char('R') => KeyAction::Reload,
        Key::Char('+') | Key::Char('=') => KeyAction::VolumeUp,
        Key::Char('-') | Key::Char('_') => KeyAction::VolumeDown,
        Key::Char('f') | Key::Char('F') => KeyAction::ToggleFavorite,
        Key::Char('v') => KeyAction::Vote,
        Key::Char('V') => KeyAction::ToggleAutovote,
        Key::Char('1') => switch_tab_key(ctx.current_tab, Tab::Browse),
        Key::Char('2') => switch_tab_key(ctx.current_tab, Tab::Favorites),
        Key::Char('3') => switch_tab_key(ctx.current_tab, Tab::History),
        Key::Char('4') => if ctx.autovote_enabled { switch_tab_key(ctx.current_tab, Tab::Autovote) } else { KeyAction::Nothing },
        Key::Char('d') | Key::Char('D') => match ctx.current_tab {
            Tab::Autovote => if ctx.autovote_selected < ctx.autovote_len {
                KeyAction::AskDeleteAutovote(ctx.autovote_selected)
            } else {
                KeyAction::Nothing
            },
            Tab::Favorites => if ctx.selected_index < ctx.stations_len {
                KeyAction::AskDeleteFavorite(ctx.selected_index)
            } else {
                KeyAction::Nothing
            },
            _ => KeyAction::Nothing,
        },
        Key::Char('/') => KeyAction::OpenSearch,
        Key::F(1) => KeyAction::FirstPage,
        Key::Tab => KeyAction::NextTab,
        Key::BackTab => KeyAction::PrevTab,
        Key::Char('n') | Key::Char(']') => if ctx.current_tab != Tab::Browse {
            KeyAction::Warn(KeyWarning::NoPagination)
        } else if !ctx.is_last_page {
            KeyAction::RequestPage(true)
        } else {
            KeyAction::Warn(KeyWarning::AlreadyLastPage)
        },
        Key::Char('p') | Key::Char('[') => if ctx.current_tab != Tab::Browse {
            KeyAction::Warn(KeyWarning::NoPagination)
        } else if ctx.current_page > 1 {
            KeyAction::RequestPage(false)
        } else {
            KeyAction::Warn(KeyWarning::AlreadyFirstPage)
        },
        _ => KeyAction::Nothing,
    }
}

/// What `key` asks the application to do in context `ctx`.
pub fn key_action(ctx: &KeyContext, key: Key) -> (a: KeyAction)
    ensures
        a == key_action_of(*ctx, key),
{
    if ctx.ctrl && key == Key::Char('c') {
        return KeyAction::Quit;
    }
    if ctx.help_popup {
        return match ctx.help_tab {
            HelpTab::Keys => match key {
                Key::Esc | Key::Char('?') => KeyAction::CloseHelp,
                Key::Tab => KeyAction::ShowHelpTab(HelpTab::Settings),
                _ => KeyAction::Nothing,
            },
            HelpTab::Log => help_log_key(key, ctx.help_log_scroll, ctx.status_log_len),
            HelpTab::Settings => help_settings_key(key, ctx.settings_selected),
        };
    }
    if ctx.message_popup {
        return match key {
            Key::Esc | Key::Enter => KeyAction::DismissMessage,
            _ => KeyAction::Nothing,
        };
    }
    if ctx.confirm_delete {
        return match key {
            Key::Enter | Key::Char('y') | Key::Char('Y') => KeyAction::ConfirmDeletion,
            Key::Esc | Key::Char('n') | Key::Char('N') => KeyAction::CancelDeletion,
            _ => KeyAction::Nothing,
        };
    }
    if ctx.search_popup {
        return search_popup_key(key, ctx.autocomplete_shown);
    }
    main_screen_key(ctx, key)
}

/// Control-C quits whatever is open.
pub proof fn law_ctrl_c_quits(ctx: KeyContext)
    requires
        ctx.ctrl,
    ensures
        key_action_of(ctx, Key::Char('c')) == KeyAction::Quit,
{
}

/// The actions of the help popup, and doing nothing.
pub open spec fn is_help_action(a: KeyAction) -> bool {
    match a {
        KeyAction::CloseHelp | KeyAction::ShowHelpTab(_) | KeyAction::SetHelpLogScroll(_)
        | KeyAction::CycleLogFilter | KeyAction::SelectSetting(_) | KeyAction::ChangeSetting(_, _)
        | KeyAction::Nothing => true,
        _ => false,
    }
}

/// While the help popup is open, no key but control-C reaches the player,
/// the lists or the other popups: every action is one of the help popup's.
pub proof fn law_help_popup_captures_keys(ctx: KeyContext, key: Key)
    requires
        ctx.help_popup,
        !(ctx.ctrl && key == Key::Char('c')),
    ensures
        is_help_action(key_action_of(ctx, key)),
{
}

/// `Tab` cycles the help popup through its three tabs and back.
pub proof fn law_help_tabs_cycle(ctx: KeyContext)
    requires
        ctx.help_popup,
        !ctx.ctrl,
    ensures
        ctx.help_tab == HelpTab::Keys ==> key_action_of(ctx, Key::Tab) == KeyAction::ShowHelpTab(HelpTab::Settings),
        ctx.help_tab == HelpTab::Settings ==> key_action_of(ctx, Key::Tab) == KeyAction::ShowHelpTab(HelpTab::Log),
        ctx.help_tab == HelpTab::Log ==> key_action_of(ctx, Key::Tab) == KeyAction::ShowHelpTab(HelpTab::Keys),
{
}

/// While the search popup is the open popup, every character is typed into
/// the query: none is taken as a command.
pub proof fn law_search_popup_takes_characters(ctx: KeyContext, c: char)
    requires
        ctx.search_popup,
        !ctx.help_popup,
        !ctx.message_popup,
        !ctx.confirm_delete,
        !(ctx.ctrl && c == 'c'),
    ensures
        key_action_of(ctx, Key::Char(c)) == KeyAction::SearchType(c),
{
}

/// Paging, with `n` or `]` forward and `p` or `[` back, is refused outside
/// the browse tab, and inside it only past the first page (back) or before
/// the last one (forward).
pub proof fn law_paging_keys(ctx: KeyContext)
    requires
        !ctx.ctrl,
        !ctx.help_popup,
        !ctx.message_popup,
        !ctx.confirm_delete,
        !ctx.search_popup,
    ensures
        key_action_of(ctx, Key::Char('n')) == KeyAction::RequestPage(true)
            <==> (ctx.current_tab == Tab::Browse && !ctx.is_last_page),
        key_action_of(ctx, Key::Char('p')) == KeyAction::RequestPage(false)
            <==> (ctx.current_tab == Tab::Browse && ctx.current_page > 1),
        key_action_of(ctx, Key::Char(']')) == KeyAction::RequestPage(true)
            <==> (ctx.current_tab == Tab::Browse && !ctx.is_last_page),
        key_action_of(ctx, Key::Char('[')) == KeyAction::RequestPage(false)
            <==> (ctx.current_tab == Tab::Browse && ctx.current_page > 1),
        key_action_of(ctx, Key::Char(']')) == key_action_of(ctx, Key::Char('n')),
        key_action_of(ctx, Key::Char('[')) == key_action_of(ctx, Key::Char('p')),
{
}

/// On the main screen the two volume keys move the volume in opposite
/// directions: `+` (or `=`) raises it and `-` (or `_`) lowers it, whatever
/// tab, selection or player state is current.
pub proof fn law_volume_keys(ctx: KeyContext)
    requires
        !ctx.ctrl,
        !ctx.help_popup,
        !ctx.message_popup,
        !ctx.confirm_delete,
        !ctx.search_popup,
    ensures
        key_action_of(ctx, Key::Char('+')) == KeyAction::VolumeUp,
        key_action_of(ctx, Key::Char('=')) == KeyAction::VolumeUp,
        key_action_of(ctx, Key::Char('-')) == KeyAction::VolumeDown,
        key_action_of(ctx, Key::Char('_')) == KeyAction::VolumeDown,
        key_action_of(ctx, Key::Char('+')) != key_action_of(ctx, Key::Char('-')),
{
}

/// The levels of the status log.
#[derive(Debug, Clone, Copy, PartialEq, Eq, Structural)]
pub enum LogLevel {
    Error,
    Warning,
    Info,
    Debug,
}

/// The log filter after `f`: all entries, then errors, warnings, information
/// and debugging entries, then all entries again.
pub open spec fn log_filter_after(f: Option<LogLevel>) -> Option<LogLevel> {
    match f {
        None => Some(LogLevel::Error),
        Some(LogLevel::Error) => Some(LogLevel::Warning),
        Some(LogLevel::Warning) => Some(LogLevel::Info),
        Some(LogLevel::Info) => Some(LogLevel::Debug),
        Some(LogLevel::Debug) => None,
    }
}

/// The log filter the help log's `f` key moves to from `f`.
pub fn next_log_filter(f: Option<LogLevel>) -> (r: Option<LogLevel>)
    ensures
        r == log_filter_after(f),
{
    match f {
        None => Some(LogLevel::Error),
        Some(LogLevel::Error) => Some(LogLevel::Warning),
        Some(LogLevel::Warning) => Some(LogLevel::Info),
        Some(LogLevel::Info) => Some(LogLevel::Debug),
        Some(LogLevel::Debug) => None,
    }
}

/// Five presses of the filter key come back to the filter one started from.
pub proof fn law_log_filter_cycle(f: Option<LogLevel>)
    ensures
        log_filter_after(log_filter_after(log_filter_after(log_filter_after(log_filter_after(f))))) == f,
{
}

} // verus!
