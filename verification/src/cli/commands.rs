//! The commands of the command line and the decisions each one makes from
//! the player's state.

use vstd::prelude::*;
use crate::player::PlayerState;
use crate::search::types::{SearchQuery, QueryModel, default_query};
use crate::text::{string_equals_str, string_from_str, text_list};
use crate::cli::session::SearchAction;

verus! {

/// A command of the command line.
#[derive(Debug, Clone, Copy, PartialEq, Eq, Structural)]
pub enum CliCommand {
    /// `find` alone: ask for the filters one by one.
    InteractiveFind,
    /// `find` with options: search with them.
    DirectFind,
    /// `help`, `-h` or `--help`.
    Help,
    /// `completion`: print the shell completion script.
    Completion,
    /// `info`, or no command: show the player's state.
    Info,
    /// `stop`: pause.
    Stop,
    /// `play`: resume, or replay the last station.
    Play,
    /// `kill`: stop the daemon.
    Kill,
    /// `volume --up [amount]`.
    VolumeUp,
    /// `volume --down [amount]`.
    VolumeDown,
    /// `volume <percent>`.
    VolumeSet,
    /// `volume` alone: show the volume.
    VolumeShow,
    /// Anything else.
    Unknown,
}

/// The command the arguments (program name first) ask for.
pub open spec fn command_of(args: Seq<Seq<char>>) -> CliCommand {
    if args.len() < 2 {
        CliCommand::Info
    } else {
        let c = args[1];
        if c == "find"@ {
            if args.len() <= 2 { CliCommand::InteractiveFind } else { CliCommand::DirectFind }
        } else if c == "help"@ || c == "-h"@ || c == "--help"@ {
            CliCommand::Help
        } else if c == "completion"@ {
            CliCommand::Completion
        } else if c == "info"@ {
            CliCommand::Info
        } else if c == "stop"@ {
            CliCommand::Stop
        } else if c == "play"@ {
            CliCommand::Play
        } else if c == "kill"@ {
            CliCommand::Kill
        } else if c == "volume"@ {
            if args.len() < 3 {
                CliCommand::VolumeShow
            } else if args[2] == "--up"@ {
                CliCommand::VolumeUp
            } else if args[2] == "--down"@ {
                CliCommand::VolumeDown
            } else {
                CliCommand::VolumeSet
            }
        } else {
            CliCommand::Unknown
        }
    }
}

/// Whether a command talks to the player daemon.
pub open spec fn needs_daemon(c: CliCommand) -> bool {
    !(c == CliCommand::InteractiveFind || c == CliCommand::DirectFind || c == CliCommand::Help
        || c == CliCommand::Completion)
}

/// The command the arguments ask for.
pub fn parse_command(args: &[String]) -> (c: CliCommand)
    ensures
        c == command_of(text_list(args@)),
{
    let ghost a = text_list(args@);
    if args.len() < 2 {
        return CliCommand::Info;
    }
    let c = &args[1];
    proof {
        assert(a[1] == c@);
    }
    if string_equals_str(c, "find") {
        if args.len() <= 2 { CliCommand::InteractiveFind } else { CliCommand::DirectFind }
    } else if string_equals_str(c, "help") || string_equals_str(c, "-h") || string_equals_str(c, "--help") {
        CliCommand::Help
    } else if string_equals_str(c, "completion") {
        CliCommand::Completion
    } else if string_equals_str(c, "info") {
        CliCommand::Info
    } else if string_equals_str(c, "stop") {
        CliCommand::Stop
    } else if string_equals_str(c, "play") {
        CliCommand::Play
    } else if string_equals_str(c, "kill") {
        CliCommand::Kill
    } else if string_equals_str(c, "volume") {
        if args.len() < 3 {
            CliCommand::VolumeShow
        } else {
            proof {
                assert(a[2] == args@[2]@);
            }
            if string_equals_str(&args[2], "--up") {
                CliCommand::VolumeUp
            } else if string_equals_str(&args[2], "--down") {
                CliCommand::VolumeDown
            } else {
                CliCommand::VolumeSet
            }
        }
    } else {
        CliCommand::Unknown
    }
}

/// Whether a command talks to the player daemon.
pub fn uses_daemon(c: CliCommand) -> (b: bool)
    ensures
        b == needs_daemon(c),
{
    match c {
        CliCommand::InteractiveFind | CliCommand::DirectFind | CliCommand::Help | CliCommand::Completion => false,
        _ => true,
    }
}

/// The name of a player state as the `info` command shows it.
pub fn state_label(s: PlayerState) -> (l: &'static str)
    ensures
        l@ == (match s {
            PlayerState::Playing => "Playing"@,
            PlayerState::Paused => "Paused"@,
            PlayerState::Stopped => "Stopped"@,
            PlayerState::Loading => "Loading"@,
            PlayerState::Error => "Error"@,
        }),
{
    match s {
        PlayerState::Playing => "Playing",
        PlayerState::Paused => "Paused",
        PlayerState::Stopped => "Stopped",
        PlayerState::Loading => "Loading",
        PlayerState::Error => "Error",
    }
}

/// How a station is named in messages: its name, or `fallback` when it has none.
pub fn station_label(name: &str, fallback: &str) -> (l: String)
    ensures
        l@ == (if name@.len() == 0 { fallback@ } else { name@ }),
{
    let v = crate::text::chars_of(name);
    if v.len() == 0 { string_from_str(fallback) } else { string_from_str(name) }
}

/// What `stop` does.
#[derive(Debug, Clone, Copy, PartialEq, Eq, Structural)]
pub enum StopOutcome {
    /// Say the player is already paused.
    AlreadyPaused,
    Pause,
}

/// `stop` pauses unless the player is paused already.
pub fn stop_outcome(s: PlayerState) -> (o: StopOutcome)
    ensures
        o == (if s == PlayerState::Paused { StopOutcome::AlreadyPaused } else { StopOutcome::Pause }),
{
    match s {
        PlayerState::Paused => StopOutcome::AlreadyPaused,
        _ => StopOutcome::Pause,
    }
}

/// What `play` does.
#[derive(Debug, Clone, Copy, PartialEq, Eq, Structural)]
pub enum PlayOutcome {
    Resume,
    /// Play the station of the last session.
    PlayLast,
    /// Say there is nothing to play.
    NothingToPlay,
    /// Say the player is already playing.
    AlreadyPlaying,
}

/// `play` resumes a paused player; a stopped one plays the last session's
/// station when one is remembered; otherwise it is already playing.
pub fn play_outcome(s: PlayerState, has_last_station: bool) -> (o: PlayOutcome)
    ensures
        o == (if s == PlayerState::Paused {
            PlayOutcome::Resume
        } else if s == PlayerState::Stopped {
            if has_last_station { PlayOutcome::PlayLast } else { PlayOutcome::NothingToPlay }
        } else {
            PlayOutcome::AlreadyPlaying
        }),
{
    match s {
        PlayerState::Paused => PlayOutcome::Resume,
        PlayerState::Stopped => if has_last_station { PlayOutcome::PlayLast } else { PlayOutcome::NothingToPlay },
        _ => PlayOutcome::AlreadyPlaying,
    }
}

/// An answer typed at a prompt, kept when it is not empty.
pub open spec fn answer(s: Seq<char>) -> Option<Seq<char>> {
    if s.len() > 0 { Some(s) } else { None }
}

/// The query the prompts of an interactive search build: each non-empty
/// answer sets its filter (the tags answer is a single tag) on the default
/// query, and broken stations are hidden as the last answer says.
pub open spec fn prompted_query(
    name: Seq<char>,
    language: Seq<char>,
    country: Seq<char>,
    tags: Seq<char>,
    codec: Seq<char>,
    order: Seq<char>,
    hide_broken: bool,
) -> QueryModel {
    let d = default_query();
    QueryModel {
        name: answer(name),
        language: answer(language),
        country: answer(country),
        tags: if tags.len() > 0 { Some(seq![tags]) } else { None },
        codec: answer(codec),
        order: if order.len() > 0 { Some(order) } else { d.order },
        hidebroken: Some(hide_broken),
        ..d
    }
}

/// A non-empty answer, as a filter value.
fn answer_of(s: String) -> (r: Option<String>)
    ensures
        crate::search::types::opt_text(r) == answer(s@),
{
    if s.unicode_len() > 0 { Some(s) } else { None }
}

/// The query built from the answers of an interactive search.
pub fn query_from_prompts(
    name: String,
    language: String,
    country: String,
    tags: String,
    codec: String,
    order: String,
    hide_broken: bool,
) -> (q: SearchQuery)
    ensures
        q@ == prompted_query(name@, language@, country@, tags@, codec@, order@, hide_broken),
{
    let mut q = SearchQuery::default();
    q.name = answer_of(name);
    q.language = answer_of(language);
    q.country = answer_of(country);
    if tags.unicode_len() > 0 {
        let ghost t = tags@;
        let v = vec![tags];
        proof {
            assert(text_list(v@) =~= seq![t]);
        }
        q.tags = Some(v);
    }
    q.codec = answer_of(codec);
    if order.unicode_len() > 0 {
        q.order = Some(order);
    }
    q.hidebroken = Some(hide_broken);
    q
}

/// Whether a search session ends for want of stations: the first page came back empty.
pub fn nothing_found(results_len: usize, offset: usize) -> (b: bool)
    ensures
        b == (results_len == 0 && offset == 0),
{
    results_len == 0 && offset == 0
}

/// The result offset after a menu choice: a page further or back (not
/// before the first result); other choices keep it.
pub fn offset_after_choice(action: &SearchAction, offset: usize, limit: usize) -> (r: usize)
    requires
        action is NextPage ==> offset + limit <= usize::MAX,
    ensures
        r == (match action {
            SearchAction::NextPage => offset + limit,
            SearchAction::PrevPage => if offset >= limit { offset - limit } else { 0 },
            SearchAction::Play(_, _) => offset as int,
        }),
{
    match action {
        SearchAction::NextPage => offset + limit,
        SearchAction::PrevPage => offset.saturating_sub(limit),
        SearchAction::Play(_, _) => offset,
    }
}

/// How many times the command line checks whether a station it asked the
/// daemon to play has started.
pub const LOAD_CHECKS: u32 = 50;

/// What the command line does after a check of a station it asked to play.
#[derive(Debug, Clone, Copy, PartialEq, Eq, Structural)]
pub enum LoadProgress {
    /// The station plays.
    Started,
    /// The station failed to load.
    Failed,
    /// Still loading after the last check: give up.
    TimedOut,
    /// Check again after a short wait.
    Wait,
}

/// The progress after check number `checks` (from one) found the player in
/// state `s`, or found nothing when the status request failed.
pub open spec fn load_progress_of(s: Option<PlayerState>, checks: u32) -> LoadProgress {
    if s == Some(PlayerState::Playing) {
        LoadProgress::Started
    } else if s == Some(PlayerState::Error) {
        LoadProgress::Failed
    } else if checks >= LOAD_CHECKS {
        LoadProgress::TimedOut
    } else {
        LoadProgress::Wait
    }
}

/// The progress after a check of a station being loaded.
pub fn load_progress(s: Option<PlayerState>, checks: u32) -> (p: LoadProgress)
    ensures
        p == load_progress_of(s, checks),
{
    match s {
        Some(PlayerState::Playing) => LoadProgress::Started,
        Some(PlayerState::Error) => LoadProgress::Failed,
        _ => if checks >= LOAD_CHECKS { LoadProgress::TimedOut } else { LoadProgress::Wait },
    }
}

} // verus!
