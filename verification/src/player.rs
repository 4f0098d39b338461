//! Playback states, as the player reports them and as they travel between
//! the player process and its clients.

use vstd::prelude::*;
use vstd::std_specs::convert::FromSpecImpl;

verus! {

/// What the player is doing.
#[derive(Debug, Clone, Copy, PartialEq, Eq, Structural)]
pub enum PlayerState {
    Stopped,
    Playing,
    Paused,
    Loading,
    Error,
}

/// The form of [`PlayerState`] sent between processes.
#[derive(Debug, Clone, Copy, PartialEq, Eq, Structural)]
pub enum PlayerStateDto {
    Stopped,
    Playing,
    Paused,
    Loading,
    Error,
}

/// The message form of a player state: the variant of the same name.
pub open spec fn state_to_dto(s: PlayerState) -> PlayerStateDto {
    match s {
        PlayerState::Stopped => PlayerStateDto::Stopped,
        PlayerState::Playing => PlayerStateDto::Playing,
        PlayerState::Paused => PlayerStateDto::Paused,
        PlayerState::Loading => PlayerStateDto::Loading,
        PlayerState::Error => PlayerStateDto::Error,
    }
}

/// The player state a message carries: the variant of the same name.
pub open spec fn dto_to_state(d: PlayerStateDto) -> PlayerState {
    match d {
        PlayerStateDto::Stopped => PlayerState::Stopped,
        PlayerStateDto::Playing => PlayerState::Playing,
        PlayerStateDto::Paused => PlayerState::Paused,
        PlayerStateDto::Loading => PlayerState::Loading,
        PlayerStateDto::Error => PlayerState::Error,
    }
}

impl From<PlayerState> for PlayerStateDto {
    fn from(state: PlayerState) -> (r: PlayerStateDto) {
        match state {
            PlayerState::Stopped => PlayerStateDto::Stopped,
            PlayerState::Playing => PlayerStateDto::Playing,
            PlayerState::Paused => PlayerStateDto::Paused,
            PlayerState::Loading => PlayerStateDto::Loading,
            PlayerState::Error => PlayerStateDto::Error,
        }
    }
}

impl FromSpecImpl<PlayerState> for PlayerStateDto {
    open spec fn obeys_from_spec() -> bool {
        true
    }

    open spec fn from_spec(state: PlayerState) -> PlayerStateDto {
        state_to_dto(state)
    }
}

impl From<PlayerStateDto> for PlayerState {
    fn from(state: PlayerStateDto) -> (r: PlayerState) {
        match state {
            PlayerStateDto::Stopped => PlayerState::Stopped,
            PlayerStateDto::Playing => PlayerState::Playing,
            PlayerStateDto::Paused => PlayerState::Paused,
            PlayerStateDto::Loading => PlayerState::Loading,
            PlayerStateDto::Error => PlayerState::Error,
        }
    }
}

impl FromSpecImpl<PlayerStateDto> for PlayerState {
    open spec fn obeys_from_spec() -> bool {
        true
    }

    open spec fn from_spec(state: PlayerStateDto) -> PlayerState {
        dto_to_state(state)
    }
}

/// Sending a state and reading it back gives the same state, both ways round.
pub proof fn law_state_dto_round_trip(s: PlayerState, d: PlayerStateDto)
    ensures
        dto_to_state(state_to_dto(s)) == s,
        state_to_dto(dto_to_state(d)) == d,
{
}

/// The frames of the spinning-record animation shown while playing.
pub open spec fn playing_icons() -> Seq<Seq<char>> {
    seq!["\u{25d0}"@, "\u{25d3}"@, "\u{25d1}"@, "\u{25d2}"@]
}

/// The frames of the spinner shown while loading.
pub open spec fn loading_icons() -> Seq<Seq<char>> {
    seq!["\u{28fe}"@, "\u{28fd}"@, "\u{28fb}"@, "\u{28bf}"@, "\u{287f}"@, "\u{28df}"@, "\u{28ef}"@, "\u{28f7}"@]
}

/// The icon shown for a player state at animation step `frame`.
pub open spec fn player_icon(state: PlayerState, frame: nat) -> Seq<char> {
    match state {
        PlayerState::Playing => playing_icons()[(frame % 4) as int],
        PlayerState::Loading => loading_icons()[(frame % 8) as int],
        PlayerState::Paused => "\u{23f8}"@,
        PlayerState::Stopped => "\u{23f9}"@,
        PlayerState::Error => "\u{274c}"@,
    }
}

/// The icon shown for a player state: an animation frame while playing or
/// loading, a fixed symbol otherwise.
pub fn get_player_icon(state: PlayerState, frame: usize) -> (s: &'static str)
    ensures
        s@ == player_icon(state, frame as nat),
{
    match state {
        PlayerState::Playing => {
            let icons: Vec<&'static str> = vec!["\u{25d0}", "\u{25d3}", "\u{25d1}", "\u{25d2}"];
            icons[frame % 4]
        },
        PlayerState::Loading => {
            let icons: Vec<&'static str> = vec![
                "\u{28fe}",
                "\u{28fd}",
                "\u{28fb}",
                "\u{28bf}",
                "\u{287f}",
                "\u{28df}",
                "\u{28ef}",
                "\u{28f7}",
            ];
            icons[frame % 8]
        },
        PlayerState::Paused => "\u{23f8}",
        PlayerState::Stopped => "\u{23f9}",
        PlayerState::Error => "\u{274c}",
    }
}

/// What the audio output holds: nothing, or a stream that plays or is paused.
#[derive(Debug, Clone, Copy, PartialEq, Eq, Structural)]
pub enum SinkState {
    Empty,
    Playing,
    Paused,
}

/// What the player knows of its playback, the volume aside: its state, the
/// station shown, the last error, the station to reload, and the output.
#[derive(Debug, Clone)]
pub struct Playback {
    pub state: PlayerState,
    pub station_name: String,
    pub station_url: String,
    pub error_message: Option<String>,
    /// The station last asked for, by name and address.
    pub current: Option<(String, String)>,
    pub sink: SinkState,
}

/// The content of a [`Playback`].
pub struct PlaybackModel {
    pub state: PlayerState,
    pub station_name: Seq<char>,
    pub station_url: Seq<char>,
    pub error_message: Option<Seq<char>>,
    pub current: Option<(Seq<char>, Seq<char>)>,
    pub sink: SinkState,
}

impl View for Playback {
    type V = PlaybackModel;

    open spec fn view(&self) -> PlaybackModel {
        PlaybackModel {
            state: self.state,
            station_name: self.station_name@,
            station_url: self.station_url@,
            error_message: match self.error_message {
                Some(e) => Some(e@),
                None => None,
            },
            current: match self.current {
                Some((n, u)) => Some((n@, u@)),
                None => None,
            },
            sink: self.sink,
        }
    }
}

/// A stopped player: nothing shown, nothing to reload.
pub open spec fn stopped_playback() -> PlaybackModel {
    PlaybackModel {
        state: PlayerState::Stopped,
        station_name: Seq::empty(),
        station_url: Seq::empty(),
        error_message: None,
        current: None,
        sink: SinkState::Empty,
    }
}

/// The playback right after asking for station `name` at `url`: the old
/// stream is stopped and the new one loads.
pub open spec fn loading_playback(name: Seq<char>, url: Seq<char>) -> PlaybackModel {
    PlaybackModel {
        state: PlayerState::Loading,
        station_name: name,
        station_url: url,
        error_message: None,
        current: Some((name, url)),
        sink: SinkState::Empty,
    }
}

/// After a pause: a playing stream is paused; otherwise nothing changes.
pub open spec fn paused_playback(m: PlaybackModel) -> PlaybackModel {
    if m.sink == SinkState::Playing {
        PlaybackModel { state: PlayerState::Paused, sink: SinkState::Paused, ..m }
    } else {
        m
    }
}

/// After a resume: a paused stream plays again; otherwise nothing changes.
pub open spec fn resumed_playback(m: PlaybackModel) -> PlaybackModel {
    if m.sink == SinkState::Paused {
        PlaybackModel { state: PlayerState::Playing, sink: SinkState::Playing, ..m }
    } else {
        m
    }
}

impl Playback {
    /// A player that has played nothing.
    pub fn new() -> (p: Playback)
        ensures
            p@ == stopped_playback(),
    {
        Playback {
            state: PlayerState::Stopped,
            station_name: String::new(),
            station_url: String::new(),
            error_message: None,
            current: None,
            sink: SinkState::Empty,
        }
    }

    /// Stops: the stream is dropped, and nothing is shown or kept to reload.
    pub fn stop(&mut self)
        ensures
            final(self)@ == stopped_playback(),
    {
        self.sink = SinkState::Empty;
        self.current = None;
        self.state = PlayerState::Stopped;
        self.station_name = String::new();
        self.station_url = String::new();
        self.error_message = None;
    }

    /// Starts loading station `name` at `url` (after stopping the old one).
    pub fn play(&mut self, name: String, url: String)
        ensures
            final(self)@ == loading_playback(name@, url@),
    {
        self.stop();
        self.state = PlayerState::Loading;
        self.station_name = name.clone();
        self.station_url = url.clone();
        self.error_message = None;
        self.current = Some((name, url));
    }

    /// The stream started: the output plays it.
    pub fn started(&mut self)
        ensures
            final(self)@ == (PlaybackModel { state: PlayerState::Playing, sink: SinkState::Playing, ..old(self)@ }),
    {
        self.sink = SinkState::Playing;
        self.state = PlayerState::Playing;
    }

    /// Loading or decoding failed with `message`.
    pub fn failed(&mut self, message: String)
        ensures
            final(self)@ == (PlaybackModel { state: PlayerState::Error, error_message: Some(message@), ..old(self)@ }),
    {
        self.state = PlayerState::Error;
        self.error_message = Some(message);
    }

    /// Pauses a playing stream.
    pub fn pause(&mut self)
        ensures
            final(self)@ == paused_playback(old(self)@),
    {
        if self.sink == SinkState::Playing {
            self.sink = SinkState::Paused;
            self.state = PlayerState::Paused;
        }
    }

    /// Resumes a paused stream.
    pub fn resume(&mut self)
        ensures
            final(self)@ == resumed_playback(old(self)@),
    {
        if self.sink == SinkState::Paused {
            self.sink = SinkState::Playing;
            self.state = PlayerState::Playing;
        }
    }

    /// Forgets the last error.
    pub fn clear_error(&mut self)
        ensures
            final(self)@ == (PlaybackModel { error_message: None, ..old(self)@ }),
    {
        self.error_message = None;
    }

    /// The station a reload plays again: the one last asked for, if any.
    pub fn reload_target(&self) -> (r: Option<(String, String)>)
        ensures
            match self@.current {
                Some((n, u)) => r matches Some((a, b)) && a@ == n && b@ == u,
                None => r is None,
            },
    {
        match &self.current {
            Some((n, u)) => Some((n.clone(), u.clone())),
            None => None,
        }
    }

    /// Whether the player plays.
    pub fn is_playing(&self) -> (b: bool)
        ensures
            b == (self@.state == PlayerState::Playing),
    {
        self.state == PlayerState::Playing
    }

    /// Whether the player is stopped.
    pub fn is_stopped(&self) -> (b: bool)
        ensures
            b == (self@.state == PlayerState::Stopped),
    {
        self.state == PlayerState::Stopped
    }
}

/// Pausing a playing stream and resuming it gives back the playback as it
/// was; resuming a paused stream and pausing it does too.
pub proof fn law_pause_resume_round_trip(m: PlaybackModel)
    ensures
        (m.sink == SinkState::Playing && m.state == PlayerState::Playing) ==> resumed_playback(paused_playback(m)) == m,
        (m.sink == SinkState::Paused && m.state == PlayerState::Paused) ==> paused_playback(resumed_playback(m)) == m,
{
}

/// Pausing twice is pausing once, and so is resuming.
pub proof fn law_pause_resume_idempotent(m: PlaybackModel)
    ensures
        paused_playback(paused_playback(m)) == paused_playback(m),
        resumed_playback(resumed_playback(m)) == resumed_playback(m),
{
}

} // verus!
