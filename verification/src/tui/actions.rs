//! What the play keys ask the player for: the highlighted station, or the
//! station remembered from the last session.

use vstd::prelude::*;
use crate::api::models::Station;
use crate::text::string_append_str;

verus! {

/// A station to play: the name shown and the stream address sent to the player.
#[derive(Debug, Clone)]
pub struct PlayRequest {
    pub station_name: String,
    pub url: String,
}

/// What pressing the play key on the station list does.
#[derive(Debug, Clone)]
pub enum PlayChoice {
    /// The list is empty: tell the user to load stations first.
    NoStations,
    /// The highlight is past the list: nothing is played.
    NoneSelected,
    /// Play the highlighted station.
    Play(PlayRequest),
}

/// The status line when the play key finds no stations.
pub const NO_STATIONS_MESSAGE: &'static str = "No stations loaded. Try loading popular stations first.";

/// The play request for a station: its name and its resolved stream address.
pub open spec fn request_for(s: Station) -> (Seq<char>, Seq<char>) {
    (s.name@, s.url_resolved@)
}

/// What the play key does on `stations` with `selected` highlighted. When
/// it plays, the station played is `stations[selected]`.
pub fn play_choice(stations: &Vec<Station>, selected: usize) -> (r: PlayChoice)
    ensures
        stations.len() == 0 <==> r is NoStations,
        stations.len() > 0 && selected >= stations.len() <==> r is NoneSelected,
        r matches PlayChoice::Play(p) ==> selected < stations.len() && (p.station_name@, p.url@)
            == request_for(stations@[selected as int]),
{
    if stations.len() == 0 {
        PlayChoice::NoStations
    } else if selected < stations.len() {
        let s = &stations[selected];
        PlayChoice::Play(PlayRequest { station_name: s.name.clone(), url: s.url_resolved.clone() })
    } else {
        PlayChoice::NoneSelected
    }
}

/// The station remembered from the last session, if there is an address to
/// play.
pub fn restored_play(station_name: &String, station_url: &String) -> (r: Option<PlayRequest>)
    ensures
        station_url@.len() == 0 <==> r is None,
        r matches Some(p) ==> p.station_name@ == station_name@ && p.url@ == station_url@,
{
    if station_url.unicode_len() == 0 {
        None
    } else {
        Some(PlayRequest { station_name: station_name.clone(), url: station_url.clone() })
    }
}

/// The status line while a station plays: `Playing: NAME`.
pub fn playing_status(station_name: &str) -> (s: String)
    ensures
        s@ == "Playing: "@ + station_name@,
{
    let mut s = String::new();
    string_append_str(&mut s, "Playing: ");
    string_append_str(&mut s, station_name);
    proof {
        assert(s@ =~= "Playing: "@ + station_name@);
    }
    s
}

} // verus!
