//! Where the player daemon listens, and how a client gets a connection to it:
//! use a daemon that answers, else (re)start one and try again a bounded
//! number of times.

use vstd::prelude::*;
use crate::text::{
    string_from_str, string_append_str, string_push, chars_of, range_find, string_of_range,
    split_first, is_first_index, lemma_split_first_at, lemma_split_after,
};

verus! {

/// File name of the daemon's socket inside the data directory.
pub open spec fn daemon_socket_name() -> Seq<char> {
    ".radm-player.sock"@
}

/// `name` (a relative path) joined onto directory `dir` the way a path is
/// pushed onto another on Unix: a separator is put between them unless `dir`
/// is empty or already ends with one.
pub open spec fn join_path(dir: Seq<char>, name: Seq<char>) -> Seq<char> {
    if dir.len() == 0 {
        name
    } else if dir.last() == '/' {
        dir + name
    } else {
        dir + seq!['/'] + name
    }
}

/// Joins a relative `name` onto directory `dir`.
pub fn join_path_str(dir: &str, name: &str) -> (p: String)
    ensures
        p@ == join_path(dir@, name@),
{
    let d = crate::text::chars_of(dir);
    let mut p = string_from_str(dir);
    if d.len() > 0 && d[d.len() - 1] != '/' {
        crate::text::string_push(&mut p, '/');
    }
    string_append_str(&mut p, name);
    p
}

/// Knows where the player daemon's socket is.
pub struct PlayerDaemonClient {
    socket_path: String,
}

impl PlayerDaemonClient {
    /// The path of the daemon's socket.
    pub closed spec fn socket_path_view(&self) -> Seq<char> {
        self.socket_path@
    }

    /// A client for the daemon whose socket lies in data directory `data_dir`.
    pub fn new(data_dir: &str) -> (c: PlayerDaemonClient)
        ensures
            c.socket_path_view() == join_path(data_dir@, daemon_socket_name()),
    {
        PlayerDaemonClient { socket_path: join_path_str(data_dir, ".radm-player.sock") }
    }

    /// The path of the daemon's socket.
    pub fn socket_path(&self) -> (p: &str)
        ensures
            p@ == self.socket_path_view(),
    {
        self.socket_path.as_str()
    }
}

/// How many times a client tries to reach a daemon it has just started.
pub const CONNECT_ATTEMPTS: u32 = 10;

/// How far a client has got in reaching the daemon.
#[derive(Debug, Clone, Copy, PartialEq, Eq)]
pub enum ConnectPhase {
    /// Trying a daemon that may already be running.
    Existing,
    /// Trying a daemon started a moment ago; this is try number `attempt`, from zero.
    Started(u32),
}

/// What a client does after a try.
#[derive(Debug, Clone, Copy, PartialEq, Eq)]
pub enum ConnectDecision {
    /// Keep the connection.
    Use,
    /// Stop the unresponsive daemon, remove a leftover socket file, start a
    /// new daemon, and try again as `Started(0)` after a short wait.
    RestartDaemon,
    /// Remove a leftover socket file, start a daemon, and try again as
    /// `Started(0)` after a short wait.
    StartDaemon,
    /// Wait a moment and try again as `Started(attempt)`.
    Retry(u32),
    /// Give up: the daemon started but could not be reached.
    GiveUp,
}

/// The decision after a try in `phase`: `connected` says whether the socket
/// accepted the connection, `healthy` whether the daemon answered a status
/// request in time (only asked of a daemon that was already running).
pub open spec fn connect_decision_of(phase: ConnectPhase, connected: bool, healthy: bool) -> ConnectDecision {
    match phase {
        ConnectPhase::Existing => if connected && healthy {
            ConnectDecision::Use
        } else if connected {
            ConnectDecision::RestartDaemon
        } else {
            ConnectDecision::StartDaemon
        },
        ConnectPhase::Started(attempt) => if connected {
            ConnectDecision::Use
        } else if attempt + 1 >= CONNECT_ATTEMPTS {
            ConnectDecision::GiveUp
        } else {
            ConnectDecision::Retry((attempt + 1) as u32)
        },
    }
}

/// The decision after a connection try.
pub fn connect_decision(phase: ConnectPhase, connected: bool, healthy: bool) -> (d: ConnectDecision)
    requires
        phase matches ConnectPhase::Started(a) ==> a < CONNECT_ATTEMPTS,
    ensures
        d == connect_decision_of(phase, connected, healthy),
{
    match phase {
        ConnectPhase::Existing => if connected && healthy {
            ConnectDecision::Use
        } else if connected {
            ConnectDecision::RestartDaemon
        } else {
            ConnectDecision::StartDaemon
        },
        ConnectPhase::Started(attempt) => if connected {
            ConnectDecision::Use
        } else if attempt + 1 >= CONNECT_ATTEMPTS {
            ConnectDecision::GiveUp
        } else {
            ConnectDecision::Retry(attempt + 1)
        },
    }
}

/// Whatever happens, a client tries a started daemon at most
/// `CONNECT_ATTEMPTS` times: a failed last try gives up, and a retry never
/// goes past the last try.
pub proof fn law_connect_attempts_bounded(attempt: u32, healthy: bool)
    requires
        attempt < CONNECT_ATTEMPTS,
    ensures
        attempt + 1 == CONNECT_ATTEMPTS ==> connect_decision_of(ConnectPhase::Started(attempt), false, healthy) == ConnectDecision::GiveUp,
        connect_decision_of(ConnectPhase::Started(attempt), false, healthy) matches ConnectDecision::Retry(n)
            ==> n == attempt + 1 && n < CONNECT_ATTEMPTS,
{
}

/// A message as it travels over the socket: its JSON text, then a newline.
pub open spec fn framed(json: Seq<char>) -> Seq<char> {
    json.push('\n')
}

/// The text of a message to send: its JSON text followed by a newline.
pub fn frame_message(json: &str) -> (s: String)
    ensures
        s@ == framed(json@),
{
    let mut s = string_from_str(json);
    string_push(&mut s, '\n');
    s
}

/// The first message in received text and what follows it: the text up to
/// the first newline and the text after it; `None` while no newline has
/// arrived.
pub fn split_frame(received: &str) -> (r: Option<(String, String)>)
    ensures
        match r {
            Some((m, rest)) => split_first(received@, '\n') == Some((m@, rest@)),
            None => split_first(received@, '\n') is None,
        },
{
    let v = chars_of(received);
    match range_find(&v, 0, v.len(), '\n') {
        Some(k) => {
            proof {
                assert(is_first_index(v@, '\n', k as int));
                lemma_split_first_at(v@, '\n', k as int);
                assert(v@.subrange(0, k as int) =~= v@.take(k as int));
                assert(v@.subrange(k + 1, v@.len() as int) =~= v@.skip(k + 1));
            }
            Some((string_of_range(&v, 0, k), string_of_range(&v, k + 1, v.len())))
        },
        None => {
            proof {
                assert(v@.subrange(0, v@.len() as int) =~= v@);
            }
            None
        },
    }
}

/// A message whose JSON text holds no newline is received whole: the first
/// frame of its framed text, followed by anything, is exactly that text.
pub proof fn law_frame_round_trip(json: Seq<char>, rest: Seq<char>)
    requires
        !json.contains('\n'),
    ensures
        split_first(framed(json) + rest, '\n') == Some((json, rest)),
{
    lemma_split_after(json, '\n', rest);
    assert(framed(json) =~= json + seq!['\n']);
}

} // verus!
