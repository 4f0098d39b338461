//! The player daemon's decisions: how it treats a connection from its first
//! request, how it answers each request, when it shuts itself down for
//! idleness, and which favorite the media keys move to.

use vstd::prelude::*;
use crate::player::PlayerState;

verus! {

/// The kinds of request a client sends; their data (a station, a volume)
/// travels alongside.
#[derive(Debug, Clone, Copy, PartialEq, Eq, Structural)]
pub enum RequestKind {
    Play,
    Pause,
    Resume,
    Stop,
    SetVolume,
    Reload,
    ClearError,
    GetStatus,
    Subscribe,
    Shutdown,
}

/// Whether a request is a command for the player.
pub open spec fn is_player_command(k: RequestKind) -> bool {
    match k {
        RequestKind::Play | RequestKind::Pause | RequestKind::Resume | RequestKind::Stop
        | RequestKind::SetVolume | RequestKind::Reload | RequestKind::ClearError => true,
        _ => false,
    }
}

/// Whether a request is a command for the player.
pub fn player_command(k: RequestKind) -> (b: bool)
    ensures
        b == is_player_command(k),
{
    match k {
        RequestKind::Play | RequestKind::Pause | RequestKind::Resume | RequestKind::Stop
        | RequestKind::SetVolume | RequestKind::Reload | RequestKind::ClearError => true,
        _ => false,
    }
}

/// How a connection is served, chosen by its first request.
#[derive(Debug, Clone, Copy, PartialEq, Eq, Structural)]
pub enum ConnectionMode {
    /// Commands come in and every player state is pushed out.
    Subscription,
    /// Each request gets one answer.
    OneShot,
}

/// A connection that starts by subscribing is a subscription; any other
/// first request opens a request-and-answer connection.
pub fn connection_mode(first: RequestKind) -> (m: ConnectionMode)
    ensures
        m == (if first == RequestKind::Subscribe { ConnectionMode::Subscription } else { ConnectionMode::OneShot }),
{
    match first {
        RequestKind::Subscribe => ConnectionMode::Subscription,
        _ => ConnectionMode::OneShot,
    }
}

/// What the daemon does for one request on a request-and-answer connection.
#[derive(Debug, Clone, Copy, PartialEq, Eq, Structural)]
pub enum OneShotReply {
    /// Answer with the player's state.
    Status,
    /// Carry out the command, then answer with the player's state.
    ExecuteThenStatus,
    /// Answer that the daemon shuts down, then exit.
    Shutdown,
    /// Answer that the command is unknown.
    Unknown,
}

/// The reply to a request on a request-and-answer connection: a status
/// request is answered with the state, a shutdown request shuts down, a
/// player command is carried out first, and a subscription is not known there.
pub open spec fn one_shot_reply_of(k: RequestKind) -> OneShotReply {
    if k == RequestKind::GetStatus {
        OneShotReply::Status
    } else if k == RequestKind::Shutdown {
        OneShotReply::Shutdown
    } else if is_player_command(k) {
        OneShotReply::ExecuteThenStatus
    } else {
        OneShotReply::Unknown
    }
}

/// How the daemon replies to a request on a request-and-answer connection.
pub fn one_shot_reply(k: RequestKind) -> (r: OneShotReply)
    ensures
        r == one_shot_reply_of(k),
{
    match k {
        RequestKind::GetStatus => OneShotReply::Status,
        RequestKind::Shutdown => OneShotReply::Shutdown,
        RequestKind::Subscribe => OneShotReply::Unknown,
        _ => OneShotReply::ExecuteThenStatus,
    }
}

/// What the daemon does for a request received on a subscription.
#[derive(Debug, Clone, Copy, PartialEq, Eq, Structural)]
pub enum SubscriptionStep {
    /// Exit the daemon.
    Shutdown,
    /// Carry out the command and push the new state to every subscriber.
    ExecuteAndBroadcast,
    /// Nothing.
    Ignore,
}

/// The step for a request received on a subscription.
pub fn subscription_step(k: RequestKind) -> (s: SubscriptionStep)
    ensures
        s == (if k == RequestKind::Shutdown {
            SubscriptionStep::Shutdown
        } else if is_player_command(k) {
            SubscriptionStep::ExecuteAndBroadcast
        } else {
            SubscriptionStep::Ignore
        }),
{
    match k {
        RequestKind::Shutdown => SubscriptionStep::Shutdown,
        RequestKind::GetStatus | RequestKind::Subscribe => SubscriptionStep::Ignore,
        _ => SubscriptionStep::ExecuteAndBroadcast,
    }
}

/// Whether the player is busy with a stream (playing or loading one), which
/// keeps the daemon from counting as idle.
pub open spec fn keeps_daemon_busy(s: PlayerState) -> bool {
    s == PlayerState::Playing || s == PlayerState::Loading
}

/// Whether the player is busy with a stream.
pub fn is_busy(s: PlayerState) -> (b: bool)
    ensures
        b == keeps_daemon_busy(s),
{
    match s {
        PlayerState::Playing | PlayerState::Loading => true,
        _ => false,
    }
}

/// How long, in seconds, the daemon waits without requests or playback
/// before it exits.
pub const IDLE_TIMEOUT_SECS: u64 = 1800;

/// What the idleness check, run every minute, decides.
#[derive(Debug, Clone, Copy, PartialEq, Eq, Structural)]
pub enum IdleDecision {
    /// The player is busy: count the daemon as active now.
    MarkActive,
    /// Not idle long enough yet.
    Wait,
    /// Idle for longer than the timeout: exit.
    Shutdown,
}

/// The idleness decision when the player is `busy` or not and the last
/// activity was `idle_secs` seconds ago.
pub open spec fn idle_decision_of(busy: bool, idle_secs: u64) -> IdleDecision {
    if busy {
        IdleDecision::MarkActive
    } else if idle_secs > IDLE_TIMEOUT_SECS {
        IdleDecision::Shutdown
    } else {
        IdleDecision::Wait
    }
}

/// The idleness decision.
pub fn idle_decision(busy: bool, idle_secs: u64) -> (d: IdleDecision)
    ensures
        d == idle_decision_of(busy, idle_secs),
{
    if busy {
        IdleDecision::MarkActive
    } else if idle_secs > IDLE_TIMEOUT_SECS {
        IdleDecision::Shutdown
    } else {
        IdleDecision::Wait
    }
}

/// The daemon never exits for idleness while the player plays or loads a
/// stream, however long ago the last request came.
pub proof fn law_busy_daemon_stays(s: PlayerState, idle_secs: u64)
    requires
        keeps_daemon_busy(s),
    ensures
        idle_decision_of(keeps_daemon_busy(s), idle_secs) != IdleDecision::Shutdown,
{
}

/// The command the play/pause media key sends: pause while playing, else resume.
pub fn media_toggle_command(s: PlayerState) -> (k: RequestKind)
    ensures
        k == (if s == PlayerState::Playing { RequestKind::Pause } else { RequestKind::Resume }),
{
    match s {
        PlayerState::Playing => RequestKind::Pause,
        _ => RequestKind::Resume,
    }
}

/// Position of the first entry of `urls` equal to `url`.
pub open spec fn first_position(urls: Seq<Seq<char>>, url: Seq<char>) -> Option<int> {
    if exists|i: int| 0 <= i < urls.len() && urls[i] == url {
        Some(choose|i: int| 0 <= i < urls.len() && urls[i] == url && forall|j: int| 0 <= j < i ==> urls[j] != url)
    } else {
        None
    }
}

/// The favorite the next (`forward`) or previous media key moves to, among
/// favorites with stream addresses `urls`, from the one playing `current`:
/// the neighbour, wrapping around; from a station that is no favorite, the
/// first or the last; none when there are no favorites.
pub open spec fn adjacent_favorite(urls: Seq<Seq<char>>, current: Seq<char>, forward: bool) -> Option<int> {
    let n = urls.len() as int;
    if n == 0 {
        None
    } else {
        match first_position(urls, current) {
            Some(i) => Some(if forward { (i + 1) % n } else if i == 0 { n - 1 } else { i - 1 }),
            None => Some(if forward { 0 } else { n - 1 }),
        }
    }
}

/// The position of the favorite the media keys move to.
pub fn adjacent_favorite_index(urls: &Vec<String>, current: &str, forward: bool) -> (r: Option<usize>)
    ensures
        match adjacent_favorite(crate::text::text_list(urls@), current@, forward) {
            Some(i) => r == Some(i as usize),
            None => r is None,
        },
{
    let ghost u = crate::text::text_list(urls@);
    let n = urls.len();
    if n == 0 {
        return None;
    }
    let mut i: usize = 0;
    while i < n
        invariant
            n == urls.len(),
            u == crate::text::text_list(urls@),
            i <= n,
            forall|j: int| 0 <= j < i ==> u[j] != current@,
        decreases n - i,
    {
        if crate::text::string_equals_str(&urls[i], current) {
            proof {
                assert(u[i as int] == current@);
                let c = choose|k: int| 0 <= k < u.len() && u[k] == current@ && forall|j: int| 0 <= j < k ==> u[j] != current@;
                assert(c == i as int) by {
                    if c < i as int {
                        assert(u[c] != current@);
                    } else if c > i as int {
                        assert(u[i as int] != current@);
                    }
                }
            }
            let k = if forward { (i + 1) % n } else if i == 0 { n - 1 } else { i - 1 };
            return Some(k);
        }
        i = i + 1;
    }
    if forward { Some(0) } else { Some(n - 1) }
}

} // verus!
