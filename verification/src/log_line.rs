//! Recognising server log lines: which event a line reports, and the text it
//! carries.

use vstd::prelude::*;
use crate::event::{Event, LogEvent};
use crate::text::{chars_of, contains_text, occurs};

verus! {

pub const CONNECTIONS: &'static str = r"Connections (\d+) ZDOS:(\d+)";
pub const LOAD_CHUNKS: &'static str = r"ZDOMan\.LoadChunks - Starting to load ([\d,]+) zdos";
pub const DAY: &'static str = r"Time [\d.]+, day:(\d+)\s";
pub const WORLD_SAVE: &'static str = r"World save \(\d+/\d+\) done\. Total time \[([\d,.]+)ms\]";
pub const BACKUP: &'static str = r"World auto backup saved \[([\d,.]+)ms\]";
/// Steam registration failures log `Game server connected failed`; the success
/// line ends at `connected` (the tail delivers it with its newline).
pub const CONNECTED: &'static str = r"Game server connected\s*$";
pub const RPC_TIMEOUT: &'static str = r"ZRpc timeout detected";
pub const WRONG_PASSWORD: &'static str = r"Peer (\d+) has wrong password";
pub const GC_PAUSE: &'static str = r"Total: ([\d.]+) ms \(FindLiveObjects:";
pub const PACKETS: &'static str = r"ZDOS:\d+\s+sent:(\d+) recv:(\d+)";
pub const CONN_STATE: &'static str = r"Got status changed msg k_ESteamNetworkingConnectionState_(\w+)";
pub const CONN_RESULT: &'static str = r"Accepting connection k_EResult(\w+)";
pub const HANDSHAKE: &'static str = r"Got handshake from client \d+";
pub const NET_VERSION: &'static str = r"Network version check, their:(\d+), mine:(\d+)";
pub const UNLOAD: &'static str = r"Unloading \d+ unused Assets to reduce memory usage\. Loaded Objects now: (\d+)";
pub const SERVER_ID: &'static str = r"Server ID (\d+)";
pub const SEND_FAILED: &'static str = r"Failed to send data k_EResult";
pub const HISTORY: &'static str = r"Player history entry with index \d+:\s+(.+?) \(Steam_(\d+),";

/// The capture groups of the leftmost-first match of the regular expression
/// `pattern` (in the syntax of the `regex` crate) in `haystack`: group 0 is the
/// whole match, and a group that took no part in the match is `None`. `None`
/// when nothing matches, or when `pattern` is not a valid expression.
pub uninterp spec fn regex_captures(pattern: Seq<char>, haystack: Seq<char>) -> Option<
    Seq<Option<Seq<char>>>,
>;

pub open spec fn groups_view(g: Seq<Option<String>>) -> Seq<Option<Seq<char>>> {
    g.map_values(
        |o: Option<String>|
            match o {
                Some(s) => Some(s@),
                None => None,
            },
    )
}

pub open spec fn captures_view(r: Option<Vec<Option<String>>>) -> Option<Seq<Option<Seq<char>>>> {
    match r {
        Some(v) => Some(groups_view(v@)),
        None => None,
    }
}

/// `regex::Regex::new(pattern)`, then `Regex::captures(haystack)` on the
/// compiled expression, with each group taken out as text. The result is named
/// by `regex_captures`; nothing more is claimed of it.
#[verifier::external_body]
fn captures(pattern: &str, haystack: &str) -> (r: Option<Vec<Option<String>>>)
    ensures
        captures_view(r) == regex_captures(pattern@, haystack@),
{
    let re = regex::Regex::new(pattern).ok()?;
    let caps = re.captures(haystack)?;
    Some(caps.iter().map(|m| m.map(|m| m.as_str().to_string())).collect())
}

/// Group `i` of a match, or the empty text where the match has no such group.
pub open spec fn group(g: Seq<Option<Seq<char>>>, i: int) -> Seq<char> {
    if 0 <= i < g.len() {
        match g[i] {
            Some(t) => t,
            None => Seq::empty(),
        }
    } else {
        Seq::empty()
    }
}

fn group_text(g: &Vec<Option<String>>, i: usize) -> (t: String)
    ensures
        t@ == group(groups_view(g@), i as int),
{
    if i < g.len() {
        match &g[i] {
            Some(s) => s.clone(),
            None => String::new(),
        }
    } else {
        String::new()
    }
}

/// Whether `pattern` matches somewhere in `line`.
pub open spec fn matches_at(pattern: &str, line: Seq<char>) -> bool {
    regex_captures(pattern@, line) is Some
}

/// Group `i` of the match of `pattern` in `line`.
pub open spec fn captured(pattern: &str, line: Seq<char>, i: int) -> Seq<char> {
    group(regex_captures(pattern@, line)->0, i)
}

/// The event a log line reports: the first of the patterns, in this order,
/// that matches the line decides it.
pub open spec fn classify(line: Seq<char>) -> Option<Event> {
    if matches_at(CONNECTIONS, line) {
        Some(
            Event::Connections {
                connections: captured(CONNECTIONS, line, 1),
                zdos: captured(CONNECTIONS, line, 2),
                packets: if matches_at(PACKETS, line) {
                    Some((captured(PACKETS, line, 1), captured(PACKETS, line, 2)))
                } else {
                    None
                },
            },
        )
    } else if matches_at(GC_PAUSE, line) {
        Some(Event::GcPause { millis: captured(GC_PAUSE, line, 1) })
    } else if matches_at(SEND_FAILED, line) {
        Some(Event::SendFailed)
    } else if matches_at(CONN_STATE, line) {
        Some(Event::ConnectionState { state: captured(CONN_STATE, line, 1) })
    } else if matches_at(CONN_RESULT, line) {
        Some(Event::ConnectionResult { result: captured(CONN_RESULT, line, 1) })
    } else if matches_at(HANDSHAKE, line) {
        Some(Event::Handshake)
    } else if matches_at(NET_VERSION, line) {
        Some(
            Event::NetworkVersion {
                theirs: captured(NET_VERSION, line, 1),
                mine: captured(NET_VERSION, line, 2),
            },
        )
    } else if matches_at(UNLOAD, line) {
        Some(Event::AssetUnload { loaded_objects: captured(UNLOAD, line, 1) })
    } else if matches_at(SERVER_ID, line) {
        Some(Event::ServerId { id: captured(SERVER_ID, line, 1) })
    } else if matches_at(LOAD_CHUNKS, line) {
        Some(Event::LoadChunks { zdos: captured(LOAD_CHUNKS, line, 1) })
    } else if matches_at(DAY, line) {
        Some(Event::Day { day: captured(DAY, line, 1) })
    } else if matches_at(WORLD_SAVE, line) {
        Some(Event::WorldSave { millis: captured(WORLD_SAVE, line, 1) })
    } else if matches_at(BACKUP, line) {
        Some(Event::Backup { millis: captured(BACKUP, line, 1) })
    } else if matches_at(CONNECTED, line) {
        Some(Event::ServerConnected)
    } else if matches_at(RPC_TIMEOUT, line) {
        Some(Event::RpcTimeout)
    } else if matches_at(WRONG_PASSWORD, line) {
        Some(Event::WrongPassword { steam_id: captured(WRONG_PASSWORD, line, 1) })
    } else if matches_at(HISTORY, line) {
        Some(
            Event::PlayerHistory {
                name: captured(HISTORY, line, 1),
                steam_id: captured(HISTORY, line, 2),
            },
        )
    } else {
        None
    }
}

pub open spec fn event_view(e: Option<LogEvent>) -> Option<Event> {
    match e {
        Some(ev) => Some(ev@),
        None => None,
    }
}

/// The event `line` reports, if it reports one the world statistics follow.
pub fn classify_line(line: &str) -> (r: Option<LogEvent>)
    ensures
        event_view(r) == classify(line@),
{
    if let Some(g) = captures(CONNECTIONS, line) {
        let packets = match captures(PACKETS, line) {
            Some(p) => Some((group_text(&p, 1), group_text(&p, 2))),
            None => None,
        };
        return Some(
            LogEvent::Connections {
                connections: group_text(&g, 1),
                zdos: group_text(&g, 2),
                packets,
            },
        );
    }
    if let Some(g) = captures(GC_PAUSE, line) {
        return Some(LogEvent::GcPause { millis: group_text(&g, 1) });
    }
    if captures(SEND_FAILED, line).is_some() {
        return Some(LogEvent::SendFailed);
    }
    if let Some(g) = captures(CONN_STATE, line) {
        return Some(LogEvent::ConnectionState { state: group_text(&g, 1) });
    }
    if let Some(g) = captures(CONN_RESULT, line) {
        return Some(LogEvent::ConnectionResult { result: group_text(&g, 1) });
    }
    if captures(HANDSHAKE, line).is_some() {
        return Some(LogEvent::Handshake);
    }
    if let Some(g) = captures(NET_VERSION, line) {
        return Some(LogEvent::NetworkVersion { theirs: group_text(&g, 1), mine: group_text(&g, 2) });
    }
    if let Some(g) = captures(UNLOAD, line) {
        return Some(LogEvent::AssetUnload { loaded_objects: group_text(&g, 1) });
    }
    if let Some(g) = captures(SERVER_ID, line) {
        return Some(LogEvent::ServerId { id: group_text(&g, 1) });
    }
    if let Some(g) = captures(LOAD_CHUNKS, line) {
        return Some(LogEvent::LoadChunks { zdos: group_text(&g, 1) });
    }
    if let Some(g) = captures(DAY, line) {
        return Some(LogEvent::Day { day: group_text(&g, 1) });
    }
    if let Some(g) = captures(WORLD_SAVE, line) {
        return Some(LogEvent::WorldSave { millis: group_text(&g, 1) });
    }
    if let Some(g) = captures(BACKUP, line) {
        return Some(LogEvent::Backup { millis: group_text(&g, 1) });
    }
    if captures(CONNECTED, line).is_some() {
        return Some(LogEvent::ServerConnected);
    }
    if captures(RPC_TIMEOUT, line).is_some() {
        return Some(LogEvent::RpcTimeout);
    }
    if let Some(g) = captures(WRONG_PASSWORD, line) {
        return Some(LogEvent::WrongPassword { steam_id: group_text(&g, 1) });
    }
    if let Some(g) = captures(HISTORY, line) {
        return Some(LogEvent::PlayerHistory { name: group_text(&g, 1), steam_id: group_text(&g, 2) });
    }
    None
}

/// Whether `line` holds one of the phrases of the lines the world statistics
/// follow; other lines are passed over without looking further.
pub open spec fn is_tracked(line: Seq<char>) -> bool {
    ||| occurs(line, "ZDOS:"@)
    ||| occurs(line, "Starting to load"@)
    ||| occurs(line, "skipspeed:"@)
    ||| occurs(line, "World save ("@)
    ||| occurs(line, "auto backup saved"@)
    ||| occurs(line, "Game server connected"@)
    ||| occurs(line, "ZRpc timeout detected"@)
    ||| occurs(line, "FindLiveObjects:"@)
    ||| occurs(line, "Failed to send data"@)
    ||| occurs(line, "Got status changed msg"@)
    ||| occurs(line, "Accepting connection"@)
    ||| occurs(line, "Got handshake from client"@)
    ||| occurs(line, "Network version check"@)
    ||| occurs(line, "Loaded Objects now:"@)
    ||| occurs(line, "Server ID "@)
    ||| occurs(line, "has wrong password"@)
    ||| occurs(line, "Player history entry"@)
}

/// The filter passes every line that reports one of the followed events: a
/// line holding any of the phrases below is looked at further.
pub proof fn lemma_followed_phrases_tracked(line: Seq<char>)
    ensures
        occurs(line, "ZDOS:"@) ==> is_tracked(line),
        occurs(line, "Starting to load"@) ==> is_tracked(line),
        occurs(line, "skipspeed:"@) ==> is_tracked(line),
        occurs(line, "World save ("@) ==> is_tracked(line),
        occurs(line, "auto backup saved"@) ==> is_tracked(line),
        occurs(line, "Game server connected"@) ==> is_tracked(line),
        occurs(line, "ZRpc timeout detected"@) ==> is_tracked(line),
        occurs(line, "FindLiveObjects:"@) ==> is_tracked(line),
        occurs(line, "Failed to send data"@) ==> is_tracked(line),
        occurs(line, "Got status changed msg"@) ==> is_tracked(line),
        occurs(line, "Accepting connection"@) ==> is_tracked(line),
        occurs(line, "Got handshake from client"@) ==> is_tracked(line),
        occurs(line, "Network version check"@) ==> is_tracked(line),
        occurs(line, "Loaded Objects now:"@) ==> is_tracked(line),
        occurs(line, "Server ID "@) ==> is_tracked(line),
        occurs(line, "has wrong password"@) ==> is_tracked(line),
        occurs(line, "Player history entry"@) ==> is_tracked(line),
{
}

/// Whether `line` holds one of the tracked phrases (see `is_tracked`).
pub fn tracked_line(line: &str) -> (r: bool)
    ensures
        r == is_tracked(line@),
{
    let cs = chars_of(line);
    contains_text(&cs, "ZDOS:") || contains_text(&cs, "Starting to load") || contains_text(
        &cs,
        "skipspeed:",
    ) || contains_text(&cs, "World save (") || contains_text(&cs, "auto backup saved")
        || contains_text(&cs, "Game server connected") || contains_text(
        &cs,
        "ZRpc timeout detected",
    ) || contains_text(&cs, "FindLiveObjects:") || contains_text(&cs, "Failed to send data")
        || contains_text(&cs, "Got status changed msg") || contains_text(
        &cs,
        "Accepting connection",
    ) || contains_text(&cs, "Got handshake from client") || contains_text(
        &cs,
        "Network version check",
    ) || contains_text(&cs, "Loaded Objects now:") || contains_text(&cs, "Server ID ")
        || contains_text(&cs, "has wrong password") || contains_text(&cs, "Player history entry")
}

} // verus!
