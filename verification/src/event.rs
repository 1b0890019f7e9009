//! The kinds of server log line that the world statistics follow, with the
//! text each one carries.

use vstd::prelude::*;

verus! {

/// A recognised log line and the text captured from it.
pub enum LogEvent {
    /// `Connections N ZDOS:N`, and, when the line has them, `sent:N recv:N`.
    Connections { connections: String, zdos: String, packets: Option<(String, String)> },
    /// `Total: N ms (FindLiveObjects:`: a garbage-collection pause.
    GcPause { millis: String },
    /// `Failed to send data k_EResult`.
    SendFailed,
    /// `Got status changed msg k_ESteamNetworkingConnectionState_<State>`.
    ConnectionState { state: String },
    /// `Accepting connection k_EResult<Result>`.
    ConnectionResult { result: String },
    /// `Got handshake from client N`.
    Handshake,
    /// `Network version check, their:N, mine:N`.
    NetworkVersion { theirs: String, mine: String },
    /// `Unloading N unused Assets ... Loaded Objects now: N`.
    AssetUnload { loaded_objects: String },
    /// `Server ID N`.
    ServerId { id: String },
    /// `ZDOMan.LoadChunks - Starting to load N zdos`.
    LoadChunks { zdos: String },
    /// `Time T, day:N`.
    Day { day: String },
    /// `World save (i/n) done. Total time [N ms]`.
    WorldSave { millis: String },
    /// `World auto backup saved [N ms]`.
    Backup { millis: String },
    /// `Game server connected` at the end of the line.
    ServerConnected,
    /// `ZRpc timeout detected`.
    RpcTimeout,
    /// `Peer N has wrong password`.
    WrongPassword { steam_id: String },
    /// `Player history entry with index N: <name> (Steam_N,`.
    PlayerHistory { name: String, steam_id: String },
}

/// The mathematical model of `LogEvent`.
pub enum Event {
    Connections { connections: Seq<char>, zdos: Seq<char>, packets: Option<(Seq<char>, Seq<char>)> },
    GcPause { millis: Seq<char> },
    SendFailed,
    ConnectionState { state: Seq<char> },
    ConnectionResult { result: Seq<char> },
    Handshake,
    NetworkVersion { theirs: Seq<char>, mine: Seq<char> },
    AssetUnload { loaded_objects: Seq<char> },
    ServerId { id: Seq<char> },
    LoadChunks { zdos: Seq<char> },
    Day { day: Seq<char> },
    WorldSave { millis: Seq<char> },
    Backup { millis: Seq<char> },
    ServerConnected,
    RpcTimeout,
    WrongPassword { steam_id: Seq<char> },
    PlayerHistory { name: Seq<char>, steam_id: Seq<char> },
}

impl View for LogEvent {
    type V = Event;

    open spec fn view(&self) -> Event {
        match self {
            LogEvent::Connections { connections, zdos, packets } => Event::Connections {
                connections: connections@,
                zdos: zdos@,
                packets: match packets {
                    Some((s, r)) => Some((s@, r@)),
                    None => None,
                },
            },
            LogEvent::GcPause { millis } => Event::GcPause { millis: millis@ },
            LogEvent::SendFailed => Event::SendFailed,
            LogEvent::ConnectionState { state } => Event::ConnectionState { state: state@ },
            LogEvent::ConnectionResult { result } => Event::ConnectionResult { result: result@ },
            LogEvent::Handshake => Event::Handshake,
            LogEvent::NetworkVersion { theirs, mine } => Event::NetworkVersion {
                theirs: theirs@,
                mine: mine@,
            },
            LogEvent::AssetUnload { loaded_objects } => Event::AssetUnload {
                loaded_objects: loaded_objects@,
            },
            LogEvent::ServerId { id } => Event::ServerId { id: id@ },
            LogEvent::LoadChunks { zdos } => Event::LoadChunks { zdos: zdos@ },
            LogEvent::Day { day } => Event::Day { day: day@ },
            LogEvent::WorldSave { millis } => Event::WorldSave { millis: millis@ },
            LogEvent::Backup { millis } => Event::Backup { millis: millis@ },
            LogEvent::ServerConnected => Event::ServerConnected,
            LogEvent::RpcTimeout => Event::RpcTimeout,
            LogEvent::WrongPassword { steam_id } => Event::WrongPassword { steam_id: steam_id@ },
            LogEvent::PlayerHistory { name, steam_id } => Event::PlayerHistory {
                name: name@,
                steam_id: steam_id@,
            },
        }
    }
}

} // verus!
