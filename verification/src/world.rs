//! World-level facts gathered from the server log: what they are, and how one
//! recognised log event changes them.

use vstd::prelude::*;
use crate::float_text::{float_text_accepted, is_float_text};
use crate::clock::unix_now;
use crate::event::{Event, LogEvent};
use crate::log_line::{classify, classify_line, is_tracked, tracked_line};
use crate::numbers::{parse_u32, parse_u64, parsed_u32, parsed_u64};
use crate::table::Table;
use crate::text::{drop_commas, string_of, without_commas};

verus! {

/// Save durations kept for the histogram (a save every 10 minutes is about 3.5 days).
pub const MAX_SAVES: usize = 500;

/// Garbage-collection pauses kept for the histogram.
pub const MAX_GC_PAUSES: usize = 500;

/// How long something took, as text of a floating-point number.
pub enum Duration {
    /// Milliseconds, as the server log wrote them (thousands separators
    /// dropped): a text that `str::parse::<f64>` accepts.
    Millis(String),
    /// Seconds, as `Display` wrote the floating-point number.
    Seconds(String),
}

pub enum DurationView {
    Millis(Seq<char>),
    Seconds(Seq<char>),
}

impl View for Duration {
    type V = DurationView;

    open spec fn view(&self) -> DurationView {
        match self {
            Duration::Millis(t) => DurationView::Millis(t@),
            Duration::Seconds(t) => DurationView::Seconds(t@),
        }
    }
}

/// One world save: `save` (world autosave) or `backup` (world auto backup).
pub struct Save {
    pub kind: String,
    /// How long it took.
    pub duration: Duration,
    /// Unix time the save finished.
    pub at: i64,
}

/// One Unity garbage-collection pause.
pub struct GcPause {
    /// How long the world thread stood still.
    pub duration: Duration,
    /// Unix time the pause was logged.
    pub at: i64,
}

/// Result of the last update check.
pub struct UpdateCheck {
    pub current_build: String,
    pub latest_build: String,
    pub available: bool,
    /// Unix time of the check.
    pub checked_at: i64,
}

/// Rejected joins of one Steam id.
pub struct WrongPassword {
    pub steam_id: String,
    /// Steam display name from the server's player history, if the id has joined before.
    pub name: String,
    pub count: u64,
}

pub struct SaveView {
    pub kind: Seq<char>,
    pub duration: DurationView,
    pub at: i64,
}

pub struct GcPauseView {
    pub duration: DurationView,
    pub at: i64,
}

pub struct UpdateCheckView {
    pub current_build: Seq<char>,
    pub latest_build: Seq<char>,
    pub available: bool,
    pub checked_at: i64,
}

pub struct WrongPasswordView {
    pub steam_id: Seq<char>,
    pub name: Seq<char>,
    pub count: nat,
}

impl View for Save {
    type V = SaveView;

    open spec fn view(&self) -> SaveView {
        SaveView { kind: self.kind@, duration: self.duration@, at: self.at }
    }
}

impl View for GcPause {
    type V = GcPauseView;

    open spec fn view(&self) -> GcPauseView {
        GcPauseView { duration: self.duration@, at: self.at }
    }
}

impl View for UpdateCheck {
    type V = UpdateCheckView;

    open spec fn view(&self) -> UpdateCheckView {
        UpdateCheckView {
            current_build: self.current_build@,
            latest_build: self.latest_build@,
            available: self.available,
            checked_at: self.checked_at,
        }
    }
}

impl View for WrongPassword {
    type V = WrongPasswordView;

    open spec fn view(&self) -> WrongPasswordView {
        WrongPasswordView { steam_id: self.steam_id@, name: self.name@, count: self.count as nat }
    }
}

/// World-level facts parsed from the server log. They survive restarts; a
/// server start only resets the per-boot fields.
pub struct WorldStats {
    pub zdo_count: Option<u64>,
    pub connections: Option<u32>,
    pub day: Option<u32>,
    /// Whole seconds from the server start to its first registration with Steam.
    pub load_seconds: Option<i128>,
    pub rpc_timeouts: u64,
    pub wrong_password: Vec<WrongPassword>,
    pub saves: Vec<Save>,
    /// Size of the world on disk after the last save (and at boot).
    pub world_bytes: Option<u64>,
    pub update: Option<UpdateCheck>,
    /// Unity garbage-collection pauses: the world thread stops for the whole pause.
    pub gc_pauses: Vec<GcPause>,
    /// Packets the server reports every 10 minutes, accumulated.
    pub packets_sent: u64,
    pub packets_received: u64,
    /// `Failed to send data k_EResult...` occurrences.
    pub send_failures: u64,
    /// Steam networking connection state transitions, counted per state.
    pub connection_states: Table<u64>,
    /// `Accepting connection k_EResult<Result>` per result.
    pub connection_results: Table<u64>,
    /// `Got handshake from client ...` occurrences.
    pub handshakes: u64,
    /// The network protocol version the server reports.
    pub network_version: Option<u32>,
    /// Joins refused because the client's network version differed from the server's.
    pub version_mismatches: u64,
    /// The object count after the last asset unload.
    pub loaded_objects: Option<u64>,
    pub asset_unloads: u64,
    /// `Server ID N` from the Steam game server init.
    pub server_id: Option<String>,
    /// Unix time the server was started, for `load_seconds`.
    pub boot_started: Option<i64>,
    /// Steam display names by Steam id, from the server's player history.
    pub steam_names: Table<String>,
}

/// The mathematical model of `WorldStats`.
pub struct WorldView {
    pub zdo_count: Option<u64>,
    pub connections: Option<u32>,
    pub day: Option<u32>,
    pub load_seconds: Option<i128>,
    pub rpc_timeouts: nat,
    pub wrong_password: Seq<WrongPasswordView>,
    pub saves: Seq<SaveView>,
    pub world_bytes: Option<u64>,
    pub update: Option<UpdateCheckView>,
    pub gc_pauses: Seq<GcPauseView>,
    pub packets_sent: nat,
    pub packets_received: nat,
    pub send_failures: nat,
    pub connection_states: Map<Seq<char>, u64>,
    pub connection_results: Map<Seq<char>, u64>,
    pub handshakes: nat,
    pub network_version: Option<u32>,
    pub version_mismatches: nat,
    pub loaded_objects: Option<u64>,
    pub asset_unloads: nat,
    pub server_id: Option<Seq<char>>,
    pub boot_started: Option<i64>,
    pub steam_names: Map<Seq<char>, Seq<char>>,
}

pub open spec fn update_view(u: Option<UpdateCheck>) -> Option<UpdateCheckView> {
    match u {
        Some(c) => Some(c@),
        None => None,
    }
}

pub open spec fn text_view(s: Option<String>) -> Option<Seq<char>> {
    match s {
        Some(t) => Some(t@),
        None => None,
    }
}

impl View for WorldStats {
    type V = WorldView;

    open spec fn view(&self) -> WorldView {
        WorldView {
            zdo_count: self.zdo_count,
            connections: self.connections,
            day: self.day,
            load_seconds: self.load_seconds,
            rpc_timeouts: self.rpc_timeouts as nat,
            wrong_password: self.wrong_password@.map_values(|w: WrongPassword| w@),
            saves: self.saves@.map_values(|s: Save| s@),
            world_bytes: self.world_bytes,
            update: update_view(self.update),
            gc_pauses: self.gc_pauses@.map_values(|g: GcPause| g@),
            packets_sent: self.packets_sent as nat,
            packets_received: self.packets_received as nat,
            send_failures: self.send_failures as nat,
            connection_states: self.connection_states.view(),
            connection_results: self.connection_results.view(),
            handshakes: self.handshakes as nat,
            network_version: self.network_version,
            version_mismatches: self.version_mismatches as nat,
            loaded_objects: self.loaded_objects,
            asset_unloads: self.asset_unloads as nat,
            server_id: text_view(self.server_id),
            boot_started: self.boot_started,
            steam_names: self.steam_names.view().map_values(|n: String| n@),
        }
    }
}

/// The world with nothing recorded yet.
pub open spec fn empty_world() -> WorldView {
    WorldView {
        zdo_count: None,
        connections: None,
        day: None,
        load_seconds: None,
        rpc_timeouts: 0,
        wrong_password: Seq::empty(),
        saves: Seq::empty(),
        world_bytes: None,
        update: None,
        gc_pauses: Seq::empty(),
        packets_sent: 0,
        packets_received: 0,
        send_failures: 0,
        connection_states: Map::empty(),
        connection_results: Map::empty(),
        handshakes: 0,
        network_version: None,
        version_mismatches: 0,
        loaded_objects: None,
        asset_unloads: 0,
        server_id: None,
        boot_started: None,
        steam_names: Map::empty(),
    }
}

/// The last `n` items of `s` (all of them when there are no more).
pub open spec fn keep_last<T>(s: Seq<T>, n: nat) -> Seq<T> {
    if s.len() > n {
        s.skip(s.len() - n)
    } else {
        s
    }
}

/// How often `key` was counted so far.
pub open spec fn count_of(m: Map<Seq<char>, u64>, key: Seq<char>) -> nat {
    if m.contains_key(key) {
        m[key] as nat
    } else {
        0
    }
}

/// `m` with one more count for `key`.
pub open spec fn bumped(m: Map<Seq<char>, u64>, key: Seq<char>) -> Map<Seq<char>, u64> {
    m.insert(key, (count_of(m, key) + 1) as u64)
}

/// The index of the first entry of `list` for `steam_id`, or -1.
pub open spec fn first_with_id(list: Seq<WrongPasswordView>, steam_id: Seq<char>) -> int
    decreases list.len(),
{
    if list.len() == 0 {
        -1
    } else {
        let f = first_with_id(list.drop_last(), steam_id);
        if f >= 0 {
            f
        } else if list.last().steam_id == steam_id {
            list.len() - 1
        } else {
            -1
        }
    }
}

/// The display name known for `steam_id`, or the empty text.
pub open spec fn name_for(names: Map<Seq<char>, Seq<char>>, steam_id: Seq<char>) -> Seq<char> {
    if names.contains_key(steam_id) {
        names[steam_id]
    } else {
        Seq::empty()
    }
}

/// One more rejected join for `steam_id`: its first entry counts one more and
/// takes the display name if one is known by now, or a new entry with the
/// known display name (or none) starts at one.
pub open spec fn after_wrong_password(
    list: Seq<WrongPasswordView>,
    names: Map<Seq<char>, Seq<char>>,
    steam_id: Seq<char>,
) -> Seq<WrongPasswordView> {
    let i = first_with_id(list, steam_id);
    if i >= 0 {
        list.update(
            i,
            WrongPasswordView {
                count: list[i].count + 1,
                name: if names.contains_key(steam_id) {
                    names[steam_id]
                } else {
                    list[i].name
                },
                ..list[i]
            },
        )
    } else {
        list.push(WrongPasswordView { steam_id, name: name_for(names, steam_id), count: 1 })
    }
}

/// One more rejected join for `steam_id`, in the whole world's statistics.
pub open spec fn after_rejected_join(w: WorldView, steam_id: Seq<char>) -> WorldView {
    WorldView { wrong_password: after_wrong_password(w.wrong_password, w.steam_names, steam_id), ..w }
}

/// The count of `steam_id`'s first entry, if any, can take one more.
pub open spec fn rejected_join_fits(w: WorldView, steam_id: Seq<char>) -> bool {
    let i = first_with_id(w.wrong_password, steam_id);
    i >= 0 ==> w.wrong_password[i].count < u64::MAX
}

/// A save of the given kind that took `millis` milliseconds (thousands
/// separators allowed) and finished at `now`; a duration that is not a
/// floating-point number records nothing.
pub open spec fn after_save(w: WorldView, kind: Seq<char>, millis: Seq<char>, now: i64) -> WorldView {
    let ms = drop_commas(millis);
    if is_float_text(ms) {
        WorldView {
            saves: keep_last(
                w.saves.push(SaveView { kind, duration: DurationView::Millis(ms), at: now }),
                MAX_SAVES as nat,
            ),
            ..w
        }
    } else {
        w
    }
}

/// A garbage-collection pause of `millis` milliseconds logged at `now`.
pub open spec fn after_gc_pause(w: WorldView, millis: Seq<char>, now: i64) -> WorldView {
    if is_float_text(millis) {
        WorldView {
            gc_pauses: keep_last(
                w.gc_pauses.push(GcPauseView { duration: DurationView::Millis(millis), at: now }),
                MAX_GC_PAUSES as nat,
            ),
            ..w
        }
    } else {
        w
    }
}

pub open spec fn count_or_zero(text: Seq<char>) -> nat {
    match parsed_u64(text) {
        Some(n) => n as nat,
        None => 0,
    }
}

/// What one recognised log event does to the world statistics, at Unix time `now`.
pub open spec fn step(w: WorldView, e: Event, now: i64) -> WorldView {
    match e {
        Event::Connections { connections, zdos, packets } => match packets {
            Some((sent, received)) => WorldView {
                connections: parsed_u32(connections),
                zdo_count: parsed_u64(zdos),
                packets_sent: w.packets_sent + count_or_zero(sent),
                packets_received: w.packets_received + count_or_zero(received),
                ..w
            },
            None => WorldView {
                connections: parsed_u32(connections),
                zdo_count: parsed_u64(zdos),
                ..w
            },
        },
        Event::GcPause { millis } => after_gc_pause(w, millis, now),
        Event::SendFailed => WorldView { send_failures: w.send_failures + 1, ..w },
        Event::ConnectionState { state } => WorldView {
            connection_states: bumped(w.connection_states, state),
            ..w
        },
        Event::ConnectionResult { result } => WorldView {
            connection_results: bumped(w.connection_results, result),
            ..w
        },
        Event::Handshake => WorldView { handshakes: w.handshakes + 1, ..w },
        Event::NetworkVersion { theirs, mine } => WorldView {
            network_version: parsed_u32(mine),
            version_mismatches: if parsed_u32(theirs) != parsed_u32(mine) {
                w.version_mismatches + 1
            } else {
                w.version_mismatches
            },
            ..w
        },
        Event::AssetUnload { loaded_objects } => WorldView {
            loaded_objects: parsed_u64(loaded_objects),
            asset_unloads: w.asset_unloads + 1,
            ..w
        },
        Event::ServerId { id } => WorldView { server_id: Some(id), ..w },
        Event::LoadChunks { zdos } => WorldView { zdo_count: parsed_u64(drop_commas(zdos)), ..w },
        Event::Day { day } => WorldView { day: parsed_u32(day), ..w },
        Event::WorldSave { millis } => after_save(w, "save"@, millis, now),
        Event::Backup { millis } => after_save(w, "backup"@, millis, now),
        Event::ServerConnected => match (w.boot_started, w.load_seconds) {
            (Some(start), None) => WorldView { load_seconds: Some((now - start) as i128), ..w },
            _ => w,
        },
        Event::RpcTimeout => WorldView { rpc_timeouts: w.rpc_timeouts + 1, ..w },
        Event::WrongPassword { steam_id } => after_rejected_join(w, steam_id),
        Event::PlayerHistory { name, steam_id } => WorldView {
            steam_names: w.steam_names.insert(steam_id, name),
            ..w
        },
    }
}

/// Whether the event asks for the size of the world on disk to be measured
/// again: when the world is loaded, and after each world save.
pub open spec fn wants_world_size(e: Event) -> bool {
    match e {
        Event::LoadChunks { .. } => true,
        Event::WorldSave { millis } => is_float_text(drop_commas(millis)),
        _ => false,
    }
}

/// No counter of the world would pass `u64::MAX`.
pub open spec fn fits(w: WorldView, e: Event) -> bool {
    match e {
        Event::Connections { packets, .. } => match packets {
            Some((sent, received)) => w.packets_sent + count_or_zero(sent) <= u64::MAX
                && w.packets_received + count_or_zero(received) <= u64::MAX,
            None => true,
        },
        Event::SendFailed => w.send_failures < u64::MAX,
        Event::ConnectionState { state } => count_of(w.connection_states, state) < u64::MAX,
        Event::ConnectionResult { result } => count_of(w.connection_results, result) < u64::MAX,
        Event::Handshake => w.handshakes < u64::MAX,
        Event::NetworkVersion { .. } => w.version_mismatches < u64::MAX,
        Event::AssetUnload { .. } => w.asset_unloads < u64::MAX,
        Event::RpcTimeout => w.rpc_timeouts < u64::MAX,
        Event::WrongPassword { steam_id } => rejected_join_fits(w, steam_id),
        _ => true,
    }
}

/// A recorded save is the newest of at most `MAX_SAVES` kept: while fewer
/// were kept none is dropped, and once the history is full the oldest ones
/// leave, the others staying in order.
pub proof fn lemma_save_history_bounded(w: WorldView, kind: Seq<char>, millis: Seq<char>, now: i64)
    requires
        is_float_text(drop_commas(millis)),
    ensures
        ({
            let after = after_save(w, kind, millis, now).saves;
            let new_save = SaveView { kind, duration: DurationView::Millis(drop_commas(millis)), at: now };
            &&& after.len() <= MAX_SAVES
            &&& after.last() == new_save
            &&& w.saves.len() < MAX_SAVES ==> after == w.saves.push(new_save)
            &&& after.len() == if w.saves.len() < MAX_SAVES { w.saves.len() + 1 } else { MAX_SAVES as nat }
            &&& w.saves.len() >= MAX_SAVES ==> after == w.saves.skip(
                w.saves.len() - (MAX_SAVES - 1),
            ).push(new_save)
        }),
{
    let new_save = SaveView { kind, duration: DurationView::Millis(drop_commas(millis)), at: now };
    let all = w.saves.push(new_save);
    if w.saves.len() >= MAX_SAVES {
        assert(all.skip(all.len() - MAX_SAVES) =~= w.saves.skip(w.saves.len() - (MAX_SAVES - 1)).push(
            new_save,
        ));
    }
}

/// A recorded pause is the newest of at most `MAX_GC_PAUSES` kept: while
/// fewer were kept none is dropped, and once the history is full the oldest
/// ones leave, the others staying in order.
pub proof fn lemma_gc_history_bounded(w: WorldView, millis: Seq<char>, now: i64)
    requires
        is_float_text(millis),
    ensures
        ({
            let after = after_gc_pause(w, millis, now).gc_pauses;
            let pause = GcPauseView { duration: DurationView::Millis(millis), at: now };
            &&& after.len() <= MAX_GC_PAUSES
            &&& after.last() == pause
            &&& w.gc_pauses.len() < MAX_GC_PAUSES ==> after == w.gc_pauses.push(pause)
            &&& after.len() == if w.gc_pauses.len() < MAX_GC_PAUSES {
                w.gc_pauses.len() + 1
            } else {
                MAX_GC_PAUSES as nat
            }
            &&& w.gc_pauses.len() >= MAX_GC_PAUSES ==> after == w.gc_pauses.skip(
                w.gc_pauses.len() - (MAX_GC_PAUSES - 1),
            ).push(pause)
        }),
{
    let pause = GcPauseView { duration: DurationView::Millis(millis), at: now };
    let all = w.gc_pauses.push(pause);
    if w.gc_pauses.len() >= MAX_GC_PAUSES {
        assert(all.skip(all.len() - MAX_GC_PAUSES) =~= w.gc_pauses.skip(
            w.gc_pauses.len() - (MAX_GC_PAUSES - 1),
        ).push(pause));
    }
}

/// Once the load time of a boot is known, no log event changes it: the game
/// re-registers after a failure and logs the same line again.
pub proof fn lemma_load_time_kept(w: WorldView, e: Event, now: i64)
    requires
        w.load_seconds is Some,
    ensures
        step(w, e, now).load_seconds == w.load_seconds,
{
}

/// After a server start, the first registration with Steam records the time
/// since the start.
pub proof fn lemma_load_time_after_start(w: WorldView, started: i64, now: i64)
    ensures
        ({
            let booted = WorldView { boot_started: Some(started), load_seconds: None, connections: None, ..w };
            step(booted, Event::ServerConnected, now).load_seconds == Some((now - started) as i128)
        }),
{
}

/// No log event makes a counter go down.
pub proof fn lemma_counters_never_decrease(w: WorldView, e: Event, now: i64, key: Seq<char>)
    requires
        fits(w, e),
    ensures
        ({
            let a = step(w, e, now);
            &&& a.rpc_timeouts >= w.rpc_timeouts
            &&& a.packets_sent >= w.packets_sent
            &&& a.packets_received >= w.packets_received
            &&& a.send_failures >= w.send_failures
            &&& a.handshakes >= w.handshakes
            &&& a.version_mismatches >= w.version_mismatches
            &&& a.asset_unloads >= w.asset_unloads
            &&& count_of(a.connection_states, key) >= count_of(w.connection_states, key)
            &&& count_of(a.connection_results, key) >= count_of(w.connection_results, key)
        }),
{
    match e {
        Event::ConnectionState { state } => {
            assert(count_of(bumped(w.connection_states, state), key) >= count_of(w.connection_states, key));
        },
        Event::ConnectionResult { result } => {
            assert(count_of(bumped(w.connection_results, result), key) >= count_of(
                w.connection_results,
                key,
            ));
        },
        _ => {},
    }
}

/// No two entries of rejected joins share a Steam id.
pub open spec fn distinct_ids(list: Seq<WrongPasswordView>) -> bool {
    forall|i: int, j: int|
        0 <= i < j < list.len() ==> #[trigger] list[i].steam_id != #[trigger] list[j].steam_id
}

proof fn lemma_first_with_id_spec(list: Seq<WrongPasswordView>, id: Seq<char>)
    ensures
        -1 <= first_with_id(list, id) < list.len(),
        first_with_id(list, id) >= 0 ==> list[first_with_id(list, id)].steam_id == id,
        first_with_id(list, id) == -1 ==> forall|j: int| 0 <= j < list.len() ==> #[trigger] list[j].steam_id != id,
    decreases list.len(),
{
    if list.len() > 0 {
        let t = list.drop_last();
        lemma_first_with_id_spec(t, id);
        if first_with_id(list, id) == -1 {
            assert forall|j: int| 0 <= j < list.len() implies #[trigger] list[j].steam_id != id by {
                if j < list.len() - 1 {
                    assert(t[j] == list[j]);
                }
            }
        }
    }
}

/// Each Steam id keeps one entry of rejected joins, whose count goes up by
/// one with each further rejection; a first rejection starts it at one.
pub proof fn lemma_rejected_joins_counted(w: WorldView, steam_id: Seq<char>)
    requires
        distinct_ids(w.wrong_password),
    ensures
        ({
            let before = w.wrong_password;
            let after = after_rejected_join(w, steam_id).wrong_password;
            &&& distinct_ids(after)
            &&& exists|i: int| 0 <= i < after.len() && #[trigger] after[i].steam_id == steam_id
                && after[i].count == (if first_with_id(before, steam_id) >= 0 {
                    before[first_with_id(before, steam_id)].count + 1
                } else {
                    1
                })
            &&& forall|i: int| 0 <= i < after.len() && #[trigger] after[i].steam_id != steam_id ==> exists|j: int|
                0 <= j < before.len() && before[j] == after[i]
        }),
{
    let before = w.wrong_password;
    let after = after_rejected_join(w, steam_id).wrong_password;
    lemma_first_with_id_spec(before, steam_id);
    let f = first_with_id(before, steam_id);
    if f >= 0 {
        assert(after[f].steam_id == steam_id);
        assert forall|i: int| 0 <= i < after.len() && #[trigger] after[i].steam_id != steam_id implies exists|j: int|
            0 <= j < before.len() && before[j] == after[i] by {
            assert(before[i] == after[i]);
        }
    } else {
        let last = after.len() - 1;
        assert(after[last].steam_id == steam_id);
        assert forall|i: int| 0 <= i < after.len() && #[trigger] after[i].steam_id != steam_id implies exists|j: int|
            0 <= j < before.len() && before[j] == after[i] by {
            assert(before[i] == after[i]);
        }
    }
}

/// The rejected joins counted over all entries.
pub open spec fn total_count(list: Seq<WrongPasswordView>) -> nat
    decreases list.len(),
{
    if list.len() == 0 {
        0
    } else {
        total_count(list.drop_last()) + list.last().count
    }
}

proof fn lemma_total_count_update(list: Seq<WrongPasswordView>, i: int, x: WrongPasswordView)
    requires
        0 <= i < list.len(),
    ensures
        total_count(list.update(i, x)) + list[i].count == total_count(list) + x.count,
    decreases list.len(),
{
    let u = list.update(i, x);
    if i < list.len() - 1 {
        assert(u.drop_last() =~= list.drop_last().update(i, x));
        lemma_total_count_update(list.drop_last(), i, x);
    } else {
        assert(u.drop_last() =~= list.drop_last());
    }
}

/// Each entry of rejected joins counts at least one, ids stay apart, and one
/// more rejection adds exactly one to the total.
pub proof fn lemma_rejected_join_totals(w: WorldView, steam_id: Seq<char>)
    requires
        distinct_ids(w.wrong_password),
        forall|i: int| 0 <= i < w.wrong_password.len() ==> #[trigger] w.wrong_password[i].count >= 1,
    ensures
        ({
            let after = after_rejected_join(w, steam_id).wrong_password;
            &&& distinct_ids(after)
            &&& forall|i: int| 0 <= i < after.len() ==> #[trigger] after[i].count >= 1
            &&& total_count(after) == total_count(w.wrong_password) + 1
        }),
{
    lemma_rejected_joins_counted(w, steam_id);
    let before = w.wrong_password;
    let f = first_with_id(before, steam_id);
    lemma_first_with_id_spec(before, steam_id);
    let after = after_rejected_join(w, steam_id).wrong_password;
    if f >= 0 {
        lemma_total_count_update(before, f, after[f]);
        assert forall|i: int| 0 <= i < after.len() implies #[trigger] after[i].count >= 1 by {
            if i != f {
                assert(after[i] == before[i]);
            }
        }
    } else {
        assert(after.drop_last() =~= before);
        assert forall|i: int| 0 <= i < after.len() implies #[trigger] after[i].count >= 1 by {
            if i < before.len() {
                assert(after[i] == before[i]);
            }
        }
    }
}

/// The seconds from `started` to `now`.
pub open spec fn seconds_since(started: i64, now: i64) -> i128 {
    (now - started) as i128
}

/// A counted line is counted once per call: handling an RPC timeout line twice
/// adds two to the timeouts and changes nothing else.
pub proof fn lemma_timeouts_counted_per_call(
    w0: WorldView,
    w1: WorldView,
    w2: WorldView,
    line: Seq<char>,
    r1: Applied,
    r2: Applied,
)
    requires
        classify(line) == Some(Event::RpcTimeout),
        w0.rpc_timeouts + 2 <= u64::MAX,
        applied_line(w0, w1, line, r1),
        applied_line(w1, w2, line, r2),
    ensures
        w2 == (WorldView { rpc_timeouts: w0.rpc_timeouts + 2, ..w0 }),
        r1.changed && r2.changed,
{
    let n1 = choose|now: i64| w1 == step(w0, Event::RpcTimeout, now);
    let n2 = choose|now: i64| w2 == step(w1, Event::RpcTimeout, now);
    assert(w2 =~= (WorldView { rpc_timeouts: w0.rpc_timeouts + 2, ..w0 }));
}

/// The first registration after a server start records the load time, and
/// handling the same line again leaves everything as it is.
pub proof fn lemma_first_load_time_kept(
    w0: WorldView,
    started: i64,
    w1: WorldView,
    w2: WorldView,
    line: Seq<char>,
    r1: Applied,
    r2: Applied,
)
    requires
        classify(line) == Some(Event::ServerConnected),
        w0.boot_started == Some(started),
        w0.load_seconds is None,
        applied_line(w0, w1, line, r1),
        applied_line(w1, w2, line, r2),
    ensures
        exists|now: i64| w1.load_seconds == Some(#[trigger] seconds_since(started, now)),
        w2 == w1,
        r1.changed && r2.changed,
{
    let n1 = choose|now: i64| w1 == step(w0, Event::ServerConnected, now);
    assert(w1.load_seconds == Some(seconds_since(started, n1)));
    let n2 = choose|now: i64| w2 == step(w1, Event::ServerConnected, now);
}

/// Appends `x` and keeps only the last `cap` items.
fn push_bounded<T>(v: &mut Vec<T>, x: T, cap: usize)
    ensures
        final(v)@ == keep_last(old(v)@.push(x), cap as nat),
{
    v.push(x);
    let ghost full = v@;
    while v.len() > cap
        invariant
            v@.len() <= full.len(),
            full.len() > cap ==> v@.len() >= cap,
            full.len() <= cap ==> v@.len() == full.len(),
            v@ == full.skip(full.len() - v@.len()),
        decreases v@.len(),
    {
        let ghost before = v@;
        v.remove(0);
        assert forall|i: int| 0 <= i < v@.len() implies v@[i] == full.skip(full.len() - v@.len())[i] by {
            assert(v@[i] == before[i + 1]);
        }
        assert(v@ =~= full.skip(full.len() - v@.len()));
    }
    proof {
        if full.len() <= cap {
            assert(full.skip(0) =~= full);
        } else {
            assert(v@.len() == cap);
        }
    }
}

proof fn lemma_first_with_id_found(list: Seq<WrongPasswordView>, id: Seq<char>, i: int)
    requires
        0 <= i < list.len(),
        list[i].steam_id == id,
        forall|j: int| 0 <= j < i ==> #[trigger] list[j].steam_id != id,
    ensures
        first_with_id(list, id) == i,
    decreases list.len(),
{
    if i < list.len() - 1 {
        let t = list.drop_last();
        assert forall|j: int| 0 <= j < i implies #[trigger] t[j].steam_id != id by {
            assert(t[j] == list[j]);
        }
        lemma_first_with_id_found(t, id, i);
    } else {
        lemma_first_with_id_absent(list.drop_last(), id);
    }
}

proof fn lemma_first_with_id_absent(list: Seq<WrongPasswordView>, id: Seq<char>)
    requires
        forall|j: int| 0 <= j < list.len() ==> #[trigger] list[j].steam_id != id,
    ensures
        first_with_id(list, id) == -1,
    decreases list.len(),
{
    if list.len() > 0 {
        let t = list.drop_last();
        assert forall|j: int| 0 <= j < t.len() implies #[trigger] t[j].steam_id != id by {
            assert(t[j] == list[j]);
        }
        lemma_first_with_id_absent(t, id);
        assert(list[list.len() - 1].steam_id != id);
    }
}

/// What one log line did: whether anything changed, and whether the size of
/// the world on disk should be measured again.
pub struct Applied {
    pub changed: bool,
    pub stat_world: bool,
}

impl WorldStats {
    /// Statistics with nothing recorded yet.
    pub fn new() -> (w: Self)
        ensures
            w@ == empty_world(),
    {
        let w = WorldStats {
            zdo_count: None,
            connections: None,
            day: None,
            load_seconds: None,
            rpc_timeouts: 0,
            wrong_password: Vec::new(),
            saves: Vec::new(),
            world_bytes: None,
            update: None,
            gc_pauses: Vec::new(),
            packets_sent: 0,
            packets_received: 0,
            send_failures: 0,
            connection_states: Table::new(),
            connection_results: Table::new(),
            handshakes: 0,
            network_version: None,
            version_mismatches: 0,
            loaded_objects: None,
            asset_unloads: 0,
            server_id: None,
            boot_started: None,
            steam_names: Table::new(),
        };
        assert(w@.wrong_password =~= Seq::<WrongPasswordView>::empty());
        assert(w@.saves =~= Seq::<SaveView>::empty());
        assert(w@.gc_pauses =~= Seq::<GcPauseView>::empty());
        assert(w@.steam_names =~= Map::<Seq<char>, Seq<char>>::empty());
        w
    }

    /// Records a save of the given kind that took `millis` milliseconds
    /// (thousands separators allowed), finished at `now`. A duration that is
    /// not a floating-point number records nothing. Returns whether the size
    /// of the world on disk should be measured again: after each world save
    /// (`save`).
    pub fn record_save_at(&mut self, kind: &str, millis: &str, now: i64) -> (stat_world: bool)
        ensures
            final(self)@ == after_save(old(self)@, kind@, millis@, now),
            stat_world == (is_float_text(drop_commas(millis@)) && kind@ == "save"@),
    {
        let ms = string_of(&without_commas(millis));
        if !float_text_accepted(ms.as_str()) {
            return false;
        }
        let k = kind.to_owned();
        let is_save = k == "save".to_owned();
        let ghost old_saves = self.saves@;
        let ghost ms_view = ms@;
        let save = Save { kind: k, duration: Duration::Millis(ms), at: now };
        let ghost saved = save;
        push_bounded(&mut self.saves, save, MAX_SAVES);
        proof {
            let f = |s: Save| s@;
            let pushed = old_saves.push(saved);
            assert(pushed.map_values(f) =~= old_saves.map_values(f).push(
                SaveView { kind: kind@, duration: DurationView::Millis(ms_view), at: now },
            ));
            assert(keep_last(pushed, MAX_SAVES as nat).map_values(f) =~= keep_last(
                pushed.map_values(f),
                MAX_SAVES as nat,
            ));
            assert(final(self)@ =~= after_save(old(self)@, kind@, millis@, now));
        }
        is_save
    }

    /// Records a save, at the current time (see `record_save_at`).
    pub fn record_save(&mut self, kind: &str, millis: &str) -> (stat_world: bool)
        ensures
            exists|now: i64| final(self)@ == after_save(old(self)@, kind@, millis@, now),
            stat_world == (is_float_text(drop_commas(millis@)) && kind@ == "save"@),
    {
        let now = unix_now();
        self.record_save_at(kind, millis, now)
    }

    /// Records a garbage-collection pause of `millis` milliseconds logged at
    /// `now`; a duration that is not a floating-point number records nothing.
    pub fn record_gc_pause_at(&mut self, millis: &str, now: i64)
        ensures
            final(self)@ == after_gc_pause(old(self)@, millis@, now),
    {
        if !float_text_accepted(millis) {
            return;
        }
        let ghost old_pauses = self.gc_pauses@;
        let pause = GcPause { duration: Duration::Millis(millis.to_owned()), at: now };
        let ghost paused = pause;
        push_bounded(&mut self.gc_pauses, pause, MAX_GC_PAUSES);
        proof {
            let f = |g: GcPause| g@;
            let pushed = old_pauses.push(paused);
            assert(pushed.map_values(f) =~= old_pauses.map_values(f).push(
                GcPauseView { duration: DurationView::Millis(millis@), at: now },
            ));
            assert(keep_last(pushed, MAX_GC_PAUSES as nat).map_values(f) =~= keep_last(
                pushed.map_values(f),
                MAX_GC_PAUSES as nat,
            ));
            assert(final(self)@ =~= after_gc_pause(old(self)@, millis@, now));
        }
    }

    /// Records a garbage-collection pause at the current time (see
    /// `record_gc_pause_at`).
    pub fn record_gc_pause(&mut self, millis: &str)
        ensures
            exists|now: i64| final(self)@ == after_gc_pause(old(self)@, millis@, now),
    {
        let now = unix_now();
        self.record_gc_pause_at(millis, now);
    }

    /// Counts one rejected join for `steam_id`.
    pub fn record_wrong_password(&mut self, steam_id: &str)
        requires
            rejected_join_fits(old(self)@, steam_id@),
        ensures
            final(self)@ == after_rejected_join(old(self)@, steam_id@),
    {
        let known: Option<String> = match self.steam_names.get(steam_id) {
            Some(n) => Some(n.clone()),
            None => None,
        };
        let id = steam_id.to_owned();
        let ghost list = old(self)@.wrong_password;
        let found = self.first_wrong_password(&id);
        let n = self.wrong_password.len();
        let i: usize = match found {
            Some(i) => i,
            None => n,
        };
        let ghost old_vec = self.wrong_password@;
        if i < n {
            let w = self.wrong_password.remove(i);
            let name = match known {
                Some(n) => n,
                None => w.name,
            };
            let bumped_entry = WrongPassword { steam_id: w.steam_id, name, count: w.count + 1 };
            self.wrong_password.insert(i, bumped_entry);
            proof {
                assert(self.wrong_password@ =~= old_vec.update(i as int, bumped_entry));
                assert(self.wrong_password@.map_values(|w: WrongPassword| w@) =~= after_wrong_password(
                    list,
                    old(self)@.steam_names,
                    id@,
                ));
            }
        } else {
            let name = match known {
                Some(n) => n,
                None => String::new(),
            };
            let entry = WrongPassword { steam_id: id, name, count: 1 };
            self.wrong_password.push(entry);
            proof {
                assert(self.wrong_password@.map_values(|w: WrongPassword| w@) =~= after_wrong_password(
                    list,
                    old(self)@.steam_names,
                    steam_id@,
                ));
            }
        }
        assert(final(self)@ =~= after_rejected_join(old(self)@, steam_id@));
    }

    /// Applies one recognised log event at Unix time `now`. Returns whether the
    /// size of the world on disk should be measured again.
    pub fn apply_event(&mut self, event: &LogEvent, now: i64) -> (stat_world: bool)
        requires
            fits(old(self)@, event@),
        ensures
            final(self)@ == step(old(self)@, event@, now),
            stat_world == wants_world_size(event@),
    {
        match event {
            LogEvent::Connections { connections, zdos, packets } => {
                self.connections = parse_u32(connections.as_str());
                self.zdo_count = parse_u64(zdos.as_str());
                match packets {
                    Some((sent, received)) => {
                        let s: u64 = match parse_u64(sent.as_str()) {
                            Some(v) => v,
                            None => 0,
                        };
                        let r: u64 = match parse_u64(received.as_str()) {
                            Some(v) => v,
                            None => 0,
                        };
                        self.packets_sent = self.packets_sent + s;
                        self.packets_received = self.packets_received + r;
                    },
                    None => {},
                }
                assert(self@ =~= step(old(self)@, event@, now));
                false
            },
            LogEvent::GcPause { millis } => {
                self.record_gc_pause_at(millis.as_str(), now);
                false
            },
            LogEvent::SendFailed => {
                self.send_failures = self.send_failures + 1;
                assert(self@ =~= step(old(self)@, event@, now));
                false
            },
            LogEvent::ConnectionState { state } => {
                self.connection_states.bump(state.clone());
                assert(self@ =~= step(old(self)@, event@, now));
                false
            },
            LogEvent::ConnectionResult { result } => {
                self.connection_results.bump(result.clone());
                assert(self@ =~= step(old(self)@, event@, now));
                false
            },
            LogEvent::Handshake => {
                self.handshakes = self.handshakes + 1;
                assert(self@ =~= step(old(self)@, event@, now));
                false
            },
            LogEvent::NetworkVersion { theirs, mine } => {
                let m = parse_u32(mine.as_str());
                let t = parse_u32(theirs.as_str());
                self.network_version = m;
                if t != m {
                    self.version_mismatches = self.version_mismatches + 1;
                }
                assert(self@ =~= step(old(self)@, event@, now));
                false
            },
            LogEvent::AssetUnload { loaded_objects } => {
                self.loaded_objects = parse_u64(loaded_objects.as_str());
                self.asset_unloads = self.asset_unloads + 1;
                assert(self@ =~= step(old(self)@, event@, now));
                false
            },
            LogEvent::ServerId { id } => {
                self.server_id = Some(id.clone());
                assert(self@ =~= step(old(self)@, event@, now));
                false
            },
            LogEvent::LoadChunks { zdos } => {
                let digits = string_of(&without_commas(zdos.as_str()));
                self.zdo_count = parse_u64(digits.as_str());
                assert(self@ =~= step(old(self)@, event@, now));
                true
            },
            LogEvent::Day { day } => {
                self.day = parse_u32(day.as_str());
                assert(self@ =~= step(old(self)@, event@, now));
                false
            },
            LogEvent::WorldSave { millis } => self.record_save_at("save", millis.as_str(), now),
            LogEvent::Backup { millis } => {
                self.record_save_at("backup", millis.as_str(), now);
                false
            },
            LogEvent::ServerConnected => {
                match (self.boot_started, self.load_seconds) {
                    (Some(start), None) => {
                        self.load_seconds = Some((now as i128) - (start as i128));
                    },
                    _ => {},
                }
                assert(self@ =~= step(old(self)@, event@, now));
                false
            },
            LogEvent::RpcTimeout => {
                self.rpc_timeouts = self.rpc_timeouts + 1;
                assert(self@ =~= step(old(self)@, event@, now));
                false
            },
            LogEvent::WrongPassword { steam_id } => {
                self.record_wrong_password(steam_id.as_str());
                false
            },
            LogEvent::PlayerHistory { name, steam_id } => {
                self.steam_names.insert(steam_id.clone(), name.clone());
                assert(self.steam_names.view().map_values(|n: String| n@) =~= old(
                    self,
                ).steam_names.view().map_values(|n: String| n@).insert(steam_id@, name@));
                assert(self@ =~= step(old(self)@, event@, now));
                false
            },
        }
    }

    /// Where the first entry for `steam_id` stands among the rejected joins.
    fn first_wrong_password(&self, steam_id: &String) -> (r: Option<usize>)
        ensures
            match r {
                Some(i) => i < self.wrong_password@.len() && first_with_id(self@.wrong_password, steam_id@)
                    == i,
                None => first_with_id(self@.wrong_password, steam_id@) == -1,
            },
    {
        let ghost list = self@.wrong_password;
        let n = self.wrong_password.len();
        let mut i: usize = 0;
        while i < n
            invariant
                n == self.wrong_password@.len(),
                i <= n,
                list == self.wrong_password@.map_values(|w: WrongPassword| w@),
                forall|j: int| 0 <= j < i ==> #[trigger] list[j].steam_id != steam_id@,
            decreases n - i,
        {
            if self.wrong_password[i].steam_id == *steam_id {
                proof {
                    lemma_first_with_id_found(list, steam_id@, i as int);
                }
                return Some(i);
            }
            i = i + 1;
        }
        proof {
            lemma_first_with_id_absent(list, steam_id@);
        }
        None
    }

    /// Whether `event` at Unix time `now` keeps every counter within its type
    /// (see `fits`).
    pub fn event_fits(&self, event: &LogEvent) -> (ok: bool)
        ensures
            ok == fits(self@, event@),
    {
        match event {
            LogEvent::Connections { packets, .. } => match packets {
                Some((sent, received)) => {
                    let s: u64 = match parse_u64(sent.as_str()) {
                        Some(v) => v,
                        None => 0,
                    };
                    let r: u64 = match parse_u64(received.as_str()) {
                        Some(v) => v,
                        None => 0,
                    };
                    self.packets_sent <= u64::MAX - s && self.packets_received <= u64::MAX - r
                },
                None => true,
            },
            LogEvent::SendFailed => self.send_failures < u64::MAX,
            LogEvent::ConnectionState { state } => match self.connection_states.get(state.as_str()) {
                Some(c) => *c < u64::MAX,
                None => true,
            },
            LogEvent::ConnectionResult { result } => match self.connection_results.get(
                result.as_str(),
            ) {
                Some(c) => *c < u64::MAX,
                None => true,
            },
            LogEvent::Handshake => self.handshakes < u64::MAX,
            LogEvent::NetworkVersion { .. } => self.version_mismatches < u64::MAX,
            LogEvent::AssetUnload { .. } => self.asset_unloads < u64::MAX,
            LogEvent::RpcTimeout => self.rpc_timeouts < u64::MAX,
            LogEvent::WrongPassword { steam_id } => {
                match self.first_wrong_password(steam_id) {
                    Some(i) => self.wrong_password[i].count < u64::MAX,
                    None => true,
                }
            },
            _ => true,
        }
    }

    /// Applies one server log line. A line that reports no event the world
    /// statistics follow changes nothing; so does one whose event would carry
    /// a counter past its type's largest value. Otherwise the event is applied
    /// at the current time.
    pub fn apply(&mut self, line: &str) -> (r: Applied)
        ensures
            applied_line(old(self)@, final(self)@, line@, r),
    {
        match classify_line(line) {
            None => Applied { changed: false, stat_world: false },
            Some(event) => {
                if !self.event_fits(&event) {
                    return Applied { changed: false, stat_world: false };
                }
                let now = unix_now();
                let stat_world = self.apply_event(&event, now);
                Applied { changed: true, stat_world }
            },
        }
    }

    /// Marks a server start at Unix time `now`: records when it launched and
    /// drops the per-boot fields.
    pub fn server_started(&mut self, now: i64)
        ensures
            final(self)@ == (WorldView {
                boot_started: Some(now),
                load_seconds: None,
                connections: None,
                ..old(self)@
            }),
    {
        self.boot_started = Some(now);
        self.load_seconds = None;
        self.connections = None;
    }

    /// Stores the result of an update check made at Unix time `now`.
    pub fn record_update_check(&mut self, current_build: &str, latest_build: &str, now: i64)
        ensures
            final(self)@ == (WorldView {
                update: Some(
                    UpdateCheckView {
                        current_build: current_build@,
                        latest_build: latest_build@,
                        available: current_build@ != latest_build@,
                        checked_at: now,
                    },
                ),
                ..old(self)@
            }),
    {
        let current = current_build.to_owned();
        let latest = latest_build.to_owned();
        let available = !(current == latest);
        self.update = Some(UpdateCheck { current_build: current, latest_build: latest, available, checked_at: now });
    }

}

impl Default for WorldStats {
    /// Statistics with nothing recorded yet.
    fn default() -> (w: Self)
        ensures
            w@ == empty_world(),
    {
        WorldStats::new()
    }
}

/// What applying `line` did, from `before` to `after`, with the result `r`: a
/// line that reports no event changes nothing; a reported event whose counters
/// fit is applied at the time the clock gave, and one whose counters do not
/// fit changes nothing.
pub open spec fn applied_line(before: WorldView, after: WorldView, line: Seq<char>, r: Applied) -> bool {
    match classify(line) {
        None => after == before && !r.changed && !r.stat_world,
        Some(e) => if fits(before, e) {
            &&& r.changed
            &&& r.stat_world == wants_world_size(e)
            &&& exists|now: i64| after == step(before, e, now)
        } else {
            after == before && !r.changed && !r.stat_world
        },
    }
}

/// Updates the world statistics from one server log line: a line that holds
/// none of the tracked phrases is passed over; any other is applied.
pub fn handle_world_events(stats: &mut WorldStats, line: &str) -> (r: Applied)
    ensures
        !is_tracked(line@) ==> final(stats)@ == old(stats)@ && !r.changed && !r.stat_world,
        is_tracked(line@) ==> applied_line(old(stats)@, final(stats)@, line@, r),
{
    if !tracked_line(line) {
        return Applied { changed: false, stat_world: false };
    }
    stats.apply(line)
}

} // verus!
