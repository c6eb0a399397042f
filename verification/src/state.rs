//! The store: the table of sources, the table of universes, the log and
//! what the user has chosen. Every change is one call, and every call says
//! how the value of the store after it follows from the value before.

use crate::clock::{current_time, Timestamp};
use crate::model::{
    insert_ascending, strictly_ascending, view_opt, AdapterView,
    AppSettings, DeviceView, LogEntry, LogEntryView, LogLevel, NetworkAdapter, SacnDevice,
    SettingsView, UniverseData, UniverseView, DEFAULT_SEND_RATE,
};
use crate::net::{valid_priority, valid_universe, IpAddress};
use crate::model::lemma_insert_ascending;
use crate::store_laws::{lemma_device_index, lemma_update_device};
use std::collections::HashMap;
use vstd::prelude::*;
use vstd::std_specs::iter::IteratorSpec;
use vstd::string::StringExecFns;

verus! {

broadcast use vstd::std_specs::hash::group_hash_axioms;

/// Most lines that the log keeps.
pub const MAX_LOG_ENTRIES: usize = 1000;

/// The store.
#[derive(Debug)]
pub struct AppState {
    devices: Vec<SacnDevice>,
    universes: HashMap<u16, UniverseData>,
    logs: Vec<LogEntry>,
    selected_universe: Option<u16>,
    auto_send_enabled: bool,
    send_rate: u32,
    network_adapters: Vec<NetworkAdapter>,
    selected_adapter: Option<String>,
    settings: AppSettings,
}

/// The mathematical value of the store. The sources stand in the order in
/// which they were first heard, the log lines oldest first.
pub struct AppStateView {
    pub devices: Seq<DeviceView>,
    pub universes: Map<u16, UniverseView>,
    pub logs: Seq<LogEntryView>,
    pub selected_universe: Option<u16>,
    pub auto_send_enabled: bool,
    pub send_rate: u32,
    pub network_adapters: Seq<AdapterView>,
    pub selected_adapter: Option<Seq<char>>,
    pub settings: SettingsView,
}

/// The last `n` elements of `s`, or all of `s` where it has no more than `n`.
pub open spec fn keep_last<T>(s: Seq<T>, n: nat) -> Seq<T> {
    if s.len() > n {
        s.subrange(s.len() - n, s.len() as int)
    } else {
        s
    }
}

/// Whether a source with address `ip` stands at `index` of `devices`.
pub open spec fn device_at(devices: Seq<DeviceView>, ip: IpAddress, index: int) -> bool {
    0 <= index < devices.len() && devices[index].ip == ip
}

/// Where the source with address `ip` stands in `devices`, if it does.
pub open spec fn device_index(devices: Seq<DeviceView>, ip: IpAddress) -> Option<int> {
    if exists|i: int| device_at(devices, ip, i) {
        Some(choose|i: int| device_at(devices, ip, i))
    } else {
        None
    }
}

/// Whether an adapter named `name` stands at `index` of `adapters`, and
/// none of that name before it.
pub open spec fn first_adapter_at(adapters: Seq<AdapterView>, name: Seq<char>, index: int) -> bool {
    &&& 0 <= index < adapters.len()
    &&& adapters[index].name == name
    &&& forall|j: int| 0 <= j < index ==> (#[trigger] adapters[j]).name != name
}

impl AppStateView {
    /// The store of a fresh start: empty tables, an empty log, nothing
    /// chosen, twenty packets per second.
    pub open spec fn initial() -> AppStateView {
        AppStateView {
            devices: Seq::empty(),
            universes: Map::empty(),
            logs: Seq::empty(),
            selected_universe: None,
            auto_send_enabled: false,
            send_rate: DEFAULT_SEND_RATE,
            network_adapters: Seq::empty(),
            selected_adapter: None,
            settings: SettingsView::initial(),
        }
    }

    /// What always holds of a store: no source stands twice; the priority
    /// of each source is a valid one; the universes of each source are
    /// valid, ascending and each there once; each
    /// universe's snapshot stands under its own, valid number and has 512
    /// channels; the log has no more than a thousand lines.
    pub open spec fn wf(self) -> bool {
        &&& self.logs.len() <= MAX_LOG_ENTRIES
        &&& forall|i: int, j: int|
            0 <= i < j < self.devices.len() ==> (#[trigger] self.devices[i]).ip != (
            #[trigger] self.devices[j]).ip
        &&& forall|i: int|
            0 <= i < self.devices.len() ==> strictly_ascending(
                (#[trigger] self.devices[i]).universes,
            )
        &&& forall|i: int|
            0 <= i < self.devices.len() ==> valid_priority((#[trigger] self.devices[i]).priority)
        &&& forall|i: int, k: int|
            0 <= i < self.devices.len() && 0 <= k < self.devices[i].universes.len()
                ==> valid_universe(#[trigger] self.devices[i].universes[k])
        &&& self.universes.dom().finite()
        &&& forall|u: u16| #[trigger]
            self.universes.contains_key(u) ==> valid_universe(u) && self.universes[u].universe
                == u && self.universes[u].channels.len() == 512
    }

    /// The source with address `ip`, if it has been heard.
    pub open spec fn device(self, ip: IpAddress) -> Option<DeviceView> {
        match device_index(self.devices, ip) {
            Some(i) => Some(self.devices[i]),
            None => None,
        }
    }

    /// The store after one more log line: the line is appended, and where
    /// that makes more than a thousand, the oldest line leaves.
    pub open spec fn add_log(self, entry: LogEntryView) -> AppStateView {
        AppStateView { logs: keep_last(self.logs.push(entry), MAX_LOG_ENTRIES as nat), ..self }
    }

    /// The store after a packet of the source at `ip` for `universe`: a
    /// source that was not there is appended with that one universe; one
    /// that was there keeps its place and gets the universe put in at its
    /// place among its universes. Either way it has the new name, priority
    /// and time.
    pub open spec fn update_device(
        self,
        ip: IpAddress,
        universe: u16,
        source_name: Seq<char>,
        priority: u8,
        now: Timestamp,
    ) -> AppStateView {
        match device_index(self.devices, ip) {
            Some(i) => AppStateView {
                devices: self.devices.update(
                    i,
                    DeviceView {
                        ip,
                        universes: insert_ascending(self.devices[i].universes, universe),
                        last_seen: now,
                        source_name,
                        priority,
                    },
                ),
                ..self
            },
            None => AppStateView {
                devices: self.devices.push(
                    DeviceView {
                        ip,
                        universes: seq![universe],
                        last_seen: now,
                        source_name,
                        priority,
                    },
                ),
                ..self
            },
        }
    }

    /// The store after a packet for the universe of `data`: the snapshot
    /// of that universe is `data`, whatever it was before.
    pub open spec fn update_universe(self, data: UniverseView) -> AppStateView {
        AppStateView { universes: self.universes.insert(data.universe, data), ..self }
    }

    /// The address to bind to: that of the first adapter with the chosen
    /// name, if a name is chosen and such an adapter is there; else that of
    /// the first adapter, if there is any.
    pub open spec fn selected_adapter_ip(self) -> Option<IpAddress> {
        if self.selected_adapter is Some && exists|i: int|
            first_adapter_at(self.network_adapters, self.selected_adapter->0, i) {
            let i = choose|i: int|
                first_adapter_at(self.network_adapters, self.selected_adapter->0, i);
            Some(self.network_adapters[i].ip)
        } else if self.network_adapters.len() > 0 {
            Some(self.network_adapters[0].ip)
        } else {
            None
        }
    }
}

/// The values of the sources in `devices`.
pub open spec fn device_views(devices: Seq<SacnDevice>) -> Seq<DeviceView> {
    Seq::new(devices.len(), |i: int| devices[i]@)
}

/// The values of the snapshots in `universes`.
pub open spec fn universe_views(universes: Map<u16, UniverseData>) -> Map<u16, UniverseView> {
    universes.map_values(|d: UniverseData| d@)
}

/// The values of the log lines in `logs`.
pub open spec fn log_views(logs: Seq<LogEntry>) -> Seq<LogEntryView> {
    Seq::new(logs.len(), |i: int| logs[i]@)
}

/// The values of the adapters in `adapters`.
pub open spec fn adapter_views(adapters: Seq<NetworkAdapter>) -> Seq<AdapterView> {
    Seq::new(adapters.len(), |i: int| adapters[i]@)
}

impl View for AppState {
    type V = AppStateView;

    closed spec fn view(&self) -> AppStateView {
        AppStateView {
            devices: device_views(self.devices@),
            universes: universe_views(self.universes@),
            logs: log_views(self.logs@),
            selected_universe: self.selected_universe,
            auto_send_enabled: self.auto_send_enabled,
            send_rate: self.send_rate,
            network_adapters: adapter_views(self.network_adapters@),
            selected_adapter: view_opt(self.selected_adapter),
            settings: self.settings@,
        }
    }
}

impl AppState {
    /// Whether the store is as every call leaves it.
    pub open spec fn wf(&self) -> bool {
        self@.wf()
    }

    /// A store with empty tables, an empty log and the settings of a first
    /// run.
    pub fn new() -> (state: AppState)
        ensures
            state.wf(),
            state@ == AppStateView::initial(),
    {
        let state = AppState {
            devices: Vec::new(),
            universes: HashMap::new(),
            logs: Vec::new(),
            selected_universe: None,
            auto_send_enabled: false,
            send_rate: DEFAULT_SEND_RATE,
            network_adapters: Vec::new(),
            selected_adapter: None,
            settings: AppSettings::default(),
        };
        assert(state@.devices =~= Seq::empty());
        assert(state@.logs =~= Seq::empty());
        assert(state@.universes =~= Map::empty());
        assert(state@.network_adapters =~= Seq::empty());
        state
    }

    /// Appends a log line written at `now`; the oldest line leaves where
    /// the log would hold more than a thousand.
    pub fn add_log_at(&mut self, level: LogLevel, message: String, now: Timestamp)
        requires
            old(self).wf(),
        ensures
            final(self).wf(),
            final(self)@ == old(self)@.add_log(
                LogEntryView { timestamp: now, level, message: message@ },
            ),
    {
        let ghost entry = LogEntryView { timestamp: now, level, message: message@ };
        self.logs.push(LogEntry { timestamp: now, level, message });
        assert(log_views(self.logs@) =~= old(self)@.logs.push(entry));
        if self.logs.len() > MAX_LOG_ENTRIES {
            self.logs.remove(0);
        }
        assert(log_views(self.logs@) =~= keep_last(
            old(self)@.logs.push(entry),
            MAX_LOG_ENTRIES as nat,
        ));
    }

    /// Appends a log line written now; the oldest line leaves where the log
    /// would hold more than a thousand.
    pub fn add_log(&mut self, level: LogLevel, message: String)
        requires
            old(self).wf(),
        ensures
            final(self).wf(),
            exists|now: Timestamp|
                final(self)@ == #[trigger] old(self)@.add_log(
                    LogEntryView { timestamp: now, level, message: message@ },
                ),
    {
        let now = current_time();
        self.add_log_at(level, message, now);
    }

    /// Where the source with address `ip` stands in the table.
    fn find_device(&self, ip: IpAddress) -> (found: Option<usize>)
        requires
            self.wf(),
        ensures
            match found {
                Some(i) => device_index(self@.devices, ip) == Some(i as int) && i
                    < self.devices@.len(),
                None => device_index(self@.devices, ip) is None,
            },
    {
        let mut i: usize = 0;
        while i < self.devices.len()
            invariant
                i <= self.devices@.len(),
                self.wf(),
                forall|k: int| 0 <= k < i ==> !device_at(self@.devices, ip, k),
            decreases self.devices@.len() - i,
        {
            if self.devices[i].ip == ip {
                proof {
                    lemma_device_index(self@, ip, i as int);
                }
                return Some(i);
            }
            i = i + 1;
        }
        None
    }

    /// Records a packet of the source at `ip` for `universe`, heard at
    /// `now`: the source is added if it is new, its name, priority and time
    /// are replaced, and `universe` joins its universes if it is not among
    /// them, at its place in ascending order.
    pub fn update_device_at(
        &mut self,
        ip: IpAddress,
        universe: u16,
        source_name: String,
        priority: u8,
        now: Timestamp,
    )
        requires
            old(self).wf(),
            valid_universe(universe),
            valid_priority(priority),
        ensures
            final(self).wf(),
            final(self)@ == old(self)@.update_device(ip, universe, source_name@, priority, now),
    {
        let ghost before = self@;
        match self.find_device(ip) {
            Some(i) => {
                let mut device = self.devices.remove(i);
                assert(device@ == before.devices[i as int]);
                insert_universe(&mut device.universes, universe);
                device.last_seen = now;
                device.source_name = source_name;
                device.priority = priority;
                let ghost updated = device@;
                self.devices.insert(i, device);
                proof {
                    assert(device_views(self.devices@) =~= before.devices.update(
                        i as int,
                        updated,
                    ));
                    lemma_update_device(before, ip, universe, source_name@, priority, now);
                }
            },
            None => {
                let mut universes: Vec<u16> = Vec::new();
                universes.push(universe);
                let device = SacnDevice { ip, universes, last_seen: now, source_name, priority };
                let ghost added = device@;
                self.devices.push(device);
                proof {
                    assert(added.universes =~= seq![universe]);
                    assert(device_views(self.devices@) =~= before.devices.push(added));
                    lemma_update_device(before, ip, universe, source_name@, priority, now);
                }
            },
        }
    }

    /// Records a packet of the source at `ip` for `universe`, heard now.
    pub fn update_device(&mut self, ip: IpAddress, universe: u16, source_name: String, priority: u8)
        requires
            old(self).wf(),
            valid_universe(universe),
            valid_priority(priority),
        ensures
            final(self).wf(),
            exists|now: Timestamp|
                final(self)@ == #[trigger] old(self)@.update_device(
                    ip,
                    universe,
                    source_name@,
                    priority,
                    now,
                ),
    {
        let now = current_time();
        self.update_device_at(ip, universe, source_name, priority, now);
    }

    /// Replaces the snapshot of `universe` by the given channels, source
    /// and sequence number, received at `now`. Nothing of an earlier
    /// snapshot is kept.
    pub fn update_universe_at(
        &mut self,
        universe: u16,
        channels: [u8; 512],
        source_ip: IpAddress,
        sequence: u8,
        now: Timestamp,
    )
        requires
            old(self).wf(),
            valid_universe(universe),
        ensures
            final(self).wf(),
            final(self)@ == old(self)@.update_universe(
                UniverseView {
                    universe,
                    channels: channels@,
                    last_updated: now,
                    source_ip,
                    sequence,
                },
            ),
    {
        let data = UniverseData { universe, channels, last_updated: now, source_ip, sequence };
        self.universes.insert(universe, data);
        assert(universe_views(self.universes@) =~= universe_views(old(self).universes@).insert(
            universe,
            data@,
        ));
    }

    /// Replaces the snapshot of `universe` by the given channels, source
    /// and sequence number, received now.
    pub fn update_universe(
        &mut self,
        universe: u16,
        channels: [u8; 512],
        source_ip: IpAddress,
        sequence: u8,
    )
        requires
            old(self).wf(),
            valid_universe(universe),
        ensures
            final(self).wf(),
            exists|now: Timestamp|
                final(self)@ == #[trigger] old(self)@.update_universe(
                    UniverseView {
                        universe,
                        channels: channels@,
                        last_updated: now,
                        source_ip,
                        sequence,
                    },
                ),
    {
        let now = current_time();
        self.update_universe_at(universe, channels, source_ip, sequence, now);
    }

    /// The address to bind to: that of the chosen adapter if one is chosen
    /// and is among the adapters, else that of the first adapter, else
    /// none.
    pub fn get_selected_adapter_ip(&self) -> (ip: Option<IpAddress>)
        ensures
            ip == self@.selected_adapter_ip(),
    {
        let ghost adapters = self@.network_adapters;
        match &self.selected_adapter {
            Some(name) => {
                let mut i: usize = 0;
                while i < self.network_adapters.len()
                    invariant
                        i <= self.network_adapters@.len(),
                        adapters == adapter_views(self.network_adapters@),
                        self@.selected_adapter == Some(name@),
                        forall|k: int| 0 <= k < i ==> (#[trigger] adapters[k]).name != name@,
                    decreases self.network_adapters@.len() - i,
                {
                    if self.network_adapters[i].name == *name {
                        proof {
                            assert(self@.selected_adapter == Some(name@));
                            assert(adapters[i as int].ip == self.network_adapters@[i as int].ip);
                            assert(first_adapter_at(adapters, name@, i as int));
                            let c = choose|c: int| first_adapter_at(adapters, name@, c);
                            assert(first_adapter_at(adapters, name@, c));
                            if c < i {
                                assert(adapters[c].name != name@);
                            } else if c > i {
                                assert(adapters[i as int].name != name@);
                            }
                        }
                        return Some(self.network_adapters[i].ip);
                    }
                    i = i + 1;
                }
                assert forall|c: int| !first_adapter_at(adapters, name@, c) by {
                    if 0 <= c < adapters.len() {
                        assert(adapters[c].name != name@);
                    }
                }
            },
            None => {},
        }
        if self.network_adapters.len() > 0 {
            Some(self.network_adapters[0].ip)
        } else {
            None
        }
    }

    /// Chooses the adapter named `adapter_name`, or none, for this run and
    /// in the settings that are kept.
    pub fn update_adapter_selection(&mut self, adapter_name: Option<String>)
        ensures
            final(self)@ == (AppStateView {
                selected_adapter: view_opt(adapter_name),
                settings: SettingsView {
                    selected_adapter: view_opt(adapter_name),
                    ..old(self)@.settings
                },
                ..old(self)@
            }),
            old(self).wf() ==> final(self).wf(),
    {
        self.selected_adapter = clone_text(&adapter_name);
        self.settings.selected_adapter = adapter_name;
    }

    /// Takes over settings that were read back: they become the settings
    /// that are kept, their adapter, automatic sending and rate become
    /// those of this run, and the log says at `now` that they were loaded.
    pub fn load_settings(&mut self, settings: AppSettings, now: Timestamp)
        requires
            old(self).wf(),
        ensures
            final(self).wf(),
            final(self)@ == (AppStateView {
                settings: settings@,
                selected_adapter: settings@.selected_adapter,
                auto_send_enabled: settings@.auto_send_enabled,
                send_rate: settings@.send_rate,
                ..old(self)@
            }).add_log(
                LogEntryView {
                    timestamp: now,
                    level: LogLevel::Info,
                    message: "Settings loaded successfully"@,
                },
            ),
    {
        self.selected_adapter = clone_text(&settings.selected_adapter);
        self.auto_send_enabled = settings.auto_send_enabled;
        self.send_rate = settings.send_rate;
        self.settings = settings;
        self.add_log_at(LogLevel::Info, String::from_str("Settings loaded successfully"), now);
    }

    /// Notes at `now` how writing the settings went: a failure is logged as
    /// a warning with its reason, a success leaves no trace.
    pub fn record_settings_save(&mut self, outcome: Result<(), String>, now: Timestamp)
        requires
            old(self).wf(),
        ensures
            final(self).wf(),
            final(self)@ == match outcome {
                Ok(_) => old(self)@,
                Err(reason) => old(self)@.add_log(
                    LogEntryView {
                        timestamp: now,
                        level: LogLevel::Warning,
                        message: "Failed to save settings: "@ + reason@,
                    },
                ),
            },
    {
        match outcome {
            Ok(_) => {},
            Err(reason) => {
                let mut message = String::from_str("Failed to save settings: ");
                message.append(reason.as_str());
                self.add_log_at(LogLevel::Warning, message, now);
            },
        }
    }

    /// Replaces the list of adapters.
    pub fn set_network_adapters(&mut self, adapters: Vec<NetworkAdapter>)
        ensures
            final(self)@ == (AppStateView {
                network_adapters: adapter_views(adapters@),
                ..old(self)@
            }),
            old(self).wf() ==> final(self).wf(),
    {
        self.network_adapters = adapters;
    }

    /// Chooses the universe that is shown, or none.
    pub fn set_selected_universe(&mut self, universe: Option<u16>)
        ensures
            final(self)@ == (AppStateView { selected_universe: universe, ..old(self)@ }),
            old(self).wf() ==> final(self).wf(),
    {
        self.selected_universe = universe;
    }

    /// Switches automatic sending on or off, for this run and in the
    /// settings that are kept.
    pub fn set_auto_send_enabled(&mut self, enabled: bool)
        ensures
            final(self)@ == (AppStateView {
                auto_send_enabled: enabled,
                settings: SettingsView { auto_send_enabled: enabled, ..old(self)@.settings },
                ..old(self)@
            }),
            old(self).wf() ==> final(self).wf(),
    {
        self.auto_send_enabled = enabled;
        self.settings.auto_send_enabled = enabled;
    }

    /// Sets the packets per second of automatic sending, for this run and
    /// in the settings that are kept.
    pub fn set_send_rate(&mut self, rate: u32)
        ensures
            final(self)@ == (AppStateView {
                send_rate: rate,
                settings: SettingsView { send_rate: rate, ..old(self)@.settings },
                ..old(self)@
            }),
            old(self).wf() ==> final(self).wf(),
    {
        self.send_rate = rate;
        self.settings.send_rate = rate;
    }

    /// Keeps the size of the window in the settings.
    pub fn set_window_size(&mut self, size: Option<(u32, u32)>)
        ensures
            final(self)@ == (AppStateView {
                settings: SettingsView { window_size: size, ..old(self)@.settings },
                ..old(self)@
            }),
            old(self).wf() ==> final(self).wf(),
    {
        self.settings.window_size = size;
    }

    /// The sources, in the order in which they were first heard.
    pub fn devices(&self) -> (devices: &Vec<SacnDevice>)
        ensures
            device_views(devices@) == self@.devices,
    {
        &self.devices
    }

    /// The source with address `ip`, if it has been heard.
    pub fn device(&self, ip: IpAddress) -> (device: Option<&SacnDevice>)
        requires
            self.wf(),
        ensures
            match device {
                Some(d) => self@.device(ip) == Some(d@),
                None => self@.device(ip) is None,
            },
    {
        match self.find_device(ip) {
            Some(i) => Some(&self.devices[i]),
            None => None,
        }
    }

    /// The snapshots of the universes, by universe number.
    pub fn universes(&self) -> (universes: &HashMap<u16, UniverseData>)
        ensures
            universe_views(universes@) == self@.universes,
    {
        &self.universes
    }

    /// The snapshot of `universe`, if a packet for it has come.
    pub fn universe(&self, universe: u16) -> (data: Option<&UniverseData>)
        ensures
            match data {
                Some(d) => self@.universes.contains_key(universe) && self@.universes[universe]
                    == d@,
                None => !self@.universes.contains_key(universe),
            },
    {
        self.universes.get(&universe)
    }

    /// The universes that have a snapshot, in ascending order.
    pub fn universe_list(&self) -> (list: Vec<u16>)
        ensures
            strictly_ascending(list@),
            forall|u: u16| list@.contains(u) <==> self@.universes.contains_key(u),
    {
        let mut list: Vec<u16> = Vec::new();
        let ghost keys = self.universes.keys().remaining().unref();
        for key in it: self.universes.keys()
            invariant
                it.seq().unref() == keys,
                keys.to_set() == self.universes@.dom(),
                strictly_ascending(list@),
                forall|u: u16|
                    list@.contains(u) <==> exists|j: int| 0 <= j < it.index() && keys[j] == u,
        {
            let ghost before = list@;
            let ghost n = it.index();
            proof {
                lemma_insert_ascending(before, *key);
                assert(it.seq().unref()[n] == *key);
            }
            insert_universe(&mut list, *key);
            proof {
                assert forall|u: u16|
                    list@.contains(u) <==> exists|j: int|
                        0 <= j < n + 1 && keys[j] == u by {
                    if list@.contains(u) {
                        if u == *key {
                            assert(keys[n] == u);
                        } else {
                            assert(before.contains(u));
                            let j = choose|j: int| 0 <= j < n && keys[j] == u;
                            assert(0 <= j < n + 1 && keys[j] == u);
                        }
                    }
                    if exists|j: int| 0 <= j < n + 1 && keys[j] == u {
                        let j = choose|j: int| 0 <= j < n + 1 && keys[j] == u;
                        if j < n {
                            assert(before.contains(u));
                        }
                    }
                }
            }
        }
        proof {
            assert forall|u: u16| list@.contains(u) <==> self@.universes.contains_key(u) by {
                if list@.contains(u) {
                    let j = choose|j: int| 0 <= j < keys.len() && keys[j] == u;
                    assert(keys.to_set().contains(u));
                }
                if self@.universes.contains_key(u) {
                    assert(self.universes@.dom().contains(u));
                    assert(keys.to_set().contains(u));
                    assert(keys.contains(u));
                }
            }
        }
        list
    }

    /// The log, oldest line first.
    pub fn logs(&self) -> (logs: &Vec<LogEntry>)
        ensures
            log_views(logs@) == self@.logs,
    {
        &self.logs
    }

    /// The universe that is shown, if one is chosen.
    pub fn selected_universe(&self) -> (universe: Option<u16>)
        ensures
            universe == self@.selected_universe,
    {
        self.selected_universe
    }

    /// Whether packets are sent automatically.
    pub fn auto_send_enabled(&self) -> (enabled: bool)
        ensures
            enabled == self@.auto_send_enabled,
    {
        self.auto_send_enabled
    }

    /// Packets per second of automatic sending.
    pub fn send_rate(&self) -> (rate: u32)
        ensures
            rate == self@.send_rate,
    {
        self.send_rate
    }

    /// The adapters that the last scan found.
    pub fn network_adapters(&self) -> (adapters: &Vec<NetworkAdapter>)
        ensures
            adapter_views(adapters@) == self@.network_adapters,
    {
        &self.network_adapters
    }

    /// The name of the chosen adapter, if one is chosen.
    pub fn selected_adapter(&self) -> (name: &Option<String>)
        ensures
            view_opt(*name) == self@.selected_adapter,
    {
        &self.selected_adapter
    }

    /// The settings that are kept between runs.
    pub fn settings(&self) -> (settings: &AppSettings)
        ensures
            settings@ == self@.settings,
    {
        &self.settings
    }
}

/// A copy of an optional text.
fn clone_text(text: &Option<String>) -> (copy: Option<String>)
    ensures
        view_opt(copy) == view_opt(*text),
{
    match text {
        Some(t) => Some(t.clone()),
        None => None,
    }
}

/// Where `u` stands or belongs in the ascending list `s`: the number of
/// elements below it.
proof fn lemma_insert_position(s: Seq<u16>, u: u16, i: int)
    requires
        strictly_ascending(s),
        0 <= i <= s.len(),
        forall|k: int| 0 <= k < i ==> s[k] < u,
        i < s.len() ==> s[i] >= u,
    ensures
        insert_ascending(s, u) == if i < s.len() && s[i] == u {
            s
        } else {
            s.insert(i, u)
        },
    decreases s.len(),
{
    if s.len() == 0 {
        assert(s.insert(0, u) =~= seq![u]);
    } else if s.last() < u {
        assert(i == s.len()) by {
            if i < s.len() {
                assert(s[i] <= s.last());
            }
        }
        assert(s.insert(i, u) =~= s.push(u));
    } else if s.last() == u {
        assert(i == s.len() - 1) by {
            if i < s.len() - 1 {
                assert(s[i] < s[s.len() - 1]);
            }
        }
    } else {
        let t = s.drop_last();
        assert(i < s.len());
        lemma_insert_position(t, u, i);
        if i < t.len() && t[i] == u {
            assert(t.push(s.last()) =~= s);
        } else {
            assert(s[i] != u) by {
                if i == s.len() - 1 {
                } else {
                    assert(t[i] == s[i]);
                }
            }
            assert(t.insert(i, u).push(s.last()) =~= s.insert(i, u));
        }
    }
}

/// Puts `universe` into the ascending list at its place, if it is not
/// there already.
fn insert_universe(list: &mut Vec<u16>, universe: u16)
    requires
        strictly_ascending(old(list)@),
    ensures
        final(list)@ == insert_ascending(old(list)@, universe),
{
    let mut i: usize = 0;
    while i < list.len() && list[i] < universe
        invariant
            i <= list@.len(),
            list@ == old(list)@,
            forall|k: int| 0 <= k < i ==> list@[k] < universe,
        decreases list@.len() - i,
    {
        i = i + 1;
    }
    proof {
        lemma_insert_position(list@, universe, i as int);
    }
    if i < list.len() && list[i] == universe {
        return ;
    }
    list.insert(i, universe);
}

} // verus!
