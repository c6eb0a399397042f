//! The records that the store holds, each with its mathematical value.

use crate::clock::Timestamp;
use crate::net::IpAddress;
use vstd::prelude::*;
use vstd::string::StringExecFns;

verus! {

/// A network adapter of this machine.
#[derive(Clone, Debug)]
pub struct NetworkAdapter {
    pub name: String,
    pub ip: IpAddress,
    pub description: String,
    pub is_available: bool,
}

/// The mathematical value of a `NetworkAdapter`.
pub struct AdapterView {
    pub name: Seq<char>,
    pub ip: IpAddress,
    pub description: Seq<char>,
    pub is_available: bool,
}

impl View for NetworkAdapter {
    type V = AdapterView;

    open spec fn view(&self) -> AdapterView {
        AdapterView {
            name: self.name@,
            ip: self.ip,
            description: self.description@,
            is_available: self.is_available,
        }
    }
}

/// What the user has chosen and wants kept between runs. The window size
/// is held as the bit patterns of its two single-precision numbers.
#[derive(Clone, Debug)]
pub struct AppSettings {
    pub selected_adapter: Option<String>,
    pub window_size: Option<(u32, u32)>,
    pub auto_send_enabled: bool,
    pub send_rate: u32,
}

/// The mathematical value of `AppSettings`.
pub struct SettingsView {
    pub selected_adapter: Option<Seq<char>>,
    pub window_size: Option<(u32, u32)>,
    pub auto_send_enabled: bool,
    pub send_rate: u32,
}

/// The value of an optional text.
pub open spec fn view_opt(text: Option<String>) -> Option<Seq<char>> {
    match text {
        Some(t) => Some(t@),
        None => None,
    }
}

impl View for AppSettings {
    type V = SettingsView;

    open spec fn view(&self) -> SettingsView {
        SettingsView {
            selected_adapter: view_opt(self.selected_adapter),
            window_size: self.window_size,
            auto_send_enabled: self.auto_send_enabled,
            send_rate: self.send_rate,
        }
    }
}

/// Packets per second that a new configuration sends.
pub const DEFAULT_SEND_RATE: u32 = 20;

impl SettingsView {
    /// The settings of a first run: no adapter chosen, no window size, no
    /// automatic sending, twenty packets per second.
    pub open spec fn initial() -> SettingsView {
        SettingsView {
            selected_adapter: None,
            window_size: None,
            auto_send_enabled: false,
            send_rate: DEFAULT_SEND_RATE,
        }
    }
}

impl Default for AppSettings {
    fn default() -> (settings: AppSettings)
        ensures
            settings@ == SettingsView::initial(),
    {
        AppSettings {
            selected_adapter: None,
            window_size: None,
            auto_send_enabled: false,
            send_rate: DEFAULT_SEND_RATE,
        }
    }
}

/// A source that has been heard: its address, the universes it sends, in
/// ascending order and each once, and what its last packet said of it: when
/// it came, the name of the source and its priority, 200 at most.
#[derive(Clone, Debug)]
pub struct SacnDevice {
    pub ip: IpAddress,
    pub universes: Vec<u16>,
    pub last_seen: Timestamp,
    pub source_name: String,
    pub priority: u8,
}

/// The mathematical value of a `SacnDevice`.
pub struct DeviceView {
    pub ip: IpAddress,
    pub universes: Seq<u16>,
    pub last_seen: Timestamp,
    pub source_name: Seq<char>,
    pub priority: u8,
}

impl View for SacnDevice {
    type V = DeviceView;

    open spec fn view(&self) -> DeviceView {
        DeviceView {
            ip: self.ip,
            universes: self.universes@,
            last_seen: self.last_seen,
            source_name: self.source_name@,
            priority: self.priority,
        }
    }
}

/// The channel values of one universe as its last packet gave them.
#[derive(Clone, Copy, Debug)]
pub struct UniverseData {
    pub universe: u16,
    pub channels: [u8; 512],
    pub last_updated: Timestamp,
    pub source_ip: IpAddress,
    pub sequence: u8,
}

/// The mathematical value of a `UniverseData`.
pub struct UniverseView {
    pub universe: u16,
    pub channels: Seq<u8>,
    pub last_updated: Timestamp,
    pub source_ip: IpAddress,
    pub sequence: u8,
}

impl View for UniverseData {
    type V = UniverseView;

    open spec fn view(&self) -> UniverseView {
        UniverseView {
            universe: self.universe,
            channels: self.channels@,
            last_updated: self.last_updated,
            source_ip: self.source_ip,
            sequence: self.sequence,
        }
    }
}

/// One line of the log.
#[derive(Clone, Debug)]
pub struct LogEntry {
    pub timestamp: Timestamp,
    pub level: LogLevel,
    pub message: String,
}

/// The mathematical value of a `LogEntry`.
pub struct LogEntryView {
    pub timestamp: Timestamp,
    pub level: LogLevel,
    pub message: Seq<char>,
}

impl View for LogEntry {
    type V = LogEntryView;

    open spec fn view(&self) -> LogEntryView {
        LogEntryView { timestamp: self.timestamp, level: self.level, message: self.message@ }
    }
}

/// What a log line is about.
#[derive(Clone, Copy, Debug, PartialEq, Eq, Structural)]
pub enum LogLevel {
    Info,
    Warning,
    Error,
    Rx,
    Tx,
}

impl LogLevel {
    /// The label of the level, as it is shown in front of a log line.
    pub open spec fn label(self) -> Seq<char> {
        match self {
            LogLevel::Info => "INFO"@,
            LogLevel::Warning => "WARN"@,
            LogLevel::Error => "ERROR"@,
            LogLevel::Rx => "RX"@,
            LogLevel::Tx => "TX"@,
        }
    }

    /// Writes the label of the level.
    pub fn to_string(&self) -> (text: String)
        ensures
            text@ == self.label(),
    {
        match self {
            LogLevel::Info => String::from_str("INFO"),
            LogLevel::Warning => String::from_str("WARN"),
            LogLevel::Error => String::from_str("ERROR"),
            LogLevel::Rx => String::from_str("RX"),
            LogLevel::Tx => String::from_str("TX"),
        }
    }
}

/// Whether each element of `s` is less than the next.
pub open spec fn strictly_ascending(s: Seq<u16>) -> bool {
    forall|i: int, j: int| 0 <= i < j < s.len() ==> s[i] < s[j]
}

/// `s` with `u` put in at its place, if it is not in `s` already.
pub open spec fn insert_ascending(s: Seq<u16>, u: u16) -> Seq<u16>
    decreases s.len(),
{
    if s.len() == 0 {
        seq![u]
    } else if s.last() < u {
        s.push(u)
    } else if s.last() == u {
        s
    } else {
        insert_ascending(s.drop_last(), u).push(s.last())
    }
}

/// Putting a universe into an ascending list keeps the list ascending and
/// adds that universe to its members, and nothing else.
pub proof fn lemma_insert_ascending(s: Seq<u16>, u: u16)
    requires
        strictly_ascending(s),
    ensures
        strictly_ascending(insert_ascending(s, u)),
        insert_ascending(s, u).to_set() == s.to_set().insert(u),
        insert_ascending(s, u).len() == if s.contains(u) {
            s.len()
        } else {
            s.len() + 1
        },
        forall|x: u16| insert_ascending(s, u).contains(x) <==> (x == u || s.contains(x)),
    decreases s.len(),
{
    let r = insert_ascending(s, u);
    if s.len() == 0 {
        assert(r[0] == u);
        assert forall|x: u16| r.contains(x) <==> (x == u || s.contains(x)) by {
            if r.contains(x) {
                let k = choose|k: int| 0 <= k < r.len() && r[k] == x;
            }
        }
    } else if s.last() < u {
        assert(!s.contains(u)) by {
            if s.contains(u) {
                let k = choose|k: int| 0 <= k < s.len() && s[k] == u;
                assert(s[k] <= s.last());
            }
        }
        assert forall|x: u16| r.contains(x) <==> (x == u || s.contains(x)) by {
            if r.contains(x) {
                let k = choose|k: int| 0 <= k < r.len() && r[k] == x;
                if k < s.len() {
                    assert(s[k] == x);
                }
            }
            if s.contains(x) {
                let k = choose|k: int| 0 <= k < s.len() && s[k] == x;
                assert(r[k] == x);
            }
            if x == u {
                assert(r[s.len() as int] == u);
            }
        }
    } else if s.last() == u {
        assert(s[s.len() - 1] == u);
        assert(s.contains(u));
    } else {
        let t = s.drop_last();
        let rt = insert_ascending(t, u);
        assert(strictly_ascending(t));
        lemma_insert_ascending(t, u);
        assert(!s.contains(u) <==> !t.contains(u)) by {
            if s.contains(u) {
                let k = choose|k: int| 0 <= k < s.len() && s[k] == u;
                assert(t[k] == u);
            }
            if t.contains(u) {
                let k = choose|k: int| 0 <= k < t.len() && t[k] == u;
                assert(s[k] == u);
            }
        }
        assert forall|i: int, j: int| 0 <= i < j < r.len() implies r[i] < r[j] by {
            if j == r.len() - 1 {
                assert(rt.contains(rt[i]));
                if rt[i] != u {
                    assert(t.contains(rt[i]));
                    let k = choose|k: int| 0 <= k < t.len() && t[k] == rt[i];
                    assert(s[k] < s.last());
                }
            }
        }
        assert forall|x: u16| r.contains(x) <==> (x == u || s.contains(x)) by {
            if r.contains(x) {
                let k = choose|k: int| 0 <= k < r.len() && r[k] == x;
                if k < rt.len() {
                    assert(rt[k] == x);
                    assert(rt.contains(x));
                    if x != u {
                        assert(t.contains(x));
                        let m = choose|m: int| 0 <= m < t.len() && t[m] == x;
                        assert(s[m] == x);
                    }
                } else {
                    assert(s[s.len() - 1] == x);
                }
            }
            if s.contains(x) {
                let k = choose|k: int| 0 <= k < s.len() && s[k] == x;
                if k < t.len() {
                    assert(t[k] == x);
                    assert(t.contains(x));
                    assert(rt.contains(x));
                    let m = choose|m: int| 0 <= m < rt.len() && rt[m] == x;
                    assert(r[m] == x);
                } else {
                    assert(r[r.len() - 1] == x);
                }
            }
            if x == u {
                assert(rt.contains(u));
                let m = choose|m: int| 0 <= m < rt.len() && rt[m] == u;
                assert(r[m] == u);
            }
        }
    }
    assert(r.to_set() =~= s.to_set().insert(u));
}

} // verus!
