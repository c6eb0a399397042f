use sacn_viewer::adapters::{adapters_from, InterfaceInfo};
use sacn_viewer::clock::Timestamp;
use sacn_viewer::model::{AppSettings, LogLevel, NetworkAdapter};
use sacn_viewer::net::IpAddress;
use sacn_viewer::state::AppState;

fn at(secs: i64) -> Timestamp {
    Timestamp { secs, nanos: 0 }
}

fn adapter(name: &str, ip: IpAddress) -> NetworkAdapter {
    NetworkAdapter {
        name: name.to_string(),
        ip,
        description: format!("{} adapter", name),
        is_available: true,
    }
}

#[test]
fn new_store_is_empty() {
    let state = AppState::new();
    assert!(state.devices().is_empty());
    assert!(state.universes().is_empty());
    assert!(state.logs().is_empty());
    assert_eq!(state.selected_universe(), None);
    assert!(!state.auto_send_enabled());
    assert_eq!(state.send_rate(), 20);
    assert!(state.network_adapters().is_empty());
    assert_eq!(*state.selected_adapter(), None);
    assert_eq!(state.settings().selected_adapter, None);
    assert_eq!(state.settings().window_size, None);
    assert!(!state.settings().auto_send_enabled);
    assert_eq!(state.settings().send_rate, 20);
}

#[test]
fn default_settings() {
    let settings = AppSettings::default();
    assert_eq!(settings.selected_adapter, None);
    assert_eq!(settings.window_size, None);
    assert!(!settings.auto_send_enabled);
    assert_eq!(settings.send_rate, 20);
}

#[test]
fn add_log_appends_in_order() {
    let mut state = AppState::new();
    state.add_log_at(LogLevel::Info, "first".to_string(), at(1));
    state.add_log_at(LogLevel::Error, "second".to_string(), at(2));
    let logs = state.logs();
    assert_eq!(logs.len(), 2);
    assert_eq!(logs[0].message, "first");
    assert_eq!(logs[0].level, LogLevel::Info);
    assert_eq!(logs[0].timestamp, at(1));
    assert_eq!(logs[1].message, "second");
    assert_eq!(logs[1].level, LogLevel::Error);
    assert_eq!(logs[1].timestamp, at(2));
}

#[test]
fn add_log_keeps_a_thousand_lines() {
    let mut state = AppState::new();
    for i in 0..1000 {
        state.add_log_at(LogLevel::Info, i.to_string(), at(i));
    }
    assert_eq!(state.logs().len(), 1000);
    assert_eq!(state.logs()[0].message, "0");
    assert_eq!(state.logs()[999].message, "999");
}

#[test]
fn add_log_1001_times_drops_the_oldest() {
    let mut state = AppState::new();
    for i in 0..1001 {
        state.add_log_at(LogLevel::Info, i.to_string(), at(i));
    }
    let logs = state.logs();
    assert_eq!(logs.len(), 1000);
    for (k, entry) in logs.iter().enumerate() {
        assert_eq!(entry.message, (k + 1).to_string());
        assert_eq!(entry.timestamp, at(k as i64 + 1));
    }
}

#[test]
fn add_log_many_times_keeps_the_newest_thousand() {
    let mut state = AppState::new();
    for i in 0..2500 {
        state.add_log_at(LogLevel::Rx, i.to_string(), at(i));
    }
    let logs = state.logs();
    assert_eq!(logs.len(), 1000);
    assert_eq!(logs[0].message, "1500");
    assert_eq!(logs[999].message, "2499");
}

#[test]
fn add_log_with_the_clock_keeps_the_newest_thousand() {
    let mut state = AppState::new();
    for i in 0..1001 {
        state.add_log(LogLevel::Info, i.to_string());
    }
    let logs = state.logs();
    assert_eq!(logs.len(), 1000);
    assert_eq!(logs[0].message, "1");
    assert_eq!(logs[999].message, "1000");
}

#[test]
fn add_log_stamps_the_line_with_the_clock() {
    let mut state = AppState::new();
    state.add_log(LogLevel::Warning, "now".to_string());
    let entry = &state.logs()[0];
    assert_eq!(entry.message, "now");
    assert_eq!(entry.level, LogLevel::Warning);
    // later than the first of January 2020
    assert!(entry.timestamp.secs > 1_577_836_800);
    assert!(entry.timestamp.nanos < 2_000_000_000);
}

#[test]
fn update_device_adds_a_new_source() {
    let mut state = AppState::new();
    let ip = IpAddress::V4(10, 0, 0, 7);
    state.update_device_at(ip, 5, "Desk".to_string(), 100, at(9));
    assert_eq!(state.devices().len(), 1);
    let device = state.device(ip).unwrap();
    assert_eq!(device.ip, ip);
    assert_eq!(device.universes, vec![5]);
    assert_eq!(device.source_name, "Desk");
    assert_eq!(device.priority, 100);
    assert_eq!(device.last_seen, at(9));
    assert!(state.device(IpAddress::V4(10, 0, 0, 8)).is_none());
}

#[test]
fn update_device_twice_keeps_the_universe_once() {
    let mut state = AppState::new();
    let ip = IpAddress::V4(10, 0, 0, 7);
    state.update_device_at(ip, 5, "Desk".to_string(), 100, at(1));
    state.update_device_at(ip, 5, "Desk".to_string(), 100, at(2));
    assert_eq!(state.devices().len(), 1);
    let device = state.device(ip).unwrap();
    assert_eq!(device.universes, vec![5]);
    assert_eq!(device.last_seen, at(2));
}

#[test]
fn update_device_keeps_universes_ascending() {
    let mut state = AppState::new();
    let ip = IpAddress::V4(10, 0, 0, 7);
    for u in [5u16, 2, 9, 2, 63999, 1, 5, 7] {
        state.update_device_at(ip, u, "Desk".to_string(), 100, at(u as i64));
    }
    assert_eq!(state.device(ip).unwrap().universes, vec![1, 2, 5, 7, 9, 63999]);
}

#[test]
fn update_device_refreshes_name_priority_and_time() {
    let mut state = AppState::new();
    let ip = IpAddress::V4(10, 0, 0, 7);
    state.update_device_at(ip, 5, "Desk".to_string(), 100, at(1));
    state.update_device_at(ip, 6, "Backup".to_string(), 50, at(4));
    let device = state.device(ip).unwrap();
    assert_eq!(device.source_name, "Backup");
    assert_eq!(device.priority, 50);
    assert_eq!(device.last_seen, at(4));
    assert_eq!(device.universes, vec![5, 6]);
}

#[test]
fn update_device_keeps_sources_apart_and_in_order() {
    let mut state = AppState::new();
    let a = IpAddress::V4(10, 0, 0, 1);
    let b = IpAddress::V4(10, 0, 0, 2);
    let c = IpAddress::V6(1);
    state.update_device_at(a, 1, "a".to_string(), 1, at(1));
    state.update_device_at(b, 2, "b".to_string(), 2, at(2));
    state.update_device_at(c, 3, "c".to_string(), 3, at(3));
    state.update_device_at(a, 4, "a2".to_string(), 4, at(4));
    let devices = state.devices();
    assert_eq!(devices.len(), 3);
    assert_eq!(devices[0].ip, a);
    assert_eq!(devices[0].universes, vec![1, 4]);
    assert_eq!(devices[0].source_name, "a2");
    assert_eq!(devices[1].ip, b);
    assert_eq!(devices[1].universes, vec![2]);
    assert_eq!(devices[1].source_name, "b");
    assert_eq!(devices[2].ip, c);
    assert_eq!(devices[2].universes, vec![3]);
}

#[test]
fn update_device_stamps_the_source_with_the_clock() {
    let mut state = AppState::new();
    let ip = IpAddress::V4(10, 0, 0, 7);
    state.update_device(ip, 5, "Desk".to_string(), 100);
    let device = state.device(ip).unwrap();
    assert_eq!(device.universes, vec![5]);
    assert!(device.last_seen.secs > 1_577_836_800);
}

#[test]
fn update_universe_stores_the_snapshot() {
    let mut state = AppState::new();
    let mut channels = [0u8; 512];
    channels[0] = 255;
    channels[511] = 1;
    let ip = IpAddress::V4(10, 0, 0, 7);
    state.update_universe_at(5, channels, ip, 42, at(3));
    let data = state.universe(5).unwrap();
    assert_eq!(data.universe, 5);
    assert_eq!(data.channels, channels);
    assert_eq!(data.last_updated, at(3));
    assert_eq!(data.source_ip, ip);
    assert_eq!(data.sequence, 42);
    assert!(state.universe(6).is_none());
    assert_eq!(state.universes().len(), 1);
}

#[test]
fn update_universe_twice_keeps_the_second_buffer() {
    let mut state = AppState::new();
    let first = [0x11u8; 512];
    let mut second = [0u8; 512];
    second[3] = 9;
    state.update_universe_at(5, first, IpAddress::V4(10, 0, 0, 1), 1, at(1));
    state.update_universe_at(5, second, IpAddress::V4(10, 0, 0, 2), 2, at(2));
    let data = state.universe(5).unwrap();
    assert_eq!(data.channels, second);
    assert_eq!(data.source_ip, IpAddress::V4(10, 0, 0, 2));
    assert_eq!(data.sequence, 2);
    assert_eq!(data.last_updated, at(2));
    assert_eq!(state.universes().len(), 1);
}

#[test]
fn update_universe_leaves_other_universes() {
    let mut state = AppState::new();
    state.update_universe_at(1, [1u8; 512], IpAddress::V4(10, 0, 0, 1), 0, at(1));
    state.update_universe_at(63999, [2u8; 512], IpAddress::V4(10, 0, 0, 1), 0, at(2));
    assert_eq!(state.universe(1).unwrap().channels, [1u8; 512]);
    assert_eq!(state.universe(63999).unwrap().channels, [2u8; 512]);
    assert!(state.devices().is_empty());
    assert!(state.logs().is_empty());
}

#[test]
fn update_universe_stamps_the_snapshot_with_the_clock() {
    let mut state = AppState::new();
    state.update_universe(5, [0u8; 512], IpAddress::V4(10, 0, 0, 1), 0);
    assert!(state.universe(5).unwrap().last_updated.secs > 1_577_836_800);
}

#[test]
fn selected_adapter_ip_is_none_without_adapters() {
    let mut state = AppState::new();
    assert_eq!(state.get_selected_adapter_ip(), None);
    state.update_adapter_selection(Some("eth0".to_string()));
    assert_eq!(state.get_selected_adapter_ip(), None);
}

#[test]
fn selected_adapter_ip_is_the_first_adapter_when_none_is_chosen() {
    let mut state = AppState::new();
    state.set_network_adapters(vec![
        adapter("eth0", IpAddress::V4(192, 168, 1, 2)),
        adapter("wlan0", IpAddress::V4(192, 168, 2, 2)),
    ]);
    assert_eq!(state.get_selected_adapter_ip(), Some(IpAddress::V4(192, 168, 1, 2)));
}

#[test]
fn selected_adapter_ip_is_that_of_the_chosen_adapter() {
    let mut state = AppState::new();
    state.set_network_adapters(vec![
        adapter("eth0", IpAddress::V4(192, 168, 1, 2)),
        adapter("wlan0", IpAddress::V4(192, 168, 2, 2)),
        adapter("wlan0", IpAddress::V4(192, 168, 3, 2)),
    ]);
    state.update_adapter_selection(Some("wlan0".to_string()));
    assert_eq!(state.get_selected_adapter_ip(), Some(IpAddress::V4(192, 168, 2, 2)));
}

#[test]
fn selected_adapter_ip_falls_back_when_the_chosen_adapter_is_gone() {
    let mut state = AppState::new();
    state.set_network_adapters(vec![
        adapter("eth0", IpAddress::V4(192, 168, 1, 2)),
        adapter("wlan0", IpAddress::V4(192, 168, 2, 2)),
    ]);
    state.update_adapter_selection(Some("tun3".to_string()));
    assert_eq!(state.get_selected_adapter_ip(), Some(IpAddress::V4(192, 168, 1, 2)));
}

#[test]
fn update_adapter_selection_changes_run_and_settings() {
    let mut state = AppState::new();
    state.update_adapter_selection(Some("eth0".to_string()));
    assert_eq!(*state.selected_adapter(), Some("eth0".to_string()));
    assert_eq!(state.settings().selected_adapter, Some("eth0".to_string()));
    state.update_adapter_selection(None);
    assert_eq!(*state.selected_adapter(), None);
    assert_eq!(state.settings().selected_adapter, None);
    assert!(state.logs().is_empty());
}

#[test]
fn load_settings_takes_them_over_and_logs() {
    let mut state = AppState::new();
    let settings = AppSettings {
        selected_adapter: Some("eth1".to_string()),
        window_size: Some((1200.0f32.to_bits(), 800.0f32.to_bits())),
        auto_send_enabled: true,
        send_rate: 44,
    };
    state.load_settings(settings, at(5));
    assert_eq!(*state.selected_adapter(), Some("eth1".to_string()));
    assert!(state.auto_send_enabled());
    assert_eq!(state.send_rate(), 44);
    assert_eq!(state.settings().send_rate, 44);
    assert_eq!(
        state.settings().window_size,
        Some((1200.0f32.to_bits(), 800.0f32.to_bits()))
    );
    assert_eq!(state.logs().len(), 1);
    assert_eq!(state.logs()[0].level, LogLevel::Info);
    assert_eq!(state.logs()[0].message, "Settings loaded successfully");
    assert_eq!(state.logs()[0].timestamp, at(5));
}

#[test]
fn setters_change_what_they_name() {
    let mut state = AppState::new();
    state.set_selected_universe(Some(7));
    assert_eq!(state.selected_universe(), Some(7));
    state.set_selected_universe(None);
    assert_eq!(state.selected_universe(), None);
    state.set_auto_send_enabled(true);
    assert!(state.auto_send_enabled());
    assert!(state.settings().auto_send_enabled);
    state.set_send_rate(30);
    assert_eq!(state.send_rate(), 30);
    assert_eq!(state.settings().send_rate, 30);
    state.set_window_size(Some((1, 2)));
    assert_eq!(state.settings().window_size, Some((1, 2)));
}

#[test]
fn adapters_from_leaves_out_loopback() {
    let infos = vec![
        InterfaceInfo { name: "lo".to_string(), ip: IpAddress::V4(127, 0, 0, 1), is_loopback: true },
        InterfaceInfo {
            name: "eth0".to_string(),
            ip: IpAddress::V4(192, 168, 1, 20),
            is_loopback: false,
        },
        InterfaceInfo { name: "lo".to_string(), ip: IpAddress::V6(1), is_loopback: true },
        InterfaceInfo {
            name: "eth0".to_string(),
            ip: IpAddress::V6(0xfe80_0000_0000_0000_0000_0000_0000_00a1),
            is_loopback: false,
        },
    ];
    let adapters = adapters_from(&infos);
    assert_eq!(adapters.len(), 2);
    assert_eq!(adapters[0].name, "eth0");
    assert_eq!(adapters[0].ip, IpAddress::V4(192, 168, 1, 20));
    assert_eq!(adapters[0].description, "eth0 (192.168.1.20)");
    assert!(adapters[0].is_available);
    assert_eq!(adapters[1].description, "eth0 (fe80::a1)");
}

#[test]
fn adapter_description_of_a_short_ipv6_address() {
    let infos = vec![InterfaceInfo {
        name: "eth0".to_string(),
        ip: IpAddress::V6(0x2001_0db8_0000_0000_0000_0000_0000_0001),
        is_loopback: false,
    }];
    let mut state = AppState::new();
    state.apply_interface_scan(Ok(infos), at(1));
    assert_eq!(state.network_adapters()[0].description, "eth0 (2001:db8::1)");
}

#[test]
fn interface_scan_replaces_the_adapters_and_logs_their_number() {
    let mut state = AppState::new();
    state.set_network_adapters(vec![adapter("old", IpAddress::V4(1, 1, 1, 1))]);
    let infos = vec![
        InterfaceInfo { name: "lo".to_string(), ip: IpAddress::V4(127, 0, 0, 1), is_loopback: true },
        InterfaceInfo { name: "eth0".to_string(), ip: IpAddress::V4(10, 1, 2, 3), is_loopback: false },
        InterfaceInfo { name: "eth1".to_string(), ip: IpAddress::V4(10, 1, 2, 4), is_loopback: false },
    ];
    state.apply_interface_scan(Ok(infos), at(8));
    assert_eq!(state.network_adapters().len(), 2);
    assert_eq!(state.network_adapters()[0].name, "eth0");
    assert_eq!(state.network_adapters()[1].name, "eth1");
    assert_eq!(state.logs().len(), 1);
    assert_eq!(state.logs()[0].level, LogLevel::Info);
    assert_eq!(state.logs()[0].message, "Found 2 network adapters");
    assert_eq!(state.logs()[0].timestamp, at(8));
}

#[test]
fn failed_interface_scan_keeps_the_adapters_and_logs_an_error() {
    let mut state = AppState::new();
    state.set_network_adapters(vec![adapter("old", IpAddress::V4(1, 1, 1, 1))]);
    state.apply_interface_scan(Err("permission denied".to_string()), at(8));
    assert_eq!(state.network_adapters().len(), 1);
    assert_eq!(state.network_adapters()[0].name, "old");
    assert_eq!(state.logs().len(), 1);
    assert_eq!(state.logs()[0].level, LogLevel::Error);
    assert_eq!(
        state.logs()[0].message,
        "Failed to enumerate network adapters: permission denied"
    );
}

#[test]
fn refresh_network_adapters_scans_this_machine() {
    let mut state = AppState::new();
    state.refresh_network_adapters();
    assert_eq!(state.logs().len(), 1);
    let entry = &state.logs()[0];
    match entry.level {
        LogLevel::Info => {
            let expected = format!("Found {} network adapters", state.network_adapters().len());
            assert_eq!(entry.message, expected);
            for adapter in state.network_adapters() {
                assert!(adapter.is_available);
                assert_ne!(adapter.ip, IpAddress::V4(127, 0, 0, 1));
                assert_eq!(
                    adapter.description,
                    format!("{} ({})", adapter.name, adapter.ip.to_text())
                );
            }
        }
        LogLevel::Error => {
            assert!(entry.message.starts_with("Failed to enumerate network adapters: "));
            assert!(state.network_adapters().is_empty());
        }
        _ => panic!("unexpected level"),
    }
}

#[test]
fn log_level_labels() {
    assert_eq!(LogLevel::Info.to_string(), "INFO");
    assert_eq!(LogLevel::Warning.to_string(), "WARN");
    assert_eq!(LogLevel::Error.to_string(), "ERROR");
    assert_eq!(LogLevel::Rx.to_string(), "RX");
    assert_eq!(LogLevel::Tx.to_string(), "TX");
}

#[test]
fn universe_list_is_ascending() {
    let mut state = AppState::new();
    assert!(state.universe_list().is_empty());
    for u in [300u16, 5, 63999, 1, 5, 42, 300] {
        state.update_universe_at(u, [0u8; 512], IpAddress::V4(10, 0, 0, 1), 0, at(1));
    }
    assert_eq!(state.universe_list(), vec![1, 5, 42, 300, 63999]);
}

#[test]
fn record_settings_save_logs_only_a_failure() {
    let mut state = AppState::new();
    state.record_settings_save(Ok(()), at(1));
    assert!(state.logs().is_empty());
    state.record_settings_save(Err("disk full".to_string()), at(2));
    assert_eq!(state.logs().len(), 1);
    assert_eq!(state.logs()[0].level, LogLevel::Warning);
    assert_eq!(state.logs()[0].message, "Failed to save settings: disk full");
    assert_eq!(state.logs()[0].timestamp, at(2));
}
