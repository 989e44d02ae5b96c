//! The fleet, the configuration file, updates, monitoring and access.
use midinet::alerting::AlertManager;
use midinet::auth::{
    asset_path, constant_time_eq, count_api_requests, is_poll, license_key, mime_of, require_auth,
    ActivateRequest, ApiToken,
};
use midinet::collector::{
    any_connected, collect, disk_free_mb, health_score, is_cpu_sensor, list_cards, parse_usb_id,
    sample_traffic, scan_midi_devices, Band, CardFiles, HealthInputs, Readings, TrafficCounters,
};
use midinet::config::{
    apply_config, build_config_from_state, save_config, MessageFilter, MidinetConfig, OscConfig,
    PipelineConfig,
};
use midinet::devices::{
    cancel_identify, flash_bytes, flash_end_bytes, flash_step, identify_device, parse_rawmidi_path,
    report_device_activity, FlashStep, IdentifyRequest, ReportActivityRequest,
};
use midinet::fleet::{
    client_heartbeat, client_index, handle_removed, handle_resolved, longest_silence,
    register_client, set_client_focus, set_host_role, set_latency, ClientHeartbeatBody, ClientInfo,
    HostAnnouncement, HostInfo, RegisterClientBody, SetClientFocusBody, SetHostRoleBody,
};
use midinet::metrics_store::{
    metrics_source, summarize, MetricsQuery, MetricsSample, MetricsSource, MetricsStore,
};
use midinet::mode::{
    blocking_clients, get_device_highways, highway_names, set_device_highways, set_host_redundancy,
    set_mode, set_protected_apps, DeviceHighwayEntry, HostConfig, SetDeviceHighwaysBody,
    SetHostRedundancyBody, SetModeBody, SetProtectedAppsBody,
};
use midinet::protected_apps::{
    installed_apps, installed_on, protected_apps_catalog, resolve_process_name,
    resolve_protected_processes, unknown_ids_in,
};
use midinet::settings::Settings;
use midinet::status::{MidiMetrics, SystemStatus};
use midinet::text::str_trim;
use midinet::update::{
    clean_lines, find_src_dir, git_update_check, is_stale_log, marker_dir, parse_host_pid,
    parse_update_step, read_stamp, run_update, source_candidates, strip_ansi, tail_update_log,
    update_status, Checkout, RemoteQuery, TailOutcome, UpdateCheck,
};

fn texts(v: &[&str]) -> Vec<String> {
    v.iter().map(|s| s.to_string()).collect()
}

fn body(id: u32, hostname: &str) -> RegisterClientBody {
    RegisterClientBody {
        id,
        ip: "10.0.0.5".to_string(),
        hostname: hostname.to_string(),
        os: "windows".to_string(),
        device_name: "APC40".to_string(),
        device_ready: true,
        connection_state: "connected".to_string(),
    }
}

fn beat() -> ClientHeartbeatBody {
    ClientHeartbeatBody {
        latency_ms_bits: 1.5f32.to_bits(),
        packet_loss_percent_bits: 0,
        midi_rate_in_bits: 0,
        midi_rate_out_bits: 0,
        device_ready: false,
        device_name: "".to_string(),
        connection_state: "".to_string(),
        midi_apps_active: true,
        installed_apps: texts(&["resolume-arena"]),
    }
}

fn announcement(id: u8, name: &str) -> HostAnnouncement {
    HostAnnouncement {
        fullname: name.to_string(),
        port: 5004,
        id: Some(id.to_string()),
        role: Some("primary".to_string()),
        device: None,
        multicast_group: None,
        ip: Some("10.0.0.1".to_string()),
    }
}

#[test]
fn clients_register_once() {
    let mut clients: Vec<ClientInfo> = Vec::new();
    register_client(&mut clients, body(7, "a"), 100);
    register_client(&mut clients, body(7, "b"), 200);
    assert_eq!(clients.len(), 1);
    assert_eq!(clients[0].hostname, "b");
    assert_eq!((clients[0].connected_since, clients[0].last_heartbeat_ms), (100, 200));
    assert_eq!(client_index(&clients, 7), 0);
    assert_eq!(client_index(&clients, 8), 1);
}

#[test]
fn heartbeats_refresh_a_client() {
    let mut clients: Vec<ClientInfo> = Vec::new();
    assert_eq!(
        client_heartbeat(&mut clients, 7, beat(), 1),
        Err("Client not registered".to_string())
    );
    register_client(&mut clients, body(7, "a"), 100);
    assert_eq!(client_heartbeat(&mut clients, 7, beat(), 300), Ok(()));
    assert_eq!(clients[0].last_heartbeat_ms, 300);
    assert_eq!(clients[0].device_name, "APC40");
    assert_eq!(clients[0].connection_state, "connected");
    assert!(!clients[0].device_ready);
    assert_eq!(f32::from_bits(clients[0].latency_ms_bits), 1.5);
    set_latency(&mut clients, 7, 2.0f32.to_bits());
    assert_eq!(f32::from_bits(clients[0].latency_ms_bits), 2.0);
    assert_eq!(longest_silence(&clients, 5_300), 5);
    assert_eq!(longest_silence(&Vec::new(), 5_300), 0);
}

#[test]
fn roles_and_focus_are_designated() {
    let primary = SetHostRoleBody { role: "primary".to_string() };
    let standby = SetHostRoleBody { role: "standby".to_string() };
    assert_eq!(set_host_role(None, 1, &primary), Some(1));
    assert_eq!(set_host_role(Some(1), 2, &standby), Some(1));
    assert_eq!(set_host_role(Some(1), 1, &standby), None);
    assert_eq!(set_client_focus(None, 9, &SetClientFocusBody { focus: true }), Some(9));
    assert_eq!(set_client_focus(Some(9), 8, &SetClientFocusBody { focus: false }), Some(9));
    assert_eq!(set_client_focus(Some(9), 9, &SetClientFocusBody { focus: false }), None);
}

#[test]
fn hosts_come_and_go() {
    let mut hosts: Vec<HostInfo> = Vec::new();
    handle_resolved(&mut hosts, announcement(1, "one"), 10);
    handle_resolved(&mut hosts, announcement(2, "two"), 20);
    handle_resolved(&mut hosts, announcement(1, "one"), 30);
    assert_eq!(hosts.len(), 2);
    assert_eq!(hosts[0].last_heartbeat_ms, 30);
    assert_eq!(hosts[0].device_name, "Unknown");
    assert_eq!(hosts[0].multicast_group, "239.69.83.1");
    assert_eq!(hosts[0].heartbeat_port, 5005);
    handle_removed(&mut hosts, "one");
    assert_eq!(hosts.len(), 1);
    assert_eq!(hosts[0].name, "two");
}

#[test]
fn mode_is_written_and_read_back() {
    let contents = Ok("# kept\n[host]\nname = \"pi\"\n".to_string());
    let change = set_mode(&SetModeBody { mode: " Multi ".to_string() }, &Vec::new(), &contents);
    let change = change.ok().unwrap();
    assert_eq!(change.mode, "multi");
    let mut c = HostConfig::new();
    assert_eq!(c.configured_mode, "single");
    c.load(&change.config);
    assert_eq!(c.configured_mode, "multi");
    assert!(change.config.contains("name = \"pi\""));
}

#[test]
fn mode_changes_are_refused() {
    let contents = Ok("".to_string());
    let e = set_mode(&SetModeBody { mode: "quad".to_string() }, &Vec::new(), &contents).err().unwrap();
    assert_eq!(e.error, "Invalid mode 'quad'. Must be 'single', 'redundant', or 'multi'.");
    let mut clients: Vec<ClientInfo> = Vec::new();
    register_client(&mut clients, body(7, "a"), 100);
    client_heartbeat(&mut clients, 7, beat(), 200).unwrap();
    assert_eq!(blocking_clients(&clients).len(), 1);
    let multi = SetModeBody { mode: "multi".to_string() };
    let e = set_mode(&multi, &clients, &contents).err().unwrap();
    assert_eq!(
        e.error,
        "Cannot change mode while MIDI applications are running on 1 client(s). Close Resolume Arena first."
    );
    assert_eq!(e.blocking[0].hostname, "a");
    let e = set_mode(&multi, &Vec::new(), &Err("gone".to_string())).err().unwrap();
    assert_eq!(e.error, "Cannot read config: gone");
    let e = set_mode(&multi, &Vec::new(), &Ok("= broken".to_string())).err().unwrap();
    assert!(e.error.starts_with("Config parse error: "));
}

#[test]
fn mode_change_restarts_the_clients() {
    let mut c = HostConfig::new();
    let mut hosts: Vec<HostInfo> = Vec::new();
    handle_resolved(&mut hosts, announcement(1, "one"), 10);
    let mut clients: Vec<ClientInfo> = Vec::new();
    register_client(&mut clients, body(7, "a"), 100);
    register_client(&mut clients, body(8, "b"), 100);
    assert_eq!(c.mode_changed("redundant", &mut hosts, &clients), 2);
    assert_eq!(c.pending_restarts, vec![7, 8]);
    assert!(!c.restart_due(7, true));
    assert!(c.restart_due(7, false));
    assert!(!c.restart_due(7, false));
    assert!(!c.restart_due(9, false));
    assert_eq!(c.pending_restarts, vec![8]);
    assert_eq!(hosts[0].operational_mode, "redundant");
}

#[test]
fn redundancy_is_written_and_read_back() {
    let text = set_host_redundancy(&SetHostRedundancyBody { enabled: true }, &Ok("".to_string())).unwrap();
    let mut c = HostConfig::new();
    c.load(&text);
    assert!(c.host_redundancy_enabled);
    assert!(set_host_redundancy(&SetHostRedundancyBody { enabled: true }, &Err("x".to_string())).is_err());
}

fn highway(name: &str, device: &str) -> DeviceHighwayEntry {
    DeviceHighwayEntry { name: name.to_string(), device: device.to_string() }
}

#[test]
fn highways_are_written_and_read_back() {
    let b = SetDeviceHighwaysBody { devices: vec![highway("A", "hw:1"), highway("B", "hw:2")] };
    assert_eq!(highway_names(&b), vec!["A", "B"]);
    let text = set_device_highways(&b, &Vec::new(), &Ok("[midi]\nx = 1\n".to_string())).ok().unwrap();
    let back = get_device_highways(&Ok(text.clone()));
    assert_eq!(back.len(), 2);
    assert_eq!((back[1].name.as_str(), back[1].device.as_str()), ("B", "hw:2"));
    let mut c = HostConfig::new();
    c.load(&text);
    assert_eq!(c.configured_devices, vec!["A", "B"]);
    assert!(get_device_highways(&Err("x".to_string())).is_empty());
}

#[test]
fn highways_are_limited() {
    let ok = Ok("".to_string());
    let none = SetDeviceHighwaysBody { devices: vec![] };
    assert_eq!(
        set_device_highways(&none, &Vec::new(), &ok).err().map(|e| e.error),
        Some("At least one device highway is required.".to_string())
    );
    let many = SetDeviceHighwaysBody { devices: (0..17).map(|_| highway("A", "x")).collect() };
    assert_eq!(
        set_device_highways(&many, &Vec::new(), &ok).err().map(|e| e.error),
        Some("Maximum 16 device highways supported.".to_string())
    );
    let mut clients: Vec<ClientInfo> = Vec::new();
    register_client(&mut clients, body(7, "a"), 100);
    client_heartbeat(&mut clients, 7, beat(), 200).unwrap();
    let one = SetDeviceHighwaysBody { devices: vec![highway("A", "x")] };
    assert_eq!(
        set_device_highways(&one, &clients, &ok).err().map(|e| e.error),
        Some("Cannot change device highways while MIDI applications are running on 1 client(s). Close Resolume Arena first.".to_string())
    );
}

#[test]
fn protected_apps_are_written_and_read_back() {
    let b = SetProtectedAppsBody {
        enabled: texts(&["resolume-arena"]),
        custom_processes: texts(&["mine.exe"]),
    };
    let text = set_protected_apps(&b, &Ok("".to_string())).unwrap();
    let mut c = HostConfig::new();
    c.load(&text);
    assert_eq!(c.protected_apps, vec!["resolume-arena"]);
    assert_eq!(c.custom_processes, vec!["mine.exe"]);
    let bad = SetProtectedAppsBody { enabled: texts(&["x", "y"]), custom_processes: vec![] };
    assert_eq!(set_protected_apps(&bad, &Ok("".to_string())), Err("Unknown app IDs: x, y".to_string()));
}

#[test]
fn catalog_resolves_by_system() {
    assert_eq!(protected_apps_catalog().len(), 27);
    assert_eq!(resolve_process_name("resolume-arena", "windows"), Some("Arena.exe".to_string()));
    assert_eq!(resolve_process_name("resolume-arena", "macos"), Some("Arena".to_string()));
    assert_eq!(resolve_process_name("resolume-arena", "linux"), None);
    assert_eq!(resolve_process_name("nope", "windows"), None);
    assert_eq!(
        resolve_protected_processes(&texts(&["resolume-arena", "nope"]), &texts(&["mine.exe"]), "windows"),
        vec!["Arena.exe", "mine.exe"]
    );
    assert_eq!(unknown_ids_in(&texts(&["resolume-arena", "nope"])), vec!["nope"]);
}

#[test]
fn installed_apps_are_collected() {
    let mut clients: Vec<ClientInfo> = Vec::new();
    register_client(&mut clients, body(7, "a"), 100);
    register_client(&mut clients, body(8, "b"), 100);
    client_heartbeat(&mut clients, 7, beat(), 200).unwrap();
    client_heartbeat(&mut clients, 8, beat(), 200).unwrap();
    assert_eq!(installed_apps(&clients), vec!["resolume-arena"]);
    let on = installed_on(&clients, "resolume-arena");
    assert_eq!(on.len(), 2);
    assert_eq!((on[1].id, on[1].hostname.as_str()), (8, "b"));
}

#[test]
fn escape_sequences_are_stripped() {
    assert_eq!(strip_ansi("\u{1b}[1;32m[1/4]\u{1b}[0m Pull"), "[1/4] Pull");
    assert_eq!(strip_ansi("plain"), "plain");
    assert_eq!(strip_ansi(&strip_ansi("a\u{1b}[0mb")), "ab");
    assert_eq!(clean_lines("a\n\u{1b}[0m\nb\n"), vec!["a", "b"]);
}

#[test]
fn update_steps_are_read() {
    assert_eq!(parse_update_step("[1/4] Pull\n[3/4] Build\n[2/4] x\n"), 3);
    assert_eq!(parse_update_step("[9/4]\nno step"), 0);
    assert_eq!(parse_update_step("\x1b[36m[2/4]\x1b[0m Building"), 2);
    assert_eq!(parse_update_step("[3/9] x\n[1/4"), 0);
    assert_eq!(parse_update_step("[1/4] and [3/4]"), 3);
    assert_eq!(parse_update_step(""), 0);
    let s = update_status("[4/4] Restart\nMIDInet updated and running\n", true);
    assert!(s.complete && !s.failed);
    assert_eq!(s.step, 4);
    assert!(update_status("error[E0308]", false).failed);
    assert!(update_status("Building", true).failed);
    assert!(!update_status("", true).failed);
    assert!(is_stale_log(Some(301)));
    assert!(!is_stale_log(Some(300)));
    assert!(!is_stale_log(None));
}

#[test]
fn update_log_is_tailed() {
    let a = tail_update_log("one\n", 0, false);
    assert_eq!((a.lines.clone(), a.pos, a.outcome), (texts(&["one"]), 4, TailOutcome::Continue));
    let b = tail_update_log("one\ntwo\nexit 1\n", a.pos, false);
    assert_eq!(b.lines, vec!["two", "exit 1", "__UPDATE_FAILED__"]);
    assert_eq!(b.outcome, TailOutcome::Failed);
    let c = tail_update_log("one\nMIDInet updated and running", 4, false);
    assert_eq!(c.lines, vec!["MIDInet updated and running", "__UPDATE_COMPLETE__"]);
    assert_eq!(tail_update_log("one\n", 4, true).outcome, TailOutcome::Stale);
    assert_eq!(tail_update_log("", 0, true).outcome, TailOutcome::Continue);
}

#[test]
fn update_is_gated() {
    assert_eq!(run_update(true, false, true), Ok(()));
    assert!(run_update(false, false, true).unwrap_err().starts_with("Update script not installed."));
    assert_eq!(run_update(true, true, true), Err("An update is already in progress.".to_string()));
    assert!(run_update(true, false, false).unwrap_err().starts_with("Update system not ready."));
}

#[test]
fn process_id_and_stamps() {
    assert_eq!(parse_host_pid(" 123\n"), Some(123));
    assert_eq!(parse_host_pid("0"), None);
    assert_eq!(parse_host_pid("x"), None);
    assert_eq!(read_stamp(&Some(" abc \n".to_string())), Some("abc".to_string()));
    assert_eq!(read_stamp(&None), None);
}

#[test]
fn sources_are_found() {
    let no = |p: &str| Checkout { path: p.to_string(), has_git: false };
    let yes = |p: &str| Checkout { path: p.to_string(), has_git: true };
    assert_eq!(source_candidates(), vec!["/opt/midinet/src", "/home/pi/MIDInet"]);
    assert_eq!(marker_dir("/x\n"), Some("/x".to_string()));
    assert_eq!(marker_dir("/\n"), None);
    let usual = vec![no("/opt/midinet/src"), yes("/home/pi/MIDInet")];
    assert_eq!(find_src_dir(&Some("/srv\n".to_string()), &usual, &vec![]), Some("/srv".to_string()));
    assert_eq!(find_src_dir(&Some("".to_string()), &usual, &vec![]), Some("/home/pi/MIDInet".to_string()));
    let above = vec![no("/a/b"), yes("/a")];
    assert_eq!(find_src_dir(&None, &vec![], &above), Some("/a".to_string()));
    let deep = vec![no("1"), no("2"), no("3"), no("4"), no("5"), yes("6")];
    assert_eq!(find_src_dir(&None, &vec![], &deep), None);
}

#[test]
fn newer_versions_are_noticed() {
    let out = |t: &str| RemoteQuery::Output { text: t.to_string() };
    let hash = "1234567890abcdef1234567890abcdef12345678";
    let line = format!("{}\trefs/heads/main\n", hash);
    match git_update_check("aaa", "", "main", &out(&line)) {
        UpdateCheck::Unknown { error } => assert_eq!(
            error,
            "Git remote URL not found. Run sudo midinet-update once to set it up."
        ),
        _ => panic!("url"),
    }
    match git_update_check("aaa", "u", "main", &RemoteQuery::NotStarted { error: "x".to_string() }) {
        UpdateCheck::Unknown { error } => assert_eq!(error, "git ls-remote failed: x"),
        _ => panic!("start"),
    }
    let failed = RemoteQuery::Failed { status: "128".to_string(), stderr: " no \n".to_string() };
    match git_update_check("aaa", "u", "main", &failed) {
        UpdateCheck::Unknown { error } => assert_eq!(error, "git ls-remote failed (exit 128): no"),
        _ => panic!("fail"),
    }
    match git_update_check("", "u", "main", &out("")) {
        UpdateCheck::Unknown { error } => assert_eq!(
            error,
            "Failed to read git hashes (current=\"\", latest=\"\", url=\"u\", branch=\"main\")"
        ),
        _ => panic!("hash"),
    }
    assert!(matches!(
        git_update_check("0000000", "u", "main", &out(&line)),
        UpdateCheck::Available { .. }
    ));
}

#[test]
fn saving_preserves_other_sections() {
    let text = save_config(Some("[custom]\na = 1\n\n[osc]\nlisten_port = 1\n"), "[osc]\nlisten_port = 9000\n").unwrap();
    assert!(text.contains("[custom]"));
    assert!(text.contains("a = 1"));
    assert!(text.contains("listen_port = 9000"));
    assert!(!text.contains("listen_port = 1\n"));
    let again = save_config(Some(&text), "[osc]\nlisten_port = 9000\n").unwrap();
    assert_eq!(again, text);
    assert_eq!(save_config(None, "a = 1\n").unwrap(), "a = 1\n");
    assert_eq!(save_config(Some("= broken"), "a = 1\n").unwrap(), "a = 1\n");
    assert!(save_config(None, "= broken").is_err());
}

#[test]
fn configuration_goes_from_state_to_state() {
    let mut from = Settings::new(3);
    from.osc_port_state.port = 9100;
    from.failover_config.lockout_seconds = 77;
    from.active_device = Some("hw:1,0,0".to_string());
    from.backup_device = Some("hw:2,0,0".to_string());
    let alerts = AlertManager::new();
    let c = build_config_from_state(&from, &PipelineConfig::default(), &alerts);
    assert_eq!(c.osc.map(|o| o.listen_port), Some(9100));
    let mut to = Settings::new(3);
    let mut pipeline = PipelineConfig::default();
    let mut alerts = AlertManager::new();
    apply_config(&mut to, &mut pipeline, &mut alerts, c);
    assert_eq!(to.backup_device, None);
    assert_eq!(to.osc_port_state.port, 9100);
    assert_eq!(to.failover_config.lockout_seconds, 77);
    assert_eq!(to.active_device, Some("hw:1,0,0".to_string()));
}

#[test]
fn configuration_defaults() {
    let c = MidinetConfig::default();
    assert_eq!(OscConfig::default().listen_port, 5588);
    assert!(MessageFilter::default().note_on);
    assert!(c.pipeline.channel_filter.iter().all(|x| *x));
    assert_eq!(c.pipeline.channel_remap[15], 15);
}

#[test]
fn metrics_are_kept_and_queried() {
    let mut m = MetricsStore::new();
    assert!(m.latest().is_none());
    let mut due = 0;
    for t in 1..=120u64 {
        let mut s = MetricsSample::default();
        s.timestamp = t;
        s.memory_used_mb = t;
        if m.record(s) {
            due += 1;
        }
    }
    assert_eq!(due, 2);
    assert_eq!(m.sample_count(), 120);
    assert_eq!(m.latest().map(|s| s.timestamp), Some(120));
    let recent = m.query_recent(2);
    assert_eq!((recent[0].timestamp, recent[1].timestamp), (119, 120));
    assert_eq!(m.query_range(10, 12).len(), 3);
    let s = summarize(&m.query_recent(60)).unwrap();
    assert_eq!((s.timestamp, s.memory_used_mb), (120, 90));
    assert!(summarize(&vec![]).is_none());
}

#[test]
fn metrics_source_by_range() {
    let q = |r: Option<&str>, c: Option<usize>| MetricsQuery { count: c, range: r.map(|s| s.to_string()) };
    assert_eq!(metrics_source(&q(None, None), 0), MetricsSource::Recent { count: 60 });
    assert_eq!(metrics_source(&q(None, Some(5)), 0), MetricsSource::Recent { count: 5 });
    let now = 1_000_000;
    assert_eq!(metrics_source(&q(Some("1h"), None), now), MetricsSource::Range { from: now - 3600, to: now });
    assert_eq!(metrics_source(&q(Some("6h"), None), now), MetricsSource::Range { from: now - 21600, to: now });
    assert_eq!(metrics_source(&q(Some("24h"), None), now), MetricsSource::Range { from: now - 86400, to: now });
    assert_eq!(metrics_source(&q(Some("7d"), None), now), MetricsSource::Summaries { from: now - 604800, to: now });
    assert_eq!(metrics_source(&q(Some("?"), None), now), MetricsSource::Range { from: now - 3600, to: now });
}

#[test]
fn a_second_is_collected() {
    assert_eq!(disk_free_mb(&vec![]), 0);
    assert_eq!(disk_free_mb(&vec![1_048_575, 2_097_152, 3_145_729]), 5);
    let readings = Readings {
        now: 77,
        cpu_percent_bits: 12.5f32.to_bits(),
        cpu_temp_c_bits: 75.0f32.to_bits(),
        memory_used_bytes: 10_485_761,
        memory_total_bytes: 20_971_520,
        disk_free_mb: 99,
        packet_loss_percent_bits: 0.75f32.to_bits(),
        latency_ms_bits: 12.0f32.to_bits(),
        client_count: 2,
        latency: Band::Poor,
        packet_loss: Band::Fair,
        cpu_temp: Band::Fair,
        midi_device_connected: true,
    };
    let mut midi = MidiMetrics::default();
    midi.messages_in_per_sec_bits = 8.0f32.to_bits();
    midi.bytes_in_per_sec = 24;
    midi.active_notes = 3;
    let mut system = SystemStatus::default();
    system.network_tx_bytes = 5;
    system.network_rx_bytes = 6;
    let sample = collect(&readings, &mut system, &midi);
    assert_eq!(system.health_score, 100 - 15 - 5 - 5 - 5);
    assert_eq!((system.memory_used_mb, system.memory_total_mb, system.disk_free_mb), (10, 20, 99));
    assert_eq!((system.network_tx_bytes, system.network_rx_bytes), (5, 6));
    assert_eq!((sample.timestamp, sample.memory_used_mb, sample.client_count), (77, 10, 2));
    assert_eq!(f32::from_bits(sample.midi_messages_per_sec_bits), 8.0);
    assert_eq!((sample.midi_bytes_per_sec, sample.active_notes), (24, 3));
    assert_eq!(f32::from_bits(sample.packet_loss_percent_bits), 0.75);
    assert_eq!(f32::from_bits(sample.latency_p50_ms_bits), 12.0);
    assert_eq!(sample.latency_p95_ms_bits, sample.latency_p99_ms_bits);
    assert_eq!((sample.network_tx_bytes, sample.network_rx_bytes), (5, 6));
}

#[test]
fn health_score_subtracts() {
    let mut h = HealthInputs {
        latency: Band::Good,
        packet_loss: Band::Good,
        cpu_temp: Band::Good,
        client_count: 1,
        midi_device_connected: true,
        disk_free_mb: 100,
    };
    assert_eq!(health_score(&h), 100);
    h.latency = Band::Fair;
    h.packet_loss = Band::Poor;
    assert_eq!(health_score(&h), 80);
    h.latency = Band::Bad;
    h.packet_loss = Band::Bad;
    h.cpu_temp = Band::Bad;
    h.client_count = 0;
    h.midi_device_connected = false;
    h.disk_free_mb = 99;
    assert_eq!(health_score(&h), 0);
}

#[test]
fn processor_sensors_by_name() {
    assert!(is_cpu_sensor("CPU Package"));
    assert!(is_cpu_sensor("soc_thermal"));
    assert!(!is_cpu_sensor("nvme"));
}

#[test]
fn traffic_is_sampled_and_reset() {
    let mut c = TrafficCounters::new();
    c.midi_packets_in = 5;
    c.api_requests = 2;
    let r = sample_traffic(&mut c, 3);
    assert_eq!((r.midi_in_per_sec, r.api_per_sec, r.ws_connections), (5, 2, 3));
    assert_eq!(c, TrafficCounters::new());
    assert_eq!(c.snapshot_and_reset(), (0, 0, 0, 0));
}

#[test]
fn sound_cards_are_scanned() {
    let text = " 0 [Headphones     ]: bcm2835 - bcm2835 Headphones\n                      bcm2835 Headphones\n 3 [mkII           ]: USB-Audio - APC40 mkII\n                      Akai APC40 mkII at usb-0000:01\n";
    let cards = list_cards(text);
    assert_eq!(cards.len(), 2);
    assert_eq!((cards[1].number, cards[1].name.as_str(), cards[1].manufacturer.as_str()), (3, "APC40 mkII", "Akai APC40 mkII"));
    let files = vec![
        CardFiles { midi: None, usb_id: None },
        CardFiles {
            midi: Some("APC40\n\nOutput 0\nInput 0\n".to_string()),
            usb_id: Some("09e8:0029\n".to_string()),
        },
    ];
    let devices = scan_midi_devices(&cards, &files);
    assert_eq!(devices.len(), 1);
    assert_eq!(devices[0].id, "hw:3,0,0");
    assert_eq!((devices[0].vendor_id, devices[0].product_id), (0x09e8, 0x0029));
    assert_eq!((devices[0].port_count_in, devices[0].port_count_out), (1, 1));
    assert!(any_connected(&devices));
    assert!(!any_connected(&vec![]));
    assert_eq!(parse_usb_id("x"), (0, 0));
    assert_eq!(parse_usb_id("zz:0001"), (0, 1));
}

#[test]
fn devices_are_identified() {
    let text = " 3 [mkII           ]: USB-Audio - APC40 mkII\n  Akai\n";
    let cards = list_cards(text);
    let devices = scan_midi_devices(&cards, &vec![CardFiles { midi: Some("".to_string()), usb_id: None }]);
    let mut r: Vec<IdentifyRequest> = Vec::new();
    assert_eq!(identify_device(&devices, &mut r, "x", 0), Err("Device not found".to_string()));
    assert_eq!(identify_device(&devices, &mut r, "hw:3,0,0", 0), Ok("APC40 mkII".to_string()));
    assert_eq!(
        identify_device(&devices, &mut r, "hw:3,0,0", 4999),
        Err("Identify already in progress for this device".to_string())
    );
    assert!(identify_device(&devices, &mut r, "hw:3,0,0", 5000).is_ok());
    assert_eq!(r.len(), 1);
    // Only the request of the device itself matters.
    let mut later = vec![IdentifyRequest { device_id: "hw:9,0,0".to_string(), requested_at: 99_999 }];
    assert!(identify_device(&devices, &mut later, "hw:3,0,0", 10).is_ok());
    assert_eq!(later.len(), 2);
    cancel_identify(&mut r, "hw:3,0,0");
    assert!(r.is_empty());
}

#[test]
fn lights_flash() {
    let on = flash_bytes(true);
    assert_eq!(on.len(), 120);
    assert_eq!(&on[117..], &[0x90, 39, 0x7F]);
    assert_eq!(&flash_bytes(false)[..3], &[0x80, 0, 0]);
    assert_eq!(&flash_end_bytes()[120..], &[0xB0, 123, 0, 0xB0, 121, 0]);
    assert_eq!(flash_step(0, 0), FlashStep::Change(flash_bytes(true)));
    assert_eq!(flash_step(4999, 25), FlashStep::Change(flash_bytes(false)));
    assert_eq!(flash_step(5000, 25), FlashStep::End(flash_end_bytes()));
    assert_eq!(parse_rawmidi_path("hw:3,0,0"), Some("/dev/snd/midiC3D0".to_string()));
    assert_eq!(parse_rawmidi_path("hw:1,2"), Some("/dev/snd/midiC1D2".to_string()));
    assert_eq!(parse_rawmidi_path("hw:1"), Some("/dev/snd/midiC1D0".to_string()));
    assert_eq!(parse_rawmidi_path("usb:1"), None);
    assert_eq!(parse_rawmidi_path("hw:x"), None);
}

#[test]
fn activity_is_reported() {
    let mut a = Vec::new();
    let req = |n| ReportActivityRequest { last_message: "cc".to_string(), message_count: n };
    report_device_activity(&mut a, "d", req(1), 10);
    report_device_activity(&mut a, "d", req(2), 20);
    report_device_activity(&mut a, "e", req(3), 30);
    assert_eq!(a.len(), 2);
    let d = a.iter().find(|x| x.device_id == "d").unwrap();
    assert_eq!((d.last_activity_ms, d.message_count), (20, 2));
}

#[test]
fn only_the_token_lets_in() {
    let open = ApiToken(None);
    let token = ApiToken(Some("secret".to_string()));
    assert!(require_auth(&open, "/api/status", None));
    assert!(require_auth(&token, "/index.html", None));
    assert!(require_auth(&token, "/api/status", Some("Bearer secret")));
    assert!(!require_auth(&token, "/api/status", Some("Bearer secreT")));
    assert!(!require_auth(&token, "/api/status", Some("secret")));
    assert!(!require_auth(&token, "/api/status", None));
    assert!(constant_time_eq(b"ab", b"ab"));
    assert!(!constant_time_eq(b"ab", b"abc"));
}

#[test]
fn white_space_is_trimmed_and_nothing_else() {
    for c in '\0'..=char::MAX {
        let trimmed = str_trim(&c.to_string());
        assert_eq!(trimmed, c.to_string().trim());
        let n = c as u32;
        let listed = (0x09..=0x0D).contains(&n)
            || (0x2000..=0x200A).contains(&n)
            || [0x20, 0x85, 0xA0, 0x1680, 0x2028, 0x2029, 0x202F, 0x205F, 0x3000].contains(&n);
        assert_eq!(trimmed.is_empty(), listed);
    }
}

#[test]
fn polls_and_assets() {
    assert!(is_poll("GET", "/api/status"));
    assert!(!is_poll("POST", "/api/status"));
    assert!(!is_poll("GET", "/api/config"));
    assert!(is_poll("POST", "/api/clients/register"));
    assert!(is_poll("POST", "/api/clients/add"));
    assert_eq!(mime_of("a/b.css"), "text/css; charset=utf-8");
    assert_eq!(mime_of("x"), "application/octet-stream");
    assert_eq!(asset_path("/"), "index.html");
    assert_eq!(asset_path("/app.js"), "app.js");
    assert_eq!(license_key(&ActivateRequest { key: " k ".to_string() }), Ok("k".to_string()));
    assert_eq!(
        license_key(&ActivateRequest { key: "  ".to_string() }),
        Err("License key is required".to_string())
    );
}

#[test]
fn housekeeping_is_not_counted() {
    let mut counters = TrafficCounters::new();
    counters.osc_messages = 7;
    count_api_requests(&mut counters, "POST", "/api/clients/register");
    count_api_requests(&mut counters, "GET", "/api/status");
    assert_eq!(counters.api_requests, 0);
    count_api_requests(&mut counters, "PUT", "/api/pipeline");
    count_api_requests(&mut counters, "POST", "/api/status");
    assert_eq!(counters.api_requests, 2);
    assert_eq!(counters.osc_messages, 7);
    counters.api_requests = u64::MAX;
    count_api_requests(&mut counters, "GET", "/api/config");
    assert_eq!(counters.api_requests, 0);
}
