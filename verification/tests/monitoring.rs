//! The sniffers, OSC, the test generator and the client.
use midinet::client_discovery::{
    handle_discover_response, handle_service_resolved, hosts_url, http_host, response_host,
    run_http_discovery, service_host, version_differs, DiscoverResponse, DiscoveredHost, Discovery,
    HttpHostInfo, ServiceRecord,
};
use midinet::client_failover::{decide_failover, FailoverDecision, FailoverMonitor, HostTracker};
use midinet::client_health::{
    all_tasks_healthy, connection_state, connection_state_name, connection_state_str, task_pulse,
    task_states, ClientVitals, ConnectionState, HealthCollector, TrafficCounters,
};
use midinet::client_receiver::{
    is_focused, route_packet, FocusCommand, FocusState, PacketDecision, ReceiverState, Route,
};
use midinet::collector::TrafficRates;
use midinet::devices::IdentifyRequest;
use midinet::failover_state::FailoverState;
use midinet::fleet::HostInfo;
use midinet::input::InputRedundancy;
use midinet::osc::{after_bind, fmt_osc_arg, log_message, must_bind, observe_osc, ListenerState, OscArg};
use midinet::settings::{MidiDeviceStatus, OscPortState};
use midinet::sniffer::{
    address_candidates, count_active_notes, describe_feedback_midi, describe_midi,
    focus_action_name, to_hex2, FocusAction, FocusInfo, SnifferCounts,
};
use midinet::status::{
    activity_update, handle_tray_command, status_message, stream_step, uptime_secs, AlertPush,
    MidiMetrics, SocketEvent, SocketStep, StatusSources, SystemStatus, TrayCommand, WsClients,
};
use midinet::supervisor::{
    device_shutdown, enforce, exit_code, init_step, rand_client_id, Blackouts, ClientConfig,
    DegradedOutput, DeviceShutdown, Enforcement, InitStep, LicenseKind, NextRun, RunOutcome,
    Supervisor,
};
use midinet::test_generator::{
    duration_over, profile_params, round_trip_us, start_test, stop_test, EchoBody, Pattern,
    StartTestBody, TestProfile, TestRate, TestState, TestStream,
};
use rosc::encoder;
use rosc::{OscBundle, OscMessage, OscPacket, OscTime, OscType};

fn packet(payload: &[u8]) -> Vec<u8> {
    let mut p = vec![0x4D, 0x44, 0x4D, 0x49];
    p.resize(16, 0);
    p.push((payload.len() / 256) as u8);
    p.push((payload.len() % 256) as u8);
    p.extend_from_slice(payload);
    p
}

#[test]
fn notes_are_counted() {
    let mut n = 0;
    count_active_notes(&[0x90, 60, 100, 0x91, 61, 1], &mut n);
    assert_eq!(n, 2);
    count_active_notes(&[0x80, 60, 0, 0x91, 61, 0, 0x80, 1, 1], &mut n);
    assert_eq!(n, 0);
}

#[test]
fn midi_is_described() {
    assert_eq!(describe_midi(&[0x90, 60, 100]), "ch=1 note=60 vel=100");
    assert_eq!(describe_midi(&[0x81, 60, 0]), "ch=2 noteOff=60 vel=0");
    assert_eq!(describe_midi(&[0xB0, 7, 127]), "ch=1 cc=7 val=127");
    assert_eq!(describe_midi(&[0xE0, 0, 0x40]), "ch=1 pitch=8192");
    assert_eq!(describe_midi(&[0xC5, 9]), "ch=6 pgm=9");
    assert_eq!(describe_midi(&[]), "empty");
    assert_eq!(describe_feedback_midi(&[0x90, 60, 100]), "ch=1 note=60 vel=100");
    assert_eq!(to_hex2(0xAF), "AF");
}

#[test]
fn packets_are_observed() {
    let mut c = SnifferCounts::new();
    assert_eq!(c.observe(&packet(&[0x90, 60, 100])), Some("ch=1 note=60 vel=100".to_string()));
    assert_eq!(c.observe(b"nothing"), None);
    assert_eq!(c.observe(&packet(&[])), None);
    assert_eq!((c.messages, c.bytes, c.total_messages, c.active_notes), (2, 3, 2, 1));
    assert_eq!(c.tick(), (2, 3));
    assert_eq!((c.messages, c.total_messages), (0, 2));
}

#[test]
fn addresses_are_candidates() {
    assert_eq!(address_candidates("inet 10.0.0.5/24 brd 10.0.0.255"), vec!["inet", "10.0.0.5", "brd", "10.0.0.255"]);
}

#[test]
fn focus_is_followed() {
    let mut f = FocusInfo::new();
    f.handle_focus_packet(FocusAction::Claim, 1, "a", 10);
    assert!(f.holder.is_none() && f.history.is_empty());
    f.handle_focus_packet(FocusAction::Ack, 1, "a", 20);
    assert_eq!(f.holder.as_ref().map(|h| (h.client_id, h.since)), Some((1, 20)));
    f.handle_focus_packet(FocusAction::Release, 2, "b", 30);
    assert!(f.holder.is_some());
    f.handle_focus_packet(FocusAction::Release, 1, "a", 40);
    assert!(f.holder.is_none());
    assert_eq!(f.history.len(), 3);
    for t in 0..60 {
        f.handle_focus_packet(FocusAction::Ack, 3, "c", t);
    }
    assert_eq!(f.history.len(), 50);
    assert_eq!(focus_action_name(FocusAction::Release), "release");
}

fn message(addr: &str, args: Vec<OscType>) -> OscPacket {
    OscPacket::Message(OscMessage { addr: addr.to_string(), args })
}

#[test]
fn osc_traffic_is_logged() {
    let bytes = encoder::encode(&message(
        "/cue/go",
        vec![OscType::Int(-3), OscType::Float(1.5), OscType::String("x".to_string()), OscType::Bool(true)],
    ))
    .unwrap();
    let t = observe_osc(&bytes, "10.0.0.9:8000").unwrap();
    assert_eq!(t.messages, 1);
    assert_eq!(t.lines, vec!["/cue/go [-3, 1.50, \"x\", true] from 10.0.0.9:8000"]);
}

#[test]
fn osc_bundles_log_each_message() {
    let inner = OscPacket::Bundle(OscBundle {
        timetag: OscTime { seconds: 0, fractional: 1 },
        content: vec![message("/b", vec![])],
    });
    let bundle = OscPacket::Bundle(OscBundle {
        timetag: OscTime { seconds: 0, fractional: 1 },
        content: vec![message("/a", vec![OscType::Nil]), inner],
    });
    let bytes = encoder::encode(&bundle).unwrap();
    let t = observe_osc(&bytes, "s").unwrap();
    assert_eq!(t.lines, vec!["/a [nil] from s", "/b from s"]);
    assert!(observe_osc(b"no osc", "s").is_none());
}

#[test]
fn osc_arguments_are_formatted() {
    assert_eq!(fmt_osc_arg(OscArg::Blob(4)), "<blob 4>");
    assert_eq!(fmt_osc_arg(OscArg::Long(-5)), "-5L");
    assert_eq!(fmt_osc_arg(OscArg::Inf), "inf");
    assert_eq!(fmt_osc_arg(OscArg::Other), "?");
    assert_eq!(fmt_osc_arg(OscArg::Double("1.5000".to_string())), "1.5000");
    assert_eq!(log_message("/x", &vec![OscArg::Int(1)], "s"), "/x [1] from s");
}

#[test]
fn osc_listener_rebinds() {
    assert!(must_bind(ListenerState::Waiting, 8000));
    assert!(!must_bind(ListenerState::Listening(8000), 8000));
    assert!(must_bind(ListenerState::Listening(8000), 9000));
    let (s, r) = after_bind(ListenerState::Waiting, 9000, true);
    assert_eq!(s, ListenerState::Listening(9000));
    assert!(r.listening && r.port == 9000);
    let (_, r) = after_bind(ListenerState::Waiting, 9000, false);
    assert!(!r.listening);
}

#[test]
fn test_profiles() {
    for p in [TestProfile::Gentle, TestProfile::Normal, TestProfile::Stress, TestProfile::Ramp] {
        assert_eq!(TestProfile::from_str(p.as_str()), p);
    }
    assert_eq!(TestProfile::from_str("STRESS"), TestProfile::Stress);
    assert_eq!(TestProfile::from_str("?"), TestProfile::Gentle);
    let ramp = TestRate { interval_us: 7, channels: 2, send_notes: true, send_pitchbend: false };
    assert_eq!(profile_params(TestProfile::Ramp, ramp), ramp);
    assert_eq!(profile_params(TestProfile::Stress, ramp).interval_us, 5_000);
    assert!(duration_over(10, 10));
    assert!(!duration_over(10, 9));
    assert!(!duration_over(0, 1_000_000));
}

#[test]
fn test_pattern_is_midi() {
    let mut p = Pattern::new();
    let stress = profile_params(TestProfile::Stress, TestRate { interval_us: 0, channels: 1, send_notes: false, send_pitchbend: false });
    assert_eq!(
        p.generate_midi(&stress, 0),
        vec![0xB0, 1, 0, 0x90, 48, 100, 0x80, 48, 0, 0xE0, 0, 0]
    );
    assert_eq!(p.generate_midi(&stress, 1), vec![0xB1, 1, 1]);
    assert_eq!(p.generate_midi(&stress, 3), vec![0xB2, 1, 2, 0xE2, 0, 3]);
    for t in 0..600 {
        p.generate_midi(&stress, t);
        assert!(p.cc_value <= 127);
    }
    let mut s = TestStream::new();
    assert_eq!(s.next_packet(&stress).0, 0);
    assert_eq!(s.next_packet(&stress), (1, vec![0xB1, 1, 1]));
    s.sequence = u16::MAX;
    s.next_packet(&stress);
    assert_eq!((s.sequence, s.tick), (0, 3));
}

#[test]
fn tests_are_started_and_stopped() {
    let b = StartTestBody { profile: "Normal".to_string(), duration_secs: 5, ramp_duration_secs: 60 };
    let c = start_test(false, &Vec::<HostInfo>::new(), &b).unwrap();
    assert_eq!((c.multicast_group.as_str(), c.data_port), ("239.69.83.1", 5004));
    assert_eq!(c.profile, TestProfile::Normal);
    assert_eq!(start_test(true, &Vec::new(), &b).err(), Some("Test already running".to_string()));
    let mut s = TestState::new();
    s.start(&c, 1000);
    assert!(s.running);
    assert_eq!((s.packets(9), s.elapsed_secs(3500)), (9, 2));
    s.finish(42);
    assert!(!s.running);
    assert_eq!(s.packets(9), 42);
    assert_eq!(stop_test(true), Ok(()));
    assert_eq!(stop_test(false), Err("No test running".to_string()));
    assert_eq!(round_trip_us(&EchoBody { client_id: 1, timestamp_us: 100 }, 250), 150);
}

fn host(id: u8, role: &str, device: &str) -> DiscoveredHost {
    DiscoveredHost {
        id,
        name: format!("host-{}", id),
        role: role.to_string(),
        addresses: vec!["10.0.0.1".to_string()],
        multicast_group: "239.69.83.1".to_string(),
        data_port: 5004,
        control_group: None,
        device_name: device.to_string(),
        protocol_version: Some(1),
        admin_url: Some("http://10.0.0.1:8080".to_string()),
    }
}

#[test]
fn hosts_are_discovered() {
    let mut d = Discovery::new();
    assert_eq!(d.admin_url(), None);
    d.host_found(host(2, "standby", "B"));
    assert_eq!(d.active_host_id, Some(2));
    d.host_found(host(1, "primary", "A"));
    assert_eq!(d.active_host_id, Some(1));
    assert_eq!(d.identity_name, "A");
    d.host_found(host(1, "primary", "A"));
    assert_eq!(d.hosts.len(), 2);
    assert_eq!(d.admin_url(), Some("http://10.0.0.1:8080".to_string()));
    d.handle_service_removed("host-1");
    assert_eq!(d.hosts.len(), 1);
    assert_eq!(d.active_host_id, Some(2));
    d.handle_service_removed("host-2");
    assert_eq!(d.active_host_id, None);
}

fn http_info(id: u8, role: &str, ip: &str) -> HttpHostInfo {
    HttpHostInfo {
        id,
        name: format!("host-{}", id),
        role: role.to_string(),
        ip: ip.to_string(),
        device_name: format!("device-{}", id),
        multicast_group: "".to_string(),
        data_port: 0,
    }
}

#[test]
fn an_answer_over_http_is_taken_in() {
    let mut d = Discovery::new();
    run_http_discovery(&mut d, vec![], &vec![], "http://a");
    assert_eq!(d.active_host_id, None);
    let hosts = vec![
        http_info(3, "primary", "nowhere"),
        http_info(2, "standby", "10.0.0.2"),
        http_info(1, "primary", "10.0.0.1"),
        http_info(2, "standby", "10.0.0.9"),
    ];
    run_http_discovery(&mut d, hosts, &vec![false, true, true, true], "http://a");
    assert_eq!(d.hosts.iter().map(|h| h.id).collect::<Vec<u8>>(), vec![2, 1]);
    assert_eq!(d.hosts[0].addresses, vec!["10.0.0.9".to_string()]);
    assert_eq!(d.active_host_id, Some(1));
    assert_eq!(d.identity_name, "device-1");
}

#[test]
fn records_become_hosts() {
    let r = ServiceRecord {
        fullname: "x".to_string(),
        port: 5004,
        addresses: vec![],
        id: Some("256".to_string()),
        role: None,
        multicast_group: None,
        control_group: None,
        device: None,
        protocol_version: Some("2".to_string()),
        admin_url: None,
    };
    let h = service_host(r);
    assert_eq!((h.id, h.role.as_str(), h.device_name.as_str()), (0, "unknown", "Unknown"));
    assert!(version_differs(h.protocol_version, 1));
    assert!(!version_differs(None, 1));
    let h = http_host(
        HttpHostInfo {
            id: 1,
            name: "n".to_string(),
            role: "primary".to_string(),
            ip: "10.0.0.2".to_string(),
            device_name: "d".to_string(),
            multicast_group: "".to_string(),
            data_port: 0,
        },
        "http://a",
    );
    assert_eq!((h.multicast_group.as_str(), h.data_port), ("239.69.83.1", 5004));
    assert_eq!(h.admin_url, Some("http://a".to_string()));
    assert_eq!(hosts_url("http://a//"), "http://a/api/hosts");
    let h = response_host(
        DiscoverResponse {
            host_id: 2,
            primary: false,
            multicast_group: [239, 69, 83, 2],
            data_port: 5004,
            device_name: "d".to_string(),
            protocol_version: 1,
            admin_port: 8080,
        },
        "10.0.0.3",
    );
    assert_eq!((h.name.as_str(), h.role.as_str()), ("MIDInet host-2", "standby"));
    assert_eq!(h.multicast_group, "239.69.83.2");
    assert_eq!(h.admin_url, Some("http://10.0.0.3:8080".to_string()));
}

#[test]
fn announced_hosts_are_taken_in() {
    let mut d = Discovery::new();
    let record = ServiceRecord {
        fullname: "one".to_string(),
        port: 5004,
        addresses: vec!["10.0.0.1".to_string()],
        id: Some("+2".to_string()),
        role: Some("standby".to_string()),
        multicast_group: None,
        control_group: Some("239.69.83.100".to_string()),
        device: Some("APC40".to_string()),
        protocol_version: Some("3".to_string()),
        admin_url: None,
    };
    assert!(handle_service_resolved(&mut d, record, 1));
    assert_eq!((d.active_host_id, d.identity_name.as_str()), (Some(2), "APC40"));
    assert_eq!(d.hosts[0].protocol_version, Some(3));
    let answer = DiscoverResponse {
        host_id: 1,
        primary: true,
        multicast_group: [239, 69, 83, 1],
        data_port: 5004,
        device_name: "Launchpad".to_string(),
        protocol_version: 1,
        admin_port: 8080,
    };
    handle_discover_response(&mut d, answer, "10.0.0.9");
    assert_eq!((d.active_host_id, d.identity_name.as_str()), (Some(1), "Launchpad"));
    assert_eq!(d.hosts.len(), 2);
    assert_eq!(d.hosts[1].admin_url, Some("http://10.0.0.9:8080".to_string()));
}

#[test]
fn failover_after_three_missed_heartbeats() {
    let ms = 1_000_000;
    let mut m = FailoverMonitor::new();
    m.heartbeat(1, 1, 0);
    m.heartbeat(2, 1, 8 * ms);
    assert_eq!(m.check(Some(1), 9 * ms - 1), FailoverDecision::Keep);
    assert_eq!(m.check(Some(1), 9 * ms), FailoverDecision::SwitchTo(2));
    assert_eq!(m.check(Some(2), 9 * ms), FailoverDecision::Keep);
    assert_eq!(m.check(Some(1), 30 * ms), FailoverDecision::BothLost);
    assert_eq!(decide_failover(Some(2), true, false), FailoverDecision::SwitchTo(1));
    let (mut active, mut r) = (None, ReceiverState::new());
    let mut t = HealthCollector::new().failover;
    let (d, messages) = m.run_check(&mut active, &mut r, &mut t, 9 * ms, 1234);
    assert_eq!((d, active), (FailoverDecision::SwitchTo(2), Some(2)));
    assert!(r.needs_reconciliation);
    assert_eq!(messages.len(), 32);
    assert_eq!(messages[1], vec![0xB0, 123, 0]);
    assert_eq!((t.count, t.last_failover_epoch_ms), (1, 1234));
    let (d, messages) = m.run_check(&mut active, &mut r, &mut t, 9 * ms, 1300);
    assert_eq!((d, active, messages.len(), t.count), (FailoverDecision::Keep, Some(2), 0, 1));
    // The way back to the primary changes the active host and nothing else.
    r.needs_reconciliation = false;
    m.heartbeat(1, 2, 20 * ms);
    let (d, messages) = m.run_check(&mut active, &mut r, &mut t, 20 * ms, 1400);
    assert_eq!((d, active), (FailoverDecision::SwitchTo(1), Some(1)));
    assert!(!r.needs_reconciliation && messages.is_empty());
    assert_eq!((t.count, t.last_failover_epoch_ms), (1, 1234));
    assert_eq!(decide_failover(None, false, true), FailoverDecision::SwitchTo(2));
    let mut t = HostTracker::new(1);
    assert!(!t.is_alive(9, 5));
    t.record_heartbeat(3, 5);
    assert!(t.is_alive(9, 5));
}

#[test]
fn receiver_sees_duplicates_and_gaps() {
    let mut r = ReceiverState::new();
    assert_eq!(r.handle_packet(65535, false), PacketDecision::Accept { gap: false, use_journal: false });
    assert_eq!(r.handle_packet(65535, true), PacketDecision::Duplicate);
    assert_eq!(r.handle_packet(0, true), PacketDecision::Accept { gap: false, use_journal: false });
    assert_eq!(r.handle_packet(5, true), PacketDecision::Accept { gap: true, use_journal: true });
    assert_eq!(r.handle_packet(9, false), PacketDecision::Accept { gap: true, use_journal: false });
    r.needs_reconciliation = true;
    assert_eq!(r.handle_packet(10, true), PacketDecision::Accept { gap: false, use_journal: true });
    assert!(!r.needs_reconciliation);
    assert_eq!(route_packet(1, &vec![true, true], false), Route::Multi(1));
    assert_eq!(route_packet(2, &vec![true, true], true), Route::Nowhere);
    assert_eq!(route_packet(2, &vec![], true), Route::Single);
    assert_eq!(route_packet(0, &vec![], false), Route::Nowhere);
}

#[test]
fn focus_of_a_client() {
    let mut f = FocusState::new(7);
    assert!(!is_focused(&f));
    f.handle_packet(FocusAction::Ack, 7);
    assert!(is_focused(&f));
    f.handle_packet(FocusAction::Claim, 8);
    assert!(is_focused(&f));
    f.handle_packet(FocusAction::Ack, 8);
    assert!(!is_focused(&f));
    f.sequence = 65535;
    assert_eq!(f.claim(), 65535);
    assert_eq!(f.claim(), 0);
}

#[test]
fn health_of_a_client() {
    assert_eq!(connection_state(true, true, 0, 0), ConnectionState::Connected);
    assert_eq!(connection_state(true, false, 1, 0), ConnectionState::Discovering);
    assert_eq!(connection_state(false, false, 0, 1), ConnectionState::Reconnecting);
    assert_eq!(connection_state(false, true, 0, 0), ConnectionState::Disconnected);
    assert_eq!(connection_state_name(ConnectionState::Reconnecting), "reconnecting");
    assert_eq!(connection_state_str(true, false), "discovering");
    assert_eq!(connection_state_str(false, true), "disconnected");
    let m = task_pulse("receiver", 100);
    assert!(m.is_alive(2099, 2000));
    assert!(!m.is_alive(2100, 2000));
    assert_eq!((m.elapsed(90), m.elapsed(130)), (0, 30));
    let mut d = Discovery::new();
    d.host_found(host(1, "primary", "A"));
    let mut k = HealthCollector::new();
    k.failover.record(1000);
    k.register_monitor(m);
    k.register_monitor(task_pulse("focus", 9000));
    k.monitors[0].tick(9100);
    assert!(all_tasks_healthy(&task_states(&k.monitors, 9990)));
    k.set_host_version("a");
    k.set_rates(2.5f32.to_bits(), 1.5f32.to_bits(), 0.5f32.to_bits());
    k.restart_count = 3;
    let mut v = ClientVitals {
        now_ms: 1500,
        clock_ms: 9990,
        device_ready: true,
        has_focus: true,
        client_git_hash: "b".to_string(),
    };
    let s = k.snapshot(&d, &v);
    assert_eq!(s.connection_state, ConnectionState::Connected);
    assert_eq!(s.last_failover_ms, Some(500));
    assert_eq!(s.active_host.map(|h| h.name), Some("A".to_string()));
    assert!(s.version_mismatch && s.watchdog.all_tasks_healthy);
    assert_eq!((s.hosts_discovered, s.uptime_secs, s.failover_count), (1, 9, 1));
    assert_eq!(f32::from_bits(s.midi_rate_in_bits), 2.5);
    assert_eq!(f32::from_bits(s.midi_rate_out_bits), 1.5);
    assert_eq!(f32::from_bits(s.packet_loss_percent_bits), 0.5);
    assert_eq!(s.watchdog.restart_count, 3);
    assert_eq!(s.watchdog.task_states[0].last_heartbeat_ms, 890);
    v.clock_ms = 11_050;
    let s = k.snapshot(&d, &v);
    assert!(!s.watchdog.all_tasks_healthy);
    assert_eq!(s.watchdog.task_states[1].name, "focus");
    assert!(s.watchdog.task_states[0].alive && !s.watchdog.task_states[1].alive);
    k.set_host_version("b");
    assert!(!k.snapshot(&d, &v).version_mismatch);
    let mut c = TrafficCounters::new();
    c.packet_handled(PacketDecision::Accept { gap: false, use_journal: false }, true);
    c.packet_handled(PacketDecision::Duplicate, false);
    c.packet_handled(PacketDecision::Accept { gap: true, use_journal: true }, false);
    c.midi_sent();
    assert_eq!(c.snapshot_and_reset(), (1, 1, 3, 1));
    assert_eq!(c.snapshot_and_reset(), (0, 0, 0, 0));
    c.midi_in = 4;
    assert_eq!(c.snapshot_and_reset(), (4, 0, 0, 0));
    assert_eq!(c, TrafficCounters::new());
}

#[test]
fn supervised_tasks_back_off() {
    let mut s = Supervisor::new();
    assert_eq!(s.task_failed(0), 2);
    assert_eq!(s.task_failed(0), 4);
    for _ in 0..20 {
        s.task_failed(0);
    }
    assert_eq!(s.task_failed(0), 30);
    assert_eq!(s.task_failed(60_000_000_000), 30);
    assert_eq!(s.task_failed(60_000_000_001), 2);
    let mut count = 7;
    let mut s = Supervisor::new();
    for wait in [2, 4, 6] {
        let next = s.run_ended(RunOutcome::Failed, false, 0, &mut count);
        assert_eq!(next, NextRun::After { secs: wait });
    }
    assert_eq!(s.run_ended(RunOutcome::Failed, true, 0, &mut count), NextRun::Stop);
    assert_eq!(s.run_ended(RunOutcome::Finished, false, 0, &mut count), NextRun::Stop);
    assert_eq!((count, s.restarts), (10, 3));
    assert_eq!(rand_client_id(0x1234_5678), 0x1234_5678 ^ 0x1234);
    assert_eq!(exit_code(true), 42);
    assert_eq!(exit_code(false), 0);
}

#[test]
fn client_starts_and_ends_its_device() {
    assert!(matches!(init_step(true, false, false, "n", &None), InitStep::Ready));
    assert!(matches!(init_step(false, false, false, "n", &None), InitStep::Wait));
    assert!(matches!(init_step(false, true, true, "n", &None), InitStep::Wait));
    match init_step(false, true, false, "n", &Some("mine".to_string())) {
        InitStep::Create { name } => assert_eq!(name, "mine"),
        other => panic!("{:?}", other),
    }
    assert_eq!(device_shutdown(false, true), DeviceShutdown::Skip);
    assert_eq!(device_shutdown(true, true), DeviceShutdown::CloseOrDetach);
    assert_eq!(device_shutdown(true, false), DeviceShutdown::Detach);
    let c = ClientConfig::default();
    assert_eq!(c.health.listen, "127.0.0.1:5009");
    assert_eq!(c.network.heartbeat_port, 5005);
    assert_eq!((c.network.data_port, c.network.control_port), (5004, 5006));
    assert_eq!((c.network.control_group.as_str(), c.network.interface.as_str()), ("239.69.83.100", "eth0"));
}

#[test]
fn degraded_sessions_black_out() {
    let s = 1_000_000_000u64;
    let mut b = Blackouts::new();
    assert_eq!(b.handle_degraded_blackout(29, 29 * s), None);
    assert_eq!(
        b.handle_degraded_blackout(30, 30 * s),
        Some(DegradedOutput { blackout: true, noise: false })
    );
    assert_eq!(b.handle_degraded_blackout(32, 32 * s), None);
    assert_eq!(
        b.handle_degraded_blackout(33, 33 * s),
        Some(DegradedOutput { blackout: false, noise: false })
    );
    assert_eq!(b.handle_degraded_blackout(125, 33 * s + 95 * s), None);
    assert!(b.handle_degraded_blackout(125, 33 * s + 96 * s).is_some());
    assert_eq!(enforce(LicenseKind::Degraded, 2699), Enforcement::Degrade);
    assert_eq!(enforce(LicenseKind::Degraded, 2700), Enforcement::Terminate);
    assert_eq!(enforce(LicenseKind::Trial, 9999), Enforcement::Trial);
    assert_eq!(enforce(LicenseKind::Other, 9999), Enforcement::Free);
}

#[test]
fn status_is_put_together() {
    let mut focus = FocusInfo::new();
    focus.handle_focus_packet(FocusAction::Ack, 7, "a", 1);
    let failover = FailoverState::default();
    let input = InputRedundancy::new(3);
    let hosts = Vec::new();
    let clients = Vec::new();
    let alerts = Vec::new();
    let identify = vec![IdentifyRequest { device_id: "hw:1,0,0".to_string(), requested_at: 1 }];
    let preset = Some("rehearsal".to_string());
    let traffic = TrafficRates { midi_in_per_sec: 1, midi_out_per_sec: 2, osc_per_sec: 3, api_per_sec: 4, ws_connections: 5 };
    let system = SystemStatus::default();
    let midi = MidiMetrics::default();
    let m = status_message(
        &StatusSources {
            system: &system,
            midi: &midi,
            failover: &failover,
            traffic: &traffic,
            focus: &focus,
            hosts: &hosts,
            clients: &clients,
            designated_primary: Some(1),
            designated_focus: None,
            alerts: &alerts,
            input: &input,
            midi_device: &MidiDeviceStatus::default(),
            osc: &OscPortState::default(),
            active_preset: &preset,
            identify: &identify,
        },
        10,
        20,
    );
    assert_eq!((m.timestamp, m.uptime, m.health_score), (10, 20, 100));
    assert_eq!(m.focus_holder, Some(7));
    assert_eq!(m.active_label, "primary");
    assert_eq!(m.identify_active, vec!["hw:1,0,0"]);
    assert_eq!(m.active_preset, Some("rehearsal".to_string()));
    assert_eq!((m.osc_port, m.osc_status.as_str()), (5588, "stopped"));
    assert_eq!(m.traffic.osc_per_sec, 3);
}

#[test]
fn browsers_follow() {
    let mut w = WsClients { count: 0 };
    w.connected();
    assert_eq!(w.count, 1);
    w.disconnected();
    w.disconnected();
    assert_eq!(w.count, 0);
    let mut a = AlertPush { last_count: 0 };
    assert!(!a.due(0));
    assert!(a.due(2));
    assert!(!a.due(2));
    assert_eq!(stream_step(SocketEvent::Published), SocketStep::Forward);
    assert_eq!(stream_step(SocketEvent::Lagged), SocketStep::Wait);
    assert_eq!(stream_step(SocketEvent::Closed), SocketStep::End);
    assert_eq!(stream_step(SocketEvent::Ping), SocketStep::Pong);
    assert_eq!(activity_update("{}"), "{\"type\":\"update\",\"data\":{}}");
    assert_eq!(uptime_secs(10, 4), 6);
    assert_eq!(uptime_secs(4, 10), 0);
    assert_eq!(handle_tray_command(TrayCommand::ClaimFocus), Some(FocusCommand::Claim));
    assert_eq!(handle_tray_command(TrayCommand::ReleaseFocus), Some(FocusCommand::Release));
    assert_eq!(handle_tray_command(TrayCommand::Shutdown), None);
}
