//! The bridge process and the command-line tool.
use midinet::bridge::{
    bridge_socket_path, log_file, read_identity, AckPayload, BridgeState, BridgeVirtualDevice,
    ClientSession, FrameRead, FrameType, SessionEvent, SessionStep,
};
use midinet::cli::{
    base_url, can_replace_block, check_ip, detect_interface, ensure_root, parse_midinet_fallback,
    set_hostname, set_static_ip,
};
use midinet::virtual_device::DeviceIdentity;

fn identity(name: &str) -> DeviceIdentity {
    DeviceIdentity { name: name.to_string(), manufacturer: "Akai".to_string() }
}

#[test]
fn socket_path_of_the_bridge() {
    assert_eq!(bridge_socket_path(false), "/tmp/midinet-bridge.sock");
    assert_eq!(bridge_socket_path(true), "\\\\.\\pipe\\midinet-bridge");
}

#[test]
fn first_frame_has_to_be_an_identity() {
    assert_eq!(read_identity(Some(FrameType::Identity)), Ok(()));
    assert_eq!(read_identity(None), Err("Invalid identity frame header".to_string()));
    assert_eq!(
        read_identity(Some(FrameType::SendMidi)),
        Err("Expected Identity frame, got SendMidi".to_string())
    );
}

#[test]
fn bridge_acknowledges_with_an_ack() {
    assert_eq!(BridgeVirtualDevice::check_ack(Some(FrameType::Ack)), Ok(()));
    assert_eq!(
        BridgeVirtualDevice::check_ack(None),
        Err("Invalid ack header from bridge".to_string())
    );
    assert_eq!(
        BridgeVirtualDevice::check_ack(Some(FrameType::Status)),
        Err("Expected Ack from bridge, got Status".to_string())
    );
}

#[test]
fn client_end_sends_and_receives() {
    let mut d = BridgeVirtualDevice::new("/tmp/x", 1000);
    assert_eq!(d.send(), Err("Not connected to bridge".to_string()));
    d.start(&identity("APC40"));
    assert_eq!(d.device_name(), "APC40");
    assert!(d.create(Err("bad json".to_string())).is_err());
    assert!(!d.connected);
    let ack = AckPayload { created: true, device_name: "APC40".to_string() };
    assert_eq!(d.create(Ok(ack)), Ok(()));
    assert_eq!(d.send(), Ok(FrameType::SendMidi));
    d.message_sent(2000);
    assert!(!d.heartbeat_due(3999));
    assert!(d.heartbeat_due(4000));
    assert!(!d.heartbeat_due(4001));
    assert_eq!(d.receive(FrameRead::Frame(FrameType::FeedbackMidi, vec![1, 2])), Some(vec![1, 2]));
    assert_eq!(d.receive(FrameRead::Frame(FrameType::Status, vec![1])), None);
    assert_eq!(d.receive(FrameRead::Frame(FrameType::Ack, vec![1])), None);
    assert_eq!(d.receive(FrameRead::Nothing), None);
    assert!(d.connected);
    assert_eq!(d.receive(FrameRead::Failed), None);
    assert!(!d.connected);
    assert!(!d.heartbeat_due(99_000));
}

#[test]
fn client_end_detaches_by_disconnecting() {
    let mut d = BridgeVirtualDevice::new("/tmp/x", 0);
    d.connected = true;
    d.silence_and_detach();
    assert!(!d.connected);
    d.connected = true;
    d.close();
    assert!(!d.connected);
}

#[test]
fn device_survives_a_client() {
    let mut b = BridgeState::new();
    b.client_accepted();
    let id = match b.ensure_device(Some(identity("APC40"))) {
        SessionStep::CreateDevice(id) => id,
        other => panic!("{:?}", other),
    };
    match b.device_created(id, true) {
        SessionStep::SendAck(a) => assert!(a.created && a.device_name == "APC40"),
        other => panic!("{:?}", other),
    }
    assert!(matches!(b.handshake_finished(true), SessionStep::ReadFrame));
    let mut s = ClientSession { last_heartbeat: 0 };
    match b.handle_client(&mut s, SessionEvent::SendMidi(vec![0x90, 1, 2]), 5) {
        SessionStep::SendToDevice(data) => assert_eq!(data, vec![0x90, 1, 2]),
        other => panic!("{:?}", other),
    }
    match b.handle_client(&mut s, SessionEvent::ReadFailed, 6) {
        SessionStep::End { silence } => assert!(silence),
        other => panic!("{:?}", other),
    }
    assert!(!b.client_connected);
    assert_eq!(b.device, Some("APC40".to_string()));
    b.client_accepted();
    match b.ensure_device(Some(identity("APC40"))) {
        SessionStep::SendAck(a) => assert!(!a.created && a.device_name == "APC40"),
        other => panic!("{:?}", other),
    }
}

#[test]
fn another_name_needs_another_device() {
    let mut b = BridgeState::new();
    b.device = Some("APC40".to_string());
    let id = match b.ensure_device(Some(identity("Launchpad"))) {
        SessionStep::CreateDevice(id) => id,
        other => panic!("{:?}", other),
    };
    match b.device_created(id, false) {
        SessionStep::SendAck(a) => assert!(!a.created && a.device_name == "Launchpad"),
        other => panic!("{:?}", other),
    }
    assert_eq!(b.device, Some("APC40".to_string()));
}

#[test]
fn failed_handshake_silences_nothing() {
    let mut b = BridgeState::new();
    b.client_accepted();
    assert!(matches!(b.ensure_device(None), SessionStep::End { silence: false }));
    assert!(!b.client_connected);
    b.client_accepted();
    assert!(matches!(b.handshake_finished(false), SessionStep::End { silence: false }));
    assert!(!b.client_connected);
}

#[test]
fn silent_client_times_out() {
    let mut b = BridgeState::new();
    b.client_accepted();
    let mut s = ClientSession { last_heartbeat: 1000 };
    assert!(matches!(
        b.handle_client(&mut s, SessionEvent::ReadTimedOut, 11_000),
        SessionStep::ReadFrame
    ));
    assert!(matches!(
        b.handle_client(&mut s, SessionEvent::Heartbeat, 11_500),
        SessionStep::ReadFrame
    ));
    assert_eq!(s.last_heartbeat, 11_500);
    assert!(matches!(
        b.handle_client(&mut s, SessionEvent::ReadTimedOut, 21_501),
        SessionStep::End { silence: false }
    ));
    assert!(!b.client_connected);
}

#[test]
fn identity_can_be_updated() {
    let mut b = BridgeState::new();
    let mut s = ClientSession { last_heartbeat: 0 };
    b.handle_client(&mut s, SessionEvent::Identity(None), 1);
    assert!(b.identity.is_none());
    b.handle_client(&mut s, SessionEvent::Identity(Some(identity("X"))), 1);
    assert_eq!(b.identity.as_ref().map(|i| i.name.clone()), Some("X".to_string()));
    assert!(matches!(
        b.handle_client(&mut s, SessionEvent::SendMidi(vec![1]), 1),
        SessionStep::ReadFrame
    ));
    assert!(matches!(b.handle_client(&mut s, SessionEvent::Other, 1), SessionStep::ReadFrame));
}

#[test]
fn log_file_follows_its_flag() {
    let args = |v: &[&str]| v.iter().map(|s| s.to_string()).collect::<Vec<String>>();
    assert_eq!(log_file(&args(&["p", "--log-file", "a.log"])), Some("a.log".to_string()));
    assert_eq!(log_file(&args(&["p", "--log-file"])), None);
    assert_eq!(log_file(&args(&["p", "a.log"])), None);
}

#[test]
fn slashes_behind_an_address_go() {
    assert_eq!(base_url("http://pi:8080//"), "http://pi:8080");
    assert_eq!(base_url("http://pi:8080"), "http://pi:8080");
    assert_eq!(base_url("//"), "");
}

#[test]
fn only_root_may() {
    assert_eq!(ensure_root(&Some("0\n".to_string())), Ok(()));
    let refused = Err("This command requires root privileges. Run with: sudo midinet network ...".to_string());
    assert_eq!(ensure_root(&Some("1000\n".to_string())), refused);
    assert_eq!(ensure_root(&None), refused);
}

#[test]
fn interface_is_the_fifth_word() {
    let route = "default via 192.168.1.1 dev wlan0 proto dhcp".to_string();
    assert_eq!(detect_interface(&Some(route)), "wlan0");
    assert_eq!(detect_interface(&Some("default".to_string())), "eth0");
    assert_eq!(detect_interface(&None), "eth0");
}

#[test]
fn addresses_are_checked() {
    assert_eq!(check_ip("192.168.50.1"), Ok(()));
    assert_eq!(check_ip("0.0.0.0"), Ok(()));
    for bad in ["256.1.1.1", "1.2.3", "1.2.3.4.5", "01.2.3.4", "a.b.c.d", "", "1..2.3", "1.2.3.4 "] {
        assert_eq!(check_ip(bad), Err(format!("Invalid IP address: {}", bad)));
    }
}

#[test]
fn fallback_address_is_written_and_read() {
    let once = set_static_ip("hostname\n", "192.168.50.1", "24", "eth0");
    assert_eq!(
        once,
        "hostname\n\n# >>> MIDInet static fallback\nprofile static_eth0\nstatic ip_address=192.168.50.1/24\n\ninterface eth0\nfallback static_eth0\n# <<< MIDInet static fallback\n"
    );
    assert_eq!(parse_midinet_fallback(&once), Some("192.168.50.1/24".to_string()));
    assert!(can_replace_block(&once));
    let twice = set_static_ip(&once, "10.0.0.2", "16", "wlan0");
    assert_eq!(twice, set_static_ip("hostname\n\n", "10.0.0.2", "16", "wlan0"));
    assert_eq!(parse_midinet_fallback(&twice), Some("10.0.0.2/16".to_string()));
}

#[test]
fn no_block_has_no_fallback() {
    assert_eq!(parse_midinet_fallback("static ip_address=1.2.3.4/24\n"), None);
    assert_eq!(parse_midinet_fallback(""), None);
    let closed = "# >>> MIDInet static fallback\n# <<< MIDInet static fallback\nstatic ip_address=1.2.3.4/24\n";
    assert_eq!(parse_midinet_fallback(closed), None);
}

#[test]
fn markers_the_wrong_way_round_are_seen() {
    let text = "# <<< MIDInet static fallback\nx\n# >>> MIDInet static fallback\n";
    assert!(!can_replace_block(text));
    assert!(can_replace_block("nothing"));
}

#[test]
fn hostname_replaces_its_line() {
    let hosts = "127.0.0.1\tlocalhost\n127.0.1.1\traspberrypi\n::1\tip6-localhost\n";
    assert_eq!(
        set_hostname(hosts, "midi"),
        "127.0.0.1\tlocalhost\n127.0.1.1\tmidi\n::1\tip6-localhost\n"
    );
    assert_eq!(
        set_hostname("127.0.0.1\tlocalhost\n", "midi"),
        "127.0.0.1\tlocalhost\n127.0.1.1\tmidi\n"
    );
    assert_eq!(set_hostname(&set_hostname(hosts, "a"), "b"), set_hostname(hosts, "b"));
    assert_eq!(set_hostname("", "midi"), "\n127.0.1.1\tmidi\n");
}
