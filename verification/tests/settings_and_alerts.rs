//! Failover, input, alert and device settings.
use midinet::alerting::{AlertConfig, AlertManager, AlertSeverity, AlertState, EvalMetrics, RateCheck};
use midinet::failover_state::{FailoverState, SwitchRefusal};
use midinet::input::{active_label, AutoSwitchRequest, InputRedundancy};
use midinet::settings::{
    builtin_presets, default_osc_trigger_port, default_role_active, validate_failover_warnings,
    validate_port, ApplyPresetRequest, DeviceReply, FailoverSettings, HeartbeatSettings,
    MidiDeviceInfo, SetFailoverRequest, SetMidiDeviceRequest, SetOscPortRequest, Settings,
};

fn empty_request() -> SetFailoverRequest {
    SetFailoverRequest {
        auto_enabled: None,
        switch_back_policy: None,
        lockout_seconds: None,
        confirmation_mode: None,
        heartbeat: None,
        triggers: None,
    }
}

fn device(id: &str) -> MidiDeviceInfo {
    MidiDeviceInfo {
        id: id.to_string(),
        name: "APC40".to_string(),
        manufacturer: "Akai".to_string(),
        vendor_id: 0x09e8,
        product_id: 0x0029,
        port_count_in: 1,
        port_count_out: 1,
        connected: true,
    }
}

fn assign(id: &str, role: &str) -> SetMidiDeviceRequest {
    SetMidiDeviceRequest { device_id: id.to_string(), role: role.to_string() }
}

#[test]
fn ports_are_checked() {
    assert_eq!(validate_port(8000), Ok(()));
    assert_eq!(
        validate_port(80),
        Err("Port must be 1024 or higher (privileged ports require root).".to_string())
    );
    for port in [5004u16, 5005, 5006] {
        assert_eq!(
            validate_port(port),
            Err(format!("Port {} conflicts with MIDInet data/heartbeat/control channels.", port))
        );
    }
    assert_eq!(default_osc_trigger_port(), 5588);
}

#[test]
fn defaults_are_without_warnings() {
    let s = FailoverSettings::default();
    assert_eq!(validate_failover_warnings(&s), Vec::<String>::new());
    assert_eq!((s.heartbeat.interval_ms, s.heartbeat.miss_threshold), (3, 3));
    assert_eq!(s.lockout_seconds, 5);
    assert_eq!(s.switch_back_policy, "manual");
    assert_eq!(s.confirmation_mode, "immediate");
}

#[test]
fn risky_settings_are_warned_about() {
    let mut s = FailoverSettings::default();
    s.lockout_seconds = 0;
    s.heartbeat = HeartbeatSettings { interval_ms: 1, miss_threshold: 1 };
    s.switch_back_policy = "auto".to_string();
    s.triggers.midi.enabled = true;
    s.triggers.midi.channel = 10;
    s.triggers.osc.enabled = true;
    let w = validate_failover_warnings(&s);
    assert_eq!(w.len(), 6);
    assert_eq!(w[0], "Lockout of 0s is dangerous — failover can oscillate with no delay between switches.");
    s.lockout_seconds = 2;
    s.heartbeat = HeartbeatSettings { interval_ms: 20, miss_threshold: 3 };
    let w = validate_failover_warnings(&s);
    assert_eq!(w[0], "Lockout below 3s risks oscillation during power surges or network instability.");
    assert_eq!(w[1], "Failover detection time is 60ms — significant audio gap may be audible.");
}

#[test]
fn presets_are_the_four() {
    let ids: Vec<String> = builtin_presets().into_iter().map(|p| p.id).collect();
    assert_eq!(ids, vec!["safe_defaults", "rock_solid", "low_latency", "rehearsal"]);
}

#[test]
fn preset_is_applied() {
    let mut s = Settings::new(3);
    let p = s.apply_preset(&ApplyPresetRequest { preset: "rock_solid".to_string() });
    assert_eq!(p.ok().map(|p| p.name), Some("Rock Solid".to_string()));
    assert_eq!(s.active_preset, Some("rock_solid".to_string()));
    assert_eq!(s.failover_config.confirmation_mode, "confirm");
    assert_eq!(s.failover_state.confirmation_mode, "confirm");
    let e = s.apply_preset(&ApplyPresetRequest { preset: "x".to_string() });
    assert_eq!(
        e.err(),
        Some("Unknown preset 'x'. Available: [\"safe_defaults\", \"rock_solid\", \"low_latency\", \"rehearsal\"]".to_string())
    );
}

#[test]
fn failover_settings_are_merged() {
    let mut s = Settings::new(3);
    let mut req = empty_request();
    req.lockout_seconds = Some(1);
    req.auto_enabled = Some(false);
    let w = s.set_failover(req).unwrap();
    assert_eq!(w, vec!["Lockout below 3s risks oscillation during power surges or network instability."]);
    assert_eq!(s.failover_config.lockout_seconds, 1);
    assert_eq!(s.failover_state.lockout_seconds, 1);
    assert!(!s.failover_state.auto_enabled);
    assert_eq!(s.failover_config.switch_back_policy, "manual");
}

#[test]
fn empty_request_changes_nothing() {
    let mut s = Settings::new(3);
    assert_eq!(s.set_failover(empty_request()), Ok(vec![]));
    assert_eq!(s.failover_config.lockout_seconds, 5);
}

#[test]
fn bad_failover_settings_are_refused() {
    let mut s = Settings::new(3);
    let mut r = empty_request();
    r.switch_back_policy = Some("never".to_string());
    assert_eq!(s.set_failover(r), Err("switch_back_policy must be 'manual' or 'auto'".to_string()));
    let mut r = empty_request();
    r.lockout_seconds = Some(301);
    assert_eq!(s.set_failover(r), Err("lockout_seconds must be 0-300".to_string()));
    let mut r = empty_request();
    r.confirmation_mode = Some("maybe".to_string());
    assert_eq!(
        s.set_failover(r),
        Err("confirmation_mode must be 'immediate' or 'confirm'".to_string())
    );
    let mut r = empty_request();
    r.heartbeat = Some(HeartbeatSettings { interval_ms: 0, miss_threshold: 3 });
    assert_eq!(s.set_failover(r), Err("heartbeat.interval_ms must be 1-1000".to_string()));
    let mut r = empty_request();
    r.heartbeat = Some(HeartbeatSettings { interval_ms: 3, miss_threshold: 21 });
    assert_eq!(s.set_failover(r), Err("heartbeat.miss_threshold must be 1-20".to_string()));
    let mut t = FailoverSettings::default().triggers;
    t.midi.channel = 17;
    let mut r = empty_request();
    r.triggers = Some(t);
    assert_eq!(s.set_failover(r), Err("MIDI trigger channel must be 1-16".to_string()));
    let mut t = FailoverSettings::default().triggers;
    t.midi.note = 128;
    let mut r = empty_request();
    r.triggers = Some(t);
    assert_eq!(s.set_failover(r), Err("MIDI trigger note must be 0-127".to_string()));
    let mut t = FailoverSettings::default().triggers;
    t.osc.enabled = true;
    t.osc.listen_port = 80;
    let mut r = empty_request();
    r.triggers = Some(t);
    assert_eq!(
        s.set_failover(r),
        Err("OSC trigger port: Port must be 1024 or higher (privileged ports require root).".to_string())
    );
    assert_eq!(s.failover_config.lockout_seconds, 5);
}

#[test]
fn osc_port_is_set() {
    let mut s = Settings::new(3);
    assert_eq!(s.osc_port_state.port, 5588);
    assert_eq!(s.osc_port_state.status, "stopped");
    assert!(s.set_osc_port(&SetOscPortRequest { port: 9000 }).is_ok());
    assert_eq!(s.osc_port_state.port, 9000);
    assert_eq!(s.osc_port_state.status, "listening");
    assert!(s.set_osc_port(&SetOscPortRequest { port: 5004 }).is_err());
    assert_eq!(s.osc_port_state.port, 9000);
}

#[test]
fn devices_are_assigned() {
    let mut s = Settings::new(3);
    let devices = vec![device("hw:1,0,0"), device("hw:2,0,0")];
    assert_eq!(default_role_active(), "active");
    assert!(matches!(
        s.set_midi_device(&assign("hw:1,0,0", "active"), &devices),
        Ok(DeviceReply::Assigned { .. })
    ));
    assert_eq!(s.active_device, Some("hw:1,0,0".to_string()));
    assert_eq!(s.midi_device_status.status, "switching");
    assert!(s.set_midi_device(&assign("hw:2,0,0", "backup"), &devices).is_ok());
    assert_eq!(s.backup_device, Some("hw:2,0,0".to_string()));
    assert!(s.input_redundancy.enabled);
    assert!(matches!(
        s.set_midi_device(&assign("", "backup"), &devices),
        Ok(DeviceReply::BackupCleared)
    ));
    assert_eq!(s.backup_device, None);
    assert!(!s.input_redundancy.enabled);
}

#[test]
fn bad_assignments_are_refused() {
    let mut s = Settings::new(3);
    let devices = vec![device("hw:1,0,0"), device("hw:2,0,0")];
    assert_eq!(
        s.set_midi_device(&assign("hw:1,0,0", "spare"), &devices).err(),
        Some("role must be 'active' or 'backup'".to_string())
    );
    assert_eq!(
        s.set_midi_device(&assign("", "active"), &devices).err(),
        Some("device_id cannot be empty".to_string())
    );
    assert_eq!(
        s.set_midi_device(&assign("hw:9,0,0", "active"), &devices).err(),
        Some("Device 'hw:9,0,0' not found. Available: [\"hw:1,0,0\", \"hw:2,0,0\"]".to_string())
    );
    assert!(s.set_midi_device(&assign("hw:1,0,0", "active"), &devices).is_ok());
    assert_eq!(
        s.set_midi_device(&assign("hw:1,0,0", "backup"), &devices).err(),
        Some("Device 'hw:1,0,0' is already assigned as active. Choose a different device.".to_string())
    );
}

#[test]
fn manual_switch_goes_to_and_fro() {
    let mut f = FailoverState::default();
    f.standby_healthy = true;
    assert_eq!(f.trigger_failover_switch(100, false), Ok(()));
    assert_eq!(f.active_host, "standby");
    assert_eq!(f.failover_count, 1);
    assert_eq!(f.last_failover.as_ref().map(|e| e.to_host.clone()), Some("standby".to_string()));
    assert_eq!(f.trigger_failover_switch(200, false), Ok(()));
    assert_eq!(f.active_host, "primary");
    assert_eq!(f.history.len(), 2);
}

#[test]
fn manual_switch_is_gated() {
    let mut f = FailoverState::default();
    f.standby_healthy = false;
    assert_eq!(f.trigger_failover_switch(100, false), Err(SwitchRefusal::StandbyUnhealthy));
    f.standby_healthy = true;
    assert_eq!(f.trigger_failover_switch(100, true), Err(SwitchRefusal::ProtectedApps));
    assert_eq!(f.trigger_failover_switch(100, false), Ok(()));
    assert_eq!(f.trigger_failover_switch(104, false), Err(SwitchRefusal::Lockout));
    assert_eq!(f.trigger_failover_switch(105, false), Ok(()));
    f.confirmation_mode = "confirm".to_string();
    assert_eq!(f.trigger_failover_switch(200, false), Err(SwitchRefusal::ConfirmationNeeded));
    assert_eq!(f.trigger_failover_switch(201, false), Ok(()));
    f.set_auto_failover(false);
    assert!(!f.auto_enabled);
}

#[test]
fn input_switch_needs_a_healthy_input() {
    let mut i = InputRedundancy::new(3);
    assert_eq!(
        i.trigger_input_switch(1),
        Err("Input redundancy not enabled (no secondary device configured)".to_string())
    );
    i.enabled = true;
    assert_eq!(
        i.trigger_input_switch(1),
        Err("Cannot switch to secondary — health is 'unknown', expected 'active'".to_string())
    );
    i.primary_health = "active".to_string();
    i.secondary_health = "active".to_string();
    assert_eq!(i.trigger_input_switch(1), Ok(()));
    assert_eq!((i.active_input, i.switch_count), (1, 1));
    assert_eq!(i.trigger_input_switch(2), Ok(()));
    assert_eq!((i.active_input, i.switch_count), (0, 2));
    assert_eq!(i.history[0].timestamp, 2);
    assert_eq!(i.history[1].reason, "Manual switch via admin API");
    i.set_auto_switch(&AutoSwitchRequest { enabled: false });
    assert!(!i.auto_switch_enabled);
    assert_eq!(active_label(0), "primary");
    assert_eq!(active_label(1), "secondary");
}

fn calm() -> EvalMetrics {
    let ok = || RateCheck { exceeded: false, message: "fine".to_string() };
    EvalMetrics {
        cpu_temp: ok(),
        packet_loss: ok(),
        latency_p95: ok(),
        client_silence_secs: 0,
        midi_device_connected: true,
        standby_host_healthy: true,
        disk_free_mb: 1000,
    }
}

#[test]
fn alert_fires_once_and_is_resolved() {
    let mut a = AlertManager::new();
    let call = a.check_threshold("cpu_temp", true, AlertSeverity::Critical, "hot".to_string(), 10);
    assert!(call.is_none());
    assert!(a.check_threshold("cpu_temp", true, AlertSeverity::Critical, "hot".to_string(), 11).is_none());
    let active = a.active_alerts();
    assert_eq!(active.len(), 1);
    assert_eq!(active[0].id, "alert-1");
    assert_eq!(active[0].title, "cpu temp alert");
    assert_eq!(active[0].message, "hot");
    assert_eq!(active[0].triggered_at, 10);
    a.check_threshold("cpu_temp", false, AlertSeverity::Critical, "hot".to_string(), 20);
    assert!(a.active_alerts().is_empty());
    for t in 0..700 {
        a.check_threshold("latency", t % 2 == 0, AlertSeverity::Warning, "slow".to_string(), t);
        a.check_threshold("disk_space", t % 2 == 0, AlertSeverity::Warning, "low".to_string(), t);
    }
    // The last two entries were resolved, behind the cut.
    assert_eq!(a.alert_history(5000).len(), 1002);
    a.check_threshold("cpu_temp", true, AlertSeverity::Critical, "hot".to_string(), 800);
    assert_eq!(a.alert_history(5000).len(), 1000);
    let mut a = AlertManager::new();
    a.check_threshold("cpu_temp", true, AlertSeverity::Critical, "hot".to_string(), 10);
    a.check_threshold("cpu_temp", false, AlertSeverity::Critical, "hot".to_string(), 20);
    let history = a.alert_history(10);
    assert_eq!(history.len(), 2);
    assert_eq!(history[0].state, AlertState::Resolved);
    assert_eq!(history[0].resolved_at, Some(20));
    assert_eq!(history[1].state, AlertState::Active);
}

#[test]
fn webhook_is_called_when_it_is_on() {
    let mut a = AlertManager::new();
    let mut c = AlertConfig::default();
    c.webhook_url = Some("http://hook".to_string());
    c.webhook_enabled = true;
    a.update_config(c);
    assert_eq!(a.get_config().webhook_url, Some("http://hook".to_string()));
    let call = a.check_threshold("latency", true, AlertSeverity::Warning, "slow".to_string(), 1);
    let call = call.unwrap();
    assert_eq!(call.url, "http://hook");
    assert_eq!(call.alert.source, "latency");
}

#[test]
fn evaluation_watches_every_threshold() {
    let mut a = AlertManager::new();
    assert!(a.evaluate(&calm(), 1).is_empty());
    assert!(a.active_alerts().is_empty());
    let mut m = calm();
    m.cpu_temp = RateCheck { exceeded: true, message: "CPU hot".to_string() };
    m.packet_loss = RateCheck { exceeded: true, message: "loss".to_string() };
    m.latency_p95 = RateCheck { exceeded: true, message: "slow".to_string() };
    m.client_silence_secs = 31;
    m.midi_device_connected = false;
    m.standby_host_healthy = false;
    m.disk_free_mb = 50;
    a.evaluate(&m, 2);
    let active = a.active_alerts();
    assert_eq!(active.len(), 7);
    let find = |s: &str| active.iter().find(|x| x.source == s).map(|x| x.message.clone());
    assert_eq!(find("cpu_temp"), Some("CPU hot".to_string()));
    assert_eq!(find("client_disconnect"), Some("Client disconnected for 31s (max 30s)".to_string()));
    assert_eq!(find("midi_device"), Some("MIDI device disconnected".to_string()));
    assert_eq!(find("standby_host"), Some("Standby host unreachable — no redundancy".to_string()));
    assert_eq!(find("disk_space"), Some("Disk space low: 50MB free (min 100MB)".to_string()));
    a.evaluate(&calm(), 3);
    assert!(a.active_alerts().is_empty());
}

#[test]
fn alert_defaults() {
    let c = AlertConfig::default();
    assert_eq!(f32::from_bits(c.latency_p95_max_ms_bits), 10.0);
    assert_eq!(c.disk_free_min_mb, 100);
    assert_eq!(c.client_disconnect_max_secs, 30);
    assert!(!c.webhook_enabled);
}
