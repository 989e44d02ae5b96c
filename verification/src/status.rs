//! What the admin panel shows and pushes to its browsers, and what the tray
//! asks of the client.
use vstd::prelude::*;

use crate::alerting::Alert;
use crate::client_receiver::FocusCommand;
use crate::collector::TrafficRates;
use crate::devices::{request_views, IdentifyRequest};
use crate::failover_state::FailoverState;
use crate::fleet::{ClientInfo, HostInfo};
use crate::input::{active_label, input_label, InputRedundancy};
use crate::settings::{MidiDeviceStatus, OscPortState};
use crate::sniffer::FocusInfo;
use crate::text::{cat3, copy_opt, text_opt, texts};

verus! {

/// The state of the machine. The values that are not whole are kept as the bits
/// of their single precision form.
#[derive(Clone, Copy, Debug, PartialEq, Eq, Structural)]
pub struct SystemStatus {
    pub health_score: u8,
    pub cpu_percent_bits: u32,
    pub cpu_temp_c_bits: u32,
    pub memory_used_mb: u64,
    pub memory_total_mb: u64,
    pub disk_free_mb: u64,
    pub network_tx_bytes: u64,
    pub network_rx_bytes: u64,
}

impl Default for SystemStatus {
    fn default() -> (r: Self)
        ensures
            r.health_score == 100,
            r.cpu_percent_bits == 0 && r.cpu_temp_c_bits == 0,
            r.memory_used_mb == 0 && r.memory_total_mb == 0 && r.disk_free_mb == 0,
            r.network_tx_bytes == 0 && r.network_rx_bytes == 0,
    {
        SystemStatus {
            health_score: 100,
            cpu_percent_bits: 0,
            cpu_temp_c_bits: 0,
            memory_used_mb: 0,
            memory_total_mb: 0,
            disk_free_mb: 0,
            network_tx_bytes: 0,
            network_rx_bytes: 0,
        }
    }
}

/// The MIDI traffic. The values that are not whole are kept as the bits of their
/// single precision form.
#[derive(Clone, Copy, Debug, PartialEq, Eq, Structural)]
pub struct MidiMetrics {
    pub messages_in_per_sec_bits: u32,
    pub messages_out_per_sec_bits: u32,
    pub bytes_in_per_sec: u64,
    pub bytes_out_per_sec: u64,
    pub total_messages: u64,
    pub active_notes: u32,
    pub dropped_messages: u64,
    pub peak_burst_rate_bits: u32,
}

impl Default for MidiMetrics {
    fn default() -> (r: Self)
        ensures
            r == (MidiMetrics {
                messages_in_per_sec_bits: 0,
                messages_out_per_sec_bits: 0,
                bytes_in_per_sec: 0,
                bytes_out_per_sec: 0,
                total_messages: 0,
                active_notes: 0,
                dropped_messages: 0,
                peak_burst_rate_bits: 0,
            }),
    {
        MidiMetrics {
            messages_in_per_sec_bits: 0,
            messages_out_per_sec_bits: 0,
            bytes_in_per_sec: 0,
            bytes_out_per_sec: 0,
            total_messages: 0,
            active_notes: 0,
            dropped_messages: 0,
            peak_burst_rate_bits: 0,
        }
    }
}

// ── The status that is pushed ──

/// What the status is made of.
pub struct StatusSources<'a> {
    pub system: &'a SystemStatus,
    pub midi: &'a MidiMetrics,
    pub failover: &'a FailoverState,
    pub traffic: &'a TrafficRates,
    pub focus: &'a FocusInfo,
    pub hosts: &'a Vec<HostInfo>,
    pub clients: &'a Vec<ClientInfo>,
    pub designated_primary: Option<u8>,
    pub designated_focus: Option<u32>,
    pub alerts: &'a Vec<Alert>,
    pub input: &'a InputRedundancy,
    pub midi_device: &'a MidiDeviceStatus,
    pub osc: &'a OscPortState,
    pub active_preset: &'a Option<String>,
    pub identify: &'a Vec<IdentifyRequest>,
}

/// The status beside the lists of hosts, clients and device activity, which are
/// pushed as they are.
#[derive(Debug)]
pub struct StatusMessage {
    pub timestamp: u64,
    pub uptime: u64,
    pub health_score: u8,
    pub cpu_percent_bits: u32,
    pub cpu_temp_c_bits: u32,
    pub memory_used_mb: u64,
    pub messages_per_sec_bits: u32,
    pub active_notes: u32,
    pub bytes_per_sec: u64,
    pub active_host: String,
    pub standby_healthy: bool,
    pub auto_enabled: bool,
    pub traffic: TrafficRates,
    pub focus_holder: Option<u32>,
    pub host_count: usize,
    pub client_count: usize,
    pub designated_primary: Option<u8>,
    pub designated_focus: Option<u32>,
    pub active_alerts: usize,
    pub input_enabled: bool,
    pub active_input: u8,
    pub active_label: String,
    pub primary_health: String,
    pub secondary_health: String,
    pub switch_count: u64,
    pub midi_device_status: String,
    pub osc_port: u16,
    pub osc_status: String,
    pub active_preset: Option<String>,
    /// The devices that are being identified.
    pub identify_active: Vec<String>,
}

/// The devices of some requests.
pub open spec fn identified(v: Seq<(Seq<char>, u64)>) -> Seq<Seq<char>> {
    v.map_values(|r: (Seq<char>, u64)| r.0)
}

fn identified_devices(v: &Vec<IdentifyRequest>) -> (r: Vec<String>)
    ensures
        texts(r@) == identified(request_views(v@)),
{
    let mut r: Vec<String> = Vec::new();
    let mut i: usize = 0;
    while i < v.len()
        invariant
            i <= v@.len(),
            texts(r@) =~= identified(request_views(v@)).take(i as int),
        decreases v@.len() - i,
    {
        let ghost before = texts(r@);
        let id = v[i].device_id.clone();
        r.push(id);
        assert(texts(r@) =~= before.push(id@));
        i += 1;
    }
    assert(identified(request_views(v@)).take(i as int) =~= identified(request_views(v@)));
    r
}

/// Puts the status together.
pub fn status_message(s: &StatusSources, timestamp: u64, uptime: u64) -> (r: StatusMessage)
    ensures
        r.timestamp == timestamp && r.uptime == uptime,
        r.health_score == s.system.health_score,
        r.cpu_percent_bits == s.system.cpu_percent_bits,
        r.cpu_temp_c_bits == s.system.cpu_temp_c_bits,
        r.memory_used_mb == s.system.memory_used_mb,
        r.messages_per_sec_bits == s.midi.messages_in_per_sec_bits,
        r.active_notes == s.midi.active_notes,
        r.bytes_per_sec == s.midi.bytes_in_per_sec,
        r.active_host@ == s.failover.active_host@,
        r.standby_healthy == s.failover.standby_healthy,
        r.auto_enabled == s.failover.auto_enabled,
        r.traffic == *s.traffic,
        r.focus_holder == (match s.focus.holder {
            Some(h) => Some(h.client_id),
            None => None,
        }),
        r.host_count == s.hosts@.len(),
        r.client_count == s.clients@.len(),
        r.designated_primary == s.designated_primary,
        r.designated_focus == s.designated_focus,
        r.active_alerts == s.alerts@.len(),
        r.input_enabled == s.input.enabled,
        r.active_input == s.input.active_input,
        r.active_label@ == input_label(s.input.active_input),
        r.primary_health@ == s.input.primary_health@,
        r.secondary_health@ == s.input.secondary_health@,
        r.switch_count == s.input.switch_count,
        r.midi_device_status@ == s.midi_device.status@,
        r.osc_port == s.osc.port,
        r.osc_status@ == s.osc.status@,
        text_opt(r.active_preset) == text_opt(*s.active_preset),
        texts(r.identify_active@) == identified(request_views(s.identify@)),
{
    StatusMessage {
        timestamp,
        uptime,
        health_score: s.system.health_score,
        cpu_percent_bits: s.system.cpu_percent_bits,
        cpu_temp_c_bits: s.system.cpu_temp_c_bits,
        memory_used_mb: s.system.memory_used_mb,
        messages_per_sec_bits: s.midi.messages_in_per_sec_bits,
        active_notes: s.midi.active_notes,
        bytes_per_sec: s.midi.bytes_in_per_sec,
        active_host: s.failover.active_host.clone(),
        standby_healthy: s.failover.standby_healthy,
        auto_enabled: s.failover.auto_enabled,
        traffic: *s.traffic,
        focus_holder: match &s.focus.holder {
            Some(h) => Some(h.client_id),
            None => None,
        },
        host_count: s.hosts.len(),
        client_count: s.clients.len(),
        designated_primary: s.designated_primary,
        designated_focus: s.designated_focus,
        active_alerts: s.alerts.len(),
        input_enabled: s.input.enabled,
        active_input: s.input.active_input,
        active_label: active_label(s.input.active_input),
        primary_health: s.input.primary_health.clone(),
        secondary_health: s.input.secondary_health.clone(),
        switch_count: s.input.switch_count,
        midi_device_status: s.midi_device.status.clone(),
        osc_port: s.osc.port,
        osc_status: s.osc.status.clone(),
        active_preset: copy_opt(s.active_preset),
        identify_active: identified_devices(s.identify),
    }
}

/// The browsers that follow the status.
#[derive(Clone, Copy, Debug, PartialEq, Eq, Structural)]
pub struct WsClients {
    pub count: u32,
}

impl WsClients {
    /// A browser comes.
    pub fn connected(&mut self)
        requires
            old(self).count < u32::MAX,
        ensures
            final(self).count == old(self).count + 1,
    {
        self.count = self.count + 1;
    }

    /// A browser goes.
    pub fn disconnected(&mut self)
        ensures
            final(self).count == (if old(self).count > 0 {
                old(self).count - 1
            } else {
                0
            }),
    {
        self.count = self.count.saturating_sub(1);
    }
}

/// The alerts that a browser was told of last.
#[derive(Clone, Copy, Debug, PartialEq, Eq, Structural)]
pub struct AlertPush {
    pub last_count: usize,
}

impl AlertPush {
    /// Whether the alerts are pushed: when their number has changed.
    pub fn due(&mut self, count: usize) -> (r: bool)
        ensures
            r == (count != old(self).last_count),
            final(self).last_count == count,
    {
        let changed = count != self.last_count;
        self.last_count = count;
        changed
    }
}

/// What came in on the socket of a browser or of the bus behind it.
#[derive(Clone, Copy, Debug, PartialEq, Eq, Structural)]
pub enum SocketEvent {
    /// A message of the bus.
    Published,
    /// Messages of the bus were lost.
    Lagged,
    /// The bus or the socket is closed.
    Closed,
    Ping,
    Other,
}

/// What follows on the socket.
#[derive(Clone, Copy, Debug, PartialEq, Eq, Structural)]
pub enum SocketStep {
    Forward,
    Pong,
    Wait,
    End,
}

/// Decides what follows an event of a live stream.
pub fn stream_step(event: SocketEvent) -> (r: SocketStep)
    ensures
        r == match event {
            SocketEvent::Published => SocketStep::Forward,
            SocketEvent::Ping => SocketStep::Pong,
            SocketEvent::Closed => SocketStep::End,
            _ => SocketStep::Wait,
        },
{
    match event {
        SocketEvent::Published => SocketStep::Forward,
        SocketEvent::Ping => SocketStep::Pong,
        SocketEvent::Closed => SocketStep::End,
        _ => SocketStep::Wait,
    }
}

/// A change of the device activity, as it is pushed.
pub fn activity_update(data: &str) -> (r: String)
    ensures
        r@ == "{\"type\":\"update\",\"data\":"@ + data@ + "}"@,
{
    cat3("{\"type\":\"update\",\"data\":", data, "}")
}

// ── Answers to requests ──

/// Seconds since a start; both times are in seconds of one clock.
pub fn uptime_secs(now: u64, started: u64) -> (r: u64)
    ensures
        r == (if now >= started {
            now - started
        } else {
            0
        }),
{
    now.saturating_sub(started)
}

// ── Commands of the tray ──

/// What the tray asks of the client.
#[derive(Clone, Copy, Debug, PartialEq, Eq, Structural)]
pub enum TrayCommand {
    ClaimFocus,
    ReleaseFocus,
    Shutdown,
}

/// Turns a command of the tray into one for the focus task; without one the
/// client shuts down.
pub fn handle_tray_command(command: TrayCommand) -> (r: Option<FocusCommand>)
    ensures
        r == match command {
            TrayCommand::ClaimFocus => Some(FocusCommand::Claim),
            TrayCommand::ReleaseFocus => Some(FocusCommand::Release),
            TrayCommand::Shutdown => None,
        },
{
    match command {
        TrayCommand::ClaimFocus => Some(FocusCommand::Claim),
        TrayCommand::ReleaseFocus => Some(FocusCommand::Release),
        TrayCommand::Shutdown => None,
    }
}

/// The status shows what its sources say: who is active, how healthy the inputs are, how
/// many hosts, clients and alerts there are, and who has the focus.
pub proof fn law_shown_status(
    s: StatusSources,
    timestamp: u64,
    uptime: u64,
    r: StatusMessage,
    i: int,
)
    requires
        call_ensures(status_message, (&s, timestamp, uptime), r),
    ensures
        r.timestamp == timestamp && r.uptime == uptime,
        r.health_score == s.system.health_score && r.cpu_percent_bits == s.system.cpu_percent_bits
            && r.cpu_temp_c_bits == s.system.cpu_temp_c_bits && r.memory_used_mb
            == s.system.memory_used_mb,
        r.messages_per_sec_bits == s.midi.messages_in_per_sec_bits && r.active_notes
            == s.midi.active_notes && r.bytes_per_sec == s.midi.bytes_in_per_sec,
        r.active_host@ == s.failover.active_host@ && r.standby_healthy == s.failover.standby_healthy
            && r.auto_enabled == s.failover.auto_enabled,
        r.traffic == *s.traffic,
        s.focus.holder matches Some(h) ==> r.focus_holder == Some(h.client_id),
        s.focus.holder is None ==> r.focus_holder is None,
        r.host_count == s.hosts@.len() && r.client_count == s.clients@.len() && r.active_alerts
            == s.alerts@.len(),
        r.designated_primary == s.designated_primary && r.designated_focus == s.designated_focus,
        r.input_enabled == s.input.enabled && r.active_input == s.input.active_input
            && r.switch_count == s.input.switch_count,
        s.input.active_input == 0 ==> r.active_label@ == "primary"@,
        s.input.active_input != 0 ==> r.active_label@ == "secondary"@,
        r.primary_health@ == s.input.primary_health@ && r.secondary_health@
            == s.input.secondary_health@,
        r.midi_device_status@ == s.midi_device.status@,
        r.osc_port == s.osc.port && r.osc_status@ == s.osc.status@,
        *s.active_preset matches Some(p) ==> (r.active_preset matches Some(q) && q@ == p@),
        *s.active_preset is None ==> r.active_preset is None,
        r.identify_active@.len() == s.identify@.len(),
        0 <= i < s.identify@.len() ==> r.identify_active@[i]@ == s.identify@[i].device_id@,
{
    let v = request_views(s.identify@);
    assert(texts(r.identify_active@).len() == r.identify_active@.len());
    assert(identified(v).len() == s.identify@.len());
    if 0 <= i < s.identify@.len() {
        assert(texts(r.identify_active@)[i] == r.identify_active@[i]@);
        assert(identified(v)[i] == v[i].0);
        assert(v[i].0 == s.identify@[i].device_id@);
    }
}

/// The machine and the traffic at the start: full health, and nothing measured.
pub proof fn law_status_at_the_start(system: SystemStatus, midi: MidiMetrics)
    requires
        call_ensures(SystemStatus::default, (), system),
        call_ensures(MidiMetrics::default, (), midi),
    ensures
        system.health_score == 100,
        system.cpu_percent_bits == 0 && system.cpu_temp_c_bits == 0 && system.memory_used_mb == 0
            && system.memory_total_mb == 0 && system.disk_free_mb == 0 && system.network_tx_bytes
            == 0 && system.network_rx_bytes == 0,
        midi.messages_in_per_sec_bits == 0 && midi.messages_out_per_sec_bits == 0
            && midi.bytes_in_per_sec == 0 && midi.bytes_out_per_sec == 0 && midi.total_messages == 0
            && midi.active_notes == 0 && midi.dropped_messages == 0 && midi.peak_burst_rate_bits
            == 0,
{
}

/// A browser that comes and goes leaves the number of browsers as it was; where none is
/// left, none goes.
pub proof fn law_browsers(w: &mut WsClients, v: &mut WsClients, u: &mut WsClients)
    requires
        old(w).count < u32::MAX,
        call_ensures(WsClients::connected, (w,), ()),
        *old(v) == *final(w),
        call_ensures(WsClients::disconnected, (v,), ()),
        old(u).count == 0,
        call_ensures(WsClients::disconnected, (u,), ()),
    ensures
        final(w).count == old(w).count + 1,
        final(v).count == old(w).count,
        final(u).count == 0,
{
}

/// Alerts are pushed when their number is another one than the last time, and not twice.
pub proof fn law_alerts_are_pushed(
    a: &mut AlertPush,
    count: usize,
    first: bool,
    b: &mut AlertPush,
    next: usize,
    second: bool,
)
    requires
        call_ensures(AlertPush::due, (a, count), first),
        *old(b) == *final(a),
        call_ensures(AlertPush::due, (b, next), second),
    ensures
        first <==> count != old(a).last_count,
        second <==> next != count,
{
}

/// What a stream does at an event: it forwards what was published and answers a ping, it
/// ends where it is closed, and waits otherwise.
pub proof fn law_stream(event: SocketEvent, r: SocketStep)
    requires
        call_ensures(stream_step, (event,), r),
    ensures
        r is Forward <==> event is Published,
        r is Pong <==> event is Ping,
        r is End <==> event is Closed,
        r is Wait <==> event is Lagged || event is Other,
{
}

/// What the panel is told and asks: the activity inside its message, the seconds since a
/// start, and what the tray's commands mean.
pub proof fn law_panel(
    data: &str,
    message: String,
    started: u64,
    secs: u64,
    up: u64,
    command: TrayCommand,
    r: Option<FocusCommand>,
)
    requires
        call_ensures(activity_update, (data,), message),
        started + secs <= u64::MAX,
        call_ensures(uptime_secs, ((started + secs) as u64, started), up),
        call_ensures(handle_tray_command, (command,), r),
    ensures
        message@ == "{\"type\":\"update\",\"data\":"@ + data@ + "}"@,
        up == secs,
        command is ClaimFocus <==> r == Some(FocusCommand::Claim),
        command is ReleaseFocus <==> r == Some(FocusCommand::Release),
        command is Shutdown <==> r is None,
{
}

} // verus!
