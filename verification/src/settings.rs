//! Settings of the administration service: failover, OSC port and MIDI device
//! roles, with their defaults, presets and checks.
use vstd::prelude::*;
use vstd::string::StringExecFns;

use crate::failover_state::{FailoverState, FailoverStateView};
use crate::input::{InputRedundancy, InputView};
use crate::text::{
    cat, cat3, copy_texts, decimal, joined, lowercase, same, str_join, str_trim, text_opt, texts,
    to_decimal, to_lowercase, trimmed,
};

verus! {

// ── Failover settings ──

/// When a host counts as lost.
#[derive(Clone, Copy, Debug, PartialEq, Eq, Structural)]
pub struct HeartbeatSettings {
    pub interval_ms: u64,
    pub miss_threshold: u8,
}

/// The note that triggers a failover.
#[derive(Clone, Copy, Debug, PartialEq, Eq, Structural)]
pub struct MidiTriggerSettings {
    pub enabled: bool,
    pub channel: u8,
    pub note: u8,
    pub velocity_threshold: u8,
    pub guard_note: u8,
}

/// The OSC message that triggers a failover.
#[derive(Clone, Debug)]
pub struct OscTriggerSettings {
    pub enabled: bool,
    pub listen_port: u16,
    pub address: String,
    pub allowed_sources: Vec<String>,
}

pub struct OscTriggerView {
    pub enabled: bool,
    pub listen_port: u16,
    pub address: Seq<char>,
    pub allowed_sources: Seq<Seq<char>>,
}

impl View for OscTriggerSettings {
    type V = OscTriggerView;

    open spec fn view(&self) -> OscTriggerView {
        OscTriggerView {
            enabled: self.enabled,
            listen_port: self.listen_port,
            address: self.address@,
            allowed_sources: texts(self.allowed_sources@),
        }
    }
}

/// What can trigger a failover besides a lost host.
#[derive(Clone, Debug)]
pub struct FailoverTriggerSettings {
    pub midi: MidiTriggerSettings,
    pub osc: OscTriggerSettings,
}

pub struct FailoverTriggerView {
    pub midi: MidiTriggerSettings,
    pub osc: OscTriggerView,
}

impl View for FailoverTriggerSettings {
    type V = FailoverTriggerView;

    open spec fn view(&self) -> FailoverTriggerView {
        FailoverTriggerView { midi: self.midi, osc: self.osc@ }
    }
}

/// The failover configuration.
#[derive(Clone, Debug)]
pub struct FailoverSettings {
    pub auto_enabled: bool,
    /// `manual` or `auto`.
    pub switch_back_policy: String,
    pub lockout_seconds: u64,
    /// `immediate` or `confirm`.
    pub confirmation_mode: String,
    pub heartbeat: HeartbeatSettings,
    pub triggers: FailoverTriggerSettings,
}

pub struct FailoverView {
    pub auto_enabled: bool,
    pub switch_back_policy: Seq<char>,
    pub lockout_seconds: u64,
    pub confirmation_mode: Seq<char>,
    pub heartbeat: HeartbeatSettings,
    pub triggers: FailoverTriggerView,
}

impl View for FailoverSettings {
    type V = FailoverView;

    open spec fn view(&self) -> FailoverView {
        FailoverView {
            auto_enabled: self.auto_enabled,
            switch_back_policy: self.switch_back_policy@,
            lockout_seconds: self.lockout_seconds,
            confirmation_mode: self.confirmation_mode@,
            heartbeat: self.heartbeat,
            triggers: self.triggers@,
        }
    }
}

pub fn default_true() -> (r: bool)
    ensures
        r,
{
    true
}

pub fn default_switch_back_policy() -> (r: String)
    ensures
        r@ == "manual"@,
{
    "manual".to_owned()
}

pub fn default_lockout() -> (r: u64)
    ensures
        r == 5,
{
    5
}

pub fn default_confirmation_mode() -> (r: String)
    ensures
        r@ == "immediate"@,
{
    "immediate".to_owned()
}

pub fn default_heartbeat_interval() -> (r: u64)
    ensures
        r == 3,
{
    3
}

pub fn default_miss_threshold() -> (r: u8)
    ensures
        r == 3,
{
    3
}

pub fn default_trigger_channel() -> (r: u8)
    ensures
        r == 16,
{
    16
}

pub fn default_trigger_note() -> (r: u8)
    ensures
        r == 127,
{
    127
}

pub fn default_velocity_threshold() -> (r: u8)
    ensures
        r == 100,
{
    100
}

pub fn default_osc_trigger_port() -> (r: u16)
    ensures
        r == 5588,
{
    5588
}

pub fn default_osc_address() -> (r: String)
    ensures
        r@ == "/midinet/failover/switch"@,
{
    "/midinet/failover/switch".to_owned()
}

/// The heartbeat that is used when nothing else is set.
pub open spec fn default_heartbeat() -> HeartbeatSettings {
    HeartbeatSettings { interval_ms: 3, miss_threshold: 3 }
}

/// The MIDI trigger that is used when nothing else is set.
pub open spec fn default_midi_trigger() -> MidiTriggerSettings {
    MidiTriggerSettings {
        enabled: false,
        channel: 16,
        note: 127,
        velocity_threshold: 100,
        guard_note: 0,
    }
}

/// The OSC trigger that is used when nothing else is set.
pub open spec fn default_osc_trigger() -> OscTriggerView {
    OscTriggerView {
        enabled: false,
        listen_port: 5588,
        address: "/midinet/failover/switch"@,
        allowed_sources: Seq::empty(),
    }
}

/// The triggers that are used when nothing else is set.
pub open spec fn default_triggers() -> FailoverTriggerView {
    FailoverTriggerView { midi: default_midi_trigger(), osc: default_osc_trigger() }
}

/// The failover settings that are used when nothing else is set.
pub open spec fn default_failover() -> FailoverView {
    FailoverView {
        auto_enabled: true,
        switch_back_policy: "manual"@,
        lockout_seconds: 5,
        confirmation_mode: "immediate"@,
        heartbeat: default_heartbeat(),
        triggers: default_triggers(),
    }
}

impl Default for HeartbeatSettings {
    fn default() -> (r: Self)
        ensures
            r == default_heartbeat(),
    {
        HeartbeatSettings {
            interval_ms: default_heartbeat_interval(),
            miss_threshold: default_miss_threshold(),
        }
    }
}

impl Default for MidiTriggerSettings {
    fn default() -> (r: Self)
        ensures
            r == default_midi_trigger(),
    {
        MidiTriggerSettings {
            enabled: false,
            channel: default_trigger_channel(),
            note: default_trigger_note(),
            velocity_threshold: default_velocity_threshold(),
            guard_note: 0,
        }
    }
}

impl Default for OscTriggerSettings {
    fn default() -> (r: Self)
        ensures
            r@ == default_osc_trigger(),
    {
        let r = OscTriggerSettings {
            enabled: false,
            listen_port: default_osc_trigger_port(),
            address: default_osc_address(),
            allowed_sources: Vec::new(),
        };
        assert(texts(r.allowed_sources@) =~= Seq::<Seq<char>>::empty());
        r
    }
}

impl Default for FailoverTriggerSettings {
    fn default() -> (r: Self)
        ensures
            r@ == default_triggers(),
    {
        FailoverTriggerSettings {
            midi: MidiTriggerSettings::default(),
            osc: OscTriggerSettings::default(),
        }
    }
}

impl Default for FailoverSettings {
    fn default() -> (r: Self)
        ensures
            r@ == default_failover(),
    {
        FailoverSettings {
            auto_enabled: default_true(),
            switch_back_policy: default_switch_back_policy(),
            lockout_seconds: default_lockout(),
            confirmation_mode: default_confirmation_mode(),
            heartbeat: HeartbeatSettings::default(),
            triggers: FailoverTriggerSettings::default(),
        }
    }
}

impl FailoverTriggerSettings {
    /// A copy with the same contents.
    pub fn copy(&self) -> (r: Self)
        ensures
            r@ == self@,
    {
        FailoverTriggerSettings {
            midi: self.midi,
            osc: OscTriggerSettings {
                enabled: self.osc.enabled,
                listen_port: self.osc.listen_port,
                address: self.osc.address.clone(),
                allowed_sources: copy_texts(&self.osc.allowed_sources),
            },
        }
    }
}

impl FailoverSettings {
    /// A copy with the same contents.
    pub fn copy(&self) -> (r: Self)
        ensures
            r@ == self@,
    {
        FailoverSettings {
            auto_enabled: self.auto_enabled,
            switch_back_policy: self.switch_back_policy.clone(),
            lockout_seconds: self.lockout_seconds,
            confirmation_mode: self.confirmation_mode.clone(),
            heartbeat: self.heartbeat,
            triggers: self.triggers.copy(),
        }
    }
}

// ── Presets ──

/// A named set of failover settings.
pub struct Preset {
    pub id: String,
    pub name: String,
    pub description: String,
    pub failover: FailoverSettings,
}

pub struct PresetView {
    pub id: Seq<char>,
    pub name: Seq<char>,
    pub description: Seq<char>,
    pub failover: FailoverView,
}

impl View for Preset {
    type V = PresetView;

    open spec fn view(&self) -> PresetView {
        PresetView {
            id: self.id@,
            name: self.name@,
            description: self.description@,
            failover: self.failover@,
        }
    }
}

/// Maximum stability: ten seconds of lockout, confirmation, five heartbeats of 5 ms.
pub open spec fn rock_solid() -> FailoverView {
    FailoverView {
        auto_enabled: true,
        switch_back_policy: "manual"@,
        lockout_seconds: 10,
        confirmation_mode: "confirm"@,
        heartbeat: HeartbeatSettings { interval_ms: 5, miss_threshold: 5 },
        triggers: default_triggers(),
    }
}

/// Fastest detection: two heartbeats of 2 ms.
pub open spec fn low_latency() -> FailoverView {
    FailoverView {
        auto_enabled: true,
        switch_back_policy: "manual"@,
        lockout_seconds: 3,
        confirmation_mode: "immediate"@,
        heartbeat: HeartbeatSettings { interval_ms: 2, miss_threshold: 2 },
        triggers: default_triggers(),
    }
}

/// For sound check: automatic switch-back and both triggers enabled.
pub open spec fn rehearsal() -> FailoverView {
    FailoverView {
        auto_enabled: true,
        switch_back_policy: "auto"@,
        lockout_seconds: 2,
        confirmation_mode: "immediate"@,
        heartbeat: HeartbeatSettings { interval_ms: 3, miss_threshold: 3 },
        triggers: FailoverTriggerView {
            midi: MidiTriggerSettings { enabled: true, ..default_midi_trigger() },
            osc: OscTriggerView { enabled: true, ..default_osc_trigger() },
        },
    }
}

/// The presets that come with the service.
pub open spec fn preset_list() -> Seq<PresetView> {
    seq![
        PresetView {
            id: "safe_defaults"@,
            name: "Safe Defaults"@,
            description: "Factory-safe settings. The recommended starting point for any show."@,
            failover: default_failover(),
        },
        PresetView {
            id: "rock_solid"@,
            name: "Rock Solid"@,
            description: "Maximum stability for large productions. Higher lockout and conservative heartbeat — no false positives."@,
            failover: rock_solid(),
        },
        PresetView {
            id: "low_latency"@,
            name: "Low Latency"@,
            description: "Fastest failover detection (~4ms). For reliable networks where seamless recovery is critical."@,
            failover: low_latency(),
        },
        PresetView {
            id: "rehearsal"@,
            name: "Rehearsal"@,
            description: "Relaxed settings for sound check and testing. Auto switch-back, low lockout, triggers enabled."@,
            failover: rehearsal(),
        },
    ]
}

/// The views of several presets.
pub open spec fn preset_views(v: Seq<Preset>) -> Seq<PresetView> {
    v.map_values(|p: Preset| p@)
}

fn preset(id: &str, name: &str, description: &str, failover: FailoverSettings) -> (p: Preset)
    ensures
        p@ == (PresetView {
            id: id@,
            name: name@,
            description: description@,
            failover: failover@,
        }),
{
    Preset {
        id: id.to_owned(),
        name: name.to_owned(),
        description: description.to_owned(),
        failover,
    }
}

/// The presets that come with the service.
pub fn builtin_presets() -> (presets: Vec<Preset>)
    ensures
        preset_views(presets@) == preset_list(),
{
    let mut triggers = FailoverTriggerSettings::default();
    triggers.midi.enabled = true;
    triggers.osc.enabled = true;
    let presets: Vec<Preset> = vec![
        preset(
            "safe_defaults",
            "Safe Defaults",
            "Factory-safe settings. The recommended starting point for any show.",
            FailoverSettings::default(),
        ),
        preset(
            "rock_solid",
            "Rock Solid",
            "Maximum stability for large productions. Higher lockout and conservative heartbeat — no false positives.",
            FailoverSettings {
                auto_enabled: true,
                switch_back_policy: "manual".to_owned(),
                lockout_seconds: 10,
                confirmation_mode: "confirm".to_owned(),
                heartbeat: HeartbeatSettings { interval_ms: 5, miss_threshold: 5 },
                triggers: FailoverTriggerSettings::default(),
            },
        ),
        preset(
            "low_latency",
            "Low Latency",
            "Fastest failover detection (~4ms). For reliable networks where seamless recovery is critical.",
            FailoverSettings {
                auto_enabled: true,
                switch_back_policy: "manual".to_owned(),
                lockout_seconds: 3,
                confirmation_mode: "immediate".to_owned(),
                heartbeat: HeartbeatSettings { interval_ms: 2, miss_threshold: 2 },
                triggers: FailoverTriggerSettings::default(),
            },
        ),
        preset(
            "rehearsal",
            "Rehearsal",
            "Relaxed settings for sound check and testing. Auto switch-back, low lockout, triggers enabled.",
            FailoverSettings {
                auto_enabled: true,
                switch_back_policy: "auto".to_owned(),
                lockout_seconds: 2,
                confirmation_mode: "immediate".to_owned(),
                heartbeat: HeartbeatSettings { interval_ms: 3, miss_threshold: 3 },
                triggers,
            },
        ),
    ];
    assert(preset_views(presets@) =~= preset_list());
    presets
}

// ── Checks ──

/// Why a port cannot be listened on, if it cannot.
pub open spec fn port_error(port: u16) -> Option<Seq<char>> {
    if port < 1024 {
        Some("Port must be 1024 or higher (privileged ports require root)."@)
    } else if port == 5004 || port == 5005 || port == 5006 {
        Some(
            "Port "@ + decimal(port as nat)
                + " conflicts with MIDInet data/heartbeat/control channels."@,
        )
    } else {
        None
    }
}

/// Whether a result is fine, or fails with the given message.
pub open spec fn fails_with<T>(r: Result<T, String>, error: Option<Seq<char>>) -> bool {
    match (r, error) {
        (Err(e), Some(m)) => e@ == m,
        (Ok(_), None) => true,
        _ => false,
    }
}

/// Checks a port: it is not privileged and MIDInet does not use it itself.
pub fn validate_port(port: u16) -> (r: Result<(), String>)
    ensures
        fails_with(r, port_error(port)),
{
    if port < 1024 {
        return Err("Port must be 1024 or higher (privileged ports require root).".to_owned());
    }
    if port == 5004 || port == 5005 || port == 5006 {
        let number = to_decimal(port as u64);
        return Err(
            cat3(
                "Port ",
                number.as_str(),
                " conflicts with MIDInet data/heartbeat/control channels.",
            ),
        );
    }
    Ok(())
}

/// A list of one text, or of none.
pub open spec fn warn_if(cond: bool, warning: Seq<char>) -> Seq<Seq<char>> {
    if cond {
        seq![warning]
    } else {
        Seq::empty()
    }
}

/// The time in which a lost host is noticed, in milliseconds.
pub open spec fn failover_time(h: HeartbeatSettings) -> int {
    h.interval_ms * h.miss_threshold
}

/// What is to be said about the lockout and the heartbeat.
pub open spec fn timing_warnings(s: FailoverView) -> Seq<Seq<char>> {
    warn_if(
        s.lockout_seconds < 1,
        "Lockout of 0s is dangerous — failover can oscillate with no delay between switches."@,
    ) + warn_if(
        1 <= s.lockout_seconds < 3,
        "Lockout below 3s risks oscillation during power surges or network instability."@,
    ) + warn_if(
        s.heartbeat.interval_ms < 2,
        "Heartbeat interval below 2ms may cause false positives on congested networks."@,
    ) + warn_if(
        s.heartbeat.miss_threshold < 2,
        "Single-miss threshold is aggressive — any single dropped packet triggers failover."@,
    ) + warn_if(
        failover_time(s.heartbeat) > 50,
        "Failover detection time is "@ + decimal(failover_time(s.heartbeat) as nat)
            + "ms — significant audio gap may be audible."@,
    )
}

/// What is to be said about switching back and about the triggers.
pub open spec fn trigger_warnings(s: FailoverView) -> Seq<Seq<char>> {
    warn_if(
        s.switch_back_policy == "auto"@,
        "Auto switch-back risks oscillation if the primary host is flapping. Use 'manual' for live shows."@,
    ) + warn_if(
        s.triggers.midi.enabled && s.triggers.midi.channel <= 10,
        "MIDI trigger on channels 1-10 may conflict with performance data. Consider channel 15 or 16."@,
    ) + warn_if(
        s.triggers.osc.enabled && s.triggers.osc.allowed_sources.len() == 0,
        "OSC trigger has no source restriction — any device on the network can trigger failover."@,
    )
}

/// Everything that is to be said about failover settings.
pub open spec fn failover_warnings(s: FailoverView) -> Seq<Seq<char>> {
    timing_warnings(s) + trigger_warnings(s)
}

fn push_if(list: &mut Vec<String>, cond: bool, warning: &str)
    ensures
        texts(final(list)@) == texts(old(list)@) + warn_if(cond, warning@),
{
    if cond {
        let ghost before = texts(list@);
        list.push(warning.to_owned());
        assert(texts(list@) =~= before + seq![warning@]);
    } else {
        assert(texts(list@) =~= texts(list@) + Seq::<Seq<char>>::empty());
    }
}

fn timing_risks(settings: &FailoverSettings) -> (warnings: Vec<String>)
    requires
        failover_time(settings.heartbeat) <= u64::MAX,
    ensures
        texts(warnings@) == timing_warnings(settings@),
{
    let mut warnings: Vec<String> = Vec::new();
    push_if(
        &mut warnings,
        settings.lockout_seconds < 1,
        "Lockout of 0s is dangerous — failover can oscillate with no delay between switches.",
    );
    assert(texts(warnings@) =~= warn_if(
        settings.lockout_seconds < 1,
        "Lockout of 0s is dangerous — failover can oscillate with no delay between switches."@,
    ));
    push_if(
        &mut warnings,
        1 <= settings.lockout_seconds && settings.lockout_seconds < 3,
        "Lockout below 3s risks oscillation during power surges or network instability.",
    );
    push_if(
        &mut warnings,
        settings.heartbeat.interval_ms < 2,
        "Heartbeat interval below 2ms may cause false positives on congested networks.",
    );
    push_if(
        &mut warnings,
        settings.heartbeat.miss_threshold < 2,
        "Single-miss threshold is aggressive — any single dropped packet triggers failover.",
    );
    let time: u64 = settings.heartbeat.interval_ms * settings.heartbeat.miss_threshold as u64;
    let number = to_decimal(time);
    let slow = cat3(
        "Failover detection time is ",
        number.as_str(),
        "ms — significant audio gap may be audible.",
    );
    push_if(&mut warnings, time > 50, slow.as_str());
    warnings
}

fn trigger_risks(settings: &FailoverSettings) -> (warnings: Vec<String>)
    ensures
        texts(warnings@) == trigger_warnings(settings@),
{
    let mut warnings: Vec<String> = Vec::new();
    push_if(
        &mut warnings,
        same(settings.switch_back_policy.as_str(), "auto"),
        "Auto switch-back risks oscillation if the primary host is flapping. Use 'manual' for live shows.",
    );
    assert(texts(warnings@) =~= warn_if(
        settings.switch_back_policy@ == "auto"@,
        "Auto switch-back risks oscillation if the primary host is flapping. Use 'manual' for live shows."@,
    ));
    push_if(
        &mut warnings,
        settings.triggers.midi.enabled && settings.triggers.midi.channel <= 10,
        "MIDI trigger on channels 1-10 may conflict with performance data. Consider channel 15 or 16.",
    );
    push_if(
        &mut warnings,
        settings.triggers.osc.enabled && settings.triggers.osc.allowed_sources.len() == 0,
        "OSC trigger has no source restriction — any device on the network can trigger failover.",
    );
    warnings
}

/// The risks of failover settings, in words.
pub fn validate_failover_warnings(settings: &FailoverSettings) -> (warnings: Vec<String>)
    requires
        failover_time(settings.heartbeat) <= u64::MAX,
    ensures
        texts(warnings@) == failover_warnings(settings@),
{
    let mut warnings = timing_risks(settings);
    let mut others = trigger_risks(settings);
    let ghost first = warnings@;
    let ghost second = others@;
    warnings.append(&mut others);
    assert(texts(first + second) =~= texts(first) + texts(second));
    warnings
}

// ── The settings in force ──

/// The OSC listener: its port and whether it is listening.
#[derive(Clone, Debug)]
pub struct OscPortState {
    pub port: u16,
    /// `listening`, `stopped` or `error`.
    pub status: String,
}

pub struct OscPortView {
    pub port: u16,
    pub status: Seq<char>,
}

impl View for OscPortState {
    type V = OscPortView;

    open spec fn view(&self) -> OscPortView {
        OscPortView { port: self.port, status: self.status@ }
    }
}

impl Default for OscPortState {
    fn default() -> (r: Self)
        ensures
            r@ == (OscPortView { port: 5588, status: "stopped"@ }),
    {
        OscPortState { port: 5588, status: "stopped".to_owned() }
    }
}

/// The connection of the MIDI device.
#[derive(Clone, Debug)]
pub struct MidiDeviceStatus {
    /// `connected`, `disconnected`, `error` or `switching`.
    pub status: String,
    pub error_message: Option<String>,
}

pub struct MidiDeviceStatusView {
    pub status: Seq<char>,
    pub error_message: Option<Seq<char>>,
}

impl View for MidiDeviceStatus {
    type V = MidiDeviceStatusView;

    open spec fn view(&self) -> MidiDeviceStatusView {
        MidiDeviceStatusView { status: self.status@, error_message: text_opt(self.error_message) }
    }
}

impl Default for MidiDeviceStatus {
    fn default() -> (r: Self)
        ensures
            r@ == (MidiDeviceStatusView { status: "disconnected"@, error_message: None }),
    {
        MidiDeviceStatus { status: "disconnected".to_owned(), error_message: None }
    }
}

/// A MIDI device that is plugged in.
#[derive(Clone, Debug)]
pub struct MidiDeviceInfo {
    pub id: String,
    pub name: String,
    pub manufacturer: String,
    pub vendor_id: u16,
    pub product_id: u16,
    pub port_count_in: u8,
    pub port_count_out: u8,
    pub connected: bool,
}

/// The settings that can be changed while the service runs.
pub struct Settings {
    pub failover_config: FailoverSettings,
    pub failover_state: FailoverState,
    pub osc_port_state: OscPortState,
    pub active_device: Option<String>,
    pub backup_device: Option<String>,
    pub midi_device_status: MidiDeviceStatus,
    pub input_redundancy: InputRedundancy,
    /// The preset in force; none after a change by hand.
    pub active_preset: Option<String>,
}

pub struct SettingsView {
    pub failover_config: FailoverView,
    pub failover_state: FailoverStateView,
    pub osc_port_state: OscPortView,
    pub active_device: Option<Seq<char>>,
    pub backup_device: Option<Seq<char>>,
    pub midi_device_status: MidiDeviceStatusView,
    pub input_redundancy: InputView,
    pub active_preset: Option<Seq<char>>,
}

impl View for Settings {
    type V = SettingsView;

    open spec fn view(&self) -> SettingsView {
        SettingsView {
            failover_config: self.failover_config@,
            failover_state: self.failover_state@,
            osc_port_state: self.osc_port_state@,
            active_device: text_opt(self.active_device),
            backup_device: text_opt(self.backup_device),
            midi_device_status: self.midi_device_status@,
            input_redundancy: self.input_redundancy@,
            active_preset: text_opt(self.active_preset),
        }
    }
}

/// A change of some failover settings; what is absent stays as it is.
pub struct SetFailoverRequest {
    pub auto_enabled: Option<bool>,
    pub switch_back_policy: Option<String>,
    pub lockout_seconds: Option<u64>,
    pub confirmation_mode: Option<String>,
    pub heartbeat: Option<HeartbeatSettings>,
    pub triggers: Option<FailoverTriggerSettings>,
}

pub struct SetFailoverView {
    pub auto_enabled: Option<bool>,
    pub switch_back_policy: Option<Seq<char>>,
    pub lockout_seconds: Option<u64>,
    pub confirmation_mode: Option<Seq<char>>,
    pub heartbeat: Option<HeartbeatSettings>,
    pub triggers: Option<FailoverTriggerView>,
}

impl View for SetFailoverRequest {
    type V = SetFailoverView;

    open spec fn view(&self) -> SetFailoverView {
        SetFailoverView {
            auto_enabled: self.auto_enabled,
            switch_back_policy: text_opt(self.switch_back_policy),
            lockout_seconds: self.lockout_seconds,
            confirmation_mode: text_opt(self.confirmation_mode),
            heartbeat: self.heartbeat,
            triggers: match self.triggers {
                Some(t) => Some(t@),
                None => None,
            },
        }
    }
}

/// A request for another OSC port.
#[derive(Clone, Copy, Debug)]
pub struct SetOscPortRequest {
    pub port: u16,
}

/// A request to give a MIDI device a role.
pub struct SetMidiDeviceRequest {
    pub device_id: String,
    /// `active` or `backup`.
    pub role: String,
}

/// A request to apply a preset.
pub struct ApplyPresetRequest {
    pub preset: String,
}

/// The role of a device when a request names none.
pub fn default_role_active() -> (r: String)
    ensures
        r@ == "active"@,
{
    "active".to_owned()
}

/// What is wrong with new triggers, if anything is.
pub open spec fn trigger_error(t: FailoverTriggerView) -> Option<Seq<char>> {
    if t.midi.channel == 0 || t.midi.channel > 16 {
        Some("MIDI trigger channel must be 1-16"@)
    } else if t.midi.note > 127 {
        Some("MIDI trigger note must be 0-127"@)
    } else if t.osc.enabled && port_error(t.osc.listen_port) is Some {
        Some("OSC trigger port: "@ + port_error(t.osc.listen_port)->0)
    } else {
        None
    }
}

/// What is wrong with a change of failover settings: the first fault, if any.
pub open spec fn failover_request_error(req: SetFailoverView) -> Option<Seq<char>> {
    if req.switch_back_policy is Some && req.switch_back_policy->0 != "manual"@
        && req.switch_back_policy->0 != "auto"@ {
        Some("switch_back_policy must be 'manual' or 'auto'"@)
    } else if req.lockout_seconds is Some && req.lockout_seconds->0 > 300 {
        Some("lockout_seconds must be 0-300"@)
    } else if req.confirmation_mode is Some && req.confirmation_mode->0 != "immediate"@
        && req.confirmation_mode->0 != "confirm"@ {
        Some("confirmation_mode must be 'immediate' or 'confirm'"@)
    } else if req.heartbeat is Some && (req.heartbeat->0.interval_ms == 0
        || req.heartbeat->0.interval_ms > 1000) {
        Some("heartbeat.interval_ms must be 1-1000"@)
    } else if req.heartbeat is Some && (req.heartbeat->0.miss_threshold == 0
        || req.heartbeat->0.miss_threshold > 20) {
        Some("heartbeat.miss_threshold must be 1-20"@)
    } else if req.triggers is Some {
        trigger_error(req.triggers->0)
    } else {
        None
    }
}

/// The value of a request where it has one, else the value in force.
pub open spec fn or_keep<T>(new: Option<T>, old: T) -> T {
    match new {
        Some(v) => v,
        None => old,
    }
}

/// Failover settings after a change.
pub open spec fn merged(s: FailoverView, req: SetFailoverView) -> FailoverView {
    FailoverView {
        auto_enabled: or_keep(req.auto_enabled, s.auto_enabled),
        switch_back_policy: or_keep(req.switch_back_policy, s.switch_back_policy),
        lockout_seconds: or_keep(req.lockout_seconds, s.lockout_seconds),
        confirmation_mode: or_keep(req.confirmation_mode, s.confirmation_mode),
        heartbeat: or_keep(req.heartbeat, s.heartbeat),
        triggers: or_keep(req.triggers, s.triggers),
    }
}

/// The settings with another failover configuration, of which the failover
/// state takes over its part.
pub open spec fn with_failover(s: SettingsView, f: FailoverView, preset: Option<Seq<char>>) -> SettingsView {
    SettingsView {
        failover_config: f,
        failover_state: FailoverStateView {
            auto_enabled: f.auto_enabled,
            lockout_seconds: f.lockout_seconds,
            confirmation_mode: f.confirmation_mode,
            ..s.failover_state
        },
        active_preset: preset,
        ..s
    }
}

/// The text of a string as the Debug format shows it.
pub uninterp spec fn debug_form(s: Seq<char>) -> Seq<char>;

/// The `Debug` format of a `str`: the text in quotes with some characters
/// escaped. It depends on the text alone.
#[verifier::external_body]
pub(crate) fn debug_text(s: &str) -> (r: String)
    ensures
        r@ == debug_form(s@),
{
    format!("{:?}", s)
}

/// The ids of several devices.
pub open spec fn device_ids(devices: Seq<MidiDeviceInfo>) -> Seq<Seq<char>> {
    devices.map_values(|d: MidiDeviceInfo| d.id@)
}

/// The ids of several devices, as a list in brackets.
pub open spec fn id_list(devices: Seq<MidiDeviceInfo>) -> Seq<char> {
    "["@ + joined(device_ids(devices).map_values(|s: Seq<char>| debug_form(s)), ", "@) + "]"@
}

/// The name of the first device with an id, or the id itself.
pub open spec fn device_name_of(devices: Seq<MidiDeviceInfo>, id: Seq<char>) -> Seq<char>
    decreases devices.len(),
{
    if devices.len() == 0 {
        id
    } else if devices[0].id@ == id {
        devices[0].name@
    } else {
        device_name_of(devices.drop_first(), id)
    }
}

/// The role that is not the given one.
pub open spec fn other_role(role: Seq<char>) -> Seq<char> {
    if role == "active"@ {
        "backup"@
    } else {
        "active"@
    }
}

/// The device that has a role.
pub open spec fn device_in_role(s: SettingsView, role: Seq<char>) -> Option<Seq<char>> {
    if role == "active"@ {
        s.active_device
    } else {
        s.backup_device
    }
}

/// Why a device cannot be given a role, if it cannot.
pub open spec fn device_error(
    s: SettingsView,
    devices: Seq<MidiDeviceInfo>,
    id: Seq<char>,
    role: Seq<char>,
) -> Option<Seq<char>> {
    if role != "active"@ && role != "backup"@ {
        Some("role must be 'active' or 'backup'"@)
    } else if id.len() == 0 && role == "backup"@ {
        None
    } else if id.len() == 0 {
        Some("device_id cannot be empty"@)
    } else if !device_ids(devices).contains(id) && id != "auto"@ {
        Some("Device '"@ + id + "' not found. Available: "@ + id_list(devices))
    } else if device_in_role(s, other_role(role)) == Some(id) {
        Some(
            "Device '"@ + id + "' is already assigned as "@ + other_role(role)
                + ". Choose a different device."@,
        )
    } else {
        None
    }
}

/// The settings after a device was given a role. The empty id takes the
/// backup role away.
pub open spec fn with_device(
    s: SettingsView,
    devices: Seq<MidiDeviceInfo>,
    id: Seq<char>,
    role: Seq<char>,
) -> SettingsView {
    if id.len() == 0 {
        SettingsView {
            backup_device: None,
            input_redundancy: InputView {
                secondary_device: Seq::empty(),
                secondary_health: "unknown"@,
                enabled: false,
                ..s.input_redundancy
            },
            active_preset: None,
            ..s
        }
    } else if role == "active"@ {
        SettingsView {
            active_device: Some(id),
            midi_device_status: MidiDeviceStatusView {
                status: "switching"@,
                error_message: None,
            },
            input_redundancy: InputView {
                primary_device: device_name_of(devices, id),
                primary_health: "active"@,
                ..s.input_redundancy
            },
            active_preset: None,
            ..s
        }
    } else {
        SettingsView {
            backup_device: Some(id),
            input_redundancy: InputView {
                secondary_device: device_name_of(devices, id),
                secondary_health: "active"@,
                enabled: true,
                ..s.input_redundancy
            },
            active_preset: None,
            ..s
        }
    }
}

/// No device has both roles.
pub open spec fn roles_distinct(s: SettingsView) -> bool {
    s.active_device is Some ==> s.active_device != s.backup_device
}

/// The device with an id.
fn find_device(devices: &Vec<MidiDeviceInfo>, id: &str) -> (r: Option<String>)
    ensures
        match r {
            Some(name) => {
                &&& device_ids(devices@).contains(id@)
                &&& name@ == device_name_of(devices@, id@)
            },
            None => {
                &&& !device_ids(devices@).contains(id@)
                &&& device_name_of(devices@, id@) == id@
            },
        },
{
    let mut i: usize = 0;
    assert(devices@.skip(0) =~= devices@);
    while i < devices.len()
        invariant
            i <= devices@.len(),
            forall|j: int| 0 <= j < i ==> device_ids(devices@)[j] != id@,
            device_name_of(devices@.skip(i as int), id@) == device_name_of(devices@, id@),
        decreases devices@.len() - i,
    {
        if same(devices[i].id.as_str(), id) {
            assert(device_ids(devices@)[i as int] == id@);
            return Some(devices[i].name.clone());
        }
        assert(devices@.skip(i as int).drop_first() =~= devices@.skip(i + 1));
        i += 1;
    }
    None
}

/// The ids of the devices, as a list in brackets.
fn list_ids(devices: &Vec<MidiDeviceInfo>) -> (r: String)
    ensures
        r@ == id_list(devices@),
{
    let ghost shown = device_ids(devices@).map_values(|s: Seq<char>| debug_form(s));
    let mut ids: Vec<String> = Vec::new();
    let mut i: usize = 0;
    while i < devices.len()
        invariant
            i <= devices@.len(),
            shown == device_ids(devices@).map_values(|s: Seq<char>| debug_form(s)),
            texts(ids@) =~= shown.take(i as int),
        decreases devices@.len() - i,
    {
        let ghost before = texts(ids@);
        let id = debug_text(devices[i].id.as_str());
        ids.push(id);
        assert(texts(ids@) =~= before.push(id@));
        i += 1;
    }
    assert(shown.take(i as int) =~= shown);
    let inner = str_join(&ids, ", ");
    cat3("[", inner.as_str(), "]")
}

/// What came of a request to give a device a role.
pub enum DeviceReply {
    BackupCleared,
    Assigned { role: String, device: String },
}

impl Settings {
    /// The settings at the start.
    pub fn new(activity_timeout_s: u64) -> (r: Self)
        ensures
            r.failover_config@ == default_failover(),
            r@.failover_state == crate::failover_state::initial_failover_state(),
            r@.osc_port_state == (OscPortView { port: 5588, status: "stopped"@ }),
            r@.active_device is None,
            r@.backup_device is None,
            r@.midi_device_status == (MidiDeviceStatusView {
                status: "disconnected"@,
                error_message: None,
            }),
            r@.input_redundancy == (InputView {
                enabled: false,
                auto_switch_enabled: true,
                active_input: 0,
                primary_health: "unknown"@,
                secondary_health: "unknown"@,
                primary_device: Seq::empty(),
                secondary_device: Seq::empty(),
                switch_count: 0,
                activity_timeout_s,
                last_switch: None,
                history: Seq::empty(),
            }),
            crate::input::wf_input(r@.input_redundancy),
            r@.active_preset is None,
            roles_distinct(r@),
    {
        Settings {
            failover_config: FailoverSettings::default(),
            failover_state: FailoverState::default(),
            osc_port_state: OscPortState::default(),
            active_device: None,
            backup_device: None,
            midi_device_status: MidiDeviceStatus::default(),
            input_redundancy: InputRedundancy::new(activity_timeout_s),
            active_preset: None,
        }
    }

    /// Puts a failover configuration in force.
    fn install_failover(&mut self, f: FailoverSettings, preset: Option<String>)
        ensures
            final(self)@ == with_failover(old(self)@, f@, text_opt(preset)),
    {
        self.failover_state.auto_enabled = f.auto_enabled;
        self.failover_state.lockout_seconds = f.lockout_seconds;
        self.failover_state.confirmation_mode = f.confirmation_mode.clone();
        self.failover_config = f;
        self.active_preset = preset;
    }

    /// Changes failover settings. Nothing changes where the request is at
    /// fault; otherwise the risks of the new settings are returned.
    pub fn set_failover(&mut self, req: SetFailoverRequest) -> (r: Result<Vec<String>, String>)
        requires
            failover_request_error(req@) is None && req.heartbeat is None ==> failover_time(
                old(self).failover_config.heartbeat,
            ) <= u64::MAX,
        ensures
            match failover_request_error(req@) {
                Some(e) => r matches Err(m) && m@ == e && final(self)@ == old(self)@,
                None => {
                    let f = merged(old(self)@.failover_config, req@);
                    &&& r matches Ok(w) && texts(w@) == failover_warnings(f)
                    &&& final(self)@ == with_failover(old(self)@, f, None)
                },
            },
    {
        let mut s = self.failover_config.copy();
        if let Some(v) = req.auto_enabled {
            s.auto_enabled = v;
        }
        if let Some(v) = req.switch_back_policy {
            if !same(v.as_str(), "manual") && !same(v.as_str(), "auto") {
                return Err("switch_back_policy must be 'manual' or 'auto'".to_owned());
            }
            s.switch_back_policy = v;
        }
        if let Some(v) = req.lockout_seconds {
            if v > 300 {
                return Err("lockout_seconds must be 0-300".to_owned());
            }
            s.lockout_seconds = v;
        }
        if let Some(v) = req.confirmation_mode {
            if !same(v.as_str(), "immediate") && !same(v.as_str(), "confirm") {
                return Err("confirmation_mode must be 'immediate' or 'confirm'".to_owned());
            }
            s.confirmation_mode = v;
        }
        if let Some(v) = req.heartbeat {
            if v.interval_ms == 0 || v.interval_ms > 1000 {
                return Err("heartbeat.interval_ms must be 1-1000".to_owned());
            }
            if v.miss_threshold == 0 || v.miss_threshold > 20 {
                return Err("heartbeat.miss_threshold must be 1-20".to_owned());
            }
            s.heartbeat = v;
        }
        if let Some(v) = req.triggers {
            if v.midi.channel == 0 || v.midi.channel > 16 {
                return Err("MIDI trigger channel must be 1-16".to_owned());
            }
            if v.midi.note > 127 {
                return Err("MIDI trigger note must be 0-127".to_owned());
            }
            if v.osc.enabled {
                if let Err(msg) = validate_port(v.osc.listen_port) {
                    return Err(cat("OSC trigger port: ", msg.as_str()));
                }
            }
            s.triggers = v;
        }
        assert(failover_time(s.heartbeat) <= u64::MAX) by {
            if req.heartbeat is Some {
                assert(s.heartbeat.interval_ms * s.heartbeat.miss_threshold <= 20_000)
                    by (nonlinear_arith)
                    requires
                        s.heartbeat.interval_ms <= 1000,
                        s.heartbeat.miss_threshold <= 20,
                ;
            }
        }
        let warnings = validate_failover_warnings(&s);
        self.install_failover(s, None);
        Ok(warnings)
    }

    /// Puts a preset in force.
    pub fn apply_preset(&mut self, req: &ApplyPresetRequest) -> (r: Result<Preset, String>)
        ensures
            match r {
                Ok(p) => {
                    &&& preset_list().contains(p@)
                    &&& p@.id == req.preset@
                    &&& final(self)@ == with_failover(old(self)@, p@.failover, Some(p@.id))
                },
                Err(e) => {
                    &&& forall|i: int|
                        0 <= i < preset_list().len() ==> (#[trigger] preset_list()[i]).id
                            != req.preset@
                    &&& e@ == "Unknown preset '"@ + req.preset@
                        + "'. Available: [\"safe_defaults\", \"rock_solid\", \"low_latency\", \"rehearsal\"]"@
                    &&& final(self)@ == old(self)@
                },
            },
    {
        let mut presets = builtin_presets();
        let mut i: usize = 0;
        while i < presets.len()
            invariant
                i <= presets@.len(),
                self@ == old(self)@,
                preset_views(presets@) == preset_list(),
                forall|j: int|
                    0 <= j < i ==> (#[trigger] preset_list()[j]).id != req.preset@,
            decreases presets@.len() - i,
        {
            if same(presets[i].id.as_str(), req.preset.as_str()) {
                let p = presets.remove(i);
                assert(preset_list()[i as int] == p@);
                self.install_failover(p.failover.copy(), Some(p.id.clone()));
                return Ok(p);
            }
            assert(preset_list()[i as int] == presets@[i as int]@);
            i += 1;
        }
        assert(preset_list().len() == presets@.len());
        Err(
            cat3(
                "Unknown preset '",
                req.preset.as_str(),
                "'. Available: [\"safe_defaults\", \"rock_solid\", \"low_latency\", \"rehearsal\"]",
            ),
        )
    }

    /// Changes the port of the OSC listener. The answer says whether the
    /// listener has to bind again.
    pub fn set_osc_port(&mut self, req: &SetOscPortRequest) -> (r: Result<bool, String>)
        ensures
            match port_error(req.port) {
                Some(e) => r matches Err(m) && m@ == e && final(self)@ == old(self)@,
                None => if req.port == old(self).osc_port_state.port {
                    r == Ok::<bool, String>(false) && final(self)@ == old(self)@
                } else {
                    &&& r == Ok::<bool, String>(true)
                    &&& final(self)@ == (SettingsView {
                        osc_port_state: OscPortView { port: req.port, status: "listening"@ },
                        ..old(self)@
                    })
                },
            },
    {
        if let Err(msg) = validate_port(req.port) {
            return Err(msg);
        }
        if req.port == self.osc_port_state.port {
            return Ok(false);
        }
        self.osc_port_state.port = req.port;
        self.osc_port_state.status = "listening".to_owned();
        Ok(true)
    }

    /// Gives a MIDI device a role, or takes the backup role away.
    pub fn set_midi_device(
        &mut self,
        req: &SetMidiDeviceRequest,
        devices: &Vec<MidiDeviceInfo>,
    ) -> (r: Result<DeviceReply, String>)
        ensures
            ({
                let id = trimmed(req.device_id@);
                let role = lowercase(trimmed(req.role@));
                match device_error(old(self)@, devices@, id, role) {
                    Some(e) => r matches Err(m) && m@ == e && final(self)@ == old(self)@,
                    None => {
                        &&& final(self)@ == with_device(old(self)@, devices@, id, role)
                        &&& match r {
                            Ok(DeviceReply::BackupCleared) => id.len() == 0,
                            Ok(DeviceReply::Assigned { role: a, device }) => {
                                id.len() > 0 && a@ == role && device@ == id
                            },
                            Err(_) => false,
                        }
                    },
                }
            }),
            roles_distinct(old(self)@) ==> roles_distinct(final(self)@),
    {
        let id = str_trim(req.device_id.as_str());
        let role_text = str_trim(req.role.as_str());
        let role = to_lowercase(role_text.as_str());
        let active = same(role.as_str(), "active");
        proof {
            reveal_strlit("active");
            reveal_strlit("backup");
            assert("active"@[0] != "backup"@[0]);
        }
        if !active && !same(role.as_str(), "backup") {
            return Err("role must be 'active' or 'backup'".to_owned());
        }
        if id.as_str().is_empty() {
            if active {
                return Err("device_id cannot be empty".to_owned());
            }
            self.backup_device = None;
            self.input_redundancy.secondary_device = String::new();
            self.input_redundancy.secondary_health = "unknown".to_owned();
            self.input_redundancy.enabled = false;
            self.active_preset = None;
            return Ok(DeviceReply::BackupCleared);
        }
        let found = find_device(devices, id.as_str());
        if found.is_none() && !same(id.as_str(), "auto") {
            let list = list_ids(devices);
            let mut e = cat3("Device '", id.as_str(), "' not found. Available: ");
            e.append(list.as_str());
            return Err(e);
        }
        let name: String = match found {
            Some(n) => n,
            None => id.clone(),
        };
        let taken = match if active {
            &self.backup_device
        } else {
            &self.active_device
        } {
            Some(other) => same(other.as_str(), id.as_str()),
            None => false,
        };
        if taken {
            let mut e = cat3("Device '", id.as_str(), "' is already assigned as ");
            e.append(if active { "backup" } else { "active" });
            e.append(". Choose a different device.");
            return Err(e);
        }
        if active {
            self.active_device = Some(id.clone());
            self.midi_device_status = MidiDeviceStatus {
                status: "switching".to_owned(),
                error_message: None,
            };
            self.input_redundancy.primary_device = name;
            self.input_redundancy.primary_health = "active".to_owned();
        } else {
            self.backup_device = Some(id.clone());
            self.input_redundancy.secondary_device = name;
            self.input_redundancy.secondary_health = "active".to_owned();
            self.input_redundancy.enabled = true;
        }
        self.active_preset = None;
        Ok(DeviceReply::Assigned { role, device: id })
    }
}

/// The factory defaults carry no risk that the service warns about.
pub proof fn law_defaults_are_safe()
    ensures
        failover_warnings(default_failover()) == Seq::<Seq<char>>::empty(),
{
    reveal_strlit("manual");
    reveal_strlit("auto");
    assert("manual"@.len() != "auto"@.len());
    assert(failover_warnings(default_failover()) =~= Seq::<Seq<char>>::empty());
}

/// A request without fields changes no failover setting.
pub proof fn law_empty_request(s: FailoverView, req: SetFailoverView)
    requires
        req == (SetFailoverView {
            auto_enabled: None,
            switch_back_policy: None,
            lockout_seconds: None,
            confirmation_mode: None,
            heartbeat: None,
            triggers: None,
        }),
    ensures
        failover_request_error(req) is None,
        merged(s, req) == s,
{
}

/// The same change made twice is the change made once.
pub proof fn law_merge_idempotent(s: FailoverView, req: SetFailoverView)
    ensures
        merged(merged(s, req), req) == merged(s, req),
{
}

/// Accepted changes keep the settings within their limits.
pub open spec fn within_limits(s: FailoverView) -> bool {
    &&& s.switch_back_policy == "manual"@ || s.switch_back_policy == "auto"@
    &&& s.lockout_seconds <= 300
    &&& s.confirmation_mode == "immediate"@ || s.confirmation_mode == "confirm"@
    &&& 1 <= s.heartbeat.interval_ms <= 1000
    &&& 1 <= s.heartbeat.miss_threshold <= 20
    &&& 1 <= s.triggers.midi.channel <= 16
    &&& s.triggers.midi.note <= 127
    &&& s.triggers.osc.enabled ==> port_error(s.triggers.osc.listen_port) is None
}

/// The presets are within the limits, and every accepted change of settings
/// within the limits leads to settings within the limits.
pub proof fn law_settings_stay_within_limits(s: FailoverView, req: SetFailoverView, i: int)
    requires
        within_limits(s),
        failover_request_error(req) is None,
        0 <= i < preset_list().len(),
    ensures
        within_limits(merged(s, req)),
        within_limits(preset_list()[i].failover),
{
}

/// A change of the failover settings that succeeds puts every field of the request
/// in force and leaves every other field as it was.
pub proof fn law_change_takes_effect(
    s: &mut Settings,
    req: SetFailoverRequest,
    warnings: Vec<String>,
)
    requires
        call_ensures(Settings::set_failover, (s, req), Ok(warnings)),
    ensures
        ({
            let before = old(s).failover_config;
            let after = final(s).failover_config;
            &&& after.auto_enabled == match req.auto_enabled {
                Some(v) => v,
                None => before.auto_enabled,
            }
            &&& after.switch_back_policy@ == match req.switch_back_policy {
                Some(v) => v@,
                None => before.switch_back_policy@,
            }
            &&& after.lockout_seconds == match req.lockout_seconds {
                Some(v) => v,
                None => before.lockout_seconds,
            }
            &&& after.confirmation_mode@ == match req.confirmation_mode {
                Some(v) => v@,
                None => before.confirmation_mode@,
            }
            &&& after.heartbeat == match req.heartbeat {
                Some(v) => v,
                None => before.heartbeat,
            }
            &&& after.triggers@ == match req.triggers {
                Some(v) => v@,
                None => before.triggers@,
            }
        }),
{
    let x = final(s)@;
    assert(x.failover_config == final(s).failover_config@);
}

/// A change of the failover settings succeeds exactly when every field that it gives
/// is allowed.
pub proof fn law_change_is_allowed(
    s: &mut Settings,
    req: SetFailoverRequest,
    r: Result<Vec<String>, String>,
)
    requires
        call_ensures(Settings::set_failover, (s, req), r),
    ensures
        r is Ok <==> {
            &&& req.switch_back_policy matches Some(v) ==> v@ == "manual"@ || v@ == "auto"@
            &&& req.lockout_seconds matches Some(v) ==> v <= 300
            &&& req.confirmation_mode matches Some(v) ==> v@ == "immediate"@ || v@ == "confirm"@
            &&& req.heartbeat matches Some(h) ==> 1 <= h.interval_ms <= 1000 && 1
                <= h.miss_threshold <= 20
            &&& req.triggers matches Some(t) ==> {
                &&& 1 <= t.midi.channel <= 16
                &&& t.midi.note <= 127
                &&& t.osc.enabled ==> t.osc.listen_port >= 1024 && t.osc.listen_port != 5004
                    && t.osc.listen_port != 5005 && t.osc.listen_port != 5006
            }
        },
{
}

/// A change that is refused says which field is at fault, and changes nothing.
pub proof fn law_refused_change(s: &mut Settings, req: SetFailoverRequest, e: String)
    requires
        call_ensures(Settings::set_failover, (s, req), Err(e)),
    ensures
        final(s)@ == old(s)@,
        ({
            ||| e@ == "switch_back_policy must be 'manual' or 'auto'"@ && (
            req.switch_back_policy matches Some(v) && v@ != "manual"@ && v@ != "auto"@)
            ||| e@ == "lockout_seconds must be 0-300"@ && (req.lockout_seconds matches Some(v) && v
                > 300)
            ||| e@ == "confirmation_mode must be 'immediate' or 'confirm'"@ && (
            req.confirmation_mode matches Some(v) && v@ != "immediate"@ && v@ != "confirm"@)
            ||| e@ == "heartbeat.interval_ms must be 1-1000"@ && (req.heartbeat matches Some(h)
                && !(1 <= h.interval_ms <= 1000))
            ||| e@ == "heartbeat.miss_threshold must be 1-20"@ && (req.heartbeat matches Some(h)
                && !(1 <= h.miss_threshold <= 20))
            ||| e@ == "MIDI trigger channel must be 1-16"@ && (req.triggers matches Some(t) && !(1
                <= t.midi.channel <= 16))
            ||| e@ == "MIDI trigger note must be 0-127"@ && (req.triggers matches Some(t)
                && t.midi.note > 127)
            ||| req.triggers matches Some(t) && t.osc.enabled && "OSC trigger port: "@.is_prefix_of(
                e@,
            )
        }),
{
    if req.triggers is Some {
        let t = req.triggers->0;
        let full = "OSC trigger port: "@ + port_error(t.osc.listen_port)->0;
        assert(full.take("OSC trigger port: "@.len() as int) =~= "OSC trigger port: "@);
    }
}

/// What the running failover goes by is what the settings say, after a change as after
/// a preset; the rest of its state, the OSC port, the devices and the inputs are left
/// alone. A change by hand ends the preset.
pub proof fn law_change_reaches_the_failover(
    s: &mut Settings,
    req: SetFailoverRequest,
    warnings: Vec<String>,
)
    requires
        call_ensures(Settings::set_failover, (s, req), Ok(warnings)),
    ensures
        final(s)@.failover_state.auto_enabled == final(s).failover_config.auto_enabled,
        final(s)@.failover_state.lockout_seconds == final(s).failover_config.lockout_seconds,
        final(s)@.failover_state.confirmation_mode == final(s).failover_config.confirmation_mode@,
        final(s)@.failover_state.active_host == old(s)@.failover_state.active_host,
        final(s)@.failover_state.standby_healthy == old(s)@.failover_state.standby_healthy,
        final(s)@.failover_state.failover_count == old(s)@.failover_state.failover_count,
        final(s)@.failover_state.history == old(s)@.failover_state.history,
        final(s)@.osc_port_state == old(s)@.osc_port_state,
        final(s)@.active_device == old(s)@.active_device,
        final(s)@.backup_device == old(s)@.backup_device,
        final(s)@.input_redundancy == old(s)@.input_redundancy,
        final(s)@.active_preset is None,
{
    assert(final(s)@.failover_config == final(s).failover_config@);
}

/// Lists put together in two ways.
proof fn lemma_joined_lists(
    a: Seq<Seq<char>>,
    x: Seq<Seq<char>>,
    y: Seq<Seq<char>>,
    z: Seq<Seq<char>>,
)
    ensures
        a + (x + y + z) == a + x + y + z,
        Seq::<Seq<char>>::empty() + a == a,
{
    assert(a + (x + y + z) =~= a + x + y + z);
    assert(Seq::<Seq<char>>::empty() + a =~= a);
}

/// A list behind which a text stands if a condition holds.
proof fn lemma_warned(list: Seq<Seq<char>>, cond: bool, text: Seq<char>)
    ensures
        (list + warn_if(cond, text)).len() == list.len() + (if cond {
            1int
        } else {
            0
        }),
        cond ==> (list + warn_if(cond, text)).contains(text),
        forall|x: Seq<char>| list.contains(x) ==> #[trigger] (list + warn_if(cond, text)).contains(x),
{
    let all = list + warn_if(cond, text);
    if cond {
        assert(all[list.len() as int] == text);
    }
    assert forall|x: Seq<char>| list.contains(x) implies #[trigger] all.contains(x) by {
        let i = list.index_of(x);
        assert(all[i] == x);
    }
}

/// The settings of every risk are named in the warnings, and there is no other
/// warning.
pub proof fn law_risks_are_named(f: FailoverSettings, w: Vec<String>)
    requires
        call_ensures(validate_failover_warnings, (&f,), w),
    ensures
        f.lockout_seconds == 0 ==> texts(w@).contains(
            "Lockout of 0s is dangerous — failover can oscillate with no delay between switches."@,
        ),
        f.lockout_seconds == 1 || f.lockout_seconds == 2 ==> texts(w@).contains(
            "Lockout below 3s risks oscillation during power surges or network instability."@,
        ),
        f.heartbeat.interval_ms < 2 ==> texts(w@).contains(
            "Heartbeat interval below 2ms may cause false positives on congested networks."@,
        ),
        f.heartbeat.miss_threshold < 2 ==> texts(w@).contains(
            "Single-miss threshold is aggressive — any single dropped packet triggers failover."@,
        ),
        f.heartbeat.interval_ms * f.heartbeat.miss_threshold > 50 ==> texts(w@).contains(
            "Failover detection time is "@ + decimal(
                (f.heartbeat.interval_ms * f.heartbeat.miss_threshold) as nat,
            ) + "ms — significant audio gap may be audible."@,
        ),
        f.switch_back_policy@ == "auto"@ ==> texts(w@).contains(
            "Auto switch-back risks oscillation if the primary host is flapping. Use 'manual' for live shows."@,
        ),
        f.triggers.midi.enabled && f.triggers.midi.channel <= 10 ==> texts(w@).contains(
            "MIDI trigger on channels 1-10 may conflict with performance data. Consider channel 15 or 16."@,
        ),
        f.triggers.osc.enabled && f.triggers.osc.allowed_sources@.len() == 0 ==> texts(
            w@,
        ).contains(
            "OSC trigger has no source restriction — any device on the network can trigger failover."@,
        ),
        w@.len() == (if f.lockout_seconds < 3 {
            1int
        } else {
            0
        }) + (if f.heartbeat.interval_ms < 2 {
            1int
        } else {
            0
        }) + (if f.heartbeat.miss_threshold < 2 {
            1int
        } else {
            0
        }) + (if f.heartbeat.interval_ms * f.heartbeat.miss_threshold > 50 {
            1int
        } else {
            0
        }) + (if f.switch_back_policy@ == "auto"@ {
            1int
        } else {
            0
        }) + (if f.triggers.midi.enabled && f.triggers.midi.channel <= 10 {
            1int
        } else {
            0
        }) + (if f.triggers.osc.enabled && f.triggers.osc.allowed_sources@.len() == 0 {
            1int
        } else {
            0
        }),
{
    let v = f@;
    let none = Seq::<Seq<char>>::empty();
    let lockout_0 = "Lockout of 0s is dangerous — failover can oscillate with no delay between switches."@;
    let lockout_3 = "Lockout below 3s risks oscillation during power surges or network instability."@;
    let interval = "Heartbeat interval below 2ms may cause false positives on congested networks."@;
    let misses = "Single-miss threshold is aggressive — any single dropped packet triggers failover."@;
    let slow = "Failover detection time is "@ + decimal(failover_time(v.heartbeat) as nat)
        + "ms — significant audio gap may be audible."@;
    let back = "Auto switch-back risks oscillation if the primary host is flapping. Use 'manual' for live shows."@;
    let channel = "MIDI trigger on channels 1-10 may conflict with performance data. Consider channel 15 or 16."@;
    let open_osc = "OSC trigger has no source restriction — any device on the network can trigger failover."@;
    let back_part = warn_if(v.switch_back_policy == "auto"@, back);
    let channel_part = warn_if(v.triggers.midi.enabled && v.triggers.midi.channel <= 10, channel);
    let osc_part = warn_if(
        v.triggers.osc.enabled && v.triggers.osc.allowed_sources.len() == 0,
        open_osc,
    );
    let a = warn_if(v.lockout_seconds < 1, lockout_0);
    let b = a + warn_if(1 <= v.lockout_seconds < 3, lockout_3);
    let c = b + warn_if(v.heartbeat.interval_ms < 2, interval);
    let d = c + warn_if(v.heartbeat.miss_threshold < 2, misses);
    let e = d + warn_if(failover_time(v.heartbeat) > 50, slow);
    let g = e + back_part;
    let h = g + channel_part;
    let k = h + osc_part;
    lemma_joined_lists(a, none, none, none);
    lemma_joined_lists(e, back_part, channel_part, osc_part);
    assert(failover_warnings(v) == k);
    assert(w@.len() == texts(w@).len());
    assert(v.triggers.osc.allowed_sources.len() == f.triggers.osc.allowed_sources@.len());
    lemma_warned(none, v.lockout_seconds < 1, lockout_0);
    lemma_warned(a, 1 <= v.lockout_seconds < 3, lockout_3);
    lemma_warned(b, v.heartbeat.interval_ms < 2, interval);
    lemma_warned(c, v.heartbeat.miss_threshold < 2, misses);
    lemma_warned(d, failover_time(v.heartbeat) > 50, slow);
    lemma_warned(e, v.switch_back_policy == "auto"@, back);
    lemma_warned(g, v.triggers.midi.enabled && v.triggers.midi.channel <= 10, channel);
    lemma_warned(
        h,
        v.triggers.osc.enabled && v.triggers.osc.allowed_sources.len() == 0,
        open_osc,
    );
}

/// The warnings of a change are those of the settings that it leads to.
pub proof fn law_change_warns(
    s: &mut Settings,
    req: SetFailoverRequest,
    warnings: Vec<String>,
    f: FailoverSettings,
    w: Vec<String>,
)
    requires
        call_ensures(Settings::set_failover, (s, req), Ok(warnings)),
        f@ == final(s).failover_config@,
        call_ensures(validate_failover_warnings, (&f,), w),
    ensures
        texts(warnings@) == texts(w@),
{
    assert(final(s)@.failover_config == final(s).failover_config@);
}

/// A port is refused exactly when it is privileged or one of those that MIDInet itself
/// uses.
pub proof fn law_allowed_ports(port: u16, r: Result<(), String>)
    requires
        call_ensures(validate_port, (port,), r),
    ensures
        r is Ok <==> port >= 1024 && port != 5004 && port != 5005 && port != 5006,
        port < 1024 ==> (r matches Err(e) && e@
            == "Port must be 1024 or higher (privileged ports require root)."@),
        port == 5004 || port == 5005 || port == 5006 ==> (r matches Err(e) && e@ == "Port "@
            + decimal(port as nat)
            + " conflicts with MIDInet data/heartbeat/control channels."@),
{
}

/// The OSC listener binds again exactly when it is given another port that is allowed,
/// and then it has that port. Nothing else changes.
pub proof fn law_osc_port_change(
    s: &mut Settings,
    req: SetOscPortRequest,
    r: Result<bool, String>,
)
    requires
        call_ensures(Settings::set_osc_port, (s, &req), r),
    ensures
        r is Ok <==> req.port >= 1024 && req.port != 5004 && req.port != 5005 && req.port != 5006,
        r matches Ok(again) ==> again == (req.port != old(s).osc_port_state.port)
            && final(s).osc_port_state.port == req.port,
        r == Ok::<bool, String>(true) ==> final(s).osc_port_state.status@ == "listening"@,
        r != Ok::<bool, String>(true) ==> final(s)@ == old(s)@,
        final(s)@.failover_config == old(s)@.failover_config,
        final(s)@.failover_state == old(s)@.failover_state,
        final(s)@.active_device == old(s)@.active_device,
        final(s)@.backup_device == old(s)@.backup_device,
        final(s)@.active_preset == old(s)@.active_preset,
{
    assert(final(s)@.osc_port_state == final(s).osc_port_state@);
}

/// The presets: which there are, and what each is for. Every one fails over by itself.
pub proof fn law_presets(
    s: &mut Settings,
    req: ApplyPresetRequest,
    r: Result<Preset, String>,
)
    requires
        call_ensures(Settings::apply_preset, (s, &req), r),
    ensures
        r is Ok <==> req.preset@ == "safe_defaults"@ || req.preset@ == "rock_solid"@ || req.preset@
            == "low_latency"@ || req.preset@ == "rehearsal"@,
        r is Err ==> final(s)@ == old(s)@,
        r is Ok ==> {
            let f = final(s).failover_config;
            &&& final(s)@.active_preset == Some(req.preset@)
            &&& f.auto_enabled
            &&& final(s)@.failover_state.auto_enabled
            &&& final(s)@.failover_state.lockout_seconds == f.lockout_seconds
            &&& final(s)@.failover_state.confirmation_mode == f.confirmation_mode@
            &&& f.heartbeat.interval_ms == f.heartbeat.miss_threshold
            &&& f.heartbeat.interval_ms == (if req.preset@ == "rock_solid"@ {
                5int
            } else if req.preset@ == "low_latency"@ {
                2int
            } else {
                3int
            })
            &&& f.lockout_seconds == (if req.preset@ == "rock_solid"@ {
                10int
            } else if req.preset@ == "low_latency"@ {
                3int
            } else if req.preset@ == "rehearsal"@ {
                2int
            } else {
                5int
            })
            &&& f.switch_back_policy@ == (if req.preset@ == "rehearsal"@ {
                "auto"@
            } else {
                "manual"@
            })
            &&& f.confirmation_mode@ == (if req.preset@ == "rock_solid"@ {
                "confirm"@
            } else {
                "immediate"@
            })
            &&& f.triggers.midi.enabled == (req.preset@ == "rehearsal"@)
            &&& f.triggers.osc.enabled == (req.preset@ == "rehearsal"@)
            &&& f.triggers.midi.channel == 16 && f.triggers.midi.note == 127
            &&& f.triggers.osc.listen_port == 5588
            &&& final(s)@.osc_port_state == old(s)@.osc_port_state
            &&& final(s)@.active_device == old(s)@.active_device
            &&& final(s)@.backup_device == old(s)@.backup_device
        },
{
    reveal_strlit("safe_defaults");
    reveal_strlit("rock_solid");
    reveal_strlit("low_latency");
    reveal_strlit("rehearsal");
    let l = preset_list();
    assert(l[0].id == "safe_defaults"@);
    assert(l[1].id == "rock_solid"@);
    assert(l[2].id == "low_latency"@);
    assert(l[3].id == "rehearsal"@);
    if r is Ok {
        let p = r->Ok_0@;
        let i = choose|i: int| 0 <= i < l.len() && l[i] == p;
        assert(i == 0 || i == 1 || i == 2 || i == 3);
        assert(final(s)@.failover_config == p.failover);
        assert(final(s)@.failover_config == final(s).failover_config@);
        assert(final(s).failover_config@.triggers == final(s).failover_config.triggers@);
        assert(final(s).failover_config.triggers@.osc == final(s).failover_config.triggers.osc@);
    }
}

/// A device that is given a role has it afterwards, and the other role is left alone.
/// An active device is being switched to; a backup device turns the redundancy of the
/// inputs on, and without one it is off.
pub proof fn law_device_roles(
    s: &mut Settings,
    req: SetMidiDeviceRequest,
    devices: Vec<MidiDeviceInfo>,
    reply: DeviceReply,
)
    requires
        call_ensures(Settings::set_midi_device, (s, &req, &devices), Ok(reply)),
    ensures
        ({
            let id = trimmed(req.device_id@);
            match reply {
                DeviceReply::BackupCleared => {
                    &&& id.len() == 0
                    &&& final(s)@.backup_device is None
                    &&& final(s)@.active_device == old(s)@.active_device
                    &&& !final(s)@.input_redundancy.enabled
                    &&& final(s)@.input_redundancy.secondary_device.len() == 0
                },
                DeviceReply::Assigned { role, device } => {
                    &&& device@ == id
                    &&& id.len() > 0
                    &&& id == "auto"@ || device_ids(devices@).contains(id)
                    &&& role@ == lowercase(trimmed(req.role@))
                    &&& role@ == "active"@ || role@ == "backup"@
                    &&& role@ == "active"@ ==> {
                        &&& final(s)@.active_device == Some(id)
                        &&& final(s)@.backup_device == old(s)@.backup_device
                        &&& old(s)@.backup_device != Some(id)
                        &&& final(s)@.midi_device_status.status == "switching"@
                        &&& final(s)@.input_redundancy.primary_health == "active"@
                        &&& final(s)@.input_redundancy.enabled == old(s)@.input_redundancy.enabled
                    }
                    &&& role@ == "backup"@ ==> {
                        &&& final(s)@.backup_device == Some(id)
                        &&& final(s)@.active_device == old(s)@.active_device
                        &&& old(s)@.active_device != Some(id)
                        &&& final(s)@.input_redundancy.enabled
                        &&& final(s)@.input_redundancy.secondary_health == "active"@
                    }
                },
            }
        }),
        final(s)@.active_preset is None,
        final(s)@.failover_config == old(s)@.failover_config,
        final(s)@.osc_port_state == old(s)@.osc_port_state,
{
    reveal_strlit("active");
    reveal_strlit("backup");
    assert("active"@[0] != "backup"@[0]);
}

/// A device is refused a role that does not exist, that a device without a name cannot
/// have, that an unknown device is to have or that would make one device both; nothing
/// changes then.
pub proof fn law_refused_device(
    s: &mut Settings,
    req: SetMidiDeviceRequest,
    devices: Vec<MidiDeviceInfo>,
    r: Result<DeviceReply, String>,
)
    requires
        call_ensures(Settings::set_midi_device, (s, &req, &devices), r),
    ensures
        ({
            let id = trimmed(req.device_id@);
            let role = lowercase(trimmed(req.role@));
            r is Err <==> {
                ||| role != "active"@ && role != "backup"@
                ||| id.len() == 0 && role != "backup"@
                ||| id.len() > 0 && id != "auto"@ && !device_ids(devices@).contains(id)
                ||| id.len() > 0 && role == "active"@ && old(s)@.backup_device == Some(id)
                ||| id.len() > 0 && role == "backup"@ && old(s)@.active_device == Some(id)
            }
        }),
        r is Err ==> final(s)@ == old(s)@,
{
    reveal_strlit("active");
    reveal_strlit("backup");
    assert("active"@[0] != "backup"@[0]);
}

/// The factory settings: automatic failover on three missed heartbeats of 3 ms, no
/// automatic way back, five seconds of lockout and no triggers.
pub proof fn law_factory_settings(f: FailoverSettings)
    requires
        call_ensures(FailoverSettings::default, (), f),
    ensures
        f.auto_enabled,
        f.switch_back_policy@ == "manual"@,
        f.lockout_seconds == 5,
        f.confirmation_mode@ == "immediate"@,
        f.heartbeat.interval_ms == 3 && f.heartbeat.miss_threshold == 3,
        !f.triggers.midi.enabled && !f.triggers.osc.enabled,
        f.triggers.midi.channel == 16 && f.triggers.midi.note == 127,
        f.triggers.midi.velocity_threshold == 100 && f.triggers.midi.guard_note == 0,
        f.triggers.osc.listen_port == 5588,
        f.triggers.osc.address@ == "/midinet/failover/switch"@,
        f.triggers.osc.allowed_sources@.len() == 0,
{
    assert(texts(f.triggers.osc.allowed_sources@).len() == 0);
}

/// The defaults, one by one, agree with those of the settings as a whole.
pub proof fn law_single_defaults(
    on: bool,
    policy: String,
    lockout: u64,
    mode: String,
    interval: u64,
    misses: u8,
    channel: u8,
    note: u8,
    velocity: u8,
    port: u16,
    address: String,
    role: String,
    f: FailoverSettings,
)
    requires
        call_ensures(default_true, (), on),
        call_ensures(default_switch_back_policy, (), policy),
        call_ensures(default_lockout, (), lockout),
        call_ensures(default_confirmation_mode, (), mode),
        call_ensures(default_heartbeat_interval, (), interval),
        call_ensures(default_miss_threshold, (), misses),
        call_ensures(default_trigger_channel, (), channel),
        call_ensures(default_trigger_note, (), note),
        call_ensures(default_velocity_threshold, (), velocity),
        call_ensures(default_osc_trigger_port, (), port),
        call_ensures(default_osc_address, (), address),
        call_ensures(default_role_active, (), role),
        call_ensures(FailoverSettings::default, (), f),
    ensures
        on && f.auto_enabled == on,
        policy@ == "manual"@ && f.switch_back_policy@ == policy@,
        lockout == 5 && f.lockout_seconds == lockout,
        mode@ == "immediate"@ && f.confirmation_mode@ == mode@,
        interval == 3 && f.heartbeat.interval_ms == interval,
        misses == 3 && f.heartbeat.miss_threshold == misses,
        channel == 16 && f.triggers.midi.channel == channel,
        note == 127 && f.triggers.midi.note == note,
        velocity == 100 && f.triggers.midi.velocity_threshold == velocity,
        port == 5588 && f.triggers.osc.listen_port == port,
        address@ == "/midinet/failover/switch"@ && f.triggers.osc.address@ == address@,
        role@ == "active"@,
{
    assert(f@.switch_back_policy == f.switch_back_policy@);
    assert(f@.triggers == f.triggers@);
    assert(f@.triggers.osc == f.triggers.osc@);
}

/// The service at the start: factory settings, no device, no preset, and OSC stopped on its
/// own port.
pub proof fn law_service_at_the_start(
    activity_timeout_s: u64,
    s: Settings,
    f: FailoverSettings,
    osc: OscPortState,
    midi: MidiDeviceStatus,
)
    requires
        call_ensures(Settings::new, (activity_timeout_s,), s),
        call_ensures(FailoverSettings::default, (), f),
        call_ensures(OscPortState::default, (), osc),
        call_ensures(MidiDeviceStatus::default, (), midi),
    ensures
        s.failover_config@ == f@,
        s@.active_device is None && s@.backup_device is None && s@.active_preset is None,
        s@.osc_port_state.port == 5588 && s@.osc_port_state.status == "stopped"@,
        osc.port == 5588 && osc.status@ == "stopped"@,
        midi.status@ == "disconnected"@ && midi.error_message is None,
        s@.midi_device_status == midi@,
        s@.failover_state.active_host == "primary"@,
        !s@.input_redundancy.enabled && s@.input_redundancy.activity_timeout_s
            == activity_timeout_s,
{
    assert(osc@.status == osc.status@);
    assert(midi@.status == midi.status@);
}

/// The presets by their ids: four of them, each with its name, of which the first one has
/// the factory settings.
pub proof fn law_listed_presets(presets: Vec<Preset>, f: FailoverSettings)
    requires
        call_ensures(builtin_presets, (), presets),
        call_ensures(FailoverSettings::default, (), f),
    ensures
        presets@.len() == 4,
        presets@[0].id@ == "safe_defaults"@ && presets@[0].name@ == "Safe Defaults"@
            && presets@[0].failover@ == f@,
        presets@[1].id@ == "rock_solid"@ && presets@[1].name@ == "Rock Solid"@,
        presets@[2].id@ == "low_latency"@ && presets@[2].name@ == "Low Latency"@,
        presets@[3].id@ == "rehearsal"@ && presets@[3].name@ == "Rehearsal"@,
        presets@[3].failover.triggers.midi.enabled && presets@[3].failover.triggers.osc.enabled,
{
    let v = preset_views(presets@);
    assert(v.len() == presets@.len());
    assert(v[0] == presets@[0]@ && v[1] == presets@[1]@);
    assert(v[2] == presets@[2]@ && v[3] == presets@[3]@);
}

} // verus!
