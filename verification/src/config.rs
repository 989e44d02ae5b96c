//! The configuration file of the administration service and the state that it
//! is made from.
use vstd::prelude::*;

use crate::alerting::{AlertConfig, AlertConfigView, AlertManager, AlertManagerView};
use crate::settings::{
    default_failover, FailoverSettings, FailoverView, Settings, SettingsView,
};
use crate::text::{copy_opt, text_opt};
use crate::toml_doc::{
    new_table, parse_table, print_table, table_contents, table_entries, table_insert, toml_parsed,
    toml_printed, value_contents, TableView,
};

verus! {

// ── Pipeline ──

/// Which kinds of messages pass the pipeline.
#[derive(Clone, Copy, Debug, PartialEq, Eq, Structural)]
pub struct MessageFilter {
    pub note_on: bool,
    pub note_off: bool,
    pub control_change: bool,
    pub program_change: bool,
    pub pitch_bend: bool,
    pub aftertouch: bool,
    pub sysex: bool,
    pub clock: bool,
}

/// The filter that lets everything pass.
pub open spec fn pass_all() -> MessageFilter {
    MessageFilter {
        note_on: true,
        note_off: true,
        control_change: true,
        program_change: true,
        pitch_bend: true,
        aftertouch: true,
        sysex: true,
        clock: true,
    }
}

impl Default for MessageFilter {
    fn default() -> (r: Self)
        ensures
            r == pass_all(),
    {
        MessageFilter {
            note_on: true,
            note_off: true,
            control_change: true,
            program_change: true,
            pitch_bend: true,
            aftertouch: true,
            sysex: true,
            clock: true,
        }
    }
}

/// How MIDI messages are filtered and changed on their way, by channel.
#[derive(Debug)]
pub struct PipelineConfig {
    pub channel_filter: [bool; 16],
    pub message_filter: MessageFilter,
    pub channel_remap: [u8; 16],
    pub transpose: [i8; 16],
    pub velocity_curve: String,
    pub sysex_passthrough: bool,
}

pub struct PipelineView {
    pub channel_filter: Seq<bool>,
    pub message_filter: MessageFilter,
    pub channel_remap: Seq<u8>,
    pub transpose: Seq<i8>,
    pub velocity_curve: Seq<char>,
    pub sysex_passthrough: bool,
}

impl View for PipelineConfig {
    type V = PipelineView;

    open spec fn view(&self) -> PipelineView {
        PipelineView {
            channel_filter: self.channel_filter@,
            message_filter: self.message_filter,
            channel_remap: self.channel_remap@,
            transpose: self.transpose@,
            velocity_curve: self.velocity_curve@,
            sysex_passthrough: self.sysex_passthrough,
        }
    }
}

/// The pipeline that passes every message on unchanged.
pub open spec fn identity_pipeline() -> PipelineView {
    PipelineView {
        channel_filter: Seq::new(16, |i: int| true),
        message_filter: pass_all(),
        channel_remap: Seq::new(16, |i: int| i as u8),
        transpose: Seq::new(16, |i: int| 0i8),
        velocity_curve: "linear"@,
        sysex_passthrough: true,
    }
}

impl Default for PipelineConfig {
    fn default() -> (r: Self)
        ensures
            r@ == identity_pipeline(),
    {
        let r = PipelineConfig {
            channel_filter: [
                true, true, true, true, true, true, true, true,
                true, true, true, true, true, true, true, true,
            ],
            message_filter: MessageFilter::default(),
            channel_remap: [0, 1, 2, 3, 4, 5, 6, 7, 8, 9, 10, 11, 12, 13, 14, 15],
            transpose: [0, 0, 0, 0, 0, 0, 0, 0, 0, 0, 0, 0, 0, 0, 0, 0],
            velocity_curve: "linear".to_owned(),
            sysex_passthrough: true,
        };
        assert(r.channel_filter@ =~= Seq::new(16, |i: int| true));
        assert(r.channel_remap@ =~= Seq::new(16, |i: int| i as u8));
        assert(r.transpose@ =~= Seq::new(16, |i: int| 0i8));
        r
    }
}

impl PipelineConfig {
    /// A copy with the same contents.
    pub fn copy(&self) -> (r: Self)
        ensures
            r@ == self@,
    {
        PipelineConfig {
            channel_filter: self.channel_filter,
            message_filter: self.message_filter,
            channel_remap: self.channel_remap,
            transpose: self.transpose,
            velocity_curve: self.velocity_curve.clone(),
            sysex_passthrough: self.sysex_passthrough,
        }
    }
}

// ── Sections ──

/// The network section, which the host owns.
#[derive(Debug)]
pub struct NetworkConfig {
    pub multicast_group: String,
    pub data_port: u16,
    pub control_group: String,
    pub control_port: u16,
    pub interface: String,
}

pub fn default_multicast_group() -> (r: String)
    ensures
        r@ == "239.69.83.1"@,
{
    "239.69.83.1".to_owned()
}

pub fn default_data_port() -> (r: u16)
    ensures
        r == 5004,
{
    5004
}

pub fn default_control_group() -> (r: String)
    ensures
        r@ == "239.69.83.100"@,
{
    "239.69.83.100".to_owned()
}

pub fn default_control_port() -> (r: u16)
    ensures
        r == 5006,
{
    5006
}

pub fn default_interface() -> (r: String)
    ensures
        r@ == "eth0"@,
{
    "eth0".to_owned()
}

/// The OSC section.
#[derive(Clone, Copy, Debug, PartialEq, Eq, Structural)]
pub struct OscConfig {
    pub listen_port: u16,
}

pub fn default_osc_port() -> (r: u16)
    ensures
        r == 5588,
{
    5588
}

impl Default for OscConfig {
    fn default() -> (r: Self)
        ensures
            r == (OscConfig { listen_port: 5588 }),
    {
        OscConfig { listen_port: default_osc_port() }
    }
}

/// The MIDI section. The active device is called `device` in the file.
#[derive(Debug)]
pub struct MidiConfig {
    pub active_device: Option<String>,
    pub backup_device: Option<String>,
}

pub struct MidiConfigView {
    pub active_device: Option<Seq<char>>,
    pub backup_device: Option<Seq<char>>,
}

impl View for MidiConfig {
    type V = MidiConfigView;

    open spec fn view(&self) -> MidiConfigView {
        MidiConfigView {
            active_device: text_opt(self.active_device),
            backup_device: text_opt(self.backup_device),
        }
    }
}

impl Default for MidiConfig {
    fn default() -> (r: Self)
        ensures
            r@ == (MidiConfigView { active_device: None, backup_device: None }),
    {
        MidiConfig { active_device: None, backup_device: None }
    }
}

/// The configuration of the administration service.
#[derive(Debug)]
pub struct MidinetConfig {
    pub pipeline: PipelineConfig,
    pub failover: FailoverSettings,
    pub alerts: AlertConfig,
    pub osc: Option<OscConfig>,
    pub midi: Option<MidiConfig>,
    /// Read from the file but never written to it.
    pub network: Option<NetworkConfig>,
}

pub struct MidinetView {
    pub pipeline: PipelineView,
    pub failover: FailoverView,
    pub alerts: AlertConfigView,
    pub osc: Option<OscConfig>,
    pub midi: Option<MidiConfigView>,
}

impl View for MidinetConfig {
    type V = MidinetView;

    open spec fn view(&self) -> MidinetView {
        MidinetView {
            pipeline: self.pipeline@,
            failover: self.failover@,
            alerts: self.alerts@,
            osc: self.osc,
            midi: match self.midi {
                Some(m) => Some(m@),
                None => None,
            },
        }
    }
}

impl Default for MidinetConfig {
    fn default() -> (r: Self)
        ensures
            r@ == (MidinetView {
                pipeline: identity_pipeline(),
                failover: default_failover(),
                alerts: crate::alerting::default_alert_config(),
                osc: None,
                midi: None,
            }),
            r.network is None,
    {
        MidinetConfig {
            pipeline: PipelineConfig::default(),
            failover: FailoverSettings::default(),
            alerts: AlertConfig::default(),
            osc: None,
            midi: None,
            network: None,
        }
    }
}

// ── Configuration and state ──

/// The configuration that describes a state.
pub open spec fn config_of(s: SettingsView, pipeline: PipelineView, alerts: AlertConfigView) -> MidinetView {
    MidinetView {
        pipeline,
        failover: s.failover_config,
        alerts,
        osc: Some(OscConfig { listen_port: s.osc_port_state.port }),
        midi: Some(
            MidiConfigView { active_device: s.active_device, backup_device: s.backup_device },
        ),
    }
}

/// Assembles the configuration from the state in memory.
pub fn build_config_from_state(
    settings: &Settings,
    pipeline: &PipelineConfig,
    alerts: &AlertManager,
) -> (r: MidinetConfig)
    ensures
        r@ == config_of(settings@, pipeline@, alerts@.config),
        r.network is None,
{
    MidinetConfig {
        pipeline: pipeline.copy(),
        failover: settings.failover_config.copy(),
        alerts: alerts.get_config(),
        osc: Some(OscConfig { listen_port: settings.osc_port_state.port }),
        midi: Some(
            MidiConfig {
                active_device: copy_opt(&settings.active_device),
                backup_device: copy_opt(&settings.backup_device),
            },
        ),
        network: None,
    }
}

/// The settings after a configuration was put in force.
pub open spec fn configured(s: SettingsView, c: MidinetView) -> SettingsView {
    let f = crate::settings::with_failover(s, c.failover, s.active_preset);
    SettingsView {
        osc_port_state: match c.osc {
            Some(o) => crate::settings::OscPortView { port: o.listen_port, ..s.osc_port_state },
            None => s.osc_port_state,
        },
        active_device: match c.midi {
            Some(m) => if m.active_device is Some {
                m.active_device
            } else {
                s.active_device
            },
            None => s.active_device,
        },
        ..f
    }
}

/// Puts a configuration in force. Sections that are absent leave their part of
/// the state as it is, and the backup device stays as it is in any case.
pub fn apply_config(
    settings: &mut Settings,
    pipeline: &mut PipelineConfig,
    alerts: &mut AlertManager,
    config: MidinetConfig,
)
    ensures
        final(settings)@ == configured(old(settings)@, config@),
        final(pipeline)@ == config@.pipeline,
        final(alerts)@ == (AlertManagerView { config: config@.alerts, ..old(alerts)@ }),
{
    *pipeline = config.pipeline;
    settings.failover_state.auto_enabled = config.failover.auto_enabled;
    settings.failover_state.lockout_seconds = config.failover.lockout_seconds;
    settings.failover_state.confirmation_mode = config.failover.confirmation_mode.clone();
    settings.failover_config = config.failover;
    if let Some(osc) = &config.osc {
        settings.osc_port_state.port = osc.listen_port;
    }
    if let Some(midi) = &config.midi {
        if let Some(device) = &midi.active_device {
            settings.active_device = Some(device.clone());
        }
    }
    alerts.update_config(config.alerts);
}

// ── The file ──

/// Puts every entry of `managed` into `base`; other entries stay.
pub fn merge_tables(base: &mut toml::Table, managed: toml::Table)
    ensures
        table_contents(*final(base)) == table_contents(*old(base)).union_prefer_right(
            table_contents(managed),
        ),
{
    let ghost start = table_contents(*base);
    let ghost added = table_contents(managed);
    let mut entries = table_entries(managed);
    let ghost all = entries@;
    let ghost mut done: int = 0;
    while entries.len() > 0
        invariant
            0 <= done <= all.len(),
            entries@ == all.skip(done),
            start == table_contents(*old(base)),
            forall|i: int|
                #![trigger all[i]]
                0 <= i < all.len() ==> {
                    &&& added.dom().contains(all[i].0@)
                    &&& added[all[i].0@] == value_contents(all[i].1)
                },
            forall|i: int, j: int|
                #![trigger all[i], all[j]]
                0 <= i < j < all.len() ==> all[i].0@ != all[j].0@,
            forall|k: Seq<char>|
                added.dom().contains(k) ==> exists|i: int|
                    0 <= i < all.len() && (#[trigger] all[i]).0@ == k,
            forall|k: Seq<char>| #[trigger]
                table_contents(*base).dom().contains(k) <==> start.dom().contains(k) || exists|
                    i: int,
                | 0 <= i < done && (#[trigger] all[i]).0@ == k,
            forall|i: int|
                0 <= i < done ==> #[trigger] table_contents(*base)[all[i].0@] == value_contents(
                    all[i].1,
                ),
            forall|k: Seq<char>|
                start.dom().contains(k) && (forall|i: int|
                    0 <= i < done ==> (#[trigger] all[i]).0@ != k) ==> #[trigger] table_contents(
                    *base,
                )[k] == start[k],
        decreases entries@.len(),
    {
        let ghost before = table_contents(*base);
        let (key, value) = entries.remove(0);
        assert(all.skip(done)[0] == all[done]);
        assert((key, value) == all[done]);
        assert(all.skip(done).remove(0) =~= all.skip(done + 1));
        table_insert(base, key, value);
        proof {
            let now = table_contents(*base);
            assert forall|k: Seq<char>| #[trigger] now.dom().contains(k) <==> start.dom().contains(k)
                || exists|i: int| 0 <= i < done + 1 && (#[trigger] all[i]).0@ == k by {
                if k == all[done].0@ {
                    assert(now.dom().contains(k));
                } else {
                    assert(now.dom().contains(k) == before.dom().contains(k));
                    if exists|i: int| 0 <= i < done + 1 && (#[trigger] all[i]).0@ == k {
                        let i = choose|i: int| 0 <= i < done + 1 && (#[trigger] all[i]).0@ == k;
                        assert(0 <= i < done && all[i].0@ == k);
                    }
                    if before.dom().contains(k) && !start.dom().contains(k) {
                        let i = choose|i: int| 0 <= i < done && (#[trigger] all[i]).0@ == k;
                        assert(0 <= i < done + 1 && all[i].0@ == k);
                    }
                }
            }
            assert forall|i: int| 0 <= i < done + 1 implies #[trigger] now[all[i].0@]
                == value_contents(all[i].1) by {
                if i < done {
                    assert(all[i].0@ != all[done].0@);
                    assert(before[all[i].0@] == value_contents(all[i].1));
                }
            }
            assert forall|k: Seq<char>|
                start.dom().contains(k) && (forall|i: int|
                    0 <= i < done + 1 ==> (#[trigger] all[i]).0@ != k) implies #[trigger] now[k]
                == start[k] by {
                assert(all[done].0@ != k);
                assert(before[k] == start[k]);
            }
            done = done + 1;
        }
    }
    proof {
        let now = table_contents(*base);
        let want = start.union_prefer_right(added);
        assert forall|k: Seq<char>| #[trigger] now.dom().contains(k) <==> want.dom().contains(
            k,
        ) by {
            if added.dom().contains(k) {
                let i = choose|i: int| 0 <= i < all.len() && (#[trigger] all[i]).0@ == k;
                assert(0 <= i < done && all[i].0@ == k);
            }
        }
        assert forall|k: Seq<char>| #[trigger] now.dom().contains(k) implies now[k] == want[k] by {
            if added.dom().contains(k) {
                let i = choose|i: int| 0 <= i < all.len() && (#[trigger] all[i]).0@ == k;
                assert(now[all[i].0@] == value_contents(all[i].1));
            } else {
                assert(start.dom().contains(k));
                assert(forall|i: int| 0 <= i < done ==> (#[trigger] all[i]).0@ != k);
            }
        }
        assert(now =~= want);
    }
}

/// What the file holds already; nothing where it does not exist or is no TOML
/// document.
pub open spec fn existing_document(existing: Option<Seq<char>>) -> TableView {
    match existing {
        Some(text) => match toml_parsed(text) {
            Ok(doc) => doc,
            Err(_) => TableView::empty(),
        },
        None => TableView::empty(),
    }
}

/// The text of the file after the managed sections were written over what it
/// held, or the error.
pub open spec fn saved_text(existing: Option<Seq<char>>, managed: Seq<char>) -> Result<
    Seq<char>,
    Seq<char>,
> {
    match toml_parsed(managed) {
        Ok(m) => toml_printed(existing_document(existing).union_prefer_right(m)),
        Err(e) => Err(e),
    }
}

/// Works out the text of the configuration file: the managed sections replace
/// those of the existing file, and everything else is preserved.
pub fn save_config(existing: Option<&str>, managed: &str) -> (r: Result<String, String>)
    ensures
        match r {
            Ok(s) => saved_text(
                match existing {
                    Some(t) => Some(t@),
                    None => None,
                },
                managed@,
            ) == Ok::<Seq<char>, Seq<char>>(s@),
            Err(e) => saved_text(
                match existing {
                    Some(t) => Some(t@),
                    None => None,
                },
                managed@,
            ) == Err::<Seq<char>, Seq<char>>(e@),
        },
{
    let mut base = match existing {
        Some(text) => match parse_table(text) {
            Ok(t) => t,
            Err(_) => new_table(),
        },
        None => new_table(),
    };
    let ours = match parse_table(managed) {
        Ok(t) => t,
        Err(e) => {
            return Err(e);
        },
    };
    merge_tables(&mut base, ours);
    print_table(&base)
}

/// Saving preserves every section that is not managed, and the managed ones
/// are as they were given.
pub proof fn law_save_preserves(base: TableView, managed: TableView, section: Seq<char>)
    ensures
        ({
            let saved = base.union_prefer_right(managed);
            &&& !managed.dom().contains(section) ==> (saved.dom().contains(section)
                == base.dom().contains(section)) && (base.dom().contains(section)
                ==> saved[section] == base[section])
            &&& managed.dom().contains(section) ==> saved.dom().contains(section) && saved[section]
                == managed[section]
        }),
{
}

/// The text that a save writes is the print of a document that holds every section
/// of the old file that is not managed, and the managed sections as they were
/// given; so where the printed text is read as the document that was printed, the
/// file holds them.
pub proof fn law_saved_file(existing: Option<Seq<char>>, managed: Seq<char>, section: Seq<char>)
    ensures
        saved_text(existing, managed) matches Ok(text) ==> {
            let old_doc = existing_document(existing);
            let ours = toml_parsed(managed)->Ok_0;
            let doc = old_doc.union_prefer_right(ours);
            &&& toml_parsed(managed) is Ok
            &&& toml_printed(doc) == Ok::<Seq<char>, Seq<char>>(text)
            &&& !ours.dom().contains(section) && old_doc.dom().contains(section)
                ==> doc.dom().contains(section) && doc[section] == old_doc[section]
            &&& ours.dom().contains(section) ==> doc.dom().contains(section) && doc[section]
                == ours[section]
            &&& toml_parsed(text) == Ok::<TableView, Seq<char>>(doc) ==> existing_document(
                Some(text),
            ) == doc
        },
{
}

/// Saving the same managed sections twice is saving them once.
pub proof fn law_save_idempotent(base: TableView, managed: TableView)
    ensures
        base.union_prefer_right(managed).union_prefer_right(managed) == base.union_prefer_right(
            managed,
        ),
{
    assert(base.union_prefer_right(managed).union_prefer_right(managed)
        =~= base.union_prefer_right(managed));
}

/// A configuration that was assembled from a state and is put in force over
/// another state gives the second state the first one's pipeline, failover
/// settings, alert thresholds and OSC port, and its active device if it has one.
/// The second state keeps its own backup device.
pub proof fn law_config_round_trip(
    first: SettingsView,
    second: SettingsView,
    pipeline: PipelineView,
    alerts: AlertConfigView,
)
    ensures
        ({
            let c = config_of(first, pipeline, alerts);
            let after = configured(second, c);
            &&& c.pipeline == pipeline
            &&& c.alerts == alerts
            &&& after.failover_config == first.failover_config
            &&& after.osc_port_state.port == first.osc_port_state.port
            &&& first.active_device is Some ==> after.active_device == first.active_device
            &&& after.backup_device == second.backup_device
            &&& after.failover_state.auto_enabled == first.failover_config.auto_enabled
            &&& after.failover_state.lockout_seconds == first.failover_config.lockout_seconds
        }),
{
}

/// The configuration that is saved is the state: pipeline, failover settings, alert
/// thresholds, the OSC port and both devices, each as it stands. The network section of
/// the host is not among it.
pub proof fn law_saved_configuration(
    settings: Settings,
    pipeline: PipelineConfig,
    alerts: AlertManager,
    c: MidinetConfig,
)
    requires
        call_ensures(build_config_from_state, (&settings, &pipeline, &alerts), c),
    ensures
        c.pipeline@ == pipeline@,
        c.failover.auto_enabled == settings.failover_config.auto_enabled,
        c.failover.switch_back_policy@ == settings.failover_config.switch_back_policy@,
        c.failover.lockout_seconds == settings.failover_config.lockout_seconds,
        c.failover.confirmation_mode@ == settings.failover_config.confirmation_mode@,
        c.failover.heartbeat == settings.failover_config.heartbeat,
        c.failover.triggers@ == settings.failover_config.triggers@,
        c.alerts@ == alerts@.config,
        c.osc matches Some(o) && o.listen_port == settings.osc_port_state.port,
        c.midi matches Some(m) && text_opt(m.active_device) == text_opt(settings.active_device)
            && text_opt(m.backup_device) == text_opt(settings.backup_device),
        c.network is None,
{
    assert(c@.failover == c.failover@);
    assert(settings@.failover_config == settings.failover_config@);
    assert(c@.midi == Some(c.midi->0@));
}

/// A configuration that is put in force is in force, section by section; a section that
/// it does not have, and a device that it does not name, leave the state as it is.
pub proof fn law_configuration_in_force(
    settings: &mut Settings,
    pipeline: &mut PipelineConfig,
    alerts: &mut AlertManager,
    c: MidinetConfig,
)
    requires
        call_ensures(apply_config, (settings, pipeline, alerts, c), ()),
    ensures
        final(pipeline)@ == c.pipeline@,
        final(alerts)@.config == c.alerts@,
        final(alerts)@.active == old(alerts)@.active,
        final(alerts)@.history == old(alerts)@.history,
        final(settings)@.failover_config == c.failover@,
        final(settings)@.failover_state.auto_enabled == c.failover.auto_enabled,
        final(settings)@.failover_state.lockout_seconds == c.failover.lockout_seconds,
        final(settings)@.failover_state.confirmation_mode == c.failover.confirmation_mode@,
        final(settings)@.failover_state.active_host == old(settings)@.failover_state.active_host,
        final(settings)@.failover_state.history == old(settings)@.failover_state.history,
        c.osc matches Some(o) ==> final(settings)@.osc_port_state.port == o.listen_port,
        c.osc is None ==> final(settings)@.osc_port_state.port == old(settings)@.osc_port_state.port,
        final(settings)@.osc_port_state.status == old(settings)@.osc_port_state.status,
        c.midi matches Some(m) ==> (m.active_device matches Some(d) ==> final(settings)@.active_device == Some(d@)),
        c.midi matches Some(m) ==> (m.active_device is None ==> final(settings)@.active_device
            == old(settings)@.active_device),
        c.midi is None ==> final(settings)@.active_device == old(settings)@.active_device,
        final(settings)@.backup_device == old(settings)@.backup_device,
        final(settings)@.input_redundancy == old(settings)@.input_redundancy,
        final(settings)@.active_preset == old(settings)@.active_preset,
{
}

/// The pipeline at the start passes every message of every channel on as it is.
pub proof fn law_pipeline_passes_all(p: PipelineConfig, i: int)
    requires
        call_ensures(PipelineConfig::default, (), p),
        0 <= i < 16,
    ensures
        p.channel_filter@[i],
        p.channel_remap@[i] == i,
        p.transpose@[i] == 0,
        p.message_filter.note_on && p.message_filter.note_off && p.message_filter.control_change
            && p.message_filter.program_change && p.message_filter.pitch_bend
            && p.message_filter.aftertouch && p.message_filter.sysex && p.message_filter.clock,
        p.velocity_curve@ == "linear"@,
        p.sysex_passthrough,
{
    let v = p@;
    assert(v.channel_filter[i] && v.channel_remap[i] == i && v.transpose[i] == 0);
}

/// Saving keeps every section of the file that is not ours and writes ours as they are; a
/// file that is not there, or is no TOML, counts as empty, and sections of ours that are
/// no TOML are not written.
pub proof fn law_sections_survive(
    existing: Option<&str>,
    managed: &str,
    r: Result<String, String>,
    old_doc: TableView,
)
    requires
        call_ensures(save_config, (existing, managed), r),
        match existing {
            Some(t) => match toml_parsed(t@) {
                Ok(d) => old_doc == d,
                Err(_) => old_doc == TableView::empty(),
            },
            None => old_doc == TableView::empty(),
        },
    ensures
        toml_parsed(managed@) is Err ==> r is Err,
        toml_parsed(managed@) matches Ok(ours) ==> {
            let doc = Map::new(
                |k: Seq<char>| old_doc.dom().contains(k) || ours.dom().contains(k),
                |k: Seq<char>|
                    if ours.dom().contains(k) {
                        ours[k]
                    } else {
                        old_doc[k]
                    },
            );
            match r {
                Ok(text) => toml_printed(doc) == Ok::<Seq<char>, Seq<char>>(text@),
                Err(e) => toml_printed(doc) == Err::<Seq<char>, Seq<char>>(e@),
            }
        },
{
    if let Ok(ours) = toml_parsed(managed@) {
        let doc = Map::new(
            |k: Seq<char>| old_doc.dom().contains(k) || ours.dom().contains(k),
            |k: Seq<char>|
                if ours.dom().contains(k) {
                    ours[k]
                } else {
                    old_doc[k]
                },
        );
        assert(old_doc.union_prefer_right(ours) =~= doc);
    }
}

/// The defaults of the network and of the service: the groups and ports that hosts and
/// clients agree on, and nothing that is configured.
pub proof fn law_default_configuration(
    group: String,
    port: u16,
    control: String,
    control_port: u16,
    interface: String,
    osc_port: u16,
    osc: OscConfig,
    midi: MidiConfig,
    c: MidinetConfig,
    f: MessageFilter,
)
    requires
        call_ensures(default_multicast_group, (), group),
        call_ensures(default_data_port, (), port),
        call_ensures(default_control_group, (), control),
        call_ensures(default_control_port, (), control_port),
        call_ensures(default_interface, (), interface),
        call_ensures(default_osc_port, (), osc_port),
        call_ensures(OscConfig::default, (), osc),
        call_ensures(MidiConfig::default, (), midi),
        call_ensures(MidinetConfig::default, (), c),
        call_ensures(MessageFilter::default, (), f),
    ensures
        group@ == "239.69.83.1"@ && control@ == "239.69.83.100"@ && interface@ == "eth0"@,
        port == 5004 && control_port == port + 2,
        osc.listen_port == osc_port && osc_port == 5588,
        midi.active_device is None && midi.backup_device is None,
        c.network is None && c.osc is None && c.midi is None,
        c.failover.auto_enabled && c.failover.lockout_seconds == 5,
        c.pipeline.sysex_passthrough,
        f.note_on && f.note_off && f.control_change && f.program_change && f.pitch_bend
            && f.aftertouch && f.sysex && f.clock,
{
    let v = c@;
    assert(v.failover == c.failover@ && v.pipeline == c.pipeline@);
    assert(midi@.active_device == text_opt(midi.active_device));
    assert(midi@.backup_device == text_opt(midi.backup_device));
}

/// Merging puts the sections of the second table into the first one, in the place of its
/// own of the same name, and keeps all others.
pub proof fn law_merged_tables(base: &mut toml::Table, managed: toml::Table, k: Seq<char>)
    requires
        call_ensures(merge_tables, (base, managed), ()),
    ensures
        ({
            let b = table_contents(*old(base));
            let m = table_contents(managed);
            let a = table_contents(*final(base));
            &&& a.dom().contains(k) <==> b.dom().contains(k) || m.dom().contains(k)
            &&& m.dom().contains(k) ==> a[k] == m[k]
            &&& !m.dom().contains(k) && b.dom().contains(k) ==> a[k] == b[k]
        }),
{
}

} // verus!
