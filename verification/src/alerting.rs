//! Alerts: thresholds are checked, alerts fire and are resolved again.
//!
//! Thresholds on measured rates are floating-point comparisons. They are made
//! where the rates are measured; here they arrive as a decision with its
//! message.
use vstd::prelude::*;

use crate::text::{cat, cat3, copy_opt, decimal, replace_char, same, str_replace_char, text_opt, to_decimal};
use vstd::string::StringExecFns;

verus! {

/// Number of entries that the history is cut to when an alert fires.
pub const ALERT_HISTORY: usize = 1000;

/// Alert thresholds. The floating-point ones are held by their bits.
#[derive(Debug)]
pub struct AlertConfig {
    pub cpu_temp_max_c_bits: u32,
    pub packet_loss_max_percent_bits: u32,
    pub latency_p95_max_ms_bits: u32,
    pub client_disconnect_max_secs: u64,
    pub disk_free_min_mb: u64,
    pub webhook_url: Option<String>,
    pub webhook_enabled: bool,
}

pub struct AlertConfigView {
    pub cpu_temp_max_c_bits: u32,
    pub packet_loss_max_percent_bits: u32,
    pub latency_p95_max_ms_bits: u32,
    pub client_disconnect_max_secs: u64,
    pub disk_free_min_mb: u64,
    pub webhook_url: Option<Seq<char>>,
    pub webhook_enabled: bool,
}

impl View for AlertConfig {
    type V = AlertConfigView;

    open spec fn view(&self) -> AlertConfigView {
        AlertConfigView {
            cpu_temp_max_c_bits: self.cpu_temp_max_c_bits,
            packet_loss_max_percent_bits: self.packet_loss_max_percent_bits,
            latency_p95_max_ms_bits: self.latency_p95_max_ms_bits,
            client_disconnect_max_secs: self.client_disconnect_max_secs,
            disk_free_min_mb: self.disk_free_min_mb,
            webhook_url: text_opt(self.webhook_url),
            webhook_enabled: self.webhook_enabled,
        }
    }
}

/// The thresholds at the start: 80 degrees, 1 percent of loss, 10 ms of
/// latency, 30 seconds of silence, 100 MB of free disk, no webhook.
pub open spec fn default_alert_config() -> AlertConfigView {
    AlertConfigView {
        cpu_temp_max_c_bits: 0x42A0_0000,
        packet_loss_max_percent_bits: 0x3F80_0000,
        latency_p95_max_ms_bits: 0x4120_0000,
        client_disconnect_max_secs: 30,
        disk_free_min_mb: 100,
        webhook_url: None,
        webhook_enabled: false,
    }
}

impl Default for AlertConfig {
    fn default() -> (r: Self)
        ensures
            r@ == default_alert_config(),
    {
        AlertConfig {
            cpu_temp_max_c_bits: 0x42A0_0000,
            packet_loss_max_percent_bits: 0x3F80_0000,
            latency_p95_max_ms_bits: 0x4120_0000,
            client_disconnect_max_secs: 30,
            disk_free_min_mb: 100,
            webhook_url: None,
            webhook_enabled: false,
        }
    }
}

impl AlertConfig {
    /// A copy with the same contents.
    pub fn copy(&self) -> (r: Self)
        ensures
            r@ == self@,
    {
        AlertConfig {
            cpu_temp_max_c_bits: self.cpu_temp_max_c_bits,
            packet_loss_max_percent_bits: self.packet_loss_max_percent_bits,
            latency_p95_max_ms_bits: self.latency_p95_max_ms_bits,
            client_disconnect_max_secs: self.client_disconnect_max_secs,
            disk_free_min_mb: self.disk_free_min_mb,
            webhook_url: copy_opt(&self.webhook_url),
            webhook_enabled: self.webhook_enabled,
        }
    }
}

#[derive(Clone, Copy, Debug, PartialEq, Eq, Structural)]
pub enum AlertSeverity {
    Warning,
    Critical,
}

#[derive(Clone, Copy, Debug, PartialEq, Eq, Structural)]
pub enum AlertState {
    Active,
    Resolved,
}

/// An alert.
#[derive(Debug)]
pub struct Alert {
    pub id: String,
    pub severity: AlertSeverity,
    pub state: AlertState,
    pub title: String,
    pub message: String,
    /// Seconds since the epoch.
    pub triggered_at: u64,
    pub resolved_at: Option<u64>,
    /// What the alert is about: `cpu_temp`, `packet_loss` and so on.
    pub source: String,
}

pub struct AlertView {
    pub id: Seq<char>,
    pub severity: AlertSeverity,
    pub state: AlertState,
    pub title: Seq<char>,
    pub message: Seq<char>,
    pub triggered_at: u64,
    pub resolved_at: Option<u64>,
    pub source: Seq<char>,
}

impl View for Alert {
    type V = AlertView;

    open spec fn view(&self) -> AlertView {
        AlertView {
            id: self.id@,
            severity: self.severity,
            state: self.state,
            title: self.title@,
            message: self.message@,
            triggered_at: self.triggered_at,
            resolved_at: self.resolved_at,
            source: self.source@,
        }
    }
}

impl Alert {
    /// A copy with the same contents.
    pub fn copy(&self) -> (r: Self)
        ensures
            r@ == self@,
    {
        Alert {
            id: self.id.clone(),
            severity: self.severity,
            state: self.state,
            title: self.title.clone(),
            message: self.message.clone(),
            triggered_at: self.triggered_at,
            resolved_at: self.resolved_at,
            source: self.source.clone(),
        }
    }
}

/// The views of several alerts.
pub open spec fn alert_views(v: Seq<Alert>) -> Seq<AlertView> {
    v.map_values(|a: Alert| a@)
}

/// The alerts in force and those of the past.
pub struct AlertManager {
    config: AlertConfig,
    active: Vec<Alert>,
    history: Vec<Alert>,
    alert_counter: u32,
}

pub struct AlertManagerView {
    pub config: AlertConfigView,
    pub active: Seq<AlertView>,
    pub history: Seq<AlertView>,
    pub alert_counter: u32,
}

impl View for AlertManager {
    type V = AlertManagerView;

    closed spec fn view(&self) -> AlertManagerView {
        AlertManagerView {
            config: self.config@,
            active: alert_views(self.active@),
            history: alert_views(self.history@),
            alert_counter: self.alert_counter,
        }
    }
}

/// At most one alert of a source is in force, and it is active and open.
pub open spec fn wf_alerts(s: AlertManagerView) -> bool {
    &&& forall|i: int, j: int|
        #![trigger s.active[i], s.active[j]]
        0 <= i < j < s.active.len() ==> s.active[i].source != s.active[j].source
    &&& forall|i: int|
        0 <= i < s.active.len() ==> {
            &&& (#[trigger] s.active[i]).state == AlertState::Active
            &&& s.active[i].resolved_at is None
        }
}

/// One threshold and how it stands.
pub struct CheckView {
    pub source: Seq<char>,
    pub exceeded: bool,
    pub severity: AlertSeverity,
    pub message: Seq<char>,
}

/// Position of the alert of a source among several, or their number.
pub open spec fn alert_index(active: Seq<AlertView>, source: Seq<char>) -> int
    decreases active.len(),
{
    if active.len() == 0 {
        0
    } else if active[0].source == source {
        0
    } else {
        1 + alert_index(active.drop_first(), source)
    }
}

/// Whether an alert of a source is in force.
pub open spec fn is_active(s: AlertManagerView, source: Seq<char>) -> bool {
    alert_index(s.active, source) < s.active.len()
}

/// The alert that fires as number `n` of a check.
pub open spec fn fired_alert(n: u32, c: CheckView, now: u64) -> AlertView {
    AlertView {
        id: "alert-"@ + decimal(n as nat),
        severity: c.severity,
        state: AlertState::Active,
        title: replace_char(c.source, '_', ' ') + " alert"@,
        message: c.message,
        triggered_at: now,
        resolved_at: None,
        source: c.source,
    }
}

/// An alert that is over.
pub open spec fn resolved_alert(a: AlertView, now: u64) -> AlertView {
    AlertView { state: AlertState::Resolved, resolved_at: Some(now), ..a }
}

/// The last entries of a history, as many as are kept.
pub open spec fn kept(history: Seq<AlertView>) -> Seq<AlertView> {
    if history.len() > ALERT_HISTORY {
        history.skip(history.len() - ALERT_HISTORY)
    } else {
        history
    }
}

/// The alerts after a check at `now`: a threshold that is exceeded fires an
/// alert unless one of its source is in force; one that is not exceeded
/// resolves the alert of its source.
pub open spec fn checked(s: AlertManagerView, c: CheckView, now: u64) -> AlertManagerView {
    let i = alert_index(s.active, c.source);
    if c.exceeded && !is_active(s, c.source) {
        let n = (s.alert_counter + 1) as u32;
        AlertManagerView {
            active: s.active.push(fired_alert(n, c, now)),
            history: kept(s.history.push(fired_alert(n, c, now))),
            alert_counter: n,
            ..s
        }
    } else if !c.exceeded && is_active(s, c.source) {
        AlertManagerView {
            active: s.active.remove(i),
            history: s.history.push(resolved_alert(s.active[i], now)),
            ..s
        }
    } else {
        s
    }
}

/// The webhook that is told about the alert of a check, if one is.
pub open spec fn webhook_of(s: AlertManagerView, c: CheckView) -> Option<Seq<char>> {
    if c.exceeded && !is_active(s, c.source) && s.config.webhook_enabled {
        s.config.webhook_url
    } else {
        None
    }
}

/// A message for a webhook.
pub struct WebhookCall {
    pub url: String,
    pub alert: Alert,
}

/// What a webhook is told.
pub open spec fn webhook_calls(v: Seq<WebhookCall>) -> Seq<(Seq<char>, AlertView)> {
    v.map_values(|c: WebhookCall| (c.url@, c.alert@))
}

/// The webhook messages of a check at `now`.
pub open spec fn calls_of(s: AlertManagerView, c: CheckView, now: u64) -> Seq<
    (Seq<char>, AlertView),
> {
    match webhook_of(s, c) {
        Some(url) => seq![(url, fired_alert((s.alert_counter + 1) as u32, c, now))],
        None => Seq::empty(),
    }
}

/// The alerts after several checks, one after the other.
pub open spec fn checked_all(s: AlertManagerView, checks: Seq<CheckView>, now: u64) -> AlertManagerView
    decreases checks.len(),
{
    if checks.len() == 0 {
        s
    } else {
        checked(checked_all(s, checks.drop_last(), now), checks.last(), now)
    }
}

/// The webhook messages of several checks.
pub open spec fn calls_of_all(s: AlertManagerView, checks: Seq<CheckView>, now: u64) -> Seq<
    (Seq<char>, AlertView),
>
    decreases checks.len(),
{
    if checks.len() == 0 {
        Seq::empty()
    } else {
        calls_of_all(s, checks.drop_last(), now) + calls_of(
            checked_all(s, checks.drop_last(), now),
            checks.last(),
            now,
        )
    }
}

/// A threshold on a measured rate: whether it is exceeded, and the message.
pub struct RateCheck {
    pub exceeded: bool,
    pub message: String,
}

/// What alerts are evaluated on.
pub struct EvalMetrics {
    pub cpu_temp: RateCheck,
    pub packet_loss: RateCheck,
    pub latency_p95: RateCheck,
    /// The longest time that a registered client has been silent, in seconds.
    pub client_silence_secs: u64,
    pub midi_device_connected: bool,
    pub standby_host_healthy: bool,
    pub disk_free_mb: u64,
}

/// The checks that are made on the metrics, in order.
pub open spec fn checks_on(config: AlertConfigView, m: EvalMetrics) -> Seq<CheckView> {
    let common = seq![
        CheckView {
            source: "cpu_temp"@,
            exceeded: m.cpu_temp.exceeded,
            severity: AlertSeverity::Critical,
            message: m.cpu_temp.message@,
        },
        CheckView {
            source: "packet_loss"@,
            exceeded: m.packet_loss.exceeded,
            severity: AlertSeverity::Warning,
            message: m.packet_loss.message@,
        },
        CheckView {
            source: "latency"@,
            exceeded: m.latency_p95.exceeded,
            severity: AlertSeverity::Warning,
            message: m.latency_p95.message@,
        },
        CheckView {
            source: "client_disconnect"@,
            exceeded: m.client_silence_secs > config.client_disconnect_max_secs,
            severity: AlertSeverity::Warning,
            message: "Client disconnected for "@ + decimal(m.client_silence_secs as nat)
                + "s (max "@ + decimal(config.client_disconnect_max_secs as nat) + "s)"@,
        },
        CheckView {
            source: "midi_device"@,
            exceeded: !m.midi_device_connected,
            severity: AlertSeverity::Critical,
            message: "MIDI device disconnected"@,
        },
        CheckView {
            source: "standby_host"@,
            exceeded: !m.standby_host_healthy,
            severity: AlertSeverity::Warning,
            message: "Standby host unreachable — no redundancy"@,
        },
    ];
    if config.disk_free_min_mb > 0 {
        common.push(
            CheckView {
                source: "disk_space"@,
                exceeded: m.disk_free_mb < config.disk_free_min_mb,
                severity: AlertSeverity::Warning,
                message: "Disk space low: "@ + decimal(m.disk_free_mb as nat) + "MB free (min "@
                    + decimal(config.disk_free_min_mb as nat) + "MB)"@,
            },
        )
    } else {
        common
    }
}

/// The last entries of a history, the newest first.
pub open spec fn newest(history: Seq<AlertView>, limit: int) -> Seq<AlertView> {
    history.skip(
        if history.len() > limit {
            history.len() - limit
        } else {
            0
        },
    ).reverse()
}

proof fn lemma_alert_index(active: Seq<AlertView>, source: Seq<char>, i: int)
    requires
        0 <= i <= active.len(),
        forall|j: int| 0 <= j < i ==> (#[trigger] active[j]).source != source,
        i < active.len() ==> active[i].source == source,
    ensures
        alert_index(active, source) == i,
    decreases active.len(),
{
    if active.len() > 0 && i > 0 {
        assert(active[0].source != source);
        assert forall|j: int| 0 <= j < i - 1 implies (#[trigger] active.drop_first()[j]).source
            != source by {
            assert(active[j + 1].source != source);
        }
        lemma_alert_index(active.drop_first(), source, i - 1);
    }
}

proof fn lemma_alert_index_bounds(active: Seq<AlertView>, source: Seq<char>)
    ensures
        0 <= alert_index(active, source) <= active.len(),
        alert_index(active, source) < active.len() ==> active[alert_index(active, source)].source
            == source,
        forall|j: int|
            0 <= j < alert_index(active, source) ==> (#[trigger] active[j]).source != source,
    decreases active.len(),
{
    if active.len() > 0 && active[0].source != source {
        let rest = active.drop_first();
        lemma_alert_index_bounds(rest, source);
        assert forall|j: int| 0 <= j < alert_index(active, source) implies (
        #[trigger] active[j]).source != source by {
            if j > 0 {
                assert(rest[j - 1] == active[j]);
            }
        }
    }
}

/// Two texts with a number between each two of three texts.
fn numbers_text(a: &str, n: u64, b: &str, m: u64, c: &str) -> (r: String)
    ensures
        r@ == a@ + decimal(n as nat) + b@ + decimal(m as nat) + c@,
{
    let first = to_decimal(n);
    let second = to_decimal(m);
    let mut r = cat3(a, first.as_str(), b);
    r.append(second.as_str());
    r.append(c);
    r
}

impl AlertManager {
    pub fn new() -> (r: Self)
        ensures
            r@.config == default_alert_config(),
            r@.active.len() == 0,
            r@.history.len() == 0,
            r@.alert_counter == 0,
            wf_alerts(r@),
    {
        AlertManager {
            config: AlertConfig::default(),
            active: Vec::new(),
            history: Vec::new(),
            alert_counter: 0,
        }
    }

    /// Position of the alert of a source.
    fn index_of(&self, source: &str) -> (i: usize)
        ensures
            i == alert_index(self@.active, source@),
            i <= self.active@.len(),
    {
        let mut i: usize = 0;
        while i < self.active.len()
            invariant
                i <= self.active@.len(),
                forall|j: int|
                    0 <= j < i ==> (#[trigger] self@.active[j]).source != source@,
            decreases self.active@.len() - i,
        {
            if same(self.active[i].source.as_str(), source) {
                proof {
                    lemma_alert_index(self@.active, source@, i as int);
                }
                return i;
            }
            i += 1;
        }
        proof {
            lemma_alert_index(self@.active, source@, i as int);
        }
        i
    }

    /// Makes one check: fires or resolves the alert of a source. The message
    /// for a webhook is returned, if there is one.
    pub fn check_threshold(
        &mut self,
        source: &str,
        condition_met: bool,
        severity: AlertSeverity,
        message: String,
        now: u64,
    ) -> (r: Option<WebhookCall>)
        requires
            wf_alerts(old(self)@),
            condition_met && !is_active(old(self)@, source@) ==> old(self)@.alert_counter
                < u32::MAX,
        ensures
            ({
                let c = CheckView {
                    source: source@,
                    exceeded: condition_met,
                    severity,
                    message: message@,
                };
                &&& final(self)@ == checked(old(self)@, c, now)
                &&& match r {
                    Some(call) => calls_of(old(self)@, c, now) == seq![(call.url@, call.alert@)],
                    None => calls_of(old(self)@, c, now).len() == 0,
                }
            }),
            wf_alerts(final(self)@),
            final(self)@.alert_counter <= old(self)@.alert_counter + 1,
    {
        let i: usize = self.index_of(source);
        proof {
            lemma_alert_index_bounds(self@.active, source@);
        }
        if condition_met {
            if i < self.active.len() {
                return None;
            }
            self.alert_counter = self.alert_counter + 1;
            let number = to_decimal(self.alert_counter as u64);
            let spaced = str_replace_char(source, '_', ' ');
            let alert = Alert {
                id: cat("alert-", number.as_str()),
                severity,
                state: AlertState::Active,
                title: cat(spaced.as_str(), " alert"),
                message,
                triggered_at: now,
                resolved_at: None,
                source: source.to_owned(),
            };
            self.active.push(alert.copy());
            assert(alert_views(self.active@) =~= old(self)@.active.push(alert@));
            self.remember(alert.copy());
            assert(self@ == checked(
                old(self)@,
                CheckView {
                    source: source@,
                    exceeded: condition_met,
                    severity,
                    message: message@,
                },
                now,
            ));
            if self.config.webhook_enabled {
                if let Some(url) = &self.config.webhook_url {
                    return Some(WebhookCall { url: url.clone(), alert });
                }
            }
            None
        } else {
            if i < self.active.len() {
                let mut alert = self.active.remove(i);
                assert(alert_views(self.active@) =~= old(self)@.active.remove(i as int));
                assert(old(self)@.active[i as int] == alert@);
                alert.state = AlertState::Resolved;
                alert.resolved_at = Some(now);
                self.history.push(alert);
                assert(alert_views(self.history@) =~= old(self)@.history.push(alert@));
            }
            None
        }
    }

    /// Adds a fired alert to the history, of which the last entries are then kept.
    fn remember(&mut self, alert: Alert)
        ensures
            final(self)@ == (AlertManagerView {
                history: kept(old(self)@.history.push(alert@)),
                ..old(self)@
            }),
    {
        let ghost all = self@.history.push(alert@);
        self.history.push(alert);
        assert(alert_views(self.history@) =~= all);
        if self.history.len() > ALERT_HISTORY {
            let first: usize = self.history.len() - ALERT_HISTORY;
            let rest = self.history.split_off(first);
            self.history = rest;
            assert(alert_views(self.history@) =~= all.skip(first as int));
        }
    }

    /// Evaluates the metrics against the thresholds; fires and resolves
    /// alerts. The messages for the webhook are returned.
    pub fn evaluate(&mut self, metrics: &EvalMetrics, now: u64) -> (calls: Vec<WebhookCall>)
        requires
            wf_alerts(old(self)@),
            old(self)@.alert_counter <= u32::MAX - 7,
        ensures
            final(self)@ == checked_all(
                old(self)@,
                checks_on(old(self)@.config, *metrics),
                now,
            ),
            webhook_calls(calls@) == calls_of_all(
                old(self)@,
                checks_on(old(self)@.config, *metrics),
                now,
            ),
            wf_alerts(final(self)@),
    {
        let ghost start = self@;
        let ghost checks = checks_on(self@.config, *metrics);
        let mut calls: Vec<WebhookCall> = Vec::new();
        assert(webhook_calls(calls@) =~= Seq::empty());
        assert(checks.take(0) =~= Seq::<CheckView>::empty());
        let silence_max: u64 = self.config.client_disconnect_max_secs;
        let disk_min: u64 = self.config.disk_free_min_mb;
        self.run_one(
            &mut calls,
            "cpu_temp",
            metrics.cpu_temp.exceeded,
            AlertSeverity::Critical,
            metrics.cpu_temp.message.clone(),
            now,
            Ghost(start),
            Ghost(checks),
            Ghost(0),
        );
        self.run_one(
            &mut calls,
            "packet_loss",
            metrics.packet_loss.exceeded,
            AlertSeverity::Warning,
            metrics.packet_loss.message.clone(),
            now,
            Ghost(start),
            Ghost(checks),
            Ghost(1),
        );
        self.run_one(
            &mut calls,
            "latency",
            metrics.latency_p95.exceeded,
            AlertSeverity::Warning,
            metrics.latency_p95.message.clone(),
            now,
            Ghost(start),
            Ghost(checks),
            Ghost(2),
        );
        let silent = numbers_text(
            "Client disconnected for ",
            metrics.client_silence_secs,
            "s (max ",
            silence_max,
            "s)",
        );
        self.run_one(
            &mut calls,
            "client_disconnect",
            metrics.client_silence_secs > silence_max,
            AlertSeverity::Warning,
            silent,
            now,
            Ghost(start),
            Ghost(checks),
            Ghost(3),
        );
        self.run_one(
            &mut calls,
            "midi_device",
            !metrics.midi_device_connected,
            AlertSeverity::Critical,
            "MIDI device disconnected".to_owned(),
            now,
            Ghost(start),
            Ghost(checks),
            Ghost(4),
        );
        self.run_one(
            &mut calls,
            "standby_host",
            !metrics.standby_host_healthy,
            AlertSeverity::Warning,
            "Standby host unreachable — no redundancy".to_owned(),
            now,
            Ghost(start),
            Ghost(checks),
            Ghost(5),
        );
        if disk_min > 0 {
            let low = numbers_text(
                "Disk space low: ",
                metrics.disk_free_mb,
                "MB free (min ",
                disk_min,
                "MB)",
            );
            self.run_one(
                &mut calls,
                "disk_space",
                metrics.disk_free_mb < disk_min,
                AlertSeverity::Warning,
                low,
                now,
                Ghost(start),
                Ghost(checks),
                Ghost(6),
            );
            assert(checks.take(7) =~= checks);
        } else {
            assert(checks.take(6) =~= checks);
        }
        calls
    }

    /// Makes check number `k` and files its webhook message.
    fn run_one(
        &mut self,
        calls: &mut Vec<WebhookCall>,
        source: &str,
        condition_met: bool,
        severity: AlertSeverity,
        message: String,
        now: u64,
        Ghost(start): Ghost<AlertManagerView>,
        Ghost(checks): Ghost<Seq<CheckView>>,
        Ghost(k): Ghost<int>,
    )
        requires
            0 <= k < checks.len(),
            checks[k] == (CheckView {
                source: source@,
                exceeded: condition_met,
                severity,
                message: message@,
            }),
            wf_alerts(old(self)@),
            old(self)@.alert_counter < u32::MAX,
            old(self)@ == checked_all(start, checks.take(k), now),
            webhook_calls(old(calls)@) == calls_of_all(start, checks.take(k), now),
        ensures
            final(self)@ == checked_all(start, checks.take(k + 1), now),
            webhook_calls(final(calls)@) == calls_of_all(start, checks.take(k + 1), now),
            wf_alerts(final(self)@),
            final(self)@.alert_counter <= old(self)@.alert_counter + 1,
    {
        let call = self.check_threshold(source, condition_met, severity, message, now);
        self.note(calls, call, Ghost(start), Ghost(checks), Ghost(k), now);
    }

    /// Files the webhook message of check number `k`.
    fn note(
        &self,
        calls: &mut Vec<WebhookCall>,
        call: Option<WebhookCall>,
        Ghost(start): Ghost<AlertManagerView>,
        Ghost(checks): Ghost<Seq<CheckView>>,
        Ghost(k): Ghost<int>,
        now: u64,
    )
        requires
            0 <= k < checks.len(),
            self@ == checked(checked_all(start, checks.take(k), now), checks[k], now),
            webhook_calls(old(calls)@) == calls_of_all(start, checks.take(k), now),
            match call {
                Some(c) => calls_of(
                    checked_all(start, checks.take(k), now),
                    checks[k],
                    now,
                ) == seq![(c.url@, c.alert@)],
                None => calls_of(
                    checked_all(start, checks.take(k), now),
                    checks[k],
                    now,
                ).len() == 0,
            },
        ensures
            self@ == checked_all(start, checks.take(k + 1), now),
            webhook_calls(final(calls)@) == calls_of_all(start, checks.take(k + 1), now),
    {
        assert(checks.take(k + 1).drop_last() =~= checks.take(k));
        assert(checks.take(k + 1).last() == checks[k]);
        let ghost before = webhook_calls(calls@);
        match call {
            Some(c) => {
                calls.push(c);
                assert(webhook_calls(calls@) =~= before + seq![(c.url@, c.alert@)]);
            },
            None => {
                assert(calls_of(
                    checked_all(start, checks.take(k), now),
                    checks[k],
                    now,
                ) =~= Seq::empty());
                assert(before =~= before + Seq::empty());
            },
        }
    }

    /// Whether there are numbers left for the alerts of an evaluation.
    pub fn has_free_ids(&self) -> (r: bool)
        ensures
            r == (self@.alert_counter <= u32::MAX - 7),
    {
        self.alert_counter <= u32::MAX - 7
    }

    /// The alerts in force.
    pub fn active_alerts(&self) -> (r: Vec<Alert>)
        ensures
            alert_views(r@) == self@.active,
    {
        copy_alerts(&self.active)
    }

    /// The last alerts of the history, the newest first.
    pub fn alert_history(&self, limit: usize) -> (r: Vec<Alert>)
        ensures
            alert_views(r@) == newest(self@.history, limit as int),
    {
        let len: usize = self.history.len();
        let start: usize = if len > limit {
            len - limit
        } else {
            0
        };
        let mut r: Vec<Alert> = Vec::new();
        let mut i: usize = len;
        let ghost all = newest(self@.history, limit as int);
        while i > start
            invariant
                start <= i <= len,
                len == self.history@.len(),
                start == if len > limit { len - limit } else { 0 },
                all == newest(self@.history, limit as int),
                alert_views(r@) =~= all.take(len - i),
            decreases i,
        {
            i -= 1;
            let ghost before = alert_views(r@);
            r.push(self.history[i].copy());
            assert(alert_views(r@) =~= before.push(self@.history[i as int]));
            assert(all[len - 1 - i] == self@.history[i as int]);
        }
        assert(all.take(len - i) =~= all);
        r
    }

    /// Puts other thresholds in force.
    pub fn update_config(&mut self, config: AlertConfig)
        ensures
            final(self)@ == (AlertManagerView { config: config@, ..old(self)@ }),
    {
        self.config = config;
    }

    /// The thresholds in force.
    pub fn get_config(&self) -> (r: AlertConfig)
        ensures
            r@ == self@.config,
    {
        self.config.copy()
    }
}

/// Copies of several alerts.
fn copy_alerts(v: &Vec<Alert>) -> (r: Vec<Alert>)
    ensures
        alert_views(r@) == alert_views(v@),
{
    let mut r: Vec<Alert> = Vec::new();
    let mut i: usize = 0;
    while i < v.len()
        invariant
            i <= v@.len(),
            alert_views(r@) =~= alert_views(v@).take(i as int),
        decreases v@.len() - i,
    {
        let ghost before = alert_views(r@);
        r.push(v[i].copy());
        assert(alert_views(r@) =~= before.push(v@[i as int]@));
        i += 1;
    }
    assert(alert_views(v@).take(i as int) =~= alert_views(v@));
    r
}

/// After a check, an alert of its source is in force exactly when the
/// threshold is exceeded, and there is still at most one alert of a source.
pub proof fn law_check_decides(s: AlertManagerView, c: CheckView, now: u64)
    requires
        wf_alerts(s),
    ensures
        is_active(checked(s, c, now), c.source) == c.exceeded,
        wf_alerts(checked(s, c, now)),
{
    let t = checked(s, c, now);
    let i = alert_index(s.active, c.source);
    lemma_alert_index_bounds(s.active, c.source);
    lemma_alert_index_bounds(t.active, c.source);
    if c.exceeded && i == s.active.len() {
        assert(t.active[i].source == c.source);
        lemma_alert_index(t.active, c.source, i);
    } else if !c.exceeded && i < s.active.len() {
        let k = alert_index(t.active, c.source);
        if k < t.active.len() {
            let orig = if k < i { k } else { k + 1 };
            assert(t.active[k] == s.active[orig]);
            assert(s.active[i].source == s.active[orig].source);
            assert(false);
        }
    }
}

/// A threshold that is still exceeded changes nothing: the alert keeps its number
/// and its time, the history stays as it is, and no webhook is told again.
pub proof fn law_repeated_violation(s: AlertManagerView, c: CheckView, now: u64)
    requires
        wf_alerts(s),
        c.exceeded,
        is_active(s, c.source),
    ensures
        checked(s, c, now) == s,
        calls_of(s, c, now) == Seq::<(Seq<char>, AlertView)>::empty(),
{
}

/// Once an alert has fired the history holds the last entries alone, the fired
/// alert at its end. A resolved alert comes on top of that until the next one fires.
pub proof fn law_history_is_cut(s: AlertManagerView, c: CheckView, now: u64)
    requires
        wf_alerts(s),
        c.exceeded,
        !is_active(s, c.source),
        s.alert_counter < u32::MAX,
    ensures
        checked(s, c, now).history.len() <= ALERT_HISTORY,
        checked(s, c, now).history.last() == fired_alert((s.alert_counter + 1) as u32, c, now),
{
}

/// A check says nothing about the alerts of other sources.
pub proof fn law_check_keeps_others(s: AlertManagerView, c: CheckView, now: u64, a: AlertView)
    requires
        wf_alerts(s),
        a.source != c.source,
    ensures
        s.active.contains(a) == checked(s, c, now).active.contains(a),
{
    let t = checked(s, c, now);
    let i = alert_index(s.active, c.source);
    lemma_alert_index_bounds(s.active, c.source);
    if s.active.contains(a) {
        let k = s.active.index_of(a);
        if !c.exceeded && i < s.active.len() {
            let there = if k < i { k } else { k - 1 };
            assert(t.active[there] == a);
        } else {
            assert(t.active[k] == a);
        }
    }
    if t.active.contains(a) {
        let k = t.active.index_of(a);
        if !c.exceeded && i < s.active.len() {
            let orig = if k < i { k } else { k + 1 };
            assert(s.active[orig] == a);
        } else {
            assert(s.active[k] == a);
        }
    }
}

/// An alert that fires and is resolved leaves the alerts in force as they
/// were, and the history ends with the alert as it fired and as it was resolved.
pub proof fn law_fire_and_resolve(s: AlertManagerView, c: CheckView, fired: u64, resolved: u64)
    requires
        wf_alerts(s),
        c.exceeded,
        !is_active(s, c.source),
        s.alert_counter < u32::MAX,
    ensures
        ({
            let t = checked(
                checked(s, c, fired),
                CheckView { exceeded: false, ..c },
                resolved,
            );
            let a = fired_alert((s.alert_counter + 1) as u32, c, fired);
            &&& t.active == s.active
            &&& t.history.last() == resolved_alert(a, resolved)
            &&& t.history[t.history.len() - 2] == a
        }),
{
    let mid = checked(s, c, fired);
    let a = fired_alert((s.alert_counter + 1) as u32, c, fired);
    lemma_alert_index_bounds(s.active, c.source);
    assert forall|j: int| 0 <= j < s.active.len() implies (#[trigger] mid.active[j]).source
        != c.source by {
        assert(mid.active[j] == s.active[j]);
    }
    lemma_alert_index(mid.active, c.source, s.active.len() as int);
    assert(mid.active.remove(s.active.len() as int) =~= s.active);
    assert(mid.history.last() == a);
}

/// Whether an alert of a source is among several.
pub open spec fn has_source(active: Seq<AlertView>, source: Seq<char>) -> bool {
    exists|i: int| 0 <= i < active.len() && (#[trigger] active[i]).source == source
}

proof fn lemma_has_source(s: AlertManagerView, source: Seq<char>)
    ensures
        is_active(s, source) == has_source(s.active, source),
{
    lemma_alert_index_bounds(s.active, source);
    if has_source(s.active, source) {
        let i = choose|i: int| 0 <= i < s.active.len() && (#[trigger] s.active[i]).source == source;
        if i < alert_index(s.active, source) {
            assert(s.active[i].source != source);
        }
    }
}

/// A threshold that is exceeded and has no alert in force fires one: it is in force,
/// it is the newest of the history, it says what is the matter, since when and how bad
/// that is, and the webhook is told if it is on and has an address.
pub proof fn law_alert_fires(
    m: &mut AlertManager,
    source: &str,
    severity: AlertSeverity,
    message: String,
    now: u64,
    r: Option<WebhookCall>,
)
    requires
        call_ensures(AlertManager::check_threshold, (m, source, true, severity, message, now), r),
        !has_source(old(m)@.active, source@),
        old(m)@.alert_counter < u32::MAX,
    ensures
        final(m)@.active.len() == old(m)@.active.len() + 1,
        final(m)@.active.drop_last() == old(m)@.active,
        final(m)@.alert_counter == old(m)@.alert_counter + 1,
        final(m)@.config == old(m)@.config,
        ({
            let a = final(m)@.active.last();
            &&& a.id == "alert-"@ + decimal((old(m)@.alert_counter + 1) as nat)
            &&& a.severity == severity
            &&& a.state == AlertState::Active
            &&& a.message == message@
            &&& a.triggered_at == now
            &&& a.resolved_at is None
            &&& a.source == source@
            &&& a.title.len() == source@.len() + 6
            &&& forall|i: int|
                0 <= i < source@.len() ==> #[trigger] a.title[i] == (if source@[i] == '_' {
                    ' '
                } else {
                    source@[i]
                })
            &&& a.title.skip(source@.len() as int) == " alert"@
            &&& final(m)@.history.last() == a
            &&& r is Some <==> old(m)@.config.webhook_enabled && old(m)@.config.webhook_url is Some
            &&& r matches Some(call) ==> Some(call.url@) == old(m)@.config.webhook_url
                && call.alert@ == a
        }),
{
    lemma_has_source(old(m)@, source@);
    reveal_strlit(" alert");
    let a = final(m)@.active.last();
    assert(final(m)@.active.drop_last() =~= old(m)@.active);
    assert(a.title.skip(source@.len() as int) =~= " alert"@);
    if r is Some {
        let call = r->0;
        let c = CheckView { source: source@, exceeded: true, severity, message: message@ };
        assert(calls_of(old(m)@, c, now)[0] == (call.url@, call.alert@));
    }
}

/// A threshold that is not exceeded any more resolves the alert of its source: it is
/// not in force, and the history ends with it, marked with the time. All other alerts
/// stay, and nobody is told.
pub proof fn law_alert_is_resolved(
    m: &mut AlertManager,
    source: &str,
    severity: AlertSeverity,
    message: String,
    now: u64,
    r: Option<WebhookCall>,
    k: int,
)
    requires
        call_ensures(AlertManager::check_threshold, (m, source, false, severity, message, now), r),
        wf_alerts(old(m)@),
        0 <= k < old(m)@.active.len(),
        old(m)@.active[k].source == source@,
    ensures
        r is None,
        !has_source(final(m)@.active, source@),
        final(m)@.active == old(m)@.active.remove(k),
        final(m)@.history.drop_last() == old(m)@.history,
        ({
            let before = old(m)@.active[k];
            let a = final(m)@.history.last();
            &&& a.state == AlertState::Resolved
            &&& a.resolved_at == Some(now)
            &&& a.id == before.id && a.severity == before.severity && a.title == before.title
            &&& a.message == before.message && a.triggered_at == before.triggered_at
            &&& a.source == source@
        }),
        final(m)@.alert_counter == old(m)@.alert_counter,
{
    let s = old(m)@;
    let c = CheckView { source: source@, exceeded: false, severity, message: message@ };
    lemma_alert_index_bounds(s.active, source@);
    assert forall|j: int| 0 <= j < k implies (#[trigger] s.active[j]).source != source@ by {
        assert(s.active[j].source != s.active[k].source);
    }
    lemma_alert_index(s.active, source@, k);
    law_check_decides(s, c, now);
    lemma_has_source(final(m)@, source@);
    assert(final(m)@.history.drop_last() =~= s.history);
    assert(calls_of(s, c, now).len() == 0);
    if let Some(call) = r {
        assert(seq![(call.url@, call.alert@)].len() == 1);
    }
}

/// A check that confirms what is known changes nothing: neither a threshold that is
/// still exceeded nor one that is still kept.
pub proof fn law_nothing_new(
    m: &mut AlertManager,
    source: &str,
    met: bool,
    severity: AlertSeverity,
    message: String,
    now: u64,
    r: Option<WebhookCall>,
)
    requires
        call_ensures(AlertManager::check_threshold, (m, source, met, severity, message, now), r),
        met == has_source(old(m)@.active, source@),
    ensures
        final(m)@ == old(m)@,
        r is None,
{
    lemma_has_source(old(m)@, source@);
    let c = CheckView { source: source@, exceeded: met, severity, message: message@ };
    assert(calls_of(old(m)@, c, now).len() == 0);
    if let Some(call) = r {
        assert(seq![(call.url@, call.alert@)].len() == 1);
    }
}

proof fn lemma_other_source(s: AlertManagerView, c: CheckView, now: u64, source: Seq<char>)
    requires
        wf_alerts(s),
        c.source != source,
    ensures
        has_source(checked(s, c, now).active, source) == has_source(s.active, source),
{
    let t = checked(s, c, now);
    if has_source(s.active, source) {
        let i = choose|i: int| 0 <= i < s.active.len() && (#[trigger] s.active[i]).source == source;
        law_check_keeps_others(s, c, now, s.active[i]);
        assert(s.active.contains(s.active[i]));
        let k = t.active.index_of(s.active[i]);
        assert(t.active[k].source == source);
    }
    if has_source(t.active, source) {
        let i = choose|i: int| 0 <= i < t.active.len() && (#[trigger] t.active[i]).source == source;
        law_check_keeps_others(s, c, now, t.active[i]);
        assert(t.active.contains(t.active[i]));
        let k = s.active.index_of(t.active[i]);
        assert(s.active[k].source == source);
    }
}

proof fn lemma_checked_all(s: AlertManagerView, checks: Seq<CheckView>, now: u64, source: Seq<char>)
    requires
        wf_alerts(s),
        forall|i: int, j: int|
            #![trigger checks[i], checks[j]]
            0 <= i < j < checks.len() ==> checks[i].source != checks[j].source,
    ensures
        wf_alerts(checked_all(s, checks, now)),
        forall|k: int|
            0 <= k < checks.len() && (#[trigger] checks[k]).source == source ==> has_source(
                checked_all(s, checks, now).active,
                source,
            ) == checks[k].exceeded,
        (forall|k: int| 0 <= k < checks.len() ==> (#[trigger] checks[k]).source != source)
            ==> has_source(checked_all(s, checks, now).active, source) == has_source(
            s.active,
            source,
        ),
    decreases checks.len(),
{
    if checks.len() > 0 {
        let front = checks.drop_last();
        let c = checks.last();
        let mid = checked_all(s, front, now);
        assert forall|i: int, j: int|
            #![trigger front[i], front[j]]
            0 <= i < j < front.len() implies front[i].source != front[j].source by {
            assert(checks[i].source != checks[j].source);
        }
        lemma_checked_all(s, front, now, source);
        law_check_decides(mid, c, now);
        lemma_has_source(checked(mid, c, now), c.source);
        if c.source != source {
            lemma_other_source(mid, c, now, source);
        }
        assert forall|k: int|
            0 <= k < checks.len() && (#[trigger] checks[k]).source == source implies has_source(
            checked_all(s, checks, now).active,
            source,
        ) == checks[k].exceeded by {
            if k < front.len() {
                assert(front[k] == checks[k]);
                assert(checks[k].source != checks[front.len() as int].source);
            }
        }
        if forall|k: int| 0 <= k < checks.len() ==> (#[trigger] checks[k]).source != source {
            assert(checks[front.len() as int].source != source);
            assert forall|k: int| 0 <= k < front.len() implies (#[trigger] front[k]).source
                != source by {
                assert(checks[k].source != source);
            }
        }
    }
}

/// After an evaluation the alerts in force are those of the metrics: one for the
/// temperature, the loss and the latency where their thresholds are exceeded, for a
/// client that has been silent too long, a MIDI device that is unplugged, a standby that
/// is not healthy, and, where a least amount is set, a disk with less than that.
pub proof fn law_evaluated_alerts(
    m: &mut AlertManager,
    metrics: EvalMetrics,
    now: u64,
    calls: Vec<WebhookCall>,
)
    requires
        call_ensures(AlertManager::evaluate, (m, &metrics, now), calls),
        wf_alerts(old(m)@),
    ensures
        ({
            let a = final(m)@.active;
            let config = old(m)@.config;
            &&& has_source(a, "cpu_temp"@) == metrics.cpu_temp.exceeded
            &&& has_source(a, "packet_loss"@) == metrics.packet_loss.exceeded
            &&& has_source(a, "latency"@) == metrics.latency_p95.exceeded
            &&& has_source(a, "client_disconnect"@) == (metrics.client_silence_secs
                > config.client_disconnect_max_secs)
            &&& has_source(a, "midi_device"@) == !metrics.midi_device_connected
            &&& has_source(a, "standby_host"@) == !metrics.standby_host_healthy
            &&& config.disk_free_min_mb > 0 ==> has_source(a, "disk_space"@) == (
            metrics.disk_free_mb < config.disk_free_min_mb)
            &&& config.disk_free_min_mb == 0 ==> has_source(a, "disk_space"@) == has_source(
                old(m)@.active,
                "disk_space"@,
            )
        }),
{
    reveal_strlit("cpu_temp");
    reveal_strlit("packet_loss");
    reveal_strlit("latency");
    reveal_strlit("client_disconnect");
    reveal_strlit("midi_device");
    reveal_strlit("standby_host");
    reveal_strlit("disk_space");
    let s = old(m)@;
    let c = checks_on(s.config, metrics);
    assert("packet_loss"@[0] != "midi_device"@[0]);
    assert(c[0].source == "cpu_temp"@);
    assert(c[1].source == "packet_loss"@);
    assert(c[2].source == "latency"@);
    assert(c[3].source == "client_disconnect"@);
    assert(c[4].source == "midi_device"@);
    assert(c[5].source == "standby_host"@);
    if s.config.disk_free_min_mb > 0 {
        assert(c[6].source == "disk_space"@);
    }
    lemma_checked_all(s, c, now, "cpu_temp"@);
    lemma_checked_all(s, c, now, "packet_loss"@);
    lemma_checked_all(s, c, now, "latency"@);
    lemma_checked_all(s, c, now, "client_disconnect"@);
    lemma_checked_all(s, c, now, "midi_device"@);
    lemma_checked_all(s, c, now, "standby_host"@);
    lemma_checked_all(s, c, now, "disk_space"@);
}

/// What the alerts of an evaluation say: heat and an unplugged device are critical, the
/// rest are warnings, and the message gives the measured value and its limit.
pub proof fn law_what_alerts_say(config: AlertConfigView, m: EvalMetrics, k: int)
    requires
        0 <= k < checks_on(config, m).len(),
    ensures
        ({
            let c = checks_on(config, m)[k];
            &&& c.severity == AlertSeverity::Critical <==> c.source == "cpu_temp"@ || c.source
                == "midi_device"@
            &&& c.source == "cpu_temp"@ ==> c.message == m.cpu_temp.message@
            &&& c.source == "packet_loss"@ ==> c.message == m.packet_loss.message@
            &&& c.source == "latency"@ ==> c.message == m.latency_p95.message@
            &&& c.source == "client_disconnect"@ ==> c.message == "Client disconnected for "@
                + decimal(m.client_silence_secs as nat) + "s (max "@ + decimal(
                config.client_disconnect_max_secs as nat,
            ) + "s)"@
            &&& c.source == "midi_device"@ ==> c.message == "MIDI device disconnected"@
            &&& c.source == "standby_host"@ ==> c.message
                == "Standby host unreachable — no redundancy"@
            &&& c.source == "disk_space"@ ==> c.message == "Disk space low: "@ + decimal(
                m.disk_free_mb as nat,
            ) + "MB free (min "@ + decimal(config.disk_free_min_mb as nat) + "MB)"@
        }),
{
    reveal_strlit("cpu_temp");
    reveal_strlit("packet_loss");
    reveal_strlit("latency");
    reveal_strlit("client_disconnect");
    reveal_strlit("midi_device");
    reveal_strlit("standby_host");
    reveal_strlit("disk_space");
    assert("packet_loss"@[0] != "midi_device"@[0]);
    let c = checks_on(config, m);
    assert(c[0].source == "cpu_temp"@ && c[1].source == "packet_loss"@);
    assert(c[2].source == "latency"@ && c[3].source == "client_disconnect"@);
    assert(c[4].source == "midi_device"@ && c[5].source == "standby_host"@);
    if config.disk_free_min_mb > 0 {
        assert(c[6].source == "disk_space"@);
    }
    assert(k == 0 || k == 1 || k == 2 || k == 3 || k == 4 || k == 5 || k == 6);
}

/// The history is handed out from its end, the newest alert first, and never more than
/// was asked for or than there is.
pub proof fn law_newest_alert_first(m: AlertManager, limit: usize, r: Vec<Alert>, i: int)
    requires
        call_ensures(AlertManager::alert_history, (&m, limit), r),
    ensures
        r@.len() == (if m@.history.len() <= limit {
            m@.history.len() as int
        } else {
            limit as int
        }),
        0 <= i < r@.len() ==> r@[i]@ == m@.history[m@.history.len() - 1 - i],
{
    assert(alert_views(r@).len() == r@.len());
    if 0 <= i < r@.len() {
        assert(alert_views(r@)[i] == r@[i]@);
    }
}

/// The thresholds at the start: 80 degrees, one percent, ten milliseconds (as the bits of
/// these numbers), 30 seconds of silence and 100 MB, without a webhook.
pub proof fn law_factory_thresholds(c: AlertConfig)
    requires
        call_ensures(AlertConfig::default, (), c),
    ensures
        c.cpu_temp_max_c_bits == 0x42A0_0000,
        c.packet_loss_max_percent_bits == 0x3F80_0000,
        c.latency_p95_max_ms_bits == 0x4120_0000,
        c.client_disconnect_max_secs == 30,
        c.disk_free_min_mb == 100,
        c.webhook_url is None,
        !c.webhook_enabled,
{
}

/// The thresholds that were set are the thresholds, and setting them touches no alert; a
/// manager at the start has the factory's and no alert.
pub proof fn law_set_thresholds(
    fresh: AlertManager,
    factory: AlertConfig,
    m: &mut AlertManager,
    config: AlertConfig,
    after: AlertManager,
    r: AlertConfig,
    active: Vec<Alert>,
    free: bool,
    i: int,
)
    requires
        call_ensures(AlertManager::new, (), fresh),
        call_ensures(AlertConfig::default, (), factory),
        call_ensures(AlertManager::update_config, (m, config), ()),
        after == *final(m),
        call_ensures(AlertManager::get_config, (&after,), r),
        call_ensures(AlertManager::active_alerts, (&after,), active),
        call_ensures(AlertManager::has_free_ids, (&after,), free),
    ensures
        fresh@.config == factory@ && fresh@.active.len() == 0 && fresh@.history.len() == 0
            && fresh@.alert_counter == 0,
        r@ == config@,
        after@.active == old(m)@.active && after@.history == old(m)@.history
            && after@.alert_counter == old(m)@.alert_counter,
        active@.len() == after@.active.len(),
        0 <= i < active@.len() ==> active@[i]@ == after@.active[i],
        free <==> after@.alert_counter + 7 <= u32::MAX,
{
    assert(alert_views(active@).len() == active@.len());
    if 0 <= i < active@.len() {
        assert(alert_views(active@)[i] == active@[i]@);
    }
}

} // verus!
