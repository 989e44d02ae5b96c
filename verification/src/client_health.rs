//! The health of the client: counters, connection state, watchdog and what is
//! reported to the tray and to the administration service.
use vstd::prelude::*;

use crate::client_discovery::{found_is, Discovery, DiscoveryView, FoundHost};
use crate::client_receiver::PacketDecision;
use crate::seqs::{first, lemma_first_index};
use crate::text::{copy_opt, same, text_opt};

verus! {

/// A task that has not pulsed for this long counts as hanging.
pub const LIVENESS_TIMEOUT_MS: u64 = 2000;

/// Counters of the client's traffic since the last reset.
#[derive(Clone, Copy, Debug, PartialEq, Eq, Structural)]
pub struct TrafficCounters {
    pub midi_in: u64,
    pub midi_out: u64,
    pub packets_received: u64,
    pub sequence_gaps: u64,
}

impl TrafficCounters {
    pub fn new() -> (r: Self)
        ensures
            r == (TrafficCounters {
                midi_in: 0,
                midi_out: 0,
                packets_received: 0,
                sequence_gaps: 0,
            }),
    {
        TrafficCounters { midi_in: 0, midi_out: 0, packets_received: 0, sequence_gaps: 0 }
    }

    /// The counts since the last reset; all counters start from zero again.
    pub fn snapshot_and_reset(&mut self) -> (r: (u64, u64, u64, u64))
        ensures
            r == (
                old(self).midi_in,
                old(self).midi_out,
                old(self).packets_received,
                old(self).sequence_gaps,
            ),
            *final(self) == (TrafficCounters {
                midi_in: 0,
                midi_out: 0,
                packets_received: 0,
                sequence_gaps: 0,
            }),
    {
        let r = (self.midi_in, self.midi_out, self.packets_received, self.sequence_gaps);
        self.midi_in = 0;
        self.midi_out = 0;
        self.packets_received = 0;
        self.sequence_gaps = 0;
        r
    }
}

// ── Counting ──

/// A count with another added; it starts over behind its largest value.
pub open spec fn count_plus(a: u64, b: u64) -> u64 {
    if a + b > u64::MAX {
        (a + b - u64::MAX - 1) as u64
    } else {
        (a + b) as u64
    }
}

/// Counters with others added.
pub open spec fn counters_plus(a: TrafficCounters, b: TrafficCounters) -> TrafficCounters {
    TrafficCounters {
        midi_in: count_plus(a.midi_in, b.midi_in),
        midi_out: count_plus(a.midi_out, b.midi_out),
        packets_received: count_plus(a.packets_received, b.packets_received),
        sequence_gaps: count_plus(a.sequence_gaps, b.sequence_gaps),
    }
}

/// Counters that have counted nothing.
pub open spec fn no_counts() -> TrafficCounters {
    TrafficCounters { midi_in: 0, midi_out: 0, packets_received: 0, sequence_gaps: 0 }
}

/// What a packet adds to the counters. Every packet counts as received, and a
/// duplicate as nothing else. Missing packets count as one gap. A packet whose
/// data passes the filter counts as MIDI.
pub open spec fn packet_counts(decision: PacketDecision, passed: bool) -> TrafficCounters {
    match decision {
        PacketDecision::Duplicate => TrafficCounters { packets_received: 1, ..no_counts() },
        PacketDecision::Accept { gap, .. } => TrafficCounters {
            packets_received: 1,
            sequence_gaps: if gap { 1 } else { 0 },
            midi_in: if passed { 1 } else { 0 },
            midi_out: 0,
        },
    }
}

impl TrafficCounters {
    /// Counts a packet and what was decided about it.
    pub fn packet_handled(&mut self, decision: PacketDecision, passed: bool)
        ensures
            *final(self) == counters_plus(*old(self), packet_counts(decision, passed)),
    {
        self.packets_received = self.packets_received.wrapping_add(1);
        if let PacketDecision::Accept { gap, .. } = decision {
            if gap {
                self.sequence_gaps = self.sequence_gaps.wrapping_add(1);
            }
            if passed {
                self.midi_in = self.midi_in.wrapping_add(1);
            }
        }
    }

    /// Counts a message that was sent to the host.
    pub fn midi_sent(&mut self)
        ensures
            *final(self) == counters_plus(
                *old(self),
                TrafficCounters { midi_out: 1, ..no_counts() },
            ),
    {
        self.midi_out = self.midi_out.wrapping_add(1);
    }
}

/// What happens to the counters: something is added, or they are read and start
/// from zero again.
pub enum CounterUse {
    Add(TrafficCounters),
    Snapshot,
}

/// One of the counters.
pub enum Counter {
    MidiIn,
    MidiOut,
    PacketsReceived,
    SequenceGaps,
}

/// The value of a counter.
pub open spec fn count_of(t: TrafficCounters, which: Counter) -> u64 {
    match which {
        Counter::MidiIn => t.midi_in,
        Counter::MidiOut => t.midi_out,
        Counter::PacketsReceived => t.packets_received,
        Counter::SequenceGaps => t.sequence_gaps,
    }
}

/// The counters after a history that began with new ones.
pub open spec fn counters_after(history: Seq<CounterUse>) -> TrafficCounters
    decreases history.len(),
{
    if history.len() == 0 {
        no_counts()
    } else {
        match history.last() {
            CounterUse::Add(t) => counters_plus(counters_after(history.drop_last()), t),
            CounterUse::Snapshot => no_counts(),
        }
    }
}

/// All that was added to a counter.
pub open spec fn total_added(history: Seq<CounterUse>, which: Counter) -> int
    decreases history.len(),
{
    if history.len() == 0 {
        0
    } else {
        total_added(history.drop_last(), which) + match history.last() {
            CounterUse::Add(t) => count_of(t, which) as int,
            CounterUse::Snapshot => 0,
        }
    }
}

/// All that the snapshots reported of a counter.
pub open spec fn total_reported(history: Seq<CounterUse>, which: Counter) -> int
    decreases history.len(),
{
    if history.len() == 0 {
        0
    } else {
        total_reported(history.drop_last(), which) + match history.last() {
            CounterUse::Add(_) => 0,
            CounterUse::Snapshot => count_of(counters_after(history.drop_last()), which) as int,
        }
    }
}

proof fn lemma_totals_not_negative(history: Seq<CounterUse>, which: Counter)
    ensures
        0 <= total_added(history, which),
        0 <= total_reported(history, which),
    decreases history.len(),
{
    if history.len() > 0 {
        lemma_totals_not_negative(history.drop_last(), which);
    }
}

/// No count is lost and none is reported twice, in whatever order counts and
/// snapshots come: what the snapshots reported and what the counter still holds
/// are together what was added. A snapshot right after another reports zeros.
/// The total has to fit a counter.
pub proof fn law_no_count_lost(history: Seq<CounterUse>, which: Counter)
    requires
        total_added(history, which) <= u64::MAX,
    ensures
        total_reported(history, which) + count_of(counters_after(history), which) == total_added(
            history,
            which,
        ),
        counters_after(history.push(CounterUse::Snapshot)) == no_counts(),
    decreases history.len(),
{
    assert(history.push(CounterUse::Snapshot).last() is Snapshot);
    if history.len() > 0 {
        let before = history.drop_last();
        lemma_totals_not_negative(before, which);
        law_no_count_lost(before, which);
    }
}

/// How often the client changed hosts, and when last.
#[derive(Clone, Copy, Debug, PartialEq, Eq, Structural)]
pub struct FailoverTracker {
    pub count: u32,
    /// Milliseconds since the epoch; 0 means never.
    pub last_failover_epoch_ms: u64,
}

impl FailoverTracker {
    pub fn new() -> (r: Self)
        ensures
            r == (FailoverTracker { count: 0, last_failover_epoch_ms: 0 }),
    {
        FailoverTracker { count: 0, last_failover_epoch_ms: 0 }
    }

    /// Takes in a failover. The count starts over behind its largest value.
    pub fn record(&mut self, now_ms: u64)
        ensures
            final(self).count == if old(self).count == u32::MAX {
                0
            } else {
                old(self).count + 1
            },
            final(self).last_failover_epoch_ms == now_ms,
    {
        self.count = self.count.wrapping_add(1);
        self.last_failover_epoch_ms = now_ms;
    }

    /// The time since the last failover.
    pub fn since_last(&self, now_ms: u64) -> (r: Option<u64>)
        ensures
            r == if self.last_failover_epoch_ms == 0 {
                None
            } else if now_ms > self.last_failover_epoch_ms {
                Some((now_ms - self.last_failover_epoch_ms) as u64)
            } else {
                Some(0u64)
            },
    {
        if self.last_failover_epoch_ms > 0 {
            Some(now_ms.saturating_sub(self.last_failover_epoch_ms))
        } else {
            None
        }
    }
}

/// How the client stands to the hosts.
#[derive(Clone, Copy, Debug, PartialEq, Eq, Structural)]
pub enum ConnectionState {
    Connected,
    Discovering,
    Reconnecting,
    Disconnected,
}

/// How the client stands to the hosts.
pub fn connection_state(has_active: bool, device_ready: bool, hosts: usize, failovers: u32) -> (r:
    ConnectionState)
    ensures
        r == if has_active && device_ready {
            ConnectionState::Connected
        } else if hosts > 0 {
            ConnectionState::Discovering
        } else if failovers > 0 {
            ConnectionState::Reconnecting
        } else {
            ConnectionState::Disconnected
        },
{
    if has_active && device_ready {
        ConnectionState::Connected
    } else if hosts > 0 {
        ConnectionState::Discovering
    } else if failovers > 0 {
        ConnectionState::Reconnecting
    } else {
        ConnectionState::Disconnected
    }
}

/// The name of a connection state in reports.
pub fn connection_state_name(s: ConnectionState) -> (r: &'static str)
    ensures
        r@ == match s {
            ConnectionState::Connected => "connected"@,
            ConnectionState::Discovering => "discovering"@,
            ConnectionState::Reconnecting => "reconnecting"@,
            ConnectionState::Disconnected => "disconnected"@,
        },
{
    match s {
        ConnectionState::Connected => "connected",
        ConnectionState::Discovering => "discovering",
        ConnectionState::Reconnecting => "reconnecting",
        ConnectionState::Disconnected => "disconnected",
    }
}

/// The connection state that a client registers with.
pub fn connection_state_str(has_active: bool, ready: bool) -> (r: &'static str)
    ensures
        r@ == if has_active && ready {
            "connected"@
        } else if has_active {
            "discovering"@
        } else {
            "disconnected"@
        },
{
    if has_active && ready {
        "connected"
    } else if has_active {
        "discovering"
    } else {
        "disconnected"
    }
}

// ── Tasks ──

/// A task under watch. Its times are those of a clock that only runs forward, in
/// milliseconds.
#[derive(Debug)]
pub struct TaskMonitor {
    pub name: String,
    pub last_pulse_ms: u64,
}

/// The time between two points of a clock, and 0 if the second comes first.
pub open spec fn since(then_ms: u64, now_ms: u64) -> u64 {
    if now_ms > then_ms {
        (now_ms - then_ms) as u64
    } else {
        0
    }
}

/// Starts to watch a task, which counts as having pulsed just now.
pub fn task_pulse(name: &str, clock_ms: u64) -> (r: TaskMonitor)
    ensures
        r.name@ == name@,
        r.last_pulse_ms == clock_ms,
{
    TaskMonitor { name: name.to_owned(), last_pulse_ms: clock_ms }
}

impl TaskMonitor {
    /// The task pulses.
    pub fn tick(&mut self, clock_ms: u64)
        ensures
            final(self).name == old(self).name,
            final(self).last_pulse_ms == clock_ms,
    {
        self.last_pulse_ms = clock_ms;
    }

    /// How long ago the task last pulsed.
    pub fn elapsed(&self, clock_ms: u64) -> (r: u64)
        ensures
            r == since(self.last_pulse_ms, clock_ms),
    {
        if clock_ms > self.last_pulse_ms {
            clock_ms - self.last_pulse_ms
        } else {
            0
        }
    }

    /// Whether the task has pulsed within `timeout_ms`.
    pub fn is_alive(&self, clock_ms: u64, timeout_ms: u64) -> (r: bool)
        ensures
            r == (since(self.last_pulse_ms, clock_ms) < timeout_ms),
    {
        self.elapsed(clock_ms) < timeout_ms
    }
}

/// What is reported of a task.
#[derive(Debug)]
pub struct TaskHealth {
    pub name: String,
    pub alive: bool,
    pub last_heartbeat_ms: u64,
}

/// Whether a report tells the state of a task.
pub open spec fn tells(h: TaskHealth, m: TaskMonitor, clock_ms: u64) -> bool {
    &&& h.name@ == m.name@
    &&& h.alive == (since(m.last_pulse_ms, clock_ms) < LIVENESS_TIMEOUT_MS)
    &&& h.last_heartbeat_ms == since(m.last_pulse_ms, clock_ms)
}

/// Reports all tasks, in the order in which they are watched.
pub fn task_states(monitors: &Vec<TaskMonitor>, clock_ms: u64) -> (r: Vec<TaskHealth>)
    ensures
        r@.len() == monitors@.len(),
        forall|i: int|
            0 <= i < r@.len() ==> tells(#[trigger] r@[i], monitors@[i], clock_ms),
{
    let mut r: Vec<TaskHealth> = Vec::new();
    let mut i: usize = 0;
    while i < monitors.len()
        invariant
            i <= monitors@.len(),
            r@.len() == i,
            forall|j: int| 0 <= j < i ==> tells(#[trigger] r@[j], monitors@[j], clock_ms),
        decreases monitors@.len() - i,
    {
        let m = &monitors[i];
        r.push(
            TaskHealth {
                name: m.name.clone(),
                alive: m.is_alive(clock_ms, LIVENESS_TIMEOUT_MS),
                last_heartbeat_ms: m.elapsed(clock_ms),
            },
        );
        i += 1;
    }
    r
}

/// Whether all tasks are alive.
pub open spec fn all_alive(tasks: Seq<TaskHealth>) -> bool {
    forall|i: int| 0 <= i < tasks.len() ==> (#[trigger] tasks[i]).alive
}

/// Whether all tasks are alive.
pub fn all_tasks_healthy(tasks: &Vec<TaskHealth>) -> (r: bool)
    ensures
        r == all_alive(tasks@),
{
    let mut i: usize = 0;
    while i < tasks.len()
        invariant
            i <= tasks@.len(),
            forall|j: int| 0 <= j < i ==> (#[trigger] tasks@[j]).alive,
        decreases tasks@.len() - i,
    {
        if !tasks[i].alive {
            return false;
        }
        i += 1;
    }
    true
}

// ── Snapshot ──

/// The active host, in reports.
#[derive(Debug)]
pub struct ActiveHostInfo {
    pub id: u8,
    pub role: String,
    /// The name of its device.
    pub name: String,
}

/// What the watchdog says of the client. The memory is kept as the bits of its
/// single precision form.
#[derive(Debug)]
pub struct WatchdogStatus {
    pub all_tasks_healthy: bool,
    pub task_states: Vec<TaskHealth>,
    pub memory_mb_bits: u32,
    pub restart_count: u32,
}

/// What the client says of its health. The rates are kept as the bits of their
/// single precision form.
#[derive(Debug)]
pub struct ClientHealthSnapshot {
    pub timestamp_ms: u64,
    pub connection_state: ConnectionState,
    pub active_host: Option<ActiveHostInfo>,
    pub hosts_discovered: u8,
    pub device_ready: bool,
    pub device_name: String,
    pub midi_rate_in_bits: u32,
    pub midi_rate_out_bits: u32,
    pub packet_loss_percent_bits: u32,
    pub failover_count: u32,
    pub last_failover_ms: Option<u64>,
    pub has_focus: bool,
    pub uptime_secs: u64,
    pub admin_url: Option<String>,
    pub watchdog: WatchdogStatus,
    pub version_mismatch: bool,
    pub host_git_hash: String,
    pub client_git_hash: String,
}

/// The active host, if it is a known one.
pub open spec fn active_host(s: DiscoveryView) -> Option<FoundHost> {
    match s.active_host_id {
        Some(id) => first(s.hosts, found_is(id)),
        None => None,
    }
}

/// What a report is made of besides the hosts and the collector.
#[derive(Debug)]
pub struct ClientVitals {
    /// Milliseconds since the epoch.
    pub now_ms: u64,
    /// Milliseconds since the client started.
    pub clock_ms: u64,
    pub device_ready: bool,
    pub has_focus: bool,
    pub client_git_hash: String,
}

/// What the client keeps of its health.
#[derive(Debug)]
pub struct HealthCollector {
    pub counters: TrafficCounters,
    pub failover: FailoverTracker,
    pub monitors: Vec<TaskMonitor>,
    pub midi_rate_in_bits: u32,
    pub midi_rate_out_bits: u32,
    pub packet_loss_percent_bits: u32,
    pub memory_mb_bits: u32,
    /// How often a task was started again.
    pub restart_count: u32,
    /// Empty while it is not known.
    pub host_git_hash: String,
}

fn find_active(d: &Discovery) -> (r: Option<usize>)
    ensures
        match r {
            Some(i) => {
                &&& i < d.hosts@.len()
                &&& active_host(d@) == Some(d@.hosts[i as int])
            },
            None => active_host(d@) is None,
        },
{
    match d.active_host_id {
        None => None,
        Some(id) => {
            let mut i: usize = 0;
            while i < d.hosts.len()
                invariant
                    i <= d.hosts@.len(),
                    d.active_host_id == Some(id),
                    forall|j: int| 0 <= j < i ==> !found_is(id)(#[trigger] d@.hosts[j]),
                decreases d.hosts@.len() - i,
            {
                if d.hosts[i].id == id {
                    proof {
                        lemma_first_index(d@.hosts, found_is(id), i as int);
                    }
                    return Some(i);
                }
                i += 1;
            }
            proof {
                lemma_first_index(d@.hosts, found_is(id), i as int);
            }
            None
        },
    }
}

impl HealthCollector {
    pub fn new() -> (r: Self)
        ensures
            r.counters == (TrafficCounters {
                midi_in: 0,
                midi_out: 0,
                packets_received: 0,
                sequence_gaps: 0,
            }),
            r.failover == (FailoverTracker { count: 0, last_failover_epoch_ms: 0 }),
            r.monitors@.len() == 0,
            r.midi_rate_in_bits == 0,
            r.midi_rate_out_bits == 0,
            r.packet_loss_percent_bits == 0,
            r.memory_mb_bits == 0,
            r.restart_count == 0,
            r.host_git_hash@.len() == 0,
    {
        HealthCollector {
            counters: TrafficCounters::new(),
            failover: FailoverTracker::new(),
            monitors: Vec::new(),
            midi_rate_in_bits: 0,
            midi_rate_out_bits: 0,
            packet_loss_percent_bits: 0,
            memory_mb_bits: 0,
            restart_count: 0,
            host_git_hash: String::new(),
        }
    }

    /// Watches one task more.
    pub fn register_monitor(&mut self, monitor: TaskMonitor)
        ensures
            final(self).monitors@ == old(self).monitors@.push(monitor),
            *final(self) == (HealthCollector { monitors: final(self).monitors, ..*old(self) }),
    {
        self.monitors.push(monitor);
    }

    /// Keeps the version of the host.
    pub fn set_host_version(&mut self, hash: &str)
        ensures
            final(self).host_git_hash@ == hash@,
            *final(self) == (HealthCollector {
                host_git_hash: final(self).host_git_hash,
                ..*old(self)
            }),
    {
        if !same(self.host_git_hash.as_str(), hash) {
            self.host_git_hash = hash.to_owned();
        }
    }

    /// Keeps the rates that were measured.
    pub fn set_rates(&mut self, rate_in_bits: u32, rate_out_bits: u32, loss_bits: u32)
        ensures
            *final(self) == (HealthCollector {
                midi_rate_in_bits: rate_in_bits,
                midi_rate_out_bits: rate_out_bits,
                packet_loss_percent_bits: loss_bits,
                ..*old(self)
            }),
    {
        self.midi_rate_in_bits = rate_in_bits;
        self.midi_rate_out_bits = rate_out_bits;
        self.packet_loss_percent_bits = loss_bits;
    }

    /// Puts the health report together.
    pub fn snapshot(&self, d: &Discovery, v: &ClientVitals) -> (r: ClientHealthSnapshot)
        ensures
            r.timestamp_ms == v.now_ms,
            r.connection_state == if d.active_host_id is Some && v.device_ready {
                ConnectionState::Connected
            } else if d@.hosts.len() > 0 {
                ConnectionState::Discovering
            } else if self.failover.count > 0 {
                ConnectionState::Reconnecting
            } else {
                ConnectionState::Disconnected
            },
            match active_host(d@) {
                Some(h) => {
                    &&& r.active_host matches Some(a) && a.id == h.id && a.role@ == h.role
                        && a.name@ == h.device_name
                    &&& text_opt(r.admin_url) == h.admin_url
                },
                None => r.active_host is None && r.admin_url is None,
            },
            r.hosts_discovered == d@.hosts.len() % 256,
            r.device_ready == v.device_ready,
            r.device_name@ == d@.identity_name,
            r.midi_rate_in_bits == self.midi_rate_in_bits,
            r.midi_rate_out_bits == self.midi_rate_out_bits,
            r.packet_loss_percent_bits == self.packet_loss_percent_bits,
            r.failover_count == self.failover.count,
            r.last_failover_ms == if self.failover.last_failover_epoch_ms == 0 {
                None
            } else {
                Some(since(self.failover.last_failover_epoch_ms, v.now_ms))
            },
            r.has_focus == v.has_focus,
            r.uptime_secs == v.clock_ms / 1000,
            r.watchdog.all_tasks_healthy == forall|i: int|
                0 <= i < self.monitors@.len() ==> since(
                    (#[trigger] self.monitors@[i]).last_pulse_ms,
                    v.clock_ms,
                ) < LIVENESS_TIMEOUT_MS,
            r.watchdog.task_states@.len() == self.monitors@.len(),
            forall|i: int|
                0 <= i < self.monitors@.len() ==> tells(
                    #[trigger] r.watchdog.task_states@[i],
                    self.monitors@[i],
                    v.clock_ms,
                ),
            r.watchdog.memory_mb_bits == self.memory_mb_bits,
            r.watchdog.restart_count == self.restart_count,
            r.version_mismatch == (self.host_git_hash@.len() > 0 && self.host_git_hash@
                != v.client_git_hash@),
            r.host_git_hash@ == self.host_git_hash@,
            r.client_git_hash@ == v.client_git_hash@,
    {
        let (host, admin_url) = match find_active(d) {
            Some(i) => {
                let h = &d.hosts[i];
                assert(d@.hosts[i as int] == h@);
                (
                    Some(
                        ActiveHostInfo {
                            id: h.id,
                            role: h.role.clone(),
                            name: h.device_name.clone(),
                        },
                    ),
                    copy_opt(&h.admin_url),
                )
            },
            None => (None, None),
        };
        let states = task_states(&self.monitors, v.clock_ms);
        let healthy = all_tasks_healthy(&states);
        assert forall|i: int| healthy && 0 <= i < self.monitors@.len() implies since(
            (#[trigger] self.monitors@[i]).last_pulse_ms,
            v.clock_ms,
        ) < LIVENESS_TIMEOUT_MS by {
            assert(states@[i].alive);
        }
        ClientHealthSnapshot {
            timestamp_ms: v.now_ms,
            connection_state: connection_state(
                d.active_host_id.is_some(),
                v.device_ready,
                d.hosts.len(),
                self.failover.count,
            ),
            active_host: host,
            hosts_discovered: (d.hosts.len() % 256) as u8,
            device_ready: v.device_ready,
            device_name: d.identity_name.clone(),
            midi_rate_in_bits: self.midi_rate_in_bits,
            midi_rate_out_bits: self.midi_rate_out_bits,
            packet_loss_percent_bits: self.packet_loss_percent_bits,
            failover_count: self.failover.count,
            last_failover_ms: self.failover.since_last(v.now_ms),
            has_focus: v.has_focus,
            uptime_secs: v.clock_ms / 1000,
            admin_url,
            watchdog: WatchdogStatus {
                all_tasks_healthy: healthy,
                task_states: states,
                memory_mb_bits: self.memory_mb_bits,
                restart_count: self.restart_count,
            },
            version_mismatch: !self.host_git_hash.as_str().is_empty() && !same(
                self.host_git_hash.as_str(),
                v.client_git_hash.as_str(),
            ),
            host_git_hash: self.host_git_hash.clone(),
            client_git_hash: v.client_git_hash.clone(),
        }
    }
}

// ── What is counted and reported ──

/// Every packet counts as received; one that is accepted behind missing packets counts
/// one gap, and one that is accepted and passes the filter counts as MIDI. The counts
/// have 64 bits and start over.
pub proof fn law_packets_are_counted(
    t: &mut TrafficCounters,
    decision: PacketDecision,
    passed: bool,
)
    requires
        call_ensures(TrafficCounters::packet_handled, (t, decision, passed), ()),
    ensures
        final(t).packets_received as int == (old(t).packets_received + 1)
            % 0x1_0000_0000_0000_0000,
        final(t).sequence_gaps as int == (old(t).sequence_gaps + (if decision
            matches PacketDecision::Accept { gap, .. } && gap {
            1int
        } else {
            0int
        })) % 0x1_0000_0000_0000_0000,
        final(t).midi_in as int == (old(t).midi_in + (if decision is Accept && passed {
            1int
        } else {
            0int
        })) % 0x1_0000_0000_0000_0000,
        final(t).midi_out == old(t).midi_out,
{
}

/// A message to the host counts as sent, and as nothing else.
pub proof fn law_sent_messages_are_counted(t: &mut TrafficCounters)
    requires
        call_ensures(TrafficCounters::midi_sent, (t,), ()),
    ensures
        final(t).midi_out as int == (old(t).midi_out + 1) % 0x1_0000_0000_0000_0000,
        final(t).midi_in == old(t).midi_in,
        final(t).packets_received == old(t).packets_received,
        final(t).sequence_gaps == old(t).sequence_gaps,
{
}

/// A snapshot gives the four counts in their order and clears them, so that a second one
/// gives nothing.
pub proof fn law_snapshot_clears(
    t: &mut TrafficCounters,
    u: &mut TrafficCounters,
    r: (u64, u64, u64, u64),
    again: (u64, u64, u64, u64),
)
    requires
        call_ensures(TrafficCounters::snapshot_and_reset, (t,), r),
        *old(u) == *final(t),
        call_ensures(TrafficCounters::snapshot_and_reset, (u,), again),
    ensures
        r.0 == old(t).midi_in,
        r.1 == old(t).midi_out,
        r.2 == old(t).packets_received,
        r.3 == old(t).sequence_gaps,
        again == (0u64, 0u64, 0u64, 0u64),
{
}

/// The time of a failover is that of the last one, and a client without one has none.
pub proof fn law_time_since_failover(
    f: &mut FailoverTracker,
    now: u64,
    later: u64,
    after: FailoverTracker,
    r: Option<u64>,
)
    requires
        call_ensures(FailoverTracker::record, (f, now), ()),
        after == *final(f),
        call_ensures(FailoverTracker::since_last, (&after, later), r),
        0 < now <= later,
    ensures
        r == Some((later - now) as u64),
        final(f).count as int == (old(f).count + 1) % 0x1_0000_0000,
{
}

/// The state of the connection: it stands with a host and a ready device; else the client
/// is looking where hosts are known, comes back after a failover, or has nothing.
pub proof fn law_connection_states(
    has_active: bool,
    device_ready: bool,
    hosts: usize,
    failovers: u32,
    r: ConnectionState,
)
    requires
        call_ensures(connection_state, (has_active, device_ready, hosts, failovers), r),
    ensures
        r == ConnectionState::Connected <==> has_active && device_ready,
        r == ConnectionState::Discovering <==> !(has_active && device_ready) && hosts > 0,
        r == ConnectionState::Reconnecting <==> !(has_active && device_ready) && hosts == 0
            && failovers > 0,
        r == ConnectionState::Disconnected <==> !(has_active && device_ready) && hosts == 0
            && failovers == 0,
{
}

/// The words for the state of the connection.
pub proof fn law_connection_words(
    s: ConnectionState,
    r: &'static str,
    has_active: bool,
    ready: bool,
    w: &'static str,
)
    requires
        call_ensures(connection_state_name, (s,), r),
        call_ensures(connection_state_str, (has_active, ready), w),
    ensures
        s == ConnectionState::Connected ==> r@ == "connected"@,
        s == ConnectionState::Discovering ==> r@ == "discovering"@,
        s == ConnectionState::Reconnecting ==> r@ == "reconnecting"@,
        s == ConnectionState::Disconnected ==> r@ == "disconnected"@,
        has_active && ready ==> w@ == "connected"@,
        has_active && !ready ==> w@ == "discovering"@,
        !has_active ==> w@ == "disconnected"@,
{
}

/// A task that has pulsed is alive for less than the given time, and not longer.
pub proof fn law_tasks_hang(
    m: &mut TaskMonitor,
    now: u64,
    later: u64,
    timeout_ms: u64,
    after: TaskMonitor,
    alive: bool,
    ago: u64,
)
    requires
        call_ensures(TaskMonitor::tick, (m, now), ()),
        after == *final(m),
        now <= later,
        call_ensures(TaskMonitor::is_alive, (&after, later, timeout_ms), alive),
        call_ensures(TaskMonitor::elapsed, (&after, later), ago),
    ensures
        alive <==> later - now < timeout_ms,
        ago == later - now,
        final(m).name == old(m).name,
{
}

/// The report tells what is: the host that is listened to, the device, the rates, the
/// failovers, whether a task has hung for two seconds, and whether the host runs another
/// version.
pub proof fn law_health_report(
    k: HealthCollector,
    d: Discovery,
    v: ClientVitals,
    r: ClientHealthSnapshot,
    i: int,
)
    requires
        call_ensures(HealthCollector::snapshot, (&k, &d, &v), r),
    ensures
        r.timestamp_ms == v.now_ms,
        r.uptime_secs == v.clock_ms / 1000,
        r.device_ready == v.device_ready,
        r.has_focus == v.has_focus,
        r.device_name@ == d.identity_name@,
        r.hosts_discovered as int == d.hosts@.len() % 256,
        r.connection_state == ConnectionState::Connected <==> d.active_host_id is Some
            && v.device_ready,
        d.active_host_id is None ==> r.active_host is None && r.admin_url is None,
        0 <= i < d.hosts@.len() && d.active_host_id == Some(d.hosts@[i].id) && (forall|j: int|
            0 <= j < i ==> (#[trigger] d.hosts@[j]).id != d.hosts@[i].id) ==> {
            &&& r.active_host matches Some(a) && a.id == d.hosts@[i].id && a.role@
                == d.hosts@[i].role@ && a.name@ == d.hosts@[i].device_name@
            &&& match d.hosts@[i].admin_url {
                Some(u) => r.admin_url matches Some(t) && t@ == u@,
                None => r.admin_url is None,
            }
        },
        (forall|j: int| 0 <= j < d.hosts@.len() ==> Some((#[trigger] d.hosts@[j]).id)
            != d.active_host_id) ==> r.active_host is None,
        r.midi_rate_in_bits == k.midi_rate_in_bits,
        r.midi_rate_out_bits == k.midi_rate_out_bits,
        r.packet_loss_percent_bits == k.packet_loss_percent_bits,
        r.failover_count == k.failover.count,
        k.failover.last_failover_epoch_ms == 0 ==> r.last_failover_ms is None,
        0 < k.failover.last_failover_epoch_ms <= v.now_ms ==> r.last_failover_ms == Some(
            (v.now_ms - k.failover.last_failover_epoch_ms) as u64,
        ),
        r.watchdog.restart_count == k.restart_count,
        r.watchdog.memory_mb_bits == k.memory_mb_bits,
        r.watchdog.task_states@.len() == k.monitors@.len(),
        0 <= i < k.monitors@.len() && k.monitors@[i].last_pulse_ms <= v.clock_ms ==> {
            let t = r.watchdog.task_states@[i];
            &&& t.name@ == k.monitors@[i].name@
            &&& t.alive <==> v.clock_ms - k.monitors@[i].last_pulse_ms < 2000
            &&& t.last_heartbeat_ms == v.clock_ms - k.monitors@[i].last_pulse_ms
            &&& !t.alive ==> !r.watchdog.all_tasks_healthy
        },
        (forall|j: int|
            0 <= j < k.monitors@.len() ==> v.clock_ms - (#[trigger] k.monitors@[j]).last_pulse_ms
                < 2000) ==> r.watchdog.all_tasks_healthy,
        r.version_mismatch <==> k.host_git_hash@.len() > 0 && k.host_git_hash@
            != v.client_git_hash@,
        r.host_git_hash@ == k.host_git_hash@,
        r.client_git_hash@ == v.client_git_hash@,
{
    let s = d@;
    assert(s.hosts.len() == d.hosts@.len());
    if let Some(id) = d.active_host_id {
        let p = found_is(id);
        if 0 <= i < d.hosts@.len() && id == d.hosts@[i].id && (forall|j: int|
            0 <= j < i ==> (#[trigger] d.hosts@[j]).id != d.hosts@[i].id) {
            assert forall|j: int| 0 <= j < i implies !p(#[trigger] s.hosts[j]) by {
                assert(d.hosts@[j].id != d.hosts@[i].id);
            }
            lemma_first_index(s.hosts, p, i);
        }
        if forall|j: int| 0 <= j < d.hosts@.len() ==> Some((#[trigger] d.hosts@[j]).id)
            != d.active_host_id {
            assert forall|j: int| 0 <= j < s.hosts.len() implies !p(#[trigger] s.hosts[j]) by {
                assert(Some(d.hosts@[j].id) != d.active_host_id);
            }
            lemma_first_index(s.hosts, p, s.hosts.len() as int);
        }
    }
    if 0 <= i < k.monitors@.len() {
        assert(tells(r.watchdog.task_states@[i], k.monitors@[i], v.clock_ms));
    }
}

/// Tasks are reported one by one, in order, each with the time since its pulse and as alive
/// for two seconds from then on; all are healthy when each of them is.
pub proof fn law_reported_tasks(
    name: &str,
    clock_ms: u64,
    fresh: TaskMonitor,
    monitors: Vec<TaskMonitor>,
    later: u64,
    r: Vec<TaskHealth>,
    healthy: bool,
    i: int,
)
    requires
        call_ensures(task_pulse, (name, clock_ms), fresh),
        call_ensures(task_states, (&monitors, later), r),
        call_ensures(all_tasks_healthy, (&r,), healthy),
    ensures
        fresh.name@ == name@ && fresh.last_pulse_ms == clock_ms,
        r@.len() == monitors@.len(),
        0 <= i < r@.len() ==> r@[i].name@ == monitors@[i].name@,
        0 <= i < r@.len() && later >= monitors@[i].last_pulse_ms ==> r@[i].last_heartbeat_ms
            == later - monitors@[i].last_pulse_ms && (r@[i].alive <==> later
            - monitors@[i].last_pulse_ms < 2000),
        healthy && 0 <= i < r@.len() ==> r@[i].alive,
        (forall|k: int| 0 <= k < r@.len() ==> (#[trigger] r@[k]).alive) ==> healthy,
{
    if 0 <= i < r@.len() {
        assert(tells(r@[i], monitors@[i], later));
    }
}

/// A collector at the start has counted nothing; what is told to it is known afterwards,
/// and nothing else changes.
pub proof fn law_told_collector(
    fresh: HealthCollector,
    c: &mut HealthCollector,
    monitor: TaskMonitor,
    d: &mut HealthCollector,
    hash: &str,
    e: &mut HealthCollector,
    rate_in_bits: u32,
    rate_out_bits: u32,
    loss_bits: u32,
)
    requires
        call_ensures(HealthCollector::new, (), fresh),
        call_ensures(HealthCollector::register_monitor, (c, monitor), ()),
        *old(d) == *final(c),
        call_ensures(HealthCollector::set_host_version, (d, hash), ()),
        *old(e) == *final(d),
        call_ensures(HealthCollector::set_rates, (e, rate_in_bits, rate_out_bits, loss_bits), ()),
    ensures
        fresh.monitors@.len() == 0 && fresh.counters.packets_received == 0
            && fresh.counters.midi_in == 0 && fresh.counters.midi_out == 0
            && fresh.counters.sequence_gaps == 0 && fresh.failover.count == 0
            && fresh.restart_count == 0,
        final(e).monitors@ == old(c).monitors@.push(monitor),
        final(e).host_git_hash@ == hash@,
        final(e).midi_rate_in_bits == rate_in_bits && final(e).midi_rate_out_bits == rate_out_bits
            && final(e).packet_loss_percent_bits == loss_bits,
        final(e).counters == old(c).counters && final(e).failover == old(c).failover
            && final(e).restart_count == old(c).restart_count && final(e).memory_mb_bits
            == old(c).memory_mb_bits,
{
}

/// Counters and failovers at the start.
pub proof fn law_nothing_counted(t: TrafficCounters, f: FailoverTracker)
    requires
        call_ensures(TrafficCounters::new, (), t),
        call_ensures(FailoverTracker::new, (), f),
    ensures
        t.midi_in == 0 && t.midi_out == 0 && t.packets_received == 0 && t.sequence_gaps == 0,
        f.count == 0 && f.last_failover_epoch_ms == 0,
{
}

} // verus!
