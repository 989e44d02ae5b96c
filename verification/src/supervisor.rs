//! The client process: configuration, supervised tasks, creation of the
//! device, license enforcement and shutdown.
use vstd::prelude::*;

verus! {

// ── Configuration ──

/// The configuration of the client.
#[derive(Debug)]
pub struct ClientConfig {
    pub network: NetworkSection,
    pub midi: MidiSection,
    pub failover: FailoverSection,
    pub focus: FocusSection,
    pub health: HealthSection,
}

#[derive(Debug)]
pub struct NetworkSection {
    pub primary_group: String,
    pub standby_group: String,
    pub data_port: u16,
    pub heartbeat_port: u16,
    pub control_group: String,
    pub control_port: u16,
    pub interface: String,
    /// Where hosts are asked for when mDNS does not work.
    pub admin_url: Option<String>,
}

#[derive(Debug)]
pub struct MidiSection {
    /// Replaces the name that the host gives the device.
    pub device_name: Option<String>,
}

#[derive(Clone, Copy, Debug, PartialEq, Eq, Structural)]
pub struct FailoverSection {
    pub jitter_buffer_us: u64,
}

#[derive(Clone, Copy, Debug, PartialEq, Eq, Structural)]
pub struct FocusSection {
    pub auto_claim: bool,
}

#[derive(Debug)]
pub struct HealthSection {
    /// Where the health server listens.
    pub listen: String,
}

pub fn default_primary_group() -> (r: String)
    ensures
        r@ == "239.69.83.1"@,
{
    "239.69.83.1".to_owned()
}

pub fn default_standby_group() -> (r: String)
    ensures
        r@ == "239.69.83.2"@,
{
    "239.69.83.2".to_owned()
}

pub fn default_heartbeat_port() -> (r: u16)
    ensures
        r == 5005,
{
    5005
}

pub fn default_health_listen() -> (r: String)
    ensures
        r@ == "127.0.0.1:5009"@,
{
    "127.0.0.1:5009".to_owned()
}

impl Default for MidiSection {
    fn default() -> (r: Self)
        ensures
            r.device_name is None,
    {
        MidiSection { device_name: None }
    }
}

impl Default for FocusSection {
    fn default() -> (r: Self)
        ensures
            r.auto_claim,
    {
        FocusSection { auto_claim: true }
    }
}

impl Default for HealthSection {
    fn default() -> (r: Self)
        ensures
            r.listen@ == "127.0.0.1:5009"@,
    {
        HealthSection { listen: default_health_listen() }
    }
}

impl Default for NetworkSection {
    fn default() -> (r: Self)
        ensures
            r.primary_group@ == "239.69.83.1"@,
            r.standby_group@ == "239.69.83.2"@,
            r.data_port == 5004,
            r.heartbeat_port == 5005,
            r.control_group@ == "239.69.83.100"@,
            r.control_port == 5006,
            r.interface@ == "eth0"@,
            r.admin_url is None,
    {
        NetworkSection {
            primary_group: default_primary_group(),
            standby_group: default_standby_group(),
            data_port: crate::config::default_data_port(),
            heartbeat_port: default_heartbeat_port(),
            control_group: crate::config::default_control_group(),
            control_port: crate::config::default_control_port(),
            interface: crate::config::default_interface(),
            admin_url: None,
        }
    }
}

impl Default for ClientConfig {
    fn default() -> (r: Self)
        ensures
            r.network.primary_group@ == "239.69.83.1"@,
            r.network.standby_group@ == "239.69.83.2"@,
            r.network.data_port == 5004,
            r.network.heartbeat_port == 5005,
            r.network.control_group@ == "239.69.83.100"@,
            r.network.control_port == 5006,
            r.network.interface@ == "eth0"@,
            r.network.admin_url is None,
            r.midi.device_name is None,
            r.failover.jitter_buffer_us == 0,
            r.focus.auto_claim,
            r.health.listen@ == "127.0.0.1:5009"@,
    {
        ClientConfig {
            network: NetworkSection::default(),
            midi: MidiSection::default(),
            failover: FailoverSection { jitter_buffer_us: 0 },
            focus: FocusSection::default(),
            health: HealthSection::default(),
        }
    }
}

/// An id for this client, mixed from a seed.
pub fn rand_client_id(seed: u32) -> (r: u32)
    ensures
        r == seed ^ (seed >> 16),
{
    seed ^ (seed >> 16)
}

/// The mix of the seed loses nothing: different seeds give different ids.
pub proof fn law_client_id_injective(a: u32, b: u32)
    ensures
        a ^ (a >> 16) == b ^ (b >> 16) ==> a == b,
{
    assert(a ^ (a >> 16) == b ^ (b >> 16) ==> a == b) by (bit_vector);
}

// ── Supervised tasks ──

/// Restarts of a task since it last ran for more than a minute.
#[derive(Clone, Copy, Debug, PartialEq, Eq, Structural)]
pub struct Supervisor {
    pub restarts: u32,
}

/// The wait before restart number `n`, in seconds: two more each time, up to 30.
pub open spec fn backoff(n: u32) -> int {
    if n * 2 < 30 {
        n * 2
    } else {
        30
    }
}

/// The number of the restart after a failed run. A run of more than a minute makes
/// the numbers start over.
pub open spec fn next_restart(restarts: u32, ran_nanos: u64) -> int {
    if ran_nanos > 600 * NANOS_PER_TENTH {
        1
    } else {
        restarts + 1
    }
}

/// How a run of a task ended.
#[derive(Clone, Copy, Debug, PartialEq, Eq, Structural)]
pub enum RunOutcome {
    /// The task is done.
    Finished,
    /// It returned an error or panicked.
    Failed,
}

/// What is done with a task after a run.
#[derive(Clone, Copy, Debug, PartialEq, Eq, Structural)]
pub enum NextRun {
    /// It is not run again.
    Stop,
    /// It is run again after a wait, unless it is cancelled meanwhile.
    After { secs: u64 },
}

impl Supervisor {
    pub fn new() -> (r: Self)
        ensures
            r.restarts == 0,
    {
        Supervisor { restarts: 0 }
    }

    /// The task has failed after a run; the time to wait before the next one
    /// is returned. A run of more than a minute makes the waits start over.
    pub fn task_failed(&mut self, ran_nanos: u64) -> (secs: u64)
        requires
            old(self).restarts < u32::MAX,
        ensures
            final(self).restarts == next_restart(old(self).restarts, ran_nanos),
            secs == backoff(final(self).restarts),
            2 <= secs <= 30,
    {
        if ran_nanos > 600 * NANOS_PER_TENTH {
            self.restarts = 0;
        }
        self.restarts = self.restarts + 1;
        let wait: u64 = self.restarts as u64 * 2;
        if wait < 30 {
            wait
        } else {
            30
        }
    }

    /// Decides what is done with a task after a run. A task that is done or
    /// cancelled is not run again. Every other failure is one more restart for the
    /// client's health, whose count starts over behind its largest value.
    pub fn run_ended(
        &mut self,
        outcome: RunOutcome,
        cancelled: bool,
        ran_nanos: u64,
        restart_count: &mut u32,
    ) -> (r: NextRun)
        requires
            old(self).restarts < u32::MAX,
        ensures
            if outcome == RunOutcome::Finished || cancelled {
                &&& r == NextRun::Stop
                &&& *final(self) == *old(self)
                &&& *final(restart_count) == *old(restart_count)
            } else {
                &&& r == (NextRun::After { secs: backoff(final(self).restarts) as u64 })
                &&& final(self).restarts == next_restart(old(self).restarts, ran_nanos)
                &&& *final(restart_count) == if *old(restart_count) == u32::MAX {
                    0
                } else {
                    *old(restart_count) + 1
                }
            },
    {
        match outcome {
            RunOutcome::Finished => NextRun::Stop,
            RunOutcome::Failed => {
                if cancelled {
                    return NextRun::Stop;
                }
                *restart_count = restart_count.wrapping_add(1);
                NextRun::After { secs: self.task_failed(ran_nanos) }
            },
        }
    }
}

/// The number of the last restart after several failed runs.
pub open spec fn restarts_after(runs: Seq<u64>) -> int
    decreases runs.len(),
{
    if runs.len() == 0 {
        0
    } else {
        next_restart(restarts_after(runs.drop_last()) as u32, runs.last())
    }
}

/// After so many short runs in a row that all failed, the wait is twice their
/// number of seconds, and at most 30; a failed run of more than a minute makes it
/// two seconds again.
pub proof fn law_failures_in_a_row(runs: Seq<u64>, last: u64)
    requires
        0 < runs.len() < u32::MAX,
        forall|i: int| 0 <= i < runs.len() ==> (#[trigger] runs[i]) <= 600 * NANOS_PER_TENTH,
        last > 600 * NANOS_PER_TENTH,
    ensures
        restarts_after(runs) == runs.len(),
        backoff(restarts_after(runs) as u32) == if 2 * runs.len() < 30 {
            2 * runs.len() as int
        } else {
            30
        },
        backoff(restarts_after(runs.push(last)) as u32) == 2,
    decreases runs.len(),
{
    let before = runs.drop_last();
    if before.len() > 0 {
        assert forall|i: int| 0 <= i < before.len() implies (#[trigger] before[i]) <= 600
            * NANOS_PER_TENTH by {
            assert(before[i] == runs[i]);
        }
        law_failures_in_a_row(before, last);
    } else {
        assert(restarts_after(before) == 0);
    }
    assert(runs.last() == runs[runs.len() - 1]);
    assert(runs.push(last).drop_last() =~= runs);
}

/// The wait does not get shorter from one restart to the next, and is never
/// longer than 30 seconds.
pub proof fn law_backoff(n: u32)
    requires
        0 < n < u32::MAX,
    ensures
        2 <= backoff(n) <= backoff((n + 1) as u32) <= 30,
{
}

// ── The device ──

/// What the start-up loop does next.
#[derive(Debug)]
pub enum InitStep {
    /// The devices are there.
    Ready,
    /// It is too early.
    Wait,
    /// A device of this name is made.
    Create { name: String },
}

/// Decides what the start-up loop does next. With several devices the
/// discovery makes them; a single device is made once its identity is known,
/// under the name of the configuration if it gives one.
pub fn init_step(
    multi_devices_made: bool,
    identity_valid: bool,
    multi_mode: bool,
    identity_name: &str,
    override_name: &Option<String>,
) -> (r: InitStep)
    ensures
        if multi_devices_made {
            r is Ready
        } else if !identity_valid || multi_mode {
            r is Wait
        } else {
            r matches InitStep::Create { name } && name@ == match *override_name {
                Some(n) => n@,
                None => identity_name@,
            }
        },
{
    if multi_devices_made {
        return InitStep::Ready;
    }
    if !identity_valid || multi_mode {
        return InitStep::Wait;
    }
    InitStep::Create {
        name: match override_name {
            Some(n) => n.clone(),
            None => identity_name.to_owned(),
        },
    }
}

/// How a device is shut down.
#[derive(Clone, Copy, Debug, PartialEq, Eq, Structural)]
pub enum DeviceShutdown {
    /// It was never made.
    Skip,
    /// It is silenced and closed, so that a new process can make it again; if
    /// that fails it is detached.
    CloseOrDetach,
    /// It is silenced and stays until the process ends, so that applications
    /// which hold it open do not crash.
    Detach,
}

/// Decides how a device is shut down.
pub fn device_shutdown(ready: bool, admin_restart: bool) -> (r: DeviceShutdown)
    ensures
        r == if !ready {
            DeviceShutdown::Skip
        } else if admin_restart {
            DeviceShutdown::CloseOrDetach
        } else {
            DeviceShutdown::Detach
        },
{
    if !ready {
        DeviceShutdown::Skip
    } else if admin_restart {
        DeviceShutdown::CloseOrDetach
    } else {
        DeviceShutdown::Detach
    }
}

/// The exit code of the process: 42 asks for a restart.
pub fn exit_code(restart_requested: bool) -> (r: i32)
    ensures
        r == if restart_requested { 42int } else { 0 },
{
    if restart_requested {
        42
    } else {
        0
    }
}

// ── License ──

/// Seconds of the mild phase.
pub const PHASE_1_END: u64 = 600;

/// Seconds until the end of the moderate phase.
pub const PHASE_2_END: u64 = 1800;

/// Seconds after which a degraded session ends.
pub const SESSION_KILL: u64 = 2700;

/// Nanoseconds in a tenth of a second.
pub const NANOS_PER_TENTH: u64 = 100_000_000;

/// The blackouts of a degraded session. Times are in nanoseconds of a clock
/// that does not go back.
#[derive(Clone, Copy, Debug, PartialEq, Eq, Structural)]
pub struct Blackouts {
    /// Start of the blackout that is going on.
    pub started: Option<u64>,
    pub duration_secs: u64,
    pub last_end: Option<u64>,
}

/// Length of a blackout and time between two, in seconds.
pub open spec fn phase(secs: u64) -> (u64, u64) {
    if secs < PHASE_1_END {
        (3, 120)
    } else if secs < PHASE_2_END {
        (5, 90)
    } else {
        (8, 60)
    }
}

/// The time between two blackouts with its jitter, in tenths of a second: from
/// 80 to 120 percent, by the second of the session.
pub open spec fn jittered_tenths(secs: u64) -> int {
    phase(secs).1 * (8 + secs % 5)
}

/// What is switched: the blackout and the noise.
#[derive(Clone, Copy, Debug, PartialEq, Eq, Structural)]
pub struct DegradedOutput {
    pub blackout: bool,
    pub noise: bool,
}

/// Whether the blackout that is going on is over.
pub open spec fn blackout_over(b: Blackouts, now: u64) -> bool {
    b.started is Some && now - b.started->0 >= b.duration_secs * 10 * NANOS_PER_TENTH
}

/// Whether a blackout is due: 30 seconds into the session, and then a while
/// after the last one.
pub open spec fn blackout_due(b: Blackouts, secs: u64, now: u64) -> bool {
    b.started is None && match b.last_end {
        Some(end) => now - end >= jittered_tenths(secs) * NANOS_PER_TENTH,
        None => secs >= 30,
    }
}

/// The blackouts after a look at them.
pub open spec fn blackouts_after(b: Blackouts, secs: u64, now: u64) -> Blackouts {
    if b.started is Some {
        if blackout_over(b, now) {
            Blackouts { started: None, last_end: Some(now), ..b }
        } else {
            b
        }
    } else if blackout_due(b, secs, now) {
        Blackouts { started: Some(now), duration_secs: phase(secs).0, ..b }
    } else {
        b
    }
}

/// What a look at the blackouts switches: the end of one, with noise from the
/// second phase on, or the start of one.
pub open spec fn degraded_output(b: Blackouts, secs: u64, now: u64) -> Option<DegradedOutput> {
    if blackout_over(b, now) {
        Some(DegradedOutput { blackout: false, noise: secs >= PHASE_1_END })
    } else if blackout_due(b, secs, now) {
        Some(DegradedOutput { blackout: true, noise: false })
    } else {
        None
    }
}

/// The times of the blackouts are not in the future.
pub open spec fn wf_blackouts(b: Blackouts, now: u64) -> bool {
    &&& b.started is Some ==> b.started->0 <= now && b.duration_secs <= 8
    &&& b.last_end is Some ==> b.last_end->0 <= now
}

impl Blackouts {
    pub fn new() -> (r: Self)
        ensures
            r == (Blackouts { started: None, duration_secs: 0, last_end: None }),
    {
        Blackouts { started: None, duration_secs: 0, last_end: None }
    }

    /// Looks at the blackouts of a degraded session; what is to be switched is
    /// returned.
    pub fn handle_degraded_blackout(&mut self, secs: u64, now: u64) -> (r: Option<DegradedOutput>)
        requires
            wf_blackouts(*old(self), now),
        ensures
            *final(self) == blackouts_after(*old(self), secs, now),
            r == degraded_output(*old(self), secs, now),
            wf_blackouts(*final(self), now),
    {
        let (length, interval): (u64, u64) = if secs < PHASE_1_END {
            (3, 120)
        } else if secs < PHASE_2_END {
            (5, 90)
        } else {
            (8, 60)
        };
        let tenths: u64 = interval * (8 + secs % 5);
        assert(tenths <= 120 * 12) by (nonlinear_arith)
            requires
                tenths == interval * (8 + secs % 5),
                interval <= 120,
        ;
        if let Some(start) = self.started {
            if now - start >= self.duration_secs * 10 * NANOS_PER_TENTH {
                self.started = None;
                self.last_end = Some(now);
                return Some(DegradedOutput { blackout: false, noise: secs >= PHASE_1_END });
            }
            return None;
        }
        let due = match self.last_end {
            Some(end) => now - end >= tenths * NANOS_PER_TENTH,
            None => secs >= 30,
        };
        if due {
            self.started = Some(now);
            self.duration_secs = length;
            Some(DegradedOutput { blackout: true, noise: false })
        } else {
            None
        }
    }
}

/// The state of the license.
#[derive(Clone, Copy, Debug, PartialEq, Eq, Structural)]
pub enum LicenseKind {
    Trial,
    Degraded,
    /// Licensed, or not licensed at all.
    Other,
}

/// What the license task does in a second.
#[derive(Clone, Copy, Debug, PartialEq, Eq, Structural)]
pub enum Enforcement {
    /// A second of the trial is used up; nothing is disturbed.
    Trial,
    /// Nothing is disturbed.
    Free,
    /// The session is over.
    Terminate,
    /// The blackouts are looked at.
    Degrade,
}

/// Decides what the license task does in a second.
pub fn enforce(kind: LicenseKind, degraded_secs: u64) -> (r: Enforcement)
    ensures
        r == match kind {
            LicenseKind::Trial => Enforcement::Trial,
            LicenseKind::Degraded => if degraded_secs >= SESSION_KILL {
                Enforcement::Terminate
            } else {
                Enforcement::Degrade
            },
            LicenseKind::Other => Enforcement::Free,
        },
{
    match kind {
        LicenseKind::Trial => Enforcement::Trial,
        LicenseKind::Degraded => if degraded_secs >= SESSION_KILL {
            Enforcement::Terminate
        } else {
            Enforcement::Degrade
        },
        LicenseKind::Other => Enforcement::Free,
    }
}

/// The time between two blackouts is within 20 percent of that of the phase.
pub proof fn law_jitter(secs: u64)
    ensures
        phase(secs).1 * 8 <= jittered_tenths(secs) <= phase(secs).1 * 12,
{
    let interval = phase(secs).1;
    assert(interval * 8 <= interval * (8 + secs % 5) <= interval * 12) by (nonlinear_arith);
}

/// A blackout that starts lasts until its time is over and no longer.
pub proof fn law_blackout_ends(b: Blackouts, secs: u64, start: u64, later_secs: u64, later: u64)
    requires
        wf_blackouts(b, start),
        blackout_due(b, secs, start),
        start <= later,
    ensures
        ({
            let during = blackouts_after(b, secs, start);
            let after = blackouts_after(during, later_secs, later);
            &&& during.started == Some(start)
            &&& after.started is None <==> later - start >= phase(secs).0 * 10 * NANOS_PER_TENTH
        }),
{
}

/// How long a task that failed waits: twice as many seconds as it failed in a row, and at
/// most thirty. A run of more than a minute counts as the first failure.
pub proof fn law_waits(s: &mut Supervisor, ran_nanos: u64, secs: u64, t: &mut Supervisor, next: u64)
    requires
        old(s).restarts < u32::MAX,
        call_ensures(Supervisor::task_failed, (s, ran_nanos), secs),
        *old(t) == *final(s),
        old(t).restarts < u32::MAX,
        call_ensures(Supervisor::task_failed, (t, 0u64), next),
    ensures
        ran_nanos > 60_000_000_000 ==> final(s).restarts == 1 && secs == 2,
        ran_nanos <= 60_000_000_000 ==> final(s).restarts == old(s).restarts + 1,
        ran_nanos <= 60_000_000_000 && old(s).restarts < 14 ==> secs == 2 * (old(s).restarts + 1),
        ran_nanos <= 60_000_000_000 && old(s).restarts >= 14 ==> secs == 30,
        secs < 30 ==> next == secs + 2,
        secs == 30 ==> next == 30,
{
}

/// What happens behind a run: a task that is done, or cancelled, is not run again and
/// nothing is counted; one that failed is run again after the wait, and counts.
pub proof fn law_runs(
    s: &mut Supervisor,
    outcome: RunOutcome,
    cancelled: bool,
    ran_nanos: u64,
    count: &mut u32,
    r: NextRun,
    t: &mut Supervisor,
    secs: u64,
)
    requires
        old(s).restarts < u32::MAX,
        call_ensures(Supervisor::run_ended, (s, outcome, cancelled, ran_nanos, count), r),
        *old(t) == *old(s),
        call_ensures(Supervisor::task_failed, (t, ran_nanos), secs),
    ensures
        r is Stop <==> outcome is Finished || cancelled,
        r is Stop ==> *final(s) == *old(s) && *final(count) == *old(count),
        r matches NextRun::After { secs: wait } ==> wait == secs && *final(s) == *final(t),
        !(r is Stop) && *old(count) < u32::MAX ==> *final(count) == *old(count) + 1,
        !(r is Stop) && *old(count) == u32::MAX ==> *final(count) == 0,
{
}

/// What the loop at the start does: it is ready once several devices were made, and makes
/// a single one as soon as it knows who it is, under the configured name where there is
/// one.
pub proof fn law_start_up(
    multi_devices_made: bool,
    identity_valid: bool,
    multi_mode: bool,
    identity_name: &str,
    override_name: Option<String>,
    r: InitStep,
)
    requires
        call_ensures(
            init_step,
            (multi_devices_made, identity_valid, multi_mode, identity_name, &override_name),
            r,
        ),
    ensures
        r is Ready <==> multi_devices_made,
        r is Create <==> !multi_devices_made && identity_valid && !multi_mode,
        r matches InitStep::Create { name } ==> (override_name matches Some(n) ==> name@ == n@) && (
        override_name is None ==> name@ == identity_name@),
{
}

/// A device is closed only for a restart, is otherwise left to applications, and is
/// skipped where it was not made; the code of a process says whether it restarts.
pub proof fn law_shut_down(
    ready: bool,
    admin_restart: bool,
    r: DeviceShutdown,
    restart: bool,
    code: i32,
)
    requires
        call_ensures(device_shutdown, (ready, admin_restart), r),
        call_ensures(exit_code, (restart,), code),
    ensures
        r is Skip <==> !ready,
        r is CloseOrDetach <==> ready && admin_restart,
        r is Detach <==> ready && !admin_restart,
        restart ==> code == 42,
        !restart ==> code == 0,
{
}

/// The first blackout of a session is half a minute in, a later one some time behind the
/// last one: from 80 to 120 percent of two minutes in the first ten minutes, of one and a
/// half up to the thirtieth, and then of one. It lasts three, five or eight seconds.
pub proof fn law_blackouts_start(
    b: &mut Blackouts,
    secs: u64,
    now: u64,
    r: Option<DegradedOutput>,
)
    requires
        wf_blackouts(*old(b), now),
        call_ensures(Blackouts::handle_degraded_blackout, (b, secs, now), r),
        old(b).started is None,
    ensures
        r is Some <==> final(b).started is Some,
        r matches Some(o) ==> o.blackout && !o.noise && final(b).started == Some(now),
        r is None ==> *final(b) == *old(b),
        old(b).last_end is None ==> (r is Some <==> secs >= 30),
        old(b).last_end matches Some(end) ==> ({
            let gap = if secs < 600 {
                120int
            } else if secs < 1800 {
                90
            } else {
                60
            };
            let since = now - end;
            &&& since < gap * 800_000_000 ==> r is None
            &&& since >= gap * 1_200_000_000 ==> r is Some
            &&& r is Some <==> since * 10 >= gap * (8 + secs % 5) * 1_000_000_000
        }),
        r is Some && secs < 600 ==> final(b).duration_secs == 3,
        r is Some && 600 <= secs < 1800 ==> final(b).duration_secs == 5,
        r is Some && secs >= 1800 ==> final(b).duration_secs == 8,
        final(b).last_end == old(b).last_end,
{
}

/// A blackout that is going on ends when its seconds are over, with noise from the tenth
/// minute on, and not before.
pub proof fn law_blackouts_end(b: &mut Blackouts, secs: u64, now: u64, r: Option<DegradedOutput>)
    requires
        wf_blackouts(*old(b), now),
        call_ensures(Blackouts::handle_degraded_blackout, (b, secs, now), r),
        old(b).started is Some,
    ensures
        r is Some <==> now - old(b).started->0 >= old(b).duration_secs * 1_000_000_000,
        r is None ==> *final(b) == *old(b),
        r matches Some(o) ==> !o.blackout && (o.noise <==> secs >= 600) && final(b).started is None
            && final(b).last_end == Some(now),
        final(b).duration_secs == old(b).duration_secs,
{
}

/// What the license does to a session: a degraded one is disturbed, for three quarters of
/// an hour, and then ends; no other one is.
pub proof fn law_enforcement(kind: LicenseKind, secs: u64, r: Enforcement, fresh: Blackouts)
    requires
        call_ensures(enforce, (kind, secs), r),
        call_ensures(Blackouts::new, (), fresh),
    ensures
        r is Terminate <==> kind is Degraded && secs >= 45 * 60,
        r is Degrade <==> kind is Degraded && secs < 45 * 60,
        r is Trial <==> kind is Trial,
        r is Free <==> kind is Other,
        fresh.started is None && fresh.last_end is None && fresh.duration_secs == 0,
{
}

/// A client gets another id from another seed.
pub proof fn law_client_ids(a: u32, b: u32, x: u32, y: u32)
    requires
        call_ensures(rand_client_id, (a,), x),
        call_ensures(rand_client_id, (b,), y),
    ensures
        x == y <==> a == b,
        a < 0x1_0000 ==> x == a,
{
    law_client_id_injective(a, b);
    assert(a < 0x1_0000 ==> a ^ (a >> 16) == a) by (bit_vector);
}

/// Without a file a client listens to the first group and has the second in reserve, on
/// ports that follow each other, and claims the focus by itself.
pub proof fn law_client_without_a_file(
    c: ClientConfig,
    n: NetworkSection,
    primary: String,
    standby: String,
    port: u16,
    listen: String,
)
    requires
        call_ensures(ClientConfig::default, (), c),
        call_ensures(NetworkSection::default, (), n),
        call_ensures(default_primary_group, (), primary),
        call_ensures(default_standby_group, (), standby),
        call_ensures(default_heartbeat_port, (), port),
        call_ensures(default_health_listen, (), listen),
    ensures
        c.network.primary_group@ == primary@ && primary@ == "239.69.83.1"@,
        c.network.standby_group@ == standby@ && standby@ == "239.69.83.2"@,
        c.network.control_group@ == "239.69.83.100"@,
        c.network.heartbeat_port == port && port == 5005,
        c.network.heartbeat_port == c.network.data_port + 1,
        c.network.control_port == c.network.heartbeat_port + 1,
        c.network.interface@ == "eth0"@ && c.network.admin_url is None,
        c.health.listen@ == listen@ && listen@ == "127.0.0.1:5009"@,
        c.midi.device_name is None && c.failover.jitter_buffer_us == 0 && c.focus.auto_claim,
        n.primary_group@ == c.network.primary_group@ && n.standby_group@ == c.network.standby_group@
            && n.control_group@ == c.network.control_group@ && n.interface@ == c.network.interface@
            && n.data_port == c.network.data_port && n.heartbeat_port == c.network.heartbeat_port
            && n.control_port == c.network.control_port && n.admin_url is None,
{
}

} // verus!
