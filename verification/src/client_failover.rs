//! The client's failover monitor: it follows the heartbeats of both hosts and
//! decides which one to listen to.
use vstd::prelude::*;

use crate::client_health::FailoverTracker;
use crate::client_receiver::ReceiverState;
use crate::virtual_device::{all_off, all_off_messages, messages_of};

verus! {

/// The time without a heartbeat after which a host counts as lost: three
/// heartbeats of 3 ms.
pub const HEARTBEAT_TIMEOUT_MS: u64 = 9;

/// Nanoseconds in a millisecond.
pub const NANOS_PER_MS: u64 = 1_000_000;

/// The heartbeats of one host. Times are in nanoseconds of a clock that does
/// not go back.
#[derive(Clone, Copy, Debug, PartialEq, Eq, Structural)]
pub struct HostTracker {
    pub host_id: u8,
    pub last_heartbeat: Option<u64>,
    pub last_sequence: u16,
    pub miss_count: u32,
}

/// Whether a host has sent a heartbeat within a time.
pub open spec fn alive(t: HostTracker, timeout_ms: int, now: u64) -> bool {
    t.last_heartbeat is Some && now - t.last_heartbeat->0 < timeout_ms * NANOS_PER_MS
}

impl HostTracker {
    pub fn new(host_id: u8) -> (r: Self)
        ensures
            r == (HostTracker { host_id, last_heartbeat: None, last_sequence: 0, miss_count: 0 }),
    {
        HostTracker { host_id, last_heartbeat: None, last_sequence: 0, miss_count: 0 }
    }

    /// Takes in a heartbeat.
    pub fn record_heartbeat(&mut self, seq: u16, now: u64)
        ensures
            *final(self) == (HostTracker {
                last_heartbeat: Some(now),
                last_sequence: seq,
                miss_count: 0,
                ..*old(self)
            }),
    {
        self.last_heartbeat = Some(now);
        self.last_sequence = seq;
        self.miss_count = 0;
    }

    /// Whether the host has sent a heartbeat within the timeout.
    pub fn is_alive(&self, timeout_ms: u64, now: u64) -> (r: bool)
        ensures
            self.last_heartbeat is Some ==> self.last_heartbeat->0 <= now ==> r == alive(
                *self,
                timeout_ms as int,
                now,
            ),
            self.last_heartbeat is None ==> !r,
            self.last_heartbeat is Some ==> self.last_heartbeat->0 > now ==> r == (timeout_ms > 0),
    {
        match self.last_heartbeat {
            Some(last) => {
                let elapsed_ms: u64 = now.saturating_sub(last) / NANOS_PER_MS;
                proof {
                    if last <= now {
                        assert(elapsed_ms < timeout_ms <==> now - last < timeout_ms * NANOS_PER_MS)
                            by (nonlinear_arith)
                            requires
                                last <= now,
                                elapsed_ms == (now - last) / 1_000_000,
                                NANOS_PER_MS == 1_000_000,
                        ;
                    }
                }
                elapsed_ms < timeout_ms
            },
            None => false,
        }
    }
}

/// What the monitor decides.
#[derive(Clone, Copy, Debug, PartialEq, Eq, Structural)]
pub enum FailoverDecision {
    /// The active host stays.
    Keep,
    /// The client listens to another host. Where that is the standby, the device
    /// is silenced, and its state is reconciled from the journal of the next packet.
    SwitchTo(u8),
    /// Neither host is there.
    BothLost,
}

/// The rule of the failover: host 1 gives way to host 2 when it is lost and
/// the other is not, and the other way round. A client without an active host
/// counts as listening to host 1.
pub open spec fn failover_rule(active: Option<u8>, primary_alive: bool, standby_alive: bool) -> FailoverDecision {
    let current = match active {
        Some(id) => id,
        None => 1u8,
    };
    if current == 1 && !primary_alive && standby_alive {
        FailoverDecision::SwitchTo(2)
    } else if current == 2 && !standby_alive && primary_alive {
        FailoverDecision::SwitchTo(1)
    } else if current == 1 && !primary_alive && !standby_alive {
        FailoverDecision::BothLost
    } else {
        FailoverDecision::Keep
    }
}

/// Decides by the rule of the failover.
pub fn decide_failover(active: Option<u8>, primary_alive: bool, standby_alive: bool) -> (r:
    FailoverDecision)
    ensures
        r == failover_rule(active, primary_alive, standby_alive),
{
    let current: u8 = active.unwrap_or(1);
    if current == 1 && !primary_alive && standby_alive {
        FailoverDecision::SwitchTo(2)
    } else if current == 2 && !standby_alive && primary_alive {
        FailoverDecision::SwitchTo(1)
    } else if current == 1 && !primary_alive && !standby_alive {
        FailoverDecision::BothLost
    } else {
        FailoverDecision::Keep
    }
}

/// The heartbeats of both hosts.
#[derive(Clone, Copy, Debug, PartialEq, Eq, Structural)]
pub struct FailoverMonitor {
    pub primary: HostTracker,
    pub standby: HostTracker,
}

/// The monitor after a heartbeat. Hosts other than 1 and 2 are not followed.
pub open spec fn heard(m: FailoverMonitor, host_id: u8, seq: u16, now: u64) -> FailoverMonitor {
    if host_id == 1 {
        FailoverMonitor {
            primary: HostTracker {
                last_heartbeat: Some(now),
                last_sequence: seq,
                miss_count: 0,
                ..m.primary
            },
            ..m
        }
    } else if host_id == 2 {
        FailoverMonitor {
            standby: HostTracker {
                last_heartbeat: Some(now),
                last_sequence: seq,
                miss_count: 0,
                ..m.standby
            },
            ..m
        }
    } else {
        m
    }
}

/// No heartbeat lies in the future.
pub open spec fn heard_before(m: FailoverMonitor, now: u64) -> bool {
    &&& m.primary.last_heartbeat is Some ==> m.primary.last_heartbeat->0 <= now
    &&& m.standby.last_heartbeat is Some ==> m.standby.last_heartbeat->0 <= now
}

impl FailoverMonitor {
    pub fn new() -> (r: Self)
        ensures
            r.primary == (HostTracker {
                host_id: 1,
                last_heartbeat: None,
                last_sequence: 0,
                miss_count: 0,
            }),
            r.standby == (HostTracker {
                host_id: 2,
                last_heartbeat: None,
                last_sequence: 0,
                miss_count: 0,
            }),
    {
        FailoverMonitor { primary: HostTracker::new(1), standby: HostTracker::new(2) }
    }

    /// Takes in a heartbeat of a host.
    pub fn heartbeat(&mut self, host_id: u8, seq: u16, now: u64)
        ensures
            *final(self) == heard(*old(self), host_id, seq, now),
    {
        if host_id == 1 {
            self.primary.record_heartbeat(seq, now);
        } else if host_id == 2 {
            self.standby.record_heartbeat(seq, now);
        }
    }

    /// Decides which host to listen to.
    pub fn check(&self, active: Option<u8>, now: u64) -> (r: FailoverDecision)
        requires
            heard_before(*self, now),
        ensures
            r == failover_rule(
                active,
                alive(self.primary, HEARTBEAT_TIMEOUT_MS as int, now),
                alive(self.standby, HEARTBEAT_TIMEOUT_MS as int, now),
            ),
    {
        let primary_alive = self.primary.is_alive(HEARTBEAT_TIMEOUT_MS, now);
        let standby_alive = self.standby.is_alive(HEARTBEAT_TIMEOUT_MS, now);
        decide_failover(active, primary_alive, standby_alive)
    }
}

/// Whether a decision is the failover: the primary is lost, and the standby takes
/// its place.
pub open spec fn is_failover(d: FailoverDecision) -> bool {
    d == FailoverDecision::SwitchTo(2)
}

/// The failovers after a decision at an epoch time.
pub open spec fn failovers_after(t: FailoverTracker, d: FailoverDecision, epoch_ms: u64) -> FailoverTracker {
    if is_failover(d) {
        FailoverTracker {
            count: if t.count == u32::MAX {
                0
            } else {
                (t.count + 1) as u32
            },
            last_failover_epoch_ms: epoch_ms,
        }
    } else {
        t
    }
}

/// The active host after a decision.
pub open spec fn active_after(active: Option<u8>, d: FailoverDecision) -> Option<u8> {
    match d {
        FailoverDecision::SwitchTo(host) => Some(host),
        _ => active,
    }
}

/// Carries a decision out. A switch makes the other host the active one. The
/// switch to the standby also asks the receiver for the state of the next journal,
/// counts as a failover and gives the messages that silence the device; the switch
/// back to the primary does none of that. Any other decision changes nothing.
pub fn carry_out(
    decision: FailoverDecision,
    active: &mut Option<u8>,
    receiver: &mut ReceiverState,
    failovers: &mut FailoverTracker,
    epoch_ms: u64,
) -> (messages: Vec<Vec<u8>>)
    ensures
        *final(active) == active_after(*old(active), decision),
        if is_failover(decision) {
            &&& *final(receiver) == (ReceiverState { needs_reconciliation: true, ..*old(receiver) })
            &&& messages_of(messages@) == all_off()
        } else {
            &&& *final(receiver) == *old(receiver)
            &&& messages@.len() == 0
        },
        *final(failovers) == failovers_after(*old(failovers), decision, epoch_ms),
{
    match decision {
        FailoverDecision::SwitchTo(host) => {
            *active = Some(host);
            if host != 2 {
                return Vec::new();
            }
            receiver.needs_reconciliation = true;
            failovers.record(epoch_ms);
            all_off_messages()
        },
        _ => Vec::new(),
    }
}

impl FailoverMonitor {
    /// Checks the hosts and carries out what that decides.
    pub fn run_check(
        &self,
        active: &mut Option<u8>,
        receiver: &mut ReceiverState,
        failovers: &mut FailoverTracker,
        now: u64,
        epoch_ms: u64,
    ) -> (r: (FailoverDecision, Vec<Vec<u8>>))
        requires
            heard_before(*self, now),
        ensures
            r.0 == failover_rule(
                *old(active),
                alive(self.primary, HEARTBEAT_TIMEOUT_MS as int, now),
                alive(self.standby, HEARTBEAT_TIMEOUT_MS as int, now),
            ),
            *final(active) == active_after(*old(active), r.0),
            if is_failover(r.0) {
                &&& *final(receiver) == (ReceiverState {
                    needs_reconciliation: true,
                    ..*old(receiver)
                })
                &&& messages_of(r.1@) == all_off()
            } else {
                &&& *final(receiver) == *old(receiver)
                &&& r.1@.len() == 0
            },
            *final(failovers) == failovers_after(*old(failovers), r.0, epoch_ms),
    {
        let decision = self.check(*active, now);
        let messages = carry_out(decision, active, receiver, failovers, epoch_ms);
        (decision, messages)
    }
}

/// A client that listens to host 1, or to none yet, switches to host 2 once host 1
/// has been silent for 9 ms, while host 2 has not.
pub proof fn law_switch_after_three_misses(
    m: FailoverMonitor,
    active: Option<u8>,
    standby_at: u64,
    now: u64,
)
    requires
        active is None || active == Some(1u8),
        m.primary.last_heartbeat matches Some(at) ==> now >= at + 9 * NANOS_PER_MS,
        m.standby.last_heartbeat == Some(standby_at),
        standby_at <= now < standby_at + 9 * NANOS_PER_MS,
    ensures
        failover_rule(
            active,
            alive(m.primary, HEARTBEAT_TIMEOUT_MS as int, now),
            alive(m.standby, HEARTBEAT_TIMEOUT_MS as int, now),
        ) == FailoverDecision::SwitchTo(2),
{
}

/// A client that has switched does not switch back while the hosts stand as
/// they do, and a client whose host is alive does not switch at all.
pub proof fn law_no_oscillation(active: Option<u8>, primary_alive: bool, standby_alive: bool)
    ensures
        failover_rule(active, primary_alive, standby_alive) matches FailoverDecision::SwitchTo(id)
            ==> failover_rule(Some(id), primary_alive, standby_alive) == FailoverDecision::Keep,
        primary_alive ==> failover_rule(Some(1), primary_alive, standby_alive)
            == FailoverDecision::Keep,
        standby_alive ==> failover_rule(Some(2), primary_alive, standby_alive)
            == FailoverDecision::Keep,
{
}

/// A host counts as alive for less than the given time after its heartbeat, to the
/// millisecond, and not before it was ever heard.
pub proof fn law_alive(t: HostTracker, timeout_ms: u64, now: u64, r: bool)
    requires
        call_ensures(HostTracker::is_alive, (&t, timeout_ms, now), r),
        t.last_heartbeat matches Some(at) ==> at <= now,
    ensures
        r <==> (t.last_heartbeat matches Some(at) && (now - at) / 1_000_000 < timeout_ms),
{
    if let Some(at) = t.last_heartbeat {
        assert((now - at) / 1_000_000 < timeout_ms <==> now - at < timeout_ms * NANOS_PER_MS)
            by (nonlinear_arith)
            requires
                at <= now,
                NANOS_PER_MS == 1_000_000,
        ;
    }
}

/// When a client switches, where to, and when it reports that nobody is left. A client
/// without an active host counts as one of host 1.
pub proof fn law_failover_decisions(
    active: Option<u8>,
    primary_alive: bool,
    standby_alive: bool,
    r: FailoverDecision,
)
    requires
        call_ensures(decide_failover, (active, primary_alive, standby_alive), r),
    ensures
        r == FailoverDecision::SwitchTo(2) <==> (active is None || active == Some(1u8))
            && !primary_alive && standby_alive,
        r == FailoverDecision::SwitchTo(1) <==> active == Some(2u8) && !standby_alive
            && primary_alive,
        r == FailoverDecision::BothLost <==> (active is None || active == Some(1u8))
            && !primary_alive && !standby_alive,
        r matches FailoverDecision::SwitchTo(id) ==> id == 1 || id == 2,
{
}

/// A heartbeat is that of the host that sent it: host 1 and host 2 are followed apart,
/// and nobody else is.
pub proof fn law_heartbeats_apart(m: &mut FailoverMonitor, host_id: u8, seq: u16, now: u64)
    requires
        call_ensures(FailoverMonitor::heartbeat, (m, host_id, seq, now), ()),
    ensures
        host_id == 1 ==> final(m).primary.last_heartbeat == Some(now)
            && final(m).primary.last_sequence == seq,
        host_id != 1 ==> final(m).primary == old(m).primary,
        host_id == 2 ==> final(m).standby.last_heartbeat == Some(now)
            && final(m).standby.last_sequence == seq,
        host_id != 2 ==> final(m).standby == old(m).standby,
{
}

/// The failover of a running client: 9 ms after the last heartbeat of the primary it
/// listens to the standby, provided that one has been heard within 9 ms. It then
/// silences its device, All Sound Off and All Notes Off on every channel, asks for the
/// state of the next journal and counts one failover.
pub proof fn law_failover_of_a_client(
    m: FailoverMonitor,
    active: &mut Option<u8>,
    receiver: &mut ReceiverState,
    failovers: &mut FailoverTracker,
    now: u64,
    epoch_ms: u64,
    r: (FailoverDecision, Vec<Vec<u8>>),
    channel: int,
)
    requires
        call_ensures(
            FailoverMonitor::run_check,
            (&m, active, receiver, failovers, now, epoch_ms),
            r,
        ),
        heard_before(m, now),
        *old(active) is None || *old(active) == Some(1u8),
        m.primary.last_heartbeat matches Some(at) ==> now - at >= 9_000_000,
        m.standby.last_heartbeat is Some,
        now - m.standby.last_heartbeat->0 < 9_000_000,
        0 <= channel < 16,
    ensures
        *final(active) == Some(2u8),
        final(receiver).needs_reconciliation,
        final(receiver).last_sequence == old(receiver).last_sequence,
        final(failovers).count as int == (old(failovers).count + 1) % 0x1_0000_0000,
        final(failovers).last_failover_epoch_ms == epoch_ms,
        r.1@.len() == 32,
        r.1@[2 * channel]@ == seq![(0xB0 + channel) as u8, 120u8, 0u8],
        r.1@[2 * channel + 1]@ == seq![(0xB0 + channel) as u8, 123u8, 0u8],
{
    assert(messages_of(r.1@).len() == 32);
    assert(messages_of(r.1@)[2 * channel] == r.1@[2 * channel]@);
    assert(messages_of(r.1@)[2 * channel + 1] == r.1@[2 * channel + 1]@);
    assert(all_off()[2 * channel] =~= seq![(0xB0 + channel) as u8, 120u8, 0u8]);
    assert(all_off()[2 * channel + 1] =~= seq![(0xB0 + channel) as u8, 123u8, 0u8]);
}

/// While the primary is heard, a client that listens to it does nothing.
pub proof fn law_no_failover_while_heard(
    m: FailoverMonitor,
    active: &mut Option<u8>,
    receiver: &mut ReceiverState,
    failovers: &mut FailoverTracker,
    now: u64,
    epoch_ms: u64,
    r: (FailoverDecision, Vec<Vec<u8>>),
)
    requires
        call_ensures(
            FailoverMonitor::run_check,
            (&m, active, receiver, failovers, now, epoch_ms),
            r,
        ),
        heard_before(m, now),
        *old(active) is None || *old(active) == Some(1u8),
        m.primary.last_heartbeat matches Some(at) && now - at < 9_000_000,
    ensures
        r.0 == FailoverDecision::Keep,
        r.1@.len() == 0,
        *final(active) == *old(active),
        *final(receiver) == *old(receiver),
        *final(failovers) == *old(failovers),
{
}

/// A client of the standby goes back to the primary once the standby is lost and the
/// primary is heard, and does nothing more about it.
pub proof fn law_way_back(
    m: FailoverMonitor,
    active: &mut Option<u8>,
    receiver: &mut ReceiverState,
    failovers: &mut FailoverTracker,
    now: u64,
    epoch_ms: u64,
    r: (FailoverDecision, Vec<Vec<u8>>),
)
    requires
        call_ensures(
            FailoverMonitor::run_check,
            (&m, active, receiver, failovers, now, epoch_ms),
            r,
        ),
        heard_before(m, now),
        *old(active) == Some(2u8),
        m.standby.last_heartbeat matches Some(at) ==> now - at >= 9_000_000,
        m.primary.last_heartbeat matches Some(at) && now - at < 9_000_000,
    ensures
        *final(active) == Some(1u8),
        r.1@.len() == 0,
        *final(receiver) == *old(receiver),
        *final(failovers) == *old(failovers),
{
}

/// Who is heard: a tracker at the start has heard nobody; once it took in a heartbeat, its
/// host is alive for the timeout from then on and no longer.
pub proof fn law_tracked_host(
    fresh: HostTracker,
    host_id: u8,
    t: &mut HostTracker,
    seq: u16,
    at: u64,
    after: HostTracker,
    timeout_ms: u64,
    now: u64,
    r: bool,
)
    requires
        call_ensures(HostTracker::new, (host_id,), fresh),
        call_ensures(HostTracker::record_heartbeat, (t, seq, at), ()),
        after == *final(t),
        call_ensures(HostTracker::is_alive, (&after, timeout_ms, now), r),
    ensures
        fresh.host_id == host_id && fresh.last_heartbeat is None && fresh.last_sequence == 0
            && fresh.miss_count == 0,
        at <= now ==> (r <==> now - at < timeout_ms * 1_000_000),
        at > now ==> (r <==> timeout_ms > 0),
        after.host_id == old(t).host_id && after.last_sequence == seq && after.miss_count == 0,
{
}

/// What a look at the hosts decides is what is decided of who was heard within nine
/// milliseconds; at the start nobody was.
pub proof fn law_looked_at_hosts(
    fresh: FailoverMonitor,
    m: FailoverMonitor,
    active: Option<u8>,
    now: u64,
    r: FailoverDecision,
    primary: bool,
    standby: bool,
    d: FailoverDecision,
)
    requires
        call_ensures(FailoverMonitor::new, (), fresh),
        heard_before(m, now),
        call_ensures(FailoverMonitor::check, (&m, active, now), r),
        primary <==> (m.primary.last_heartbeat matches Some(at) && now - at < 9_000_000),
        standby <==> (m.standby.last_heartbeat matches Some(at) && now - at < 9_000_000),
        call_ensures(decide_failover, (active, primary, standby), d),
    ensures
        r == d,
        fresh.primary.last_heartbeat is None && fresh.standby.last_heartbeat is None,
        fresh.primary.host_id == 1 && fresh.standby.host_id == 2,
{
}

/// What a decision changes: a switch makes its host the active one; that to the standby is
/// a failover, which counts, asks for the state and silences every channel, and nothing
/// else is.
pub proof fn law_carried_out(
    decision: FailoverDecision,
    active: &mut Option<u8>,
    receiver: &mut ReceiverState,
    failovers: &mut FailoverTracker,
    epoch_ms: u64,
    messages: Vec<Vec<u8>>,
)
    requires
        call_ensures(carry_out, (decision, active, receiver, failovers, epoch_ms), messages),
    ensures
        decision matches FailoverDecision::SwitchTo(id) ==> *final(active) == Some(id),
        !(decision is SwitchTo) ==> *final(active) == *old(active),
        decision == FailoverDecision::SwitchTo(2) ==> messages@.len() == 32
            && final(receiver).needs_reconciliation && final(receiver).last_sequence
            == old(receiver).last_sequence && final(failovers).count as int == (old(failovers).count + 1)
            % 0x1_0000_0000 && final(failovers).last_failover_epoch_ms == epoch_ms,
        decision != FailoverDecision::SwitchTo(2) ==> messages@.len() == 0 && *final(receiver)
            == *old(receiver) && *final(failovers) == *old(failovers),
{
    assert(messages_of(messages@).len() == messages@.len());
}

} // verus!
