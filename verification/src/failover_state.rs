//! Which of the two hosts is active, and the manual switch between them.
use vstd::prelude::*;

use crate::text::same;

verus! {

/// A switch between the hosts.
#[derive(Debug)]
pub struct FailoverEvent {
    /// Seconds since the epoch.
    pub timestamp: u64,
    pub from_host: String,
    pub to_host: String,
    /// `auto`, `api`, `midi` or `osc`.
    pub trigger: String,
    pub duration_ms: u32,
}

pub struct FailoverEventView {
    pub timestamp: u64,
    pub from_host: Seq<char>,
    pub to_host: Seq<char>,
    pub trigger: Seq<char>,
    pub duration_ms: u32,
}

impl View for FailoverEvent {
    type V = FailoverEventView;

    open spec fn view(&self) -> FailoverEventView {
        FailoverEventView {
            timestamp: self.timestamp,
            from_host: self.from_host@,
            to_host: self.to_host@,
            trigger: self.trigger@,
            duration_ms: self.duration_ms,
        }
    }
}

impl FailoverEvent {
    /// A copy with the same contents.
    pub fn copy(&self) -> (r: Self)
        ensures
            r@ == self@,
    {
        FailoverEvent {
            timestamp: self.timestamp,
            from_host: self.from_host.clone(),
            to_host: self.to_host.clone(),
            trigger: self.trigger.clone(),
            duration_ms: self.duration_ms,
        }
    }
}

/// The failover state that the dashboard shows.
#[derive(Debug)]
pub struct FailoverState {
    /// `primary` or `standby`.
    pub active_host: String,
    pub auto_enabled: bool,
    pub standby_healthy: bool,
    pub last_failover: Option<FailoverEvent>,
    pub failover_count: u32,
    pub lockout_seconds: u64,
    /// `immediate` or `confirm`.
    pub confirmation_mode: String,
    /// Whether a first trigger waits for the second one.
    pub confirmation_pending: bool,
    pub history: Vec<FailoverEvent>,
}

pub struct FailoverStateView {
    pub active_host: Seq<char>,
    pub auto_enabled: bool,
    pub standby_healthy: bool,
    pub last_failover: Option<FailoverEventView>,
    pub failover_count: u32,
    pub lockout_seconds: u64,
    pub confirmation_mode: Seq<char>,
    pub confirmation_pending: bool,
    pub history: Seq<FailoverEventView>,
}

/// The views of several events.
pub open spec fn failover_events(v: Seq<FailoverEvent>) -> Seq<FailoverEventView> {
    v.map_values(|e: FailoverEvent| e@)
}

impl View for FailoverState {
    type V = FailoverStateView;

    open spec fn view(&self) -> FailoverStateView {
        FailoverStateView {
            active_host: self.active_host@,
            auto_enabled: self.auto_enabled,
            standby_healthy: self.standby_healthy,
            last_failover: match self.last_failover {
                Some(e) => Some(e@),
                None => None,
            },
            failover_count: self.failover_count,
            lockout_seconds: self.lockout_seconds,
            confirmation_mode: self.confirmation_mode@,
            confirmation_pending: self.confirmation_pending,
            history: failover_events(self.history@),
        }
    }
}

/// The state at the start: the primary host is active and nothing happened yet.
pub open spec fn initial_failover_state() -> FailoverStateView {
    FailoverStateView {
        active_host: "primary"@,
        auto_enabled: true,
        standby_healthy: false,
        last_failover: None,
        failover_count: 0,
        lockout_seconds: 5,
        confirmation_mode: "immediate"@,
        confirmation_pending: false,
        history: Seq::empty(),
    }
}

impl Default for FailoverState {
    fn default() -> (r: Self)
        ensures
            r@ == initial_failover_state(),
    {
        let r = FailoverState {
            active_host: "primary".to_owned(),
            auto_enabled: true,
            standby_healthy: false,
            last_failover: None,
            failover_count: 0,
            lockout_seconds: 5,
            confirmation_mode: "immediate".to_owned(),
            confirmation_pending: false,
            history: Vec::new(),
        };
        assert(failover_events(r.history@) =~= Seq::<FailoverEventView>::empty());
        r
    }
}

/// Why a manual switch is not carried out.
#[derive(Clone, Copy, Debug, PartialEq, Eq, Structural)]
pub enum SwitchRefusal {
    /// The standby host is not healthy.
    StandbyUnhealthy,
    /// A protected application is running on a client.
    ProtectedApps,
    /// The last switch is less than the lockout period ago.
    Lockout,
    /// The first of two triggers; the next one switches.
    ConfirmationNeeded,
}

/// The host that is not the given one.
pub open spec fn other_host(host: Seq<char>) -> Seq<char> {
    if host == "primary"@ {
        "standby"@
    } else {
        "primary"@
    }
}

/// Why a manual switch at `now` is refused, if it is.
pub open spec fn switch_refusal(s: FailoverStateView, now: u64, apps_running: bool) -> Option<
    SwitchRefusal,
> {
    if s.active_host == "primary"@ && !s.standby_healthy {
        Some(SwitchRefusal::StandbyUnhealthy)
    } else if apps_running {
        Some(SwitchRefusal::ProtectedApps)
    } else if s.last_failover is Some && now < s.last_failover->0.timestamp + s.lockout_seconds {
        Some(SwitchRefusal::Lockout)
    } else if s.confirmation_mode == "confirm"@ && !s.confirmation_pending {
        Some(SwitchRefusal::ConfirmationNeeded)
    } else {
        None
    }
}

/// The event of a manual switch at `now`.
pub open spec fn manual_switch(s: FailoverStateView, now: u64) -> FailoverEventView {
    FailoverEventView {
        timestamp: now,
        from_host: s.active_host,
        to_host: other_host(s.active_host),
        trigger: "api"@,
        duration_ms: 0,
    }
}

/// The state after a manual switch at `now`.
pub open spec fn switched(s: FailoverStateView, now: u64) -> FailoverStateView {
    FailoverStateView {
        active_host: other_host(s.active_host),
        failover_count: (s.failover_count + 1) as u32,
        last_failover: Some(manual_switch(s, now)),
        confirmation_pending: false,
        history: s.history.push(manual_switch(s, now)),
        ..s
    }
}

impl FailoverState {
    /// Switches to the other host, unless a safety measure refuses it.
    pub fn trigger_failover_switch(&mut self, now: u64, apps_running: bool) -> (r: Result<
        (),
        SwitchRefusal,
    >)
        requires
            old(self).failover_count < u32::MAX,
        ensures
            match switch_refusal(old(self)@, now, apps_running) {
                Some(why) => {
                    &&& r == Err::<(), SwitchRefusal>(why)
                    &&& final(self)@ == (FailoverStateView {
                        confirmation_pending: old(self)@.confirmation_pending || why
                            == SwitchRefusal::ConfirmationNeeded,
                        ..old(self)@
                    })
                },
                None => r is Ok && final(self)@ == switched(old(self)@, now),
            },
    {
        let on_primary = same(self.active_host.as_str(), "primary");
        if on_primary && !self.standby_healthy {
            return Err(SwitchRefusal::StandbyUnhealthy);
        }
        if apps_running {
            return Err(SwitchRefusal::ProtectedApps);
        }
        if let Some(last) = &self.last_failover {
            if now < last.timestamp || now - last.timestamp < self.lockout_seconds {
                return Err(SwitchRefusal::Lockout);
            }
        }
        if same(self.confirmation_mode.as_str(), "confirm") && !self.confirmation_pending {
            self.confirmation_pending = true;
            return Err(SwitchRefusal::ConfirmationNeeded);
        }
        let new_host: String = if on_primary {
            "standby".to_owned()
        } else {
            "primary".to_owned()
        };
        let event = FailoverEvent {
            timestamp: now,
            from_host: self.active_host.clone(),
            to_host: new_host.clone(),
            trigger: "api".to_owned(),
            duration_ms: 0,
        };
        self.active_host = new_host;
        self.failover_count = self.failover_count + 1;
        self.confirmation_pending = false;
        self.last_failover = Some(event.copy());
        self.history.push(event);
        assert(self@.history =~= old(self)@.history.push(event@));
        Ok(())
    }

    /// Turns automatic failover on or off.
    pub fn set_auto_failover(&mut self, enabled: bool)
        ensures
            final(self)@ == (FailoverStateView { auto_enabled: enabled, ..old(self)@ }),
    {
        self.auto_enabled = enabled;
    }
}

/// Two switches lead back to the host that was active before.
pub proof fn law_switch_twice(s: FailoverStateView, first: u64, second: u64)
    requires
        s.active_host == "primary"@ || s.active_host == "standby"@,
    ensures
        switched(switched(s, first), second).active_host == s.active_host,
{
    reveal_strlit("primary");
    reveal_strlit("standby");
    assert("primary"@[0] != "standby"@[0]);
}

/// The last event of the history is the last failover, and it leads to the
/// host that is active.
pub open spec fn wf_failover(s: FailoverStateView) -> bool {
    match s.last_failover {
        Some(e) => s.history.len() > 0 && s.history.last() == e && e.to_host == s.active_host,
        None => s.history.len() == 0,
    }
}

/// The start state keeps the history in step, and so does every switch.
pub proof fn law_history_in_step(s: FailoverStateView, now: u64)
    ensures
        wf_failover(initial_failover_state()),
        wf_failover(switched(s, now)),
{
}

/// Within the lockout period behind a switch, no further switch is carried out.
pub proof fn law_lockout(s: FailoverStateView, at: u64, now: u64, apps_running: bool)
    requires
        now < at + s.lockout_seconds,
    ensures
        switch_refusal(switched(s, at), now, apps_running) is Some,
{
}

/// A manual switch goes to the other host and is recorded: it counts, it is the newest of
/// the history and it says when it was, from where and to where.
pub proof fn law_manual_switch(
    f: &mut FailoverState,
    now: u64,
    apps_running: bool,
    r: Result<(), SwitchRefusal>,
)
    requires
        call_ensures(FailoverState::trigger_failover_switch, (f, now, apps_running), r),
        old(f).failover_count < u32::MAX,
        r is Ok,
    ensures
        old(f).active_host@ == "primary"@ ==> final(f).active_host@ == "standby"@,
        old(f).active_host@ == "standby"@ ==> final(f).active_host@ == "primary"@,
        final(f).failover_count == old(f).failover_count + 1,
        !final(f).confirmation_pending,
        final(f).history@.len() == old(f).history@.len() + 1,
        final(f)@.history.drop_last() == old(f)@.history,
        ({
            let e = final(f)@.history.last();
            &&& e.timestamp == now
            &&& e.from_host == old(f).active_host@
            &&& e.to_host == final(f).active_host@
            &&& e.trigger == "api"@
            &&& final(f)@.last_failover == Some(e)
        }),
        final(f).auto_enabled == old(f).auto_enabled,
        final(f).standby_healthy == old(f).standby_healthy,
        final(f).lockout_seconds == old(f).lockout_seconds,
        final(f).confirmation_mode@ == old(f).confirmation_mode@,
{
    reveal_strlit("primary");
    reveal_strlit("standby");
    assert("primary"@[0] != "standby"@[0]);
    let b = old(f)@;
    let a = final(f)@;
    assert(a.active_host == final(f).active_host@);
    assert(a.history.len() == final(f).history@.len());
    assert(b.history.len() == old(f).history@.len());
    assert(a.history.drop_last() =~= b.history);
}

/// The safety measures of a manual switch: an unhealthy standby, protected applications,
/// the lockout behind the last switch, and a confirmation that is still to come. Any of
/// them refuses it, and nothing else does.
pub proof fn law_switch_is_refused(
    f: &mut FailoverState,
    now: u64,
    apps_running: bool,
    r: Result<(), SwitchRefusal>,
)
    requires
        call_ensures(FailoverState::trigger_failover_switch, (f, now, apps_running), r),
        old(f).failover_count < u32::MAX,
    ensures
        ({
            let unhealthy = old(f).active_host@ == "primary"@ && !old(f).standby_healthy;
            let locked = old(f).last_failover matches Some(e) && now < e.timestamp + old(f).lockout_seconds;
            let unconfirmed = old(f).confirmation_mode@ == "confirm"@ && !old(f).confirmation_pending;
            &&& r is Err <==> unhealthy || apps_running || locked || unconfirmed
            &&& unhealthy ==> r == Err::<(), SwitchRefusal>(SwitchRefusal::StandbyUnhealthy)
            &&& !unhealthy && apps_running ==> r == Err::<(), SwitchRefusal>(
                SwitchRefusal::ProtectedApps,
            )
            &&& !unhealthy && !apps_running && locked ==> r == Err::<(), SwitchRefusal>(
                SwitchRefusal::Lockout,
            )
            &&& !unhealthy && !apps_running && !locked && unconfirmed ==> r == Err::<
                (),
                SwitchRefusal,
            >(SwitchRefusal::ConfirmationNeeded)
            &&& r is Err ==> final(f).active_host@ == old(f).active_host@
                && final(f).failover_count == old(f).failover_count && final(f)@.history == old(f)@.history
            &&& r is Err ==> final(f).confirmation_pending == (old(f).confirmation_pending || (
            !unhealthy && !apps_running && !locked))
        }),
{
    let b = old(f)@;
    let a = final(f)@;
    assert(a.active_host == final(f).active_host@);
    assert(a.failover_count == final(f).failover_count);
    assert(a.confirmation_pending == final(f).confirmation_pending);
}

/// Automatic failover is as it was set, and nothing else changes by that.
pub proof fn law_auto_failover(f: &mut FailoverState, enabled: bool)
    requires
        call_ensures(FailoverState::set_auto_failover, (f, enabled), ()),
    ensures
        final(f).auto_enabled == enabled,
        final(f).active_host@ == old(f).active_host@,
        final(f).failover_count == old(f).failover_count,
        final(f).lockout_seconds == old(f).lockout_seconds,
        final(f)@.history == old(f)@.history,
{
    assert(final(f)@.active_host == final(f).active_host@);
    assert(final(f)@.auto_enabled == final(f).auto_enabled);
}

/// At the start the primary is active, failover is automatic, and nothing has happened.
pub proof fn law_failover_at_the_start(f: FailoverState)
    requires
        call_ensures(FailoverState::default, (), f),
    ensures
        f.active_host@ == "primary"@,
        f.auto_enabled && !f.standby_healthy && !f.confirmation_pending,
        f.last_failover is None,
        f.failover_count == 0 && f.lockout_seconds == 5,
        f.confirmation_mode@ == "immediate"@,
        f.history@.len() == 0,
{
    assert(f@.history.len() == f.history@.len());
}

} // verus!
