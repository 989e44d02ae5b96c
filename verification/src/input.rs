//! Input redundancy: two controllers feed one host.
use vstd::prelude::*;

use crate::text::{cat, same};
use vstd::string::StringExecFns;

verus! {

/// Number of switches that the history keeps.
pub const INPUT_HISTORY: usize = 50;

/// A switch between the two controllers.
#[derive(Debug)]
pub struct InputSwitchEvent {
    /// Seconds since the epoch.
    pub timestamp: u64,
    pub from_input: u8,
    pub to_input: u8,
    pub trigger: String,
    pub reason: String,
}

pub struct InputSwitchView {
    pub timestamp: u64,
    pub from_input: u8,
    pub to_input: u8,
    pub trigger: Seq<char>,
    pub reason: Seq<char>,
}

impl View for InputSwitchEvent {
    type V = InputSwitchView;

    open spec fn view(&self) -> InputSwitchView {
        InputSwitchView {
            timestamp: self.timestamp,
            from_input: self.from_input,
            to_input: self.to_input,
            trigger: self.trigger@,
            reason: self.reason@,
        }
    }
}

/// The state of the two controllers. Input 0 is the primary one.
#[derive(Debug)]
pub struct InputRedundancy {
    pub enabled: bool,
    pub auto_switch_enabled: bool,
    pub active_input: u8,
    /// `active`, `unknown` or another word for what is wrong.
    pub primary_health: String,
    pub secondary_health: String,
    pub primary_device: String,
    pub secondary_device: String,
    pub switch_count: u64,
    pub activity_timeout_s: u64,
    pub last_switch: Option<InputSwitchEvent>,
    /// The newest switch comes first.
    pub history: Vec<InputSwitchEvent>,
}

pub struct InputView {
    pub enabled: bool,
    pub auto_switch_enabled: bool,
    pub active_input: u8,
    pub primary_health: Seq<char>,
    pub secondary_health: Seq<char>,
    pub primary_device: Seq<char>,
    pub secondary_device: Seq<char>,
    pub switch_count: u64,
    pub activity_timeout_s: u64,
    pub last_switch: Option<InputSwitchView>,
    pub history: Seq<InputSwitchView>,
}

/// The views of several switches.
pub open spec fn input_events(v: Seq<InputSwitchEvent>) -> Seq<InputSwitchView> {
    v.map_values(|e: InputSwitchEvent| e@)
}

impl View for InputRedundancy {
    type V = InputView;

    open spec fn view(&self) -> InputView {
        InputView {
            enabled: self.enabled,
            auto_switch_enabled: self.auto_switch_enabled,
            active_input: self.active_input,
            primary_health: self.primary_health@,
            secondary_health: self.secondary_health@,
            primary_device: self.primary_device@,
            secondary_device: self.secondary_device@,
            switch_count: self.switch_count,
            activity_timeout_s: self.activity_timeout_s,
            last_switch: match self.last_switch {
                Some(e) => Some(e@),
                None => None,
            },
            history: input_events(self.history@),
        }
    }
}

/// One of two inputs is active, and the history is not over its cap.
pub open spec fn wf_input(s: InputView) -> bool {
    &&& s.active_input <= 1
    &&& s.history.len() <= INPUT_HISTORY
}

/// The name of an input.
pub open spec fn input_label(input: u8) -> Seq<char> {
    if input == 0 {
        "primary"@
    } else {
        "secondary"@
    }
}

/// The name of an input.
pub fn active_label(input: u8) -> (r: String)
    ensures
        r@ == input_label(input),
{
    if input == 0 {
        "primary".to_owned()
    } else {
        "secondary".to_owned()
    }
}

/// The health of an input.
pub open spec fn input_health(s: InputView, input: u8) -> Seq<char> {
    if input == 0 {
        s.primary_health
    } else {
        s.secondary_health
    }
}

/// Why a manual switch is refused, if it is.
pub open spec fn input_switch_error(s: InputView) -> Option<Seq<char>> {
    let target = (1 - s.active_input) as u8;
    if !s.enabled {
        Some("Input redundancy not enabled (no secondary device configured)"@)
    } else if input_health(s, target) != "active"@ {
        Some(
            "Cannot switch to "@ + input_label(target) + " — health is '"@ + input_health(s, target)
                + "', expected 'active'"@,
        )
    } else {
        None
    }
}

/// The event of a manual switch at `now`.
pub open spec fn input_switch_event(s: InputView, now: u64) -> InputSwitchView {
    InputSwitchView {
        timestamp: now,
        from_input: s.active_input,
        to_input: (1 - s.active_input) as u8,
        trigger: "api"@,
        reason: "Manual switch via admin API"@,
    }
}

/// A list with a new first entry, cut to the cap.
pub open spec fn pushed_front(
    history: Seq<InputSwitchView>,
    event: InputSwitchView,
) -> Seq<InputSwitchView> {
    let all = seq![event] + history;
    all.take(
        if all.len() <= INPUT_HISTORY {
            all.len() as int
        } else {
            INPUT_HISTORY as int
        },
    )
}

/// The state after a manual switch at `now`.
pub open spec fn input_switched(s: InputView, now: u64) -> InputView {
    InputView {
        active_input: (1 - s.active_input) as u8,
        switch_count: (s.switch_count + 1) as u64,
        last_switch: Some(input_switch_event(s, now)),
        history: pushed_front(s.history, input_switch_event(s, now)),
        ..s
    }
}

fn manual_event(now: u64, from_input: u8, to_input: u8) -> (e: InputSwitchEvent)
    ensures
        e@ == (InputSwitchView {
            timestamp: now,
            from_input,
            to_input,
            trigger: "api"@,
            reason: "Manual switch via admin API"@,
        }),
{
    InputSwitchEvent {
        timestamp: now,
        from_input,
        to_input,
        trigger: "api".to_owned(),
        reason: "Manual switch via admin API".to_owned(),
    }
}

impl InputRedundancy {
    /// The state before any controller is known.
    pub fn new(activity_timeout_s: u64) -> (r: Self)
        ensures
            r@ == (InputView {
                enabled: false,
                auto_switch_enabled: true,
                active_input: 0,
                primary_health: "unknown"@,
                secondary_health: "unknown"@,
                primary_device: Seq::empty(),
                secondary_device: Seq::empty(),
                switch_count: 0,
                activity_timeout_s,
                last_switch: None,
                history: Seq::empty(),
            }),
            wf_input(r@),
    {
        let r = InputRedundancy {
            enabled: false,
            auto_switch_enabled: true,
            active_input: 0,
            primary_health: "unknown".to_owned(),
            secondary_health: "unknown".to_owned(),
            primary_device: String::new(),
            secondary_device: String::new(),
            switch_count: 0,
            activity_timeout_s,
            last_switch: None,
            history: Vec::new(),
        };
        assert(input_events(r.history@) =~= Seq::<InputSwitchView>::empty());
        r
    }

    /// Switches to the other controller. It is refused unless redundancy is
    /// enabled and the other controller is healthy.
    pub fn trigger_input_switch(&mut self, now: u64) -> (r: Result<(), String>)
        requires
            wf_input(old(self)@),
            old(self).switch_count < u64::MAX,
        ensures
            match input_switch_error(old(self)@) {
                Some(e) => r matches Err(m) && m@ == e && final(self)@ == old(self)@,
                None => r is Ok && final(self)@ == input_switched(old(self)@, now),
            },
            wf_input(final(self)@),
    {
        if !self.enabled {
            return Err(
                "Input redundancy not enabled (no secondary device configured)".to_owned(),
            );
        }
        let current: u8 = self.active_input;
        let target: u8 = 1 - current;
        let health = if target == 0 {
            self.primary_health.as_str()
        } else {
            self.secondary_health.as_str()
        };
        if !same(health, "active") {
            let label = active_label(target);
            let mut e = cat("Cannot switch to ", label.as_str());
            e.append(" — health is '");
            e.append(health);
            e.append("', expected 'active'");
            return Err(e);
        }
        self.active_input = target;
        self.switch_count = self.switch_count + 1;
        self.last_switch = Some(manual_event(now, current, target));
        self.history.insert(0, manual_event(now, current, target));
        let ghost event = input_switch_event(old(self)@, now);
        assert(input_events(self.history@) =~= seq![event] + old(self)@.history);
        if self.history.len() > INPUT_HISTORY {
            let ghost all = input_events(self.history@);
            self.history.truncate(INPUT_HISTORY);
            assert(input_events(self.history@) =~= all.take(INPUT_HISTORY as int));
        } else {
            assert(self@.history =~= pushed_front(old(self)@.history, event));
        }
        Ok(())
    }

    /// Turns the automatic switch on or off.
    pub fn set_auto_switch(&mut self, req: &AutoSwitchRequest)
        ensures
            final(self)@ == (InputView { auto_switch_enabled: req.enabled, ..old(self)@ }),
    {
        self.auto_switch_enabled = req.enabled;
    }
}

/// A request to turn the automatic switch on or off.
#[derive(Clone, Copy, Debug)]
pub struct AutoSwitchRequest {
    pub enabled: bool,
}

/// Two switches lead back to the input that was active before, and the newest
/// switch stands first in the history.
pub proof fn law_input_switch(s: InputView, first: u64, second: u64)
    requires
        wf_input(s),
    ensures
        input_switched(input_switched(s, first), second).active_input == s.active_input,
        input_switched(s, first).history[0] == input_switch_event(s, first),
        wf_input(input_switched(s, first)),
{
}

/// A manual switch goes to the other controller, counts, and is the newest of the history;
/// the older switches follow as they were, as far as fifty in all.
pub proof fn law_manual_input_switch(
    s: &mut InputRedundancy,
    now: u64,
    r: Result<(), String>,
    i: int,
)
    requires
        call_ensures(InputRedundancy::trigger_input_switch, (s, now), r),
        wf_input(old(s)@),
        old(s).switch_count < u64::MAX,
        r is Ok,
    ensures
        old(s).active_input == 0 ==> final(s).active_input == 1,
        old(s).active_input == 1 ==> final(s).active_input == 0,
        final(s).switch_count == old(s).switch_count + 1,
        ({
            let e = final(s)@.history[0];
            &&& e.timestamp == now
            &&& e.from_input == old(s).active_input
            &&& e.to_input == final(s).active_input
            &&& e.trigger == "api"@
            &&& e.reason == "Manual switch via admin API"@
            &&& final(s)@.last_switch == Some(e)
        }),
        final(s)@.history.len() == (if old(s)@.history.len() < 50 {
            old(s)@.history.len() + 1
        } else {
            50
        }),
        0 < i < final(s)@.history.len() ==> final(s)@.history[i] == old(s)@.history[i - 1],
        final(s).enabled == old(s).enabled,
        final(s).auto_switch_enabled == old(s).auto_switch_enabled,
{
    assert(final(s)@.active_input == final(s).active_input);
}

/// A switch is refused exactly where there is no second controller or the other one is
/// not active; the words say which, and nothing changes.
pub proof fn law_input_switch_refused(
    s: &mut InputRedundancy,
    now: u64,
    r: Result<(), String>,
)
    requires
        call_ensures(InputRedundancy::trigger_input_switch, (s, now), r),
        wf_input(old(s)@),
        old(s).switch_count < u64::MAX,
    ensures
        ({
            let other = if old(s).active_input == 0 {
                old(s).secondary_health@
            } else {
                old(s).primary_health@
            };
            &&& r is Ok <==> old(s).enabled && other == "active"@
            &&& !old(s).enabled ==> (r matches Err(e) && e@
                == "Input redundancy not enabled (no secondary device configured)"@)
            &&& old(s).enabled && other != "active"@ ==> (r matches Err(e) && e@
                == "Cannot switch to "@ + (if old(s).active_input == 0 {
                "secondary"@
            } else {
                "primary"@
            }) + " — health is '"@ + other + "', expected 'active'"@)
            &&& r is Err ==> final(s)@ == old(s)@
        }),
{
}

/// Input 0 is the primary one, and the automatic switch is as it was set.
pub proof fn law_input_settings(
    input: u8,
    label: String,
    s: &mut InputRedundancy,
    req: AutoSwitchRequest,
)
    requires
        call_ensures(active_label, (input,), label),
        call_ensures(InputRedundancy::set_auto_switch, (s, &req), ()),
    ensures
        input == 0 ==> label@ == "primary"@,
        input != 0 ==> label@ == "secondary"@,
        final(s).auto_switch_enabled == req.enabled,
        final(s).active_input == old(s).active_input,
        final(s).enabled == old(s).enabled,
        final(s)@.history == old(s)@.history,
{
    assert(final(s)@.active_input == final(s).active_input);
}

/// Inputs at the start: one controller, the primary one, with its health unknown.
pub proof fn law_inputs_at_the_start(activity_timeout_s: u64, s: InputRedundancy)
    requires
        call_ensures(InputRedundancy::new, (activity_timeout_s,), s),
    ensures
        !s.enabled && s.auto_switch_enabled && s.active_input == 0 && s.switch_count == 0,
        s.primary_health@ == "unknown"@ && s.secondary_health@ == "unknown"@,
        s@.primary_device.len() == 0 && s@.secondary_device.len() == 0,
        s@.activity_timeout_s == activity_timeout_s,
        s@.last_switch is None && s@.history.len() == 0,
{
    assert(s@.primary_health == s.primary_health@ && s@.secondary_health == s.secondary_health@);
}

} // verus!
