//! The client's receiver: duplicates, gaps and the way of a packet to its
//! device; and the client's side of the focus protocol.
use vstd::prelude::*;

use crate::sniffer::FocusAction;

verus! {

// ── Packets ──

/// What is done with a packet.
#[derive(Clone, Copy, Debug, PartialEq, Eq, Structural)]
pub enum PacketDecision {
    /// It was received already.
    Duplicate,
    Accept {
        /// Whether packets are missing before it.
        gap: bool,
        /// Whether the state is to be taken from its journal.
        use_journal: bool,
    },
}

/// What the receiver remembers.
#[derive(Clone, Copy, Debug, PartialEq, Eq, Structural)]
pub struct ReceiverState {
    pub last_sequence: Option<u16>,
    /// Whether a failover asks for the state of the next journal.
    pub needs_reconciliation: bool,
}

/// The sequence number behind another one.
pub open spec fn next_sequence(seq: u16) -> u16 {
    if seq == u16::MAX {
        0
    } else {
        (seq + 1) as u16
    }
}

/// Whether packets are missing before one with a sequence number.
pub open spec fn is_gap(last: Option<u16>, seq: u16) -> bool {
    last is Some && seq != next_sequence(last->0)
}

/// What is done with a packet.
pub open spec fn packet_rule(s: ReceiverState, seq: u16, has_journal: bool) -> PacketDecision {
    if s.last_sequence == Some(seq) {
        PacketDecision::Duplicate
    } else {
        PacketDecision::Accept {
            gap: is_gap(s.last_sequence, seq),
            use_journal: has_journal && (is_gap(s.last_sequence, seq) || s.needs_reconciliation),
        }
    }
}

impl ReceiverState {
    pub fn new() -> (r: Self)
        ensures
            r == (ReceiverState { last_sequence: None, needs_reconciliation: false }),
    {
        ReceiverState { last_sequence: None, needs_reconciliation: false }
    }

    /// Takes in a packet. A duplicate changes nothing; any other packet
    /// becomes the last one and settles an open request for reconciliation.
    pub fn handle_packet(&mut self, seq: u16, has_journal: bool) -> (r: PacketDecision)
        ensures
            r == packet_rule(*old(self), seq, has_journal),
            *final(self) == if r == PacketDecision::Duplicate {
                *old(self)
            } else {
                ReceiverState { last_sequence: Some(seq), needs_reconciliation: false }
            },
    {
        let mut gap = false;
        if let Some(last) = self.last_sequence {
            if seq == last {
                return PacketDecision::Duplicate;
            }
            let expected: u16 = last.wrapping_add(1);
            gap = seq != expected;
        }
        let use_journal = has_journal && (gap || self.needs_reconciliation);
        self.last_sequence = Some(seq);
        self.needs_reconciliation = false;
        PacketDecision::Accept { gap, use_journal }
    }
}

/// Where the MIDI data of a packet goes.
#[derive(Clone, Copy, Debug, PartialEq, Eq, Structural)]
pub enum Route {
    /// To the device with a number.
    Multi(usize),
    /// To the only device.
    Single,
    /// Nowhere: the device is not ready.
    Nowhere,
}

/// Finds the device of a packet. With several devices the packet's device id
/// decides; without, everything goes to the single device.
pub fn route_packet(device_id: u8, multi_ready: &Vec<bool>, device_ready: bool) -> (r: Route)
    ensures
        r == if multi_ready@.len() > 0 {
            if (device_id as int) < multi_ready@.len() && multi_ready@[device_id as int] {
                Route::Multi(device_id as usize)
            } else {
                Route::Nowhere
            }
        } else if device_ready {
            Route::Single
        } else {
            Route::Nowhere
        },
{
    if multi_ready.len() > 0 {
        let id: usize = device_id as usize;
        if id < multi_ready.len() && multi_ready[id] {
            Route::Multi(id)
        } else {
            Route::Nowhere
        }
    } else if device_ready {
        Route::Single
    } else {
        Route::Nowhere
    }
}

/// Packets that follow one another show no gap, also where the sequence
/// numbers start over, and a packet that comes twice is a duplicate.
pub proof fn law_consecutive(s: ReceiverState, seq: u16, has_journal: bool)
    ensures
        packet_rule(
            ReceiverState { last_sequence: Some(seq), needs_reconciliation: false },
            next_sequence(seq),
            has_journal,
        ) == (PacketDecision::Accept { gap: false, use_journal: false }),
        packet_rule(
            ReceiverState { last_sequence: Some(seq), ..s },
            seq,
            has_journal,
        ) == PacketDecision::Duplicate,
{
}

// ── Focus ──

/// Commands to the focus task.
#[derive(Clone, Copy, Debug, PartialEq, Eq, Structural)]
pub enum FocusCommand {
    Claim,
    Release,
}

/// Whether this client has the focus.
#[derive(Clone, Copy, Debug, PartialEq, Eq, Structural)]
pub struct FocusState {
    pub client_id: u32,
    pub has_focus: bool,
    /// The number of the next claim.
    pub sequence: u16,
}

/// The focus after a packet: the last one that the host grants it to has it,
/// and a release by this client gives it up.
pub open spec fn focus_rule(s: FocusState, action: FocusAction, client_id: u32) -> bool {
    match action {
        FocusAction::Ack => client_id == s.client_id,
        FocusAction::Release => s.has_focus && client_id != s.client_id,
        FocusAction::Claim => s.has_focus,
    }
}

/// Whether this client has the focus.
pub fn is_focused(state: &FocusState) -> (r: bool)
    ensures
        r == state.has_focus,
{
    state.has_focus
}

impl FocusState {
    pub fn new(client_id: u32) -> (r: Self)
        ensures
            r == (FocusState { client_id, has_focus: false, sequence: 0 }),
    {
        FocusState { client_id, has_focus: false, sequence: 0 }
    }

    /// Takes in a focus packet.
    pub fn handle_packet(&mut self, action: FocusAction, client_id: u32)
        ensures
            *final(self) == (FocusState {
                has_focus: focus_rule(*old(self), action, client_id),
                ..*old(self)
            }),
    {
        match action {
            FocusAction::Ack => {
                self.has_focus = client_id == self.client_id;
            },
            FocusAction::Release => {
                if client_id == self.client_id {
                    self.has_focus = false;
                }
            },
            FocusAction::Claim => {},
        }
    }

    /// The number of a claim that is sent now.
    pub fn claim(&mut self) -> (seq: u16)
        ensures
            seq == old(self).sequence,
            *final(self) == (FocusState { sequence: next_sequence(seq), ..*old(self) }),
    {
        let seq: u16 = self.sequence;
        self.sequence = seq.wrapping_add(1);
        seq
    }
}

/// At most one of two clients has the focus once the host has granted it to
/// somebody.
pub proof fn law_one_holder(a: FocusState, b: FocusState, granted: u32)
    requires
        a.client_id != b.client_id,
    ensures
        !(focus_rule(a, FocusAction::Ack, granted) && focus_rule(b, FocusAction::Ack, granted)),
{
}

// ── What the receiver promises ──

/// Every packet that does not carry the number behind the last one shows that
/// packets were lost, be it one or many, and its journal is used if it has one.
/// The numbers are those of 16 bits, which start over.
pub proof fn law_lost_packets(
    s: &mut ReceiverState,
    last: u16,
    seq: u16,
    has_journal: bool,
    r: PacketDecision,
)
    requires
        call_ensures(ReceiverState::handle_packet, (s, seq, has_journal), r),
        old(s).last_sequence == Some(last),
        seq != last,
        seq as int != (last + 1) % 65536,
    ensures
        r == (PacketDecision::Accept { gap: true, use_journal: has_journal }),
        final(s).last_sequence == Some(seq),
        !final(s).needs_reconciliation,
{
}

/// The packet behind the last one, and the first packet of all, show no loss. The
/// journal is used then only where a failover has asked for the state.
pub proof fn law_nothing_lost(
    s: &mut ReceiverState,
    seq: u16,
    has_journal: bool,
    r: PacketDecision,
)
    requires
        call_ensures(ReceiverState::handle_packet, (s, seq, has_journal), r),
        old(s).last_sequence matches Some(last) ==> seq as int == (last + 1) % 65536,
    ensures
        r == (PacketDecision::Accept {
            gap: false,
            use_journal: has_journal && old(s).needs_reconciliation,
        }),
        final(s).last_sequence == Some(seq),
        !final(s).needs_reconciliation,
{
}

/// A packet with the number of the last one is a duplicate and changes nothing,
/// and no other packet is one.
pub proof fn law_duplicates(
    s: &mut ReceiverState,
    seq: u16,
    has_journal: bool,
    r: PacketDecision,
)
    requires
        call_ensures(ReceiverState::handle_packet, (s, seq, has_journal), r),
    ensures
        r == PacketDecision::Duplicate <==> old(s).last_sequence == Some(seq),
        r == PacketDecision::Duplicate ==> *final(s) == *old(s),
{
}

/// A packet reaches the device of its number where several are set up, the only
/// device where none are, and never a device that is not ready.
pub proof fn law_packet_reaches_its_device(
    device_id: u8,
    multi_ready: Vec<bool>,
    device_ready: bool,
    r: Route,
)
    requires
        call_ensures(route_packet, (device_id, &multi_ready, device_ready), r),
    ensures
        r matches Route::Multi(i) ==> i == device_id && i < multi_ready@.len()
            && multi_ready@[i as int],
        r == Route::Single ==> multi_ready@.len() == 0 && device_ready,
        r == Route::Nowhere ==> if multi_ready@.len() == 0 {
            !device_ready
        } else {
            device_id >= multi_ready@.len() || !multi_ready@[device_id as int]
        },
{
}

/// A client that gives the focus up has lost it, whatever stood before. What other
/// clients give up, and what anybody claims, changes nothing.
pub proof fn law_release_gives_up(
    s: &mut FocusState,
    action: FocusAction,
    client_id: u32,
    r: (),
)
    requires
        call_ensures(FocusState::handle_packet, (s, action, client_id), r),
    ensures
        action == FocusAction::Release && client_id == old(s).client_id ==> !final(s).has_focus,
        action == FocusAction::Release && client_id != old(s).client_id ==> final(s).has_focus
            == old(s).has_focus,
        action == FocusAction::Claim ==> final(s).has_focus == old(s).has_focus,
        final(s).client_id == old(s).client_id,
        final(s).sequence == old(s).sequence,
{
}

/// The client that the host grants the focus to has it, and every other client has
/// lost it.
pub proof fn law_grant_decides(s: &mut FocusState, client_id: u32, r: ())
    requires
        call_ensures(FocusState::handle_packet, (s, FocusAction::Ack, client_id), r),
    ensures
        final(s).has_focus <==> client_id == old(s).client_id,
{
}

/// Claims are numbered one after the other, with 16 bits, and asking for the focus
/// does not yet give it.
pub proof fn law_claims_are_numbered(s: &mut FocusState, seq: u16)
    requires
        call_ensures(FocusState::claim, (s,), seq),
    ensures
        seq == old(s).sequence,
        final(s).sequence as int == (old(s).sequence + 1) % 65536,
        final(s).has_focus == old(s).has_focus,
        final(s).client_id == old(s).client_id,
{
}

/// A client at the start has heard no packet, has no focus and has claimed nothing; it is
/// focused exactly while it has the focus.
pub proof fn law_client_at_the_start(
    r: ReceiverState,
    client_id: u32,
    f: FocusState,
    any: FocusState,
    focused: bool,
)
    requires
        call_ensures(ReceiverState::new, (), r),
        call_ensures(FocusState::new, (client_id,), f),
        call_ensures(is_focused, (&any,), focused),
    ensures
        r.last_sequence is None && !r.needs_reconciliation,
        f.client_id == client_id && !f.has_focus && f.sequence == 0,
        focused <==> any.has_focus,
{
}

} // verus!
