//! Sniffers: what the administration service makes of the MIDI and focus
//! packets that it overhears.
use vstd::prelude::*;
use vstd::slice::slice_subrange;
use vstd::string::StringExecFns;

use crate::bits::{lemma_high_nibble, lemma_low_nibble};
use crate::text::{
    cat, decimal, digit, digit_char, hex_value, lemma_next_char, next_char, split, str_split,
    str_words, texts, to_decimal, words,
};

verus! {

// ── Active notes ──

/// Position behind the SysEx message at `i`: behind its end byte, or one past
/// the data where there is none.
pub open spec fn behind_sysex(data: Seq<u8>, i: int) -> int
    decreases data.len() - i,
{
    if 0 <= i < data.len() && data[i] != 0xF7 {
        behind_sysex(data, i + 1)
    } else {
        i + 1
    }
}

/// The position behind a SysEx message lies behind its start.
pub proof fn lemma_behind_sysex(data: Seq<u8>, i: int)
    ensures
        behind_sysex(data, i) > i,
    decreases data.len() - i,
{
    if 0 <= i < data.len() && data[i] != 0xF7 {
        lemma_behind_sysex(data, i + 1);
    }
}

/// Position behind the message at `i`.
pub open spec fn behind_message(data: Seq<u8>, i: int) -> int {
    let status = data[i];
    if status == 0xF0 {
        behind_sysex(data, i)
    } else if status < 0x80 || status > 0xF0 {
        i + 1
    } else if 0xC0 <= status < 0xE0 {
        i + 2
    } else {
        i + 3
    }
}

/// One more, up to the largest number.
pub open spec fn one_up(n: u32) -> u32 {
    if n == u32::MAX {
        n
    } else {
        (n + 1) as u32
    }
}

/// One less, down to zero.
pub open spec fn one_down(n: u32) -> u32 {
    if n == 0 {
        n
    } else {
        (n - 1) as u32
    }
}

/// The number of sounding notes after the message at `i`. A Note On with
/// velocity 0 ends a note; one that is cut off changes nothing.
pub open spec fn notes_after_message(data: Seq<u8>, i: int, n: u32) -> u32 {
    let status = data[i];
    if 0x90 <= status < 0xA0 {
        if i + 2 < data.len() {
            if data[i + 2] > 0 {
                one_up(n)
            } else {
                one_down(n)
            }
        } else {
            n
        }
    } else if 0x80 <= status < 0x90 {
        one_down(n)
    } else {
        n
    }
}

/// The number of sounding notes after the messages from `i` on.
pub open spec fn notes_after(data: Seq<u8>, i: int, n: u32) -> u32
    decreases
            if i < data.len() {
                data.len() - i
            } else {
                0
            },
{
    if i < 0 || i >= data.len() {
        n
    } else {
        proof {
            lemma_behind_sysex(data, i);
        }
        notes_after(data, behind_message(data, i), notes_after_message(data, i, n))
    }
}

/// Follows the notes that start and end in some MIDI bytes.
pub fn count_active_notes(data: &[u8], active_notes: &mut u32)
    ensures
        *final(active_notes) == notes_after(data@, 0, *old(active_notes)),
{
    let len: usize = data.len();
    let mut n: u32 = *active_notes;
    let mut i: usize = 0;
    while i < len
        invariant
            i <= len == data@.len(),
            notes_after(data@, i as int, n) == notes_after(data@, 0, *old(active_notes)),
        decreases len - i,
    {
        let status: u8 = data[i];
        proof {
            lemma_behind_sysex(data@, i as int);
            lemma_high_nibble(status);
        }
        let kind: u8 = status & 0xF0;
        let ghost before = n;
        if kind == 0x90 {
            if len - i > 2 {
                if data[i + 2] > 0 {
                    n = n.saturating_add(1);
                } else {
                    n = n.saturating_sub(1);
                }
            }
        } else if kind == 0x80 {
            n = n.saturating_sub(1);
        }
        let step: usize = if status == 0xF0 {
            let mut k: usize = i;
            while k < len && data[k] != 0xF7
                invariant
                    i <= k <= len == data@.len(),
                    behind_sysex(data@, k as int) == behind_sysex(data@, i as int),
                decreases len - k,
            {
                k += 1;
            }
            if k < len {
                k + 1 - i
            } else {
                len - i
            }
        } else if kind < 0x80 || kind == 0xF0 {
            1
        } else if kind == 0xC0 || kind == 0xD0 {
            2
        } else {
            3
        };
        assert(n == notes_after_message(data@, i as int, before));
        assert(behind_message(data@, i as int) == i + step || (step == len - i
            && behind_message(data@, i as int) >= len));
        assert(notes_after(data@, i as int, before) == notes_after(
            data@,
            behind_message(data@, i as int),
            n,
        ));
        if len - i <= step {
            i = len;
        } else {
            i += step;
        }
    }
    *active_notes = n;
}

// ── Descriptions ──

/// A byte as two hexadecimal digits.
pub open spec fn hex2(b: u8) -> Seq<char> {
    seq![digit_char((b / 16) as int, true), digit_char((b % 16) as int, true)]
}

/// A byte as two hexadecimal digits.
pub fn to_hex2(b: u8) -> (s: String)
    ensures
        s@ == hex2(b),
{
    let mut s = String::new();
    s.push(digit(b / 16, true));
    s.push(digit(b % 16, true));
    assert(s@ =~= hex2(b));
    s
}

/// Two named numbers behind the channel.
pub open spec fn pair_text(ch: int, a: Seq<char>, x: u8, b: Seq<char>, y: u8) -> Seq<char> {
    "ch="@ + decimal(ch as nat) + a + decimal(x as nat) + b + decimal(y as nat)
}

/// A named number behind the channel.
pub open spec fn single_text(ch: int, a: Seq<char>, x: int) -> Seq<char> {
    "ch="@ + decimal(ch as nat) + a + decimal(x as nat)
}

/// The first message of some MIDI bytes in words. `full` says whether
/// aftertouch and system messages have words of their own.
pub open spec fn description(data: Seq<u8>, full: bool) -> Seq<char> {
    if data.len() == 0 {
        "empty"@
    } else {
        let status = data[0];
        let ch = status % 16 + 1;
        let kind = status / 16;
        if status < 0x80 {
            "data "@ + hex2(status)
        } else if kind == 9 && data.len() >= 3 {
            pair_text(ch, " note="@, data[1], " vel="@, data[2])
        } else if kind == 8 && data.len() >= 3 {
            pair_text(ch, " noteOff="@, data[1], " vel="@, data[2])
        } else if kind == 11 && data.len() >= 3 {
            pair_text(ch, " cc="@, data[1], " val="@, data[2])
        } else if kind == 14 && data.len() >= 3 {
            single_text(ch, " pitch="@, (((data[2] as u16) << 7) | (data[1] as u16)) as int)
        } else if kind == 12 && data.len() >= 2 {
            single_text(ch, " pgm="@, data[1] as int)
        } else if full && kind == 13 && data.len() >= 2 {
            single_text(ch, " aft="@, data[1] as int)
        } else if full && kind == 10 && data.len() >= 3 {
            pair_text(ch, " polyAft note="@, data[1], " val="@, data[2])
        } else if full && kind == 15 {
            "SysEx"@
        } else {
            hex2(status)
        }
    }
}

fn pair(ch: u8, a: &str, x: u8, b: &str, y: u8) -> (s: String)
    ensures
        s@ == pair_text(ch as int, a@, x, b@, y),
{
    let mut s = single(ch, a, x as u16);
    s.append(b);
    let n = to_decimal(y as u64);
    s.append(n.as_str());
    s
}

fn single(ch: u8, a: &str, x: u16) -> (s: String)
    ensures
        s@ == single_text(ch as int, a@, x as int),
{
    let c = to_decimal(ch as u64);
    let n = to_decimal(x as u64);
    let mut s = cat("ch=", c.as_str());
    s.append(a);
    s.append(n.as_str());
    s
}

fn describe(data: &[u8], full: bool) -> (s: String)
    ensures
        s@ == description(data@, full),
{
    let len: usize = data.len();
    if len == 0 {
        return "empty".to_owned();
    }
    let status: u8 = data[0];
    if status < 0x80 {
        let h = to_hex2(status);
        return cat("data ", h.as_str());
    }
    proof {
        lemma_low_nibble(status);
        lemma_high_nibble(status);
    }
    let ch: u8 = (status & 0x0F) + 1;
    let kind: u8 = status & 0xF0;
    if kind == 0x90 && len >= 3 {
        pair(ch, " note=", data[1], " vel=", data[2])
    } else if kind == 0x80 && len >= 3 {
        pair(ch, " noteOff=", data[1], " vel=", data[2])
    } else if kind == 0xB0 && len >= 3 {
        pair(ch, " cc=", data[1], " val=", data[2])
    } else if kind == 0xE0 && len >= 3 {
        single(ch, " pitch=", ((data[2] as u16) << 7) | (data[1] as u16))
    } else if kind == 0xC0 && len >= 2 {
        single(ch, " pgm=", data[1] as u16)
    } else if full && kind == 0xD0 && len >= 2 {
        single(ch, " aft=", data[1] as u16)
    } else if full && kind == 0xA0 && len >= 3 {
        pair(ch, " polyAft note=", data[1], " val=", data[2])
    } else if full && kind == 0xF0 {
        "SysEx".to_owned()
    } else {
        to_hex2(status)
    }
}

/// The first message of some MIDI bytes in words.
pub fn describe_midi(data: &[u8]) -> (s: String)
    ensures
        s@ == description(data@, true),
{
    describe(data, true)
}

/// The first message of some feedback bytes in words.
pub fn describe_feedback_midi(data: &[u8]) -> (s: String)
    ensures
        s@ == description(data@, false),
{
    describe(data, false)
}

// ── MIDI packets ──

/// What the MIDI sniffer counts.
#[derive(Clone, Copy, Debug, PartialEq, Eq, Structural)]
pub struct SnifferCounts {
    /// Packets since the last tick.
    pub messages: u64,
    /// Payload bytes since the last tick, as the headers give them.
    pub bytes: u64,
    pub total_messages: u64,
    pub active_notes: u32,
}

/// Whether some bytes are a MIDI data packet: the letters `MDMI` and a header
/// of 18 bytes.
pub open spec fn is_midi_packet(packet: Seq<u8>) -> bool {
    packet.len() >= 18 && packet[0] == 0x4D && packet[1] == 0x44 && packet[2] == 0x4D && packet[3]
        == 0x49
}

/// The length of the payload, as the header gives it.
pub open spec fn payload_len(packet: Seq<u8>) -> int {
    packet[16] * 256 + packet[17]
}

/// Whether the payload is there in full.
pub open spec fn payload_complete(packet: Seq<u8>) -> bool {
    packet.len() >= 18 + payload_len(packet)
}

/// The payload of a packet.
pub open spec fn payload(packet: Seq<u8>) -> Seq<u8> {
    packet.subrange(18, 18 + payload_len(packet))
}

/// The counts after a packet. What is no MIDI packet is not counted; notes are
/// followed where the payload is complete.
pub open spec fn counted(c: SnifferCounts, packet: Seq<u8>) -> SnifferCounts {
    if is_midi_packet(packet) {
        SnifferCounts {
            messages: (c.messages + 1) as u64,
            bytes: (c.bytes + payload_len(packet)) as u64,
            total_messages: (c.total_messages + 1) as u64,
            active_notes: if payload_complete(packet) {
                notes_after(payload(packet), 0, c.active_notes)
            } else {
                c.active_notes
            },
        }
    } else {
        c
    }
}

impl SnifferCounts {
    pub fn new() -> (r: Self)
        ensures
            r == (SnifferCounts { messages: 0, bytes: 0, total_messages: 0, active_notes: 0 }),
    {
        SnifferCounts { messages: 0, bytes: 0, total_messages: 0, active_notes: 0 }
    }

    /// Takes in a packet. The description of its payload is returned where the
    /// payload is complete and not empty: that packet goes into the traffic log.
    pub fn observe(&mut self, packet: &[u8]) -> (r: Option<String>)
        requires
            old(self).messages < u64::MAX,
            old(self).total_messages < u64::MAX,
            old(self).bytes <= u64::MAX - 65535,
        ensures
            *final(self) == counted(*old(self), packet@),
            match r {
                Some(text) => {
                    &&& is_midi_packet(packet@)
                    &&& payload_complete(packet@)
                    &&& payload_len(packet@) > 0
                    &&& text@ == description(payload(packet@), true)
                },
                None => !is_midi_packet(packet@) || !payload_complete(packet@) || payload_len(
                    packet@,
                ) == 0,
            },
    {
        let len: usize = packet.len();
        if len < 18 || packet[0] != 0x4D || packet[1] != 0x44 || packet[2] != 0x4D || packet[3]
            != 0x49 {
            return None;
        }
        let n: usize = packet[16] as usize * 256 + packet[17] as usize;
        self.messages = self.messages + 1;
        self.total_messages = self.total_messages + 1;
        self.bytes = self.bytes + n as u64;
        if len - 18 < n {
            return None;
        }
        let data = slice_subrange(packet, 18, 18 + n);
        let mut notes: u32 = self.active_notes;
        count_active_notes(data, &mut notes);
        self.active_notes = notes;
        if n == 0 {
            return None;
        }
        Some(describe_midi(data))
    }

    /// Starts the next tick; the counts of the last one are returned.
    pub fn tick(&mut self) -> (r: (u64, u64))
        ensures
            r == (old(self).messages, old(self).bytes),
            *final(self) == (SnifferCounts { messages: 0, bytes: 0, ..*old(self) }),
    {
        let r = (self.messages, self.bytes);
        self.messages = 0;
        self.bytes = 0;
        r
    }
}

/// The part of each of the first `k` words before its first slash.
pub open spec fn before_slashes(all: Seq<Seq<char>>, k: int) -> Seq<Seq<char>>
    decreases k,
{
    if k <= 0 || k > all.len() {
        Seq::empty()
    } else {
        before_slashes(all, k - 1).push(split(all[k - 1], '/')[0])
    }
}

/// The words of `ip addr show` that may be an address, in order, without the
/// prefix length behind a slash.
pub fn address_candidates(output: &str) -> (r: Vec<String>)
    ensures
        texts(r@) == before_slashes(words(output@), words(output@).len() as int),
{
    let all = str_words(output);
    let mut r: Vec<String> = Vec::new();
    let mut k: usize = 0;
    assert(texts(r@) =~= Seq::<Seq<char>>::empty());
    while k < all.len()
        invariant
            k <= all@.len(),
            texts(all@) == words(output@),
            texts(r@) == before_slashes(words(output@), k as int),
        decreases all@.len() - k,
    {
        assert(words(output@)[k as int] == all@[k as int]@);
        let mut parts = str_split(all[k].as_str(), '/');
        assert(split(all@[k as int]@, '/')[0] == parts@[0]@);
        let part = parts.remove(0);
        let ghost before = texts(r@);
        r.push(part);
        assert(texts(r@) =~= before.push(part@));
        k += 1;
    }
    assert(words(output@).len() == all@.len());
    r
}

// ── Focus ──

/// Number of entries that the focus history keeps.
pub const FOCUS_HISTORY: usize = 50;

/// The client that has the focus.
#[derive(Debug)]
pub struct FocusHolder {
    pub client_id: u32,
    pub ip: String,
    /// Seconds since the epoch.
    pub since: u64,
}

/// A change of the focus.
#[derive(Debug)]
pub struct FocusHistoryEntry {
    pub client_id: u32,
    /// `claim` or `release`.
    pub action: String,
    /// Seconds since the epoch.
    pub timestamp: u64,
}

/// Who has the focus, and who had it.
#[derive(Debug)]
pub struct FocusInfo {
    pub holder: Option<FocusHolder>,
    pub history: Vec<FocusHistoryEntry>,
}

pub struct FocusHolderView {
    pub client_id: u32,
    pub ip: Seq<char>,
    pub since: u64,
}

pub struct FocusEntryView {
    pub client_id: u32,
    pub action: Seq<char>,
    pub timestamp: u64,
}

pub struct FocusView {
    pub holder: Option<FocusHolderView>,
    pub history: Seq<FocusEntryView>,
}

impl View for FocusHistoryEntry {
    type V = FocusEntryView;

    open spec fn view(&self) -> FocusEntryView {
        FocusEntryView {
            client_id: self.client_id,
            action: self.action@,
            timestamp: self.timestamp,
        }
    }
}

/// The views of several entries.
pub open spec fn focus_entries(v: Seq<FocusHistoryEntry>) -> Seq<FocusEntryView> {
    v.map_values(|e: FocusHistoryEntry| e@)
}

impl View for FocusInfo {
    type V = FocusView;

    open spec fn view(&self) -> FocusView {
        FocusView {
            holder: match self.holder {
                Some(h) => Some(
                    FocusHolderView { client_id: h.client_id, ip: h.ip@, since: h.since },
                ),
                None => None,
            },
            history: focus_entries(self.history@),
        }
    }
}

/// What a focus packet says.
#[derive(Clone, Copy, Debug, PartialEq, Eq, Structural)]
pub enum FocusAction {
    /// A client asks for the focus.
    Claim,
    /// The host grants the focus.
    Ack,
    /// A client gives the focus up.
    Release,
}

/// The history with a new entry; a history over the cap gives up its oldest.
pub open spec fn with_entry(history: Seq<FocusEntryView>, e: FocusEntryView) -> Seq<
    FocusEntryView,
> {
    let all = history.push(e);
    if all.len() > FOCUS_HISTORY {
        all.drop_first()
    } else {
        all
    }
}

/// The focus after a packet that came in at `now`. A claim alone changes
/// nothing; a release takes the focus only from the client that has it.
pub open spec fn focus_after(
    s: FocusView,
    action: FocusAction,
    client_id: u32,
    ip: Seq<char>,
    now: u64,
) -> FocusView {
    match action {
        FocusAction::Claim => s,
        FocusAction::Ack => FocusView {
            holder: Some(FocusHolderView { client_id, ip, since: now }),
            history: with_entry(
                s.history,
                FocusEntryView { client_id, action: "claim"@, timestamp: now },
            ),
        },
        FocusAction::Release => FocusView {
            holder: if s.holder is Some && s.holder->0.client_id == client_id {
                None
            } else {
                s.holder
            },
            history: with_entry(
                s.history,
                FocusEntryView { client_id, action: "release"@, timestamp: now },
            ),
        },
    }
}

impl FocusInfo {
    pub fn new() -> (r: Self)
        ensures
            r@.holder is None,
            r@.history.len() == 0,
    {
        FocusInfo { holder: None, history: Vec::new() }
    }

    fn log(&mut self, client_id: u32, action: &str, now: u64)
        ensures
            final(self)@ == (FocusView {
                history: with_entry(
                    old(self)@.history,
                    FocusEntryView { client_id, action: action@, timestamp: now },
                ),
                ..old(self)@
            }),
    {
        let e = FocusHistoryEntry { client_id, action: action.to_owned(), timestamp: now };
        let ghost before = focus_entries(self.history@);
        self.history.push(e);
        assert(focus_entries(self.history@) =~= before.push(e@));
        if self.history.len() > FOCUS_HISTORY {
            self.history.remove(0);
            assert(focus_entries(self.history@) =~= before.push(e@).drop_first());
        }
    }

    /// Takes in a focus packet.
    pub fn handle_focus_packet(
        &mut self,
        action: FocusAction,
        client_id: u32,
        source_ip: &str,
        now: u64,
    )
        ensures
            final(self)@ == focus_after(old(self)@, action, client_id, source_ip@, now),
            old(self)@.history.len() <= FOCUS_HISTORY ==> final(self)@.history.len()
                <= FOCUS_HISTORY,
    {
        match action {
            FocusAction::Claim => {},
            FocusAction::Ack => {
                self.holder = Some(
                    FocusHolder { client_id, ip: source_ip.to_owned(), since: now },
                );
                self.log(client_id, "claim", now);
            },
            FocusAction::Release => {
                let own = match &self.holder {
                    Some(h) => h.client_id == client_id,
                    None => false,
                };
                if own {
                    self.holder = None;
                }
                self.log(client_id, "release", now);
            },
        }
    }
}

/// The name of a focus action in the traffic log.
pub fn focus_action_name(action: FocusAction) -> (r: String)
    ensures
        r@ == match action {
            FocusAction::Claim => "claim"@,
            FocusAction::Ack => "ack"@,
            FocusAction::Release => "release"@,
        },
{
    match action {
        FocusAction::Claim => "claim".to_owned(),
        FocusAction::Ack => "ack".to_owned(),
        FocusAction::Release => "release".to_owned(),
    }
}

// ── Laws ──

/// A note that starts and ends leaves the number of sounding notes as it was,
/// whether it ends with a Note Off or with a Note On of velocity 0.
pub proof fn law_note_on_off(on: u8, note: u8, velocity: u8, off: u8, off_velocity: u8, n: u32)
    requires
        0x90 <= on < 0xA0,
        velocity > 0,
        0x80 <= off < 0x90 || (0x90 <= off < 0xA0 && off_velocity == 0),
        n < u32::MAX,
    ensures
        notes_after(seq![on, note, velocity, off, note, off_velocity], 0, n) == n,
{
    let data = seq![on, note, velocity, off, note, off_velocity];
    reveal_with_fuel(notes_after, 3);
    assert(behind_message(data, 0) == 3);
    assert(behind_message(data, 3) == 6);
}

/// A client that was granted the focus and releases it leaves nobody with the
/// focus; a release by another client takes it from nobody.
pub proof fn law_focus(
    s: FocusView,
    client: u32,
    other: u32,
    ip: Seq<char>,
    other_ip: Seq<char>,
    t1: u64,
    t2: u64,
)
    ensures
        focus_after(
            focus_after(s, FocusAction::Ack, client, ip, t1),
            FocusAction::Release,
            client,
            ip,
            t2,
        ).holder is None,
        other != client ==> focus_after(
            focus_after(s, FocusAction::Ack, client, ip, t1),
            FocusAction::Release,
            other,
            other_ip,
            t2,
        ).holder == Some(FocusHolderView { client_id: client, ip, since: t1 }),
{
}

proof fn lemma_sysex_end(data: Seq<u8>, i: int, end: int)
    requires
        0 <= i <= end < data.len(),
        data[end] == 0xF7,
        forall|j: int| i <= j < end ==> #[trigger] data[j] != 0xF7,
    ensures
        behind_sysex(data, i) == end + 1,
    decreases end - i,
{
    if i < end {
        assert(data[i] != 0xF7);
        lemma_sysex_end(data, i + 1, end);
    }
}

proof fn lemma_sysex_shift(a: Seq<u8>, b: Seq<u8>, i: int)
    requires
        0 <= i,
    ensures
        behind_sysex(a + b, a.len() + i) == a.len() + behind_sysex(b, i),
    decreases b.len() - i,
{
    if i < b.len() {
        assert((a + b)[a.len() + i] == b[i]);
        if b[i] != 0xF7 {
            lemma_sysex_shift(a, b, i + 1);
        }
    }
}

proof fn lemma_notes_shift(a: Seq<u8>, b: Seq<u8>, i: int, n: u32)
    requires
        0 <= i,
    ensures
        notes_after(a + b, a.len() + i, n) == notes_after(b, i, n),
    decreases
            if i < b.len() {
                b.len() - i
            } else {
                0
            },
{
    let s = a + b;
    if i < b.len() {
        let j = a.len() + i;
        assert(s[j] == b[i]);
        if i + 2 < b.len() {
            assert(s[j + 2] == b[i + 2]);
        }
        lemma_sysex_shift(a, b, i);
        lemma_behind_sysex(b, i);
        assert(behind_message(s, j) == a.len() + behind_message(b, i));
        assert(notes_after_message(s, j, n) == notes_after_message(b, i, n));
        lemma_notes_shift(a, b, behind_message(b, i), notes_after_message(b, i, n));
    }
}

/// How a message in front of others changes the number of sounding notes: a Note On with a
/// velocity is one more, one without and a Note Off are one less but not less than none,
/// and every other message, of its own length, changes nothing.
pub proof fn law_sounding_notes(
    all: &[u8],
    rest: &[u8],
    x: &mut u32,
    y: &mut u32,
    message: Seq<u8>,
)
    requires
        call_ensures(count_active_notes, (all, x), ()),
        call_ensures(count_active_notes, (rest, y), ()),
        all@ == message + rest@,
        message.len() > 0,
    ensures
        message.len() == 3 && 0x90 <= message[0] <= 0x9F && message[2] > 0 && *old(x) < u32::MAX
            && *old(y) == *old(x) + 1 ==> *final(x) == *final(y),
        message.len() == 3 && (0x90 <= message[0] <= 0x9F && message[2] == 0 || 0x80 <= message[0]
            <= 0x8F) && *old(x) > 0 && *old(y) == *old(x) - 1 ==> *final(x) == *final(y),
        message.len() == 3 && (0x90 <= message[0] <= 0x9F && message[2] == 0 || 0x80 <= message[0]
            <= 0x8F) && *old(x) == 0 && *old(y) == 0 ==> *final(x) == *final(y),
        message.len() == 3 && (0xA0 <= message[0] <= 0xBF || 0xE0 <= message[0] <= 0xEF) && *old(y)
            == *old(x) ==> *final(x) == *final(y),
        message.len() == 2 && 0xC0 <= message[0] <= 0xDF && *old(y) == *old(x) ==> *final(x)
            == *final(y),
        message.len() == 1 && (message[0] < 0x80 || message[0] > 0xF0) && *old(y) == *old(x)
            ==> *final(x) == *final(y),
        message[0] == 0xF0 && message.last() == 0xF7 && (forall|j: int|
            0 <= j < message.len() - 1 ==> #[trigger] message[j] != 0xF7) && *old(y) == *old(x)
            ==> *final(x) == *final(y),
{
    let s = message + rest@;
    let n = message.len() as int;
    lemma_behind_sysex(s, 0);
    assert(s[0] == message[0]);
    if n == 3 {
        assert(s[2] == message[2]);
    }
    lemma_notes_shift(message, rest@, 0, *old(y));
    if message[0] == 0xF0 && message.last() == 0xF7 && (forall|j: int|
        0 <= j < message.len() - 1 ==> #[trigger] message[j] != 0xF7) {
        assert forall|j: int| 0 <= j < n - 1 implies #[trigger] s[j] != 0xF7 by {
            assert(s[j] == message[j]);
        }
        lemma_sysex_end(s, 0, n - 1);
    }
}

/// Nothing changes the number of sounding notes by nothing, by a Note On that is cut off,
/// or by a SysEx message that does not end; a Note Off that is cut off counts.
pub proof fn law_notes_at_the_end(data: &[u8], x: &mut u32)
    requires
        call_ensures(count_active_notes, (data, x), ()),
    ensures
        data@.len() == 0 ==> *final(x) == *old(x),
        1 <= data@.len() <= 2 && 0x90 <= data@[0] <= 0x9F ==> *final(x) == *old(x),
        1 <= data@.len() <= 2 && 0x80 <= data@[0] <= 0x8F && *old(x) > 0 ==> *final(x) == *old(x)
            - 1,
        data@.len() > 0 && data@[0] == 0xF0 && (forall|j: int|
            0 <= j < data@.len() ==> #[trigger] data@[j] != 0xF7) ==> *final(x) == *old(x),
{
    if data@.len() > 0 {
        reveal_with_fuel(notes_after, 2);
        lemma_behind_sysex(data@, 0);
        if forall|j: int| 0 <= j < data@.len() ==> #[trigger] data@[j] != 0xF7 {
            lemma_sysex_open(data@, 0);
        }
    }
}

proof fn lemma_sysex_open(data: Seq<u8>, i: int)
    requires
        0 <= i <= data.len(),
        forall|j: int| i <= j < data.len() ==> #[trigger] data[j] != 0xF7,
    ensures
        behind_sysex(data, i) > data.len(),
    decreases data.len() - i,
{
    if i < data.len() {
        assert(data[i] != 0xF7);
        lemma_sysex_open(data, i + 1);
    }
}

/// The words for a message: the channel from one on, and the numbers of its data bytes.
pub proof fn law_described_message(data: &[u8], text: String)
    requires
        call_ensures(describe_midi, (data,), text),
    ensures
        data@.len() == 0 ==> text@ == "empty"@,
        data@.len() >= 3 ==> {
            let status = data@[0];
            let x = data@[1] as nat;
            let y = data@[2] as nat;
            &&& 0x80 <= status < 0x90 ==> text@ == "ch="@ + decimal((status - 0x7F) as nat)
                + " noteOff="@ + decimal(x) + " vel="@ + decimal(y)
            &&& 0x90 <= status < 0xA0 ==> text@ == "ch="@ + decimal((status - 0x8F) as nat)
                + " note="@ + decimal(x) + " vel="@ + decimal(y)
            &&& 0xA0 <= status < 0xB0 ==> text@ == "ch="@ + decimal((status - 0x9F) as nat)
                + " polyAft note="@ + decimal(x) + " val="@ + decimal(y)
            &&& 0xB0 <= status < 0xC0 ==> text@ == "ch="@ + decimal((status - 0xAF) as nat)
                + " cc="@ + decimal(x) + " val="@ + decimal(y)
            &&& 0xE0 <= status < 0xF0 && x < 128 && y < 128 ==> text@ == "ch="@ + decimal(
                (status - 0xDF) as nat,
            ) + " pitch="@ + decimal((y * 128 + x) as nat)
        },
        data@.len() >= 2 ==> {
            let status = data@[0];
            let x = data@[1] as nat;
            &&& 0xC0 <= status < 0xD0 ==> text@ == "ch="@ + decimal((status - 0xBF) as nat)
                + " pgm="@ + decimal(x)
            &&& 0xD0 <= status < 0xE0 ==> text@ == "ch="@ + decimal((status - 0xCF) as nat)
                + " aft="@ + decimal(x)
        },
        data@.len() >= 1 && data@[0] >= 0xF0 ==> text@ == "SysEx"@,
{
    if data@.len() >= 3 && data@[1] < 128 && data@[2] < 128 {
        lemma_pitch(data@[1], data@[2]);
    }
}

proof fn lemma_pitch(lo: u8, hi: u8)
    requires
        lo < 128,
        hi < 128,
    ensures
        ((hi as u16) << 7) | (lo as u16) == hi * 128 + lo,
{
    assert(lo < 128 && hi < 128 ==> ((hi as u16) << 7) | (lo as u16) == hi * 128 + lo)
        by (bit_vector);
}

/// Two hexadecimal digits, the upper half of the byte first.
pub proof fn law_two_digits(b: u8, text: String)
    requires
        call_ensures(to_hex2, (b,), text),
    ensures
        text@.len() == 2,
        hex_value(text@[0]) == Some(b as int / 16),
        hex_value(text@[1]) == Some(b as int % 16),
        forall|i: int|
            0 <= i < 2 ==> '0' <= #[trigger] text@[i] <= '9' || 'A' <= text@[i] <= 'F',
{
}

/// What is no message is described by its first byte, as are, of feedback, aftertouch and
/// system messages; the words for all other feedback are those for other messages.
pub proof fn law_described_bytes(
    data: &[u8],
    text: String,
    feedback: String,
    first: u8,
    digits: String,
)
    requires
        call_ensures(describe_midi, (data,), text),
        call_ensures(describe_feedback_midi, (data,), feedback),
        call_ensures(to_hex2, (first,), digits),
        data@.len() > 0 && data@[0] == first,
    ensures
        first < 0x80 ==> text@ == "data "@ + digits@ && feedback@ == "data "@ + digits@,
        0xA0 <= first < 0xB0 || 0xD0 <= first < 0xE0 || first >= 0xF0 ==> feedback@ == digits@,
        0x80 <= first < 0xA0 || 0xB0 <= first < 0xD0 || 0xE0 <= first < 0xF0 ==> feedback@ == text@,
        data@.len() == 1 && 0x80 <= first < 0xF0 ==> text@ == digits@,
        data@.len() == 2 && (0x80 <= first < 0xC0 || 0xE0 <= first < 0xF0) ==> text@ == digits@,
{
}

/// A packet counts if it has the four letters and a header: one message, with the bytes
/// that its header gives. Nothing else counts, and nothing else is described.
pub proof fn law_overheard_packet(s: &mut SnifferCounts, packet: &[u8], r: Option<String>)
    requires
        call_ensures(SnifferCounts::observe, (s, packet), r),
        old(s).messages < u64::MAX,
        old(s).total_messages < u64::MAX,
        old(s).bytes <= u64::MAX - 65535,
    ensures
        ({
            let midi = packet@.len() >= 18 && packet@.take(4) == seq![0x4Du8, 0x44u8, 0x4Du8, 0x49u8];
            let size = packet@[16] * 256 + packet@[17];
            &&& !midi ==> *final(s) == *old(s) && r is None
            &&& midi ==> {
                &&& final(s).messages == old(s).messages + 1
                &&& final(s).total_messages == old(s).total_messages + 1
                &&& final(s).bytes == old(s).bytes + size
                &&& r is Some <==> 0 < size <= packet@.len() - 18
                &&& packet@.len() - 18 < size || size == 0 ==> final(s).active_notes == old(s).active_notes
            }
        }),
{
    let letters = seq![0x4Du8, 0x44u8, 0x4Du8, 0x49u8];
    if packet@.len() >= 18 {
        if is_midi_packet(packet@) {
            assert(packet@.take(4) =~= letters);
        } else if packet@.take(4) == letters {
            assert(packet@.take(4)[0] == packet@[0]);
            assert(packet@.take(4)[1] == packet@[1]);
            assert(packet@.take(4)[2] == packet@[2]);
            assert(packet@.take(4)[3] == packet@[3]);
            assert(letters[0] == 0x4D && letters[1] == 0x44 && letters[2] == 0x4D && letters[3]
                == 0x49);
        }
    }
}

/// The notes of a packet that is complete are those of its payload, and its words are the
/// words for its payload.
pub proof fn law_overheard_payload(
    s: &mut SnifferCounts,
    packet: &[u8],
    r: Option<String>,
    payload: &[u8],
    n: &mut u32,
    text: String,
)
    requires
        call_ensures(SnifferCounts::observe, (s, packet), r),
        r is Some,
        packet@.len() >= 18,
        payload@ == packet@.subrange(18, 18 + (packet@[16] * 256 + packet@[17])),
        *old(n) == old(s).active_notes,
        call_ensures(count_active_notes, (payload, n), ()),
        call_ensures(describe_midi, (payload,), text),
    ensures
        final(s).active_notes == *final(n),
        r matches Some(t) && t@ == text@,
{
}

/// A tick hands out what was counted since the last one, and keeps the total and the
/// notes; a sniffer at the start has counted nothing.
pub proof fn law_tick(s: &mut SnifferCounts, r: (u64, u64), fresh: SnifferCounts)
    requires
        call_ensures(SnifferCounts::tick, (s,), r),
        call_ensures(SnifferCounts::new, (), fresh),
    ensures
        r.0 == old(s).messages && r.1 == old(s).bytes,
        final(s).messages == 0 && final(s).bytes == 0,
        final(s).total_messages == old(s).total_messages,
        final(s).active_notes == old(s).active_notes,
        fresh.messages == 0 && fresh.bytes == 0 && fresh.total_messages == 0 && fresh.active_notes
            == 0,
{
}

proof fn lemma_before_slashes(all: Seq<Seq<char>>, k: int, i: int)
    requires
        0 <= k <= all.len(),
    ensures
        before_slashes(all, k).len() == k,
        0 <= i < k ==> before_slashes(all, k)[i] == split(all[i], '/')[0],
    decreases k,
{
    if k > 0 {
        lemma_before_slashes(all, k - 1, i);
        lemma_before_slashes(all, k - 1, 0);
    }
}

/// Every word of the listing gives one candidate: the word without a slash and what is
/// behind it.
pub proof fn law_candidates(output: &str, r: Vec<String>, all: Vec<String>, i: int)
    requires
        call_ensures(address_candidates, (output,), r),
        call_ensures(str_words, (output,), all),
    ensures
        r@.len() == all@.len(),
        0 <= i < r@.len() ==> !r@[i]@.contains('/') && (all@[i]@ == r@[i]@ || r@[i]@.push(
            '/',
        ).is_prefix_of(all@[i]@)),
{
    let w = words(output@);
    assert(texts(all@).len() == all@.len());
    assert(texts(r@).len() == r@.len());
    lemma_before_slashes(w, w.len() as int, i);
    if 0 <= i < r@.len() {
        assert(texts(all@)[i] == all@[i]@);
        assert(texts(r@)[i] == r@[i]@);
        let s = all@[i]@;
        let first = r@[i]@;
        lemma_next_char(s, '/', 0);
        let to = next_char(s, '/', 0);
        assert(first == s.subrange(0, to));
        if first.contains('/') {
            let j = first.index_of('/');
            assert(s[j] == '/');
        }
        if to < s.len() {
            assert(first.push('/') =~= s.subrange(0, to + 1));
        } else {
            assert(first =~= s);
        }
    }
}

/// What a focus packet does: a grant gives the focus to its client, now and from its
/// address; a release takes it only from the client that has it; a claim changes nothing.
/// The first two are the last entry of the history, which keeps fifty.
pub proof fn law_focus_packet(
    s: &mut FocusInfo,
    action: FocusAction,
    client_id: u32,
    source_ip: &str,
    now: u64,
)
    requires
        call_ensures(FocusInfo::handle_focus_packet, (s, action, client_id, source_ip, now), ()),
    ensures
        action is Claim ==> final(s)@ == old(s)@,
        action is Ack ==> (final(s).holder matches Some(h) && h.client_id == client_id && h.ip@
            == source_ip@ && h.since == now),
        action is Release && (old(s).holder matches Some(h) && h.client_id == client_id) ==> final(s).holder is None,
        action is Release && !(old(s).holder matches Some(h) && h.client_id == client_id) ==> final(s)@.holder == old(s)@.holder,
        !(action is Claim) ==> {
            let e = final(s).history@[final(s).history@.len() - 1];
            &&& e.client_id == client_id
            &&& e.timestamp == now
            &&& e.action@ == (if action is Ack {
                "claim"@
            } else {
                "release"@
            })
            &&& old(s).history@.len() < 50 ==> final(s)@.history.drop_last() == old(s)@.history
            &&& old(s).history@.len() == 50 ==> final(s)@.history.drop_last() == old(s)@.history.skip(1)
        },
{
    let b = old(s)@;
    let a = final(s)@;
    assert(b.history.len() == old(s).history@.len());
    assert(a.history.len() == final(s).history@.len());
    if !(action is Claim) {
        let n = a.history.len() - 1;
        assert(a.history[n] == final(s).history@[n]@);
        if b.history.len() < 50 {
            assert(a.history.drop_last() =~= b.history);
        } else if b.history.len() == 50 {
            assert(a.history.drop_last() =~= b.history.skip(1));
        }
    }
}

/// The names of focus actions, and a focus at the start that nobody has.
pub proof fn law_focus_names(action: FocusAction, name: String, fresh: FocusInfo)
    requires
        call_ensures(focus_action_name, (action,), name),
        call_ensures(FocusInfo::new, (), fresh),
    ensures
        action is Claim ==> name@ == "claim"@,
        action is Ack ==> name@ == "ack"@,
        action is Release ==> name@ == "release"@,
        fresh.holder is None,
        fresh.history@.len() == 0,
{
    assert(fresh@.history.len() == fresh.history@.len());
}

} // verus!
