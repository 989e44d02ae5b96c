//! Raw MIDI bytes and ALSA sequencer events.
//!
//! The ALSA sequencer speaks in structured events while the network carries
//! raw MIDI bytes. This module reads events out of a byte stream and writes
//! events as bytes.
use vstd::prelude::*;
use vstd::slice::slice_subrange;

use crate::bits::{
    lemma_bend_bytes, lemma_high_nibble, lemma_low7, lemma_low7_signed, lemma_low7_wide,
    lemma_low_nibble, lemma_status,
};

verus! {

/// Data of a note event.
#[derive(Clone, Copy, Debug, PartialEq, Eq, Structural)]
pub struct EvNote {
    pub channel: u8,
    pub note: u8,
    pub velocity: u8,
    pub off_velocity: u8,
    pub duration: u32,
}

/// Data of a controller event.
#[derive(Clone, Copy, Debug, PartialEq, Eq, Structural)]
pub struct EvCtrl {
    pub channel: u8,
    pub param: u32,
    pub value: i32,
}

/// A sequencer event.
#[derive(Clone, Debug, PartialEq, Eq)]
pub enum Event {
    Noteoff(EvNote),
    Noteon(EvNote),
    Keypress(EvNote),
    Controller(EvCtrl),
    Pgmchange(EvCtrl),
    Chanpress(EvCtrl),
    Pitchbend(EvCtrl),
    Sysex(Vec<u8>),
    Clock,
    Start,
    Continue,
    Stop,
    Sensing,
    Reset,
    TuneRequest,
    /// An event that has no raw MIDI form here.
    Other,
}

/// What a sequencer event holds.
pub enum EventView {
    Noteoff(EvNote),
    Noteon(EvNote),
    Keypress(EvNote),
    Controller(EvCtrl),
    Pgmchange(EvCtrl),
    Chanpress(EvCtrl),
    Pitchbend(EvCtrl),
    Sysex(Seq<u8>),
    Clock,
    Start,
    Continue,
    Stop,
    Sensing,
    Reset,
    TuneRequest,
    Other,
}

impl View for Event {
    type V = EventView;

    open spec fn view(&self) -> EventView {
        match *self {
            Event::Noteoff(d) => EventView::Noteoff(d),
            Event::Noteon(d) => EventView::Noteon(d),
            Event::Keypress(d) => EventView::Keypress(d),
            Event::Controller(d) => EventView::Controller(d),
            Event::Pgmchange(d) => EventView::Pgmchange(d),
            Event::Chanpress(d) => EventView::Chanpress(d),
            Event::Pitchbend(d) => EventView::Pitchbend(d),
            Event::Sysex(bytes) => EventView::Sysex(bytes@),
            Event::Clock => EventView::Clock,
            Event::Start => EventView::Start,
            Event::Continue => EventView::Continue,
            Event::Stop => EventView::Stop,
            Event::Sensing => EventView::Sensing,
            Event::Reset => EventView::Reset,
            Event::TuneRequest => EventView::TuneRequest,
            Event::Other => EventView::Other,
        }
    }
}

/// The view of an event that may be absent.
pub open spec fn event_opt(e: Option<Event>) -> Option<EventView> {
    match e {
        Some(ev) => Some(ev@),
        None => None,
    }
}

/// Number of bytes of the SysEx message at the front of `data`: up to and
/// with the first `0xF7`, or everything when the message is not terminated.
pub open spec fn sysex_len(data: Seq<u8>) -> int {
    match data.index_of_first(0xF7u8) {
        Some(i) => i + 1,
        None => data.len() as int,
    }
}

/// The system realtime event of a status byte.
pub open spec fn realtime_event(status: u8) -> Option<EventView> {
    if status == 0xF8 {
        Some(EventView::Clock)
    } else if status == 0xFA {
        Some(EventView::Start)
    } else if status == 0xFB {
        Some(EventView::Continue)
    } else if status == 0xFC {
        Some(EventView::Stop)
    } else if status == 0xFE {
        Some(EventView::Sensing)
    } else if status == 0xFF {
        Some(EventView::Reset)
    } else {
        None
    }
}

/// Number of bytes of the system common message of a status byte.
pub open spec fn common_len(status: u8) -> int {
    if status == 0xF2 {
        3
    } else if status == 0xF1 || status == 0xF3 {
        2
    } else {
        1
    }
}

/// Number of bytes of the channel message of a status byte.
pub open spec fn channel_len(status: u8) -> int {
    if 0xC0 <= status < 0xE0 {
        2
    } else {
        3
    }
}

/// A note event without release velocity or duration.
pub open spec fn note_data(channel: u8, note: u8, velocity: u8) -> EvNote {
    EvNote { channel, note, velocity, off_velocity: 0, duration: 0 }
}

/// The channel event of a kind (the high half of the status byte), a channel
/// and two data values below 128. A Note On with velocity 0 is a Note Off.
pub open spec fn channel_event(kind: int, channel: u8, a: u8, b: u8) -> EventView {
    if kind == 8 || (kind == 9 && b == 0) {
        EventView::Noteoff(note_data(channel, a, b))
    } else if kind == 9 {
        EventView::Noteon(note_data(channel, a, b))
    } else if kind == 10 {
        EventView::Keypress(note_data(channel, a, b))
    } else if kind == 11 {
        EventView::Controller(EvCtrl { channel, param: a as u32, value: b as i32 })
    } else if kind == 12 {
        EventView::Pgmchange(EvCtrl { channel, param: 0, value: a as i32 })
    } else if kind == 13 {
        EventView::Chanpress(EvCtrl { channel, param: 0, value: a as i32 })
    } else {
        EventView::Pitchbend(EvCtrl { channel, param: 0, value: (b * 128 + a - 8192) as i32 })
    }
}

/// The event at the front of `data`, if it has one, and the number of bytes
/// that are used up with it.
pub open spec fn front_event(data: Seq<u8>) -> (Option<EventView>, int) {
    if data.len() == 0 {
        (None, 0)
    } else {
        let status = data[0];
        if status == 0xF0 {
            (Some(EventView::Sysex(data.take(sysex_len(data)))), sysex_len(data))
        } else if status >= 0xF8 {
            (realtime_event(status), 1)
        } else if status == 0xF6 {
            (Some(EventView::TuneRequest), 1)
        } else if status >= 0xF0 {
            (None, if data.len() < common_len(status) { 1 } else { common_len(status) })
        } else if status >= 0x80 {
            if data.len() < channel_len(status) {
                (None, 1)
            } else {
                (
                    Some(
                        channel_event(
                            (status / 16) as int,
                            status % 16,
                            data[1] % 128,
                            if channel_len(status) == 3 {
                                data[2] % 128
                            } else {
                                0
                            },
                        ),
                    ),
                    channel_len(status),
                )
            }
        } else {
            (None, 1)
        }
    }
}

/// Position of the first `0xF7` byte.
fn sysex_end(data: &[u8]) -> (n: usize)
    ensures
        n == sysex_len(data@),
        n <= data@.len(),
        n == 0 <==> data@.len() == 0,
{
    let mut i: usize = 0;
    while i < data.len()
        invariant
            i <= data@.len(),
            forall|j: int| 0 <= j < i ==> data@[j] != 0xF7,
        decreases data@.len() - i,
    {
        if data[i] == 0xF7 {
            proof {
                data@.index_of_first_ensures(0xF7u8);
            }
            return i + 1;
        }
        i += 1;
    }
    proof {
        data@.index_of_first_ensures(0xF7u8);
    }
    data.len()
}

/// Reads the event at the front of `data`. The second value is the number of
/// bytes that belong to it; it is 0 only for an empty input.
pub fn raw_midi_to_alsa_event(data: &[u8]) -> (r: (Option<Event>, usize))
    ensures
        (event_opt(r.0), r.1 as int) == front_event(data@),
        r.1 <= data@.len(),
        r.1 == 0 <==> data@.len() == 0,
{
    if data.len() == 0 {
        return (None, 0);
    }
    let status: u8 = data[0];
    if status == 0xF0 {
        let n: usize = sysex_end(data);
        let bytes = vstd::slice::slice_to_vec(slice_subrange(data, 0, n));
        assert(data@.take(n as int) =~= data@.subrange(0, n as int));
        return (Some(Event::Sysex(bytes)), n);
    }
    if status >= 0xF8 {
        let ev = match status {
            0xF8 => Some(Event::Clock),
            0xFA => Some(Event::Start),
            0xFB => Some(Event::Continue),
            0xFC => Some(Event::Stop),
            0xFE => Some(Event::Sensing),
            0xFF => Some(Event::Reset),
            _ => None,
        };
        return (ev, 1);
    }
    if status >= 0xF0 {
        return match status {
            0xF1 => if data.len() < 2 {
                (None, 1)
            } else {
                (None, 2)
            },
            0xF2 => if data.len() < 3 {
                (None, 1)
            } else {
                (None, 3)
            },
            0xF3 => if data.len() < 2 {
                (None, 1)
            } else {
                (None, 2)
            },
            0xF6 => (Some(Event::TuneRequest), 1),
            _ => (None, 1),
        };
    }
    let msg_type: u8 = status & 0xF0;
    let channel: u8 = status & 0x0F;
    proof {
        lemma_low_nibble(status);
        lemma_high_nibble(status);
    }
    if msg_type < 0x80 {
        return (None, 1);
    }
    let len: usize = if msg_type == 0xC0 || msg_type == 0xD0 {
        2
    } else {
        3
    };
    if data.len() < len {
        return (None, 1);
    }
    let a: u8 = data[1] & 0x7F;
    let b: u8 = if len == 3 {
        data[2] & 0x7F
    } else {
        0
    };
    proof {
        lemma_low7(data@[1]);
        if len == 3 {
            lemma_low7(data@[2]);
        }
    }
    let note = EvNote { channel, note: a, velocity: b, off_velocity: 0, duration: 0 };
    let ev = match msg_type {
        0x80 => Event::Noteoff(note),
        0x90 => if b == 0 {
            Event::Noteoff(note)
        } else {
            Event::Noteon(note)
        },
        0xA0 => Event::Keypress(note),
        0xB0 => Event::Controller(EvCtrl { channel, param: a as u32, value: b as i32 }),
        0xC0 => Event::Pgmchange(EvCtrl { channel, param: 0, value: a as i32 }),
        0xD0 => Event::Chanpress(EvCtrl { channel, param: 0, value: a as i32 }),
        _ => Event::Pitchbend(
            EvCtrl { channel, param: 0, value: (b as i32) * 128 + (a as i32) - 8192 },
        ),
    };
    (Some(ev), len)
}

/// A non-empty input gives up at least one byte and at most all of them.
pub proof fn lemma_front_event_len(data: Seq<u8>)
    ensures
        front_event(data).1 <= data.len(),
        data.len() > 0 ==> front_event(data).1 > 0,
{
    data.index_of_first_ensures(0xF7u8);
}

/// Every event in `data`, in order. Bytes that start no event are skipped.
pub open spec fn events_in(data: Seq<u8>) -> Seq<EventView>
    decreases data.len(),
{
    if data.len() == 0 {
        Seq::empty()
    } else {
        proof {
            lemma_front_event_len(data);
        }
        let (ev, n) = front_event(data);
        (match ev {
            Some(e) => seq![e],
            None => Seq::empty(),
        }) + events_in(data.skip(n))
    }
}

/// The views of a list of events.
pub open spec fn event_views(events: Seq<Event>) -> Seq<EventView> {
    events.map_values(|e: Event| e@)
}

/// Reads every event of a buffer that is to be sent, in order.
pub fn midi_events(data: &[u8]) -> (events: Vec<Event>)
    ensures
        event_views(events@) == events_in(data@),
{
    let mut events: Vec<Event> = Vec::new();
    let mut offset: usize = 0;
    assert(data@.skip(0) =~= data@);
    while offset < data.len()
        invariant
            offset <= data@.len(),
            event_views(events@) + events_in(data@.skip(offset as int)) =~= events_in(data@),
        decreases data@.len() - offset,
    {
        let rest = slice_subrange(data, offset, data.len());
        assert(rest@ =~= data@.skip(offset as int));
        let (ev, consumed) = raw_midi_to_alsa_event(rest);
        let ghost before = event_views(events@);
        assert(rest@.skip(consumed as int) =~= data@.skip(offset + consumed));
        if let Some(e) = ev {
            events.push(e);
            assert(event_views(events@) =~= before.push(e@));
        }
        offset += consumed;
    }
    assert(data@.skip(offset as int) =~= Seq::<u8>::empty());
    events
}

/// `value` brought into `0..=16383`.
pub open spec fn bend_value(value: i32) -> int {
    if value < -8192 {
        0
    } else if value > 8191 {
        16383
    } else {
        value + 8192
    }
}

/// A status byte.
pub open spec fn status_byte(kind: int, channel: u8) -> u8 {
    (kind + channel % 16) as u8
}

/// The bytes of an event, if it has a raw MIDI form. Channels are taken
/// modulo 16 and data values modulo 128; a pitch bend is brought into range.
pub open spec fn event_bytes(e: EventView) -> Option<Seq<u8>> {
    match e {
        EventView::Noteon(d) => Some(
            seq![status_byte(0x90, d.channel), d.note % 128, d.velocity % 128],
        ),
        EventView::Noteoff(d) => Some(
            seq![status_byte(0x80, d.channel), d.note % 128, d.velocity % 128],
        ),
        EventView::Keypress(d) => Some(
            seq![status_byte(0xA0, d.channel), d.note % 128, d.velocity % 128],
        ),
        EventView::Controller(d) => Some(
            seq![
                status_byte(0xB0, d.channel),
                (d.param % 128) as u8,
                (d.value as int % 128) as u8,
            ],
        ),
        EventView::Pgmchange(d) => Some(
            seq![status_byte(0xC0, d.channel), (d.value as int % 128) as u8],
        ),
        EventView::Chanpress(d) => Some(
            seq![status_byte(0xD0, d.channel), (d.value as int % 128) as u8],
        ),
        EventView::Pitchbend(d) => Some(
            seq![
                status_byte(0xE0, d.channel),
                (bend_value(d.value) % 128) as u8,
                (bend_value(d.value) / 128) as u8,
            ],
        ),
        EventView::Sysex(bytes) => Some(bytes),
        EventView::Clock => Some(seq![0xF8]),
        EventView::Start => Some(seq![0xFA]),
        EventView::Continue => Some(seq![0xFB]),
        EventView::Stop => Some(seq![0xFC]),
        EventView::Sensing => Some(seq![0xFE]),
        EventView::Reset => Some(seq![0xFF]),
        EventView::TuneRequest => Some(seq![0xF6]),
        EventView::Other => None,
    }
}

/// `kind | (channel & 0x0F)`, the status byte of a channel message.
fn make_status(kind: u8, channel: u8) -> (status: u8)
    requires
        kind % 16 == 0,
    ensures
        status == status_byte(kind as int, channel),
{
    proof {
        lemma_low_nibble(channel);
        lemma_status(kind, channel & 0x0F);
    }
    kind | (channel & 0x0F)
}

/// The seven data bits of a byte.
fn data7(b: u8) -> (r: u8)
    ensures
        r == b % 128,
{
    proof {
        lemma_low7(b);
    }
    b & 0x7F
}

/// The seven low bits of a signed value.
fn value7(v: i32) -> (r: u8)
    ensures
        r == v as int % 128,
{
    proof {
        lemma_low7_signed(v);
    }
    (v & 0x7F) as u8
}

/// Writes an event as raw MIDI bytes, the way feedback from applications goes
/// back to the controller.
pub fn alsa_event_to_raw_midi(event: &Event) -> (r: Option<Vec<u8>>)
    requires
        event matches Event::Pitchbend(d) ==> d.value <= i32::MAX - 8192,
    ensures
        match r {
            Some(bytes) => event_bytes(event@) == Some(bytes@),
            None => event_bytes(event@) is None,
        },
{
    let bytes: Vec<u8> = match event {
        Event::Noteon(d) => vec![make_status(0x90, d.channel), data7(d.note), data7(d.velocity)],
        Event::Noteoff(d) => vec![make_status(0x80, d.channel), data7(d.note), data7(d.velocity)],
        Event::Keypress(d) => vec![make_status(0xA0, d.channel), data7(d.note), data7(d.velocity)],
        Event::Controller(d) => {
            proof {
                lemma_low7_wide(d.param);
            }
            vec![make_status(0xB0, d.channel), (d.param & 0x7F) as u8, value7(d.value)]
        },
        Event::Pgmchange(d) => vec![make_status(0xC0, d.channel), value7(d.value)],
        Event::Chanpress(d) => vec![make_status(0xD0, d.channel), value7(d.value)],
        Event::Pitchbend(d) => {
            let shifted: i32 = d.value + 8192;
            let unsigned: u16 = if shifted < 0 {
                0
            } else if shifted > 16383 {
                16383
            } else {
                shifted as u16
            };
            proof {
                lemma_bend_bytes(unsigned);
            }
            let lsb: u8 = (unsigned & 0x7F) as u8;
            let msb: u8 = ((unsigned >> 7) & 0x7F) as u8;
            vec![make_status(0xE0, d.channel), lsb, msb]
        },
        Event::Sysex(data) => vstd::slice::slice_to_vec(data.as_slice()),
        Event::Clock => vec![0xF8],
        Event::Start => vec![0xFA],
        Event::Continue => vec![0xFB],
        Event::Stop => vec![0xFC],
        Event::Sensing => vec![0xFE],
        Event::Reset => vec![0xFF],
        Event::TuneRequest => vec![0xF6],
        Event::Other => {
            return None;
        },
    };
    assert(event_bytes(event@)->0 =~= bytes@);
    Some(bytes)
}

/// An event whose data is in the range that MIDI gives it.
pub open spec fn wf_event(e: EventView) -> bool {
    match e {
        EventView::Noteoff(d) | EventView::Keypress(d) => {
            &&& d.channel < 16
            &&& d.note < 128
            &&& d.velocity < 128
            &&& d == note_data(d.channel, d.note, d.velocity)
        },
        EventView::Noteon(d) => {
            &&& d.channel < 16
            &&& d.note < 128
            &&& 0 < d.velocity < 128
            &&& d == note_data(d.channel, d.note, d.velocity)
        },
        EventView::Controller(d) => d.channel < 16 && d.param < 128 && 0 <= d.value < 128,
        EventView::Pgmchange(d) | EventView::Chanpress(d) => {
            d.channel < 16 && d.param == 0 && 0 <= d.value < 128
        },
        EventView::Pitchbend(d) => {
            d.channel < 16 && d.param == 0 && -8192 <= d.value <= 8191
        },
        EventView::Sysex(bytes) => {
            &&& bytes.len() >= 2
            &&& bytes[0] == 0xF0
            &&& bytes.last() == 0xF7
            &&& forall|i: int| 0 <= i < bytes.len() - 1 ==> bytes[i] != 0xF7
        },
        EventView::Other => false,
        _ => true,
    }
}

/// Reading gives back what was written: an event in range, written as bytes
/// and followed by anything, is read as that event and uses up its own bytes.
pub proof fn law_event_round_trip(e: EventView, rest: Seq<u8>)
    requires
        wf_event(e),
    ensures
        event_bytes(e) is Some,
        front_event(event_bytes(e)->0 + rest) == (Some(e), event_bytes(e)->0.len() as int),
{
    let bytes = event_bytes(e)->0;
    let data = bytes + rest;
    data.index_of_first_ensures(0xF7u8);
    if let EventView::Sysex(b) = e {
        assert(data[b.len() - 1] == 0xF7);
        assert(sysex_len(data) == b.len());
        assert(data.take(b.len() as int) =~= b);
    } else {
        assert(data[0] == bytes[0]);
        if bytes.len() > 1 {
            assert(data[1] == bytes[1]);
        }
        if bytes.len() > 2 {
            assert(data[2] == bytes[2]);
        }
    }
}

/// The bytes of several events, one after the other.
pub open spec fn stream_bytes(events: Seq<EventView>) -> Seq<u8>
    decreases events.len(),
{
    if events.len() == 0 {
        Seq::empty()
    } else {
        event_bytes(events[0])->0 + stream_bytes(events.drop_first())
    }
}

/// A stream of events in range is read back as exactly those events.
pub proof fn law_stream_round_trip(events: Seq<EventView>)
    requires
        forall|i: int| 0 <= i < events.len() ==> wf_event(#[trigger] events[i]),
    ensures
        events_in(stream_bytes(events)) == events,
    decreases events.len(),
{
    if events.len() > 0 {
        let tail = events.drop_first();
        law_stream_round_trip(tail);
        assert(wf_event(events[0]));
        law_event_round_trip(events[0], stream_bytes(tail));
        let data = stream_bytes(events);
        let n = event_bytes(events[0])->0.len() as int;
        lemma_front_event_len(data);
        assert(data.skip(n) =~= stream_bytes(tail));
        assert(events_in(data) =~= seq![events[0]] + tail);
        assert(events =~= seq![events[0]] + tail);
    }
}

/// Writing gives back what was read: a complete channel message with seven-bit
/// data, or a SysEx message, is written as the bytes it was read from. A Note
/// On with velocity 0 is the exception: it is read as a Note Off.
pub proof fn law_bytes_round_trip(data: Seq<u8>)
    requires
        data.len() > 0,
        data[0] == 0xF0 || {
            &&& 0x80 <= data[0] < 0xF0
            &&& data.len() >= channel_len(data[0])
            &&& forall|i: int| 1 <= i < channel_len(data[0]) ==> data[i] < 128
            &&& !(0x90 <= data[0] < 0xA0 && data[2] == 0)
        },
    ensures
        front_event(data).0 is Some,
        event_bytes(front_event(data).0->0) == Some(data.take(front_event(data).1)),
{
    let (ev, n) = front_event(data);
    let bytes = event_bytes(ev->0)->0;
    if data[0] != 0xF0 {
        assert(data[1] < 128);
        if n == 3 {
            assert(data[2] < 128);
        }
    }
    lemma_front_event_len(data);
    assert(bytes =~= data.take(n));
}

/// Every status byte of the system realtime messages is read as the event that MIDI
/// gives it, and uses up that one byte; the two undefined ones are no event.
pub proof fn law_realtime_bytes(data: &[u8], r: (Option<Event>, usize))
    requires
        call_ensures(raw_midi_to_alsa_event, (data,), r),
        data@.len() > 0,
        data@[0] >= 0xF8,
    ensures
        r.1 == 1,
        data@[0] == 0xF8 <==> r.0 == Some(Event::Clock),
        data@[0] == 0xFA <==> r.0 == Some(Event::Start),
        data@[0] == 0xFB <==> r.0 == Some(Event::Continue),
        data@[0] == 0xFC <==> r.0 == Some(Event::Stop),
        data@[0] == 0xFE <==> r.0 == Some(Event::Sensing),
        data@[0] == 0xFF <==> r.0 == Some(Event::Reset),
        data@[0] == 0xF9 || data@[0] == 0xFD <==> r.0 is None,
{
}

/// System common messages: only the tune request is an event. The others are passed
/// over with their data, or byte by byte where the data is cut off.
pub proof fn law_common_bytes(data: &[u8], r: (Option<Event>, usize))
    requires
        call_ensures(raw_midi_to_alsa_event, (data,), r),
        data@.len() > 0,
        0xF0 < data@[0] < 0xF8,
    ensures
        data@[0] == 0xF6 ==> r == (Some(Event::TuneRequest), 1usize),
        data@[0] != 0xF6 ==> r.0 is None,
        data@[0] == 0xF2 ==> r.1 == (if data@.len() >= 3 {
            3int
        } else {
            1int
        }),
        data@[0] == 0xF1 || data@[0] == 0xF3 ==> r.1 == (if data@.len() >= 2 {
            2int
        } else {
            1int
        }),
        data@[0] == 0xF4 || data@[0] == 0xF5 || data@[0] == 0xF7 ==> r.1 == 1,
{
}

/// A system exclusive message reaches up to its end byte and with it, or to the end
/// of the data, and is kept byte for byte.
pub proof fn law_sysex_bytes(data: &[u8], r: (Option<Event>, usize))
    requires
        call_ensures(raw_midi_to_alsa_event, (data,), r),
        data@.len() > 0,
        data@[0] == 0xF0,
    ensures
        r.0 matches Some(Event::Sysex(bytes)) && bytes@ == data@.take(r.1 as int),
        0 < r.1 <= data@.len(),
        data@[r.1 - 1] == 0xF7 || r.1 == data@.len(),
        forall|i: int| 0 <= i < r.1 - 1 ==> data@[i] != 0xF7,
{
    data@.index_of_first_ensures(0xF7u8);
}

/// A complete channel message is read as the event of its kind, on the channel of
/// its status byte and with its data. A Note On without velocity is a Note Off.
pub proof fn law_channel_bytes(data: &[u8], r: (Option<Event>, usize))
    requires
        call_ensures(raw_midi_to_alsa_event, (data,), r),
        data@.len() >= 3,
        0x80 <= data@[0] < 0xF0,
        data@[1] < 128,
        data@[2] < 128,
    ensures
        0x80 <= data@[0] < 0x90 ==> r.0 == Some(
            Event::Noteoff(
                EvNote {
                    channel: (data@[0] - 0x80) as u8,
                    note: data@[1],
                    velocity: data@[2],
                    off_velocity: 0,
                    duration: 0,
                },
            ),
        ),
        0x90 <= data@[0] < 0xA0 && data@[2] > 0 ==> r.0 == Some(
            Event::Noteon(
                EvNote {
                    channel: (data@[0] - 0x90) as u8,
                    note: data@[1],
                    velocity: data@[2],
                    off_velocity: 0,
                    duration: 0,
                },
            ),
        ),
        0x90 <= data@[0] < 0xA0 && data@[2] == 0 ==> r.0 == Some(
            Event::Noteoff(
                EvNote {
                    channel: (data@[0] - 0x90) as u8,
                    note: data@[1],
                    velocity: 0,
                    off_velocity: 0,
                    duration: 0,
                },
            ),
        ),
        0xA0 <= data@[0] < 0xB0 ==> r.0 == Some(
            Event::Keypress(
                EvNote {
                    channel: (data@[0] - 0xA0) as u8,
                    note: data@[1],
                    velocity: data@[2],
                    off_velocity: 0,
                    duration: 0,
                },
            ),
        ),
        0xB0 <= data@[0] < 0xC0 ==> r.0 == Some(
            Event::Controller(
                EvCtrl {
                    channel: (data@[0] - 0xB0) as u8,
                    param: data@[1] as u32,
                    value: data@[2] as i32,
                },
            ),
        ),
        0xC0 <= data@[0] < 0xD0 ==> r.0 == Some(
            Event::Pgmchange(
                EvCtrl { channel: (data@[0] - 0xC0) as u8, param: 0, value: data@[1] as i32 },
            ),
        ),
        0xD0 <= data@[0] < 0xE0 ==> r.0 == Some(
            Event::Chanpress(
                EvCtrl { channel: (data@[0] - 0xD0) as u8, param: 0, value: data@[1] as i32 },
            ),
        ),
        0xE0 <= data@[0] ==> (r.0 matches Some(Event::Pitchbend(d)) && d.channel == data@[0] - 0xE0
            && d.param == 0 && d.value == data@[1] + 128 * data@[2] - 8192),
        r.1 == (if 0xC0 <= data@[0] < 0xE0 {
            2int
        } else {
            3int
        }),
{
}

/// The top bit of a data byte is passed over: the message is read as if it were not
/// set. A message whose data is cut off, and a data byte without a status byte, is no
/// event and gives up one byte.
pub proof fn law_stray_bytes(data: &[u8], r: (Option<Event>, usize))
    requires
        call_ensures(raw_midi_to_alsa_event, (data,), r),
        data@.len() > 0,
    ensures
        data@[0] < 0x80 ==> r == (None::<Event>, 1usize),
        0x80 <= data@[0] < 0xF0 && data@.len() == 1 ==> r == (None::<Event>, 1usize),
        data@.len() == 2 && (0x80 <= data@[0] < 0xC0 || 0xE0 <= data@[0] < 0xF0) ==> r == (
            None::<Event>,
            1usize,
        ),
        data@.len() >= 2 && 0xC0 <= data@[0] < 0xD0 ==> (r.0 matches Some(Event::Pgmchange(d))
            && d.channel == data@[0] - 0xC0 && d.value == data@[1] % 128) && r.1 == 2,
        data@.len() >= 2 && 0xD0 <= data@[0] < 0xE0 ==> (r.0 matches Some(Event::Chanpress(d))
            && d.channel == data@[0] - 0xD0 && d.value == data@[1] % 128) && r.1 == 2,
        data@.len() >= 3 && 0x80 <= data@[0] < 0x90 ==> (r.0 matches Some(Event::Noteoff(d))
            && d.channel == data@[0] - 0x80 && d.note == data@[1] % 128 && d.velocity == data@[2]
            % 128),
        data@.len() >= 3 && 0x90 <= data@[0] < 0xA0 ==> match r.0 {
            Some(Event::Noteon(d)) => d.channel == data@[0] - 0x90 && d.note == data@[1] % 128
                && d.velocity == data@[2] % 128 && d.velocity > 0,
            Some(Event::Noteoff(d)) => d.channel == data@[0] - 0x90 && d.note == data@[1] % 128
                && d.velocity == data@[2] % 128 && d.velocity == 0,
            _ => false,
        },
        data@.len() >= 3 && 0xA0 <= data@[0] < 0xB0 ==> (r.0 matches Some(Event::Keypress(d))
            && d.channel == data@[0] - 0xA0 && d.note == data@[1] % 128 && d.velocity == data@[2]
            % 128),
        data@.len() >= 3 && 0xB0 <= data@[0] < 0xC0 ==> (r.0 matches Some(Event::Controller(d))
            && d.channel == data@[0] - 0xB0 && d.param == data@[1] % 128 && d.value == data@[2]
            % 128),
        data@.len() >= 3 && 0xE0 <= data@[0] < 0xF0 ==> (r.0 matches Some(Event::Pitchbend(d))
            && d.channel == data@[0] - 0xE0 && d.value == data@[1] % 128 + 128 * (data@[2] % 128)
            - 8192),
{
}

/// Every event is written with the bytes that MIDI gives it: the kind in the status
/// byte, the channel in its low half, seven bits of data each.
pub proof fn law_written_bytes(event: Event, r: Option<Vec<u8>>)
    requires
        call_ensures(alsa_event_to_raw_midi, (&event,), r),
    ensures
        match event {
            Event::Noteoff(d) => r matches Some(b) && b@ == seq![
                (0x80 + d.channel % 16) as u8,
                d.note % 128,
                d.velocity % 128,
            ],
            Event::Noteon(d) => r matches Some(b) && b@ == seq![
                (0x90 + d.channel % 16) as u8,
                d.note % 128,
                d.velocity % 128,
            ],
            Event::Keypress(d) => r matches Some(b) && b@ == seq![
                (0xA0 + d.channel % 16) as u8,
                d.note % 128,
                d.velocity % 128,
            ],
            Event::Controller(d) => r matches Some(b) && b@ == seq![
                (0xB0 + d.channel % 16) as u8,
                (d.param % 128) as u8,
                (d.value as int % 128) as u8,
            ],
            Event::Pgmchange(d) => r matches Some(b) && b@ == seq![
                (0xC0 + d.channel % 16) as u8,
                (d.value as int % 128) as u8,
            ],
            Event::Chanpress(d) => r matches Some(b) && b@ == seq![
                (0xD0 + d.channel % 16) as u8,
                (d.value as int % 128) as u8,
            ],
            Event::Pitchbend(d) => r matches Some(b) && b@.len() == 3 && b@[0] == 0xE0 + d.channel
                % 16 && b@[1] < 128 && b@[2] < 128 && b@[1] + 128 * b@[2] == (if d.value < -8192 {
                0int
            } else if d.value > 8191 {
                16383int
            } else {
                d.value + 8192
            }),
            Event::Sysex(bytes) => r matches Some(b) && b@ == bytes@,
            Event::Clock => r matches Some(b) && b@ == seq![0xF8u8],
            Event::Start => r matches Some(b) && b@ == seq![0xFAu8],
            Event::Continue => r matches Some(b) && b@ == seq![0xFBu8],
            Event::Stop => r matches Some(b) && b@ == seq![0xFCu8],
            Event::Sensing => r matches Some(b) && b@ == seq![0xFEu8],
            Event::Reset => r matches Some(b) && b@ == seq![0xFFu8],
            Event::TuneRequest => r matches Some(b) && b@ == seq![0xF6u8],
            Event::Other => r is None,
        },
{
}

/// A buffer gives its events one after the other: those of two parts, the first of
/// which ends with a whole event, are those of the first and then those of the
/// second.
pub proof fn law_events_in_order(front: Event, data: &[u8], rest: &[u8], n: usize, all: Vec<Event>, tail: Vec<Event>)
    requires
        call_ensures(raw_midi_to_alsa_event, (data,), (Some(front), n)),
        call_ensures(midi_events, (data,), all),
        rest@ == data@.skip(n as int),
        call_ensures(midi_events, (rest,), tail),
    ensures
        all@.len() == tail@.len() + 1,
        all@[0]@ == front@,
        forall|i: int| 0 <= i < tail@.len() ==> all@[i + 1]@ == (#[trigger] tail@[i])@,
{
    lemma_front_event_len(data@);
    assert(events_in(data@) =~= seq![front@] + events_in(rest@));
    assert(event_views(all@)[0] == all@[0]@);
    assert forall|i: int| 0 <= i < tail@.len() implies all@[i + 1]@ == (#[trigger] tail@[i])@ by {
        assert(event_views(all@)[i + 1] == event_views(tail@)[i]);
    }
}

} // verus!
