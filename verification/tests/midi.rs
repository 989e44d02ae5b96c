//! MIDI bytes, sequencer events and packets.
use midinet::alsa_event::{
    alsa_event_to_raw_midi, midi_events, raw_midi_to_alsa_event, EvCtrl, EvNote, Event,
};
use midinet::ump::{midi1_to_ump_messages, ump_to_midi1};

fn note(channel: u8, note: u8, velocity: u8) -> EvNote {
    EvNote { channel, note, velocity, off_velocity: 0, duration: 0 }
}

#[test]
fn note_on_is_read() {
    let (e, used) = raw_midi_to_alsa_event(&[0x93, 60, 100]);
    assert_eq!(e, Some(Event::Noteon(note(3, 60, 100))));
    assert_eq!(used, 3);
}

#[test]
fn note_on_with_velocity_zero_is_note_off() {
    let (e, used) = raw_midi_to_alsa_event(&[0x90, 60, 0]);
    assert!(matches!(e, Some(Event::Noteoff(_))));
    assert_eq!(used, 3);
}

#[test]
fn incomplete_message_loses_its_status_byte() {
    assert_eq!(raw_midi_to_alsa_event(&[0x90, 60]), (None, 1));
    assert_eq!(raw_midi_to_alsa_event(&[0xF2, 1]), (None, 1));
    assert_eq!(raw_midi_to_alsa_event(&[]), (None, 0));
}

#[test]
fn pitch_bend_is_centred_on_zero() {
    let (e, _) = raw_midi_to_alsa_event(&[0xE1, 0x00, 0x40]);
    assert_eq!(e, Some(Event::Pitchbend(EvCtrl { channel: 1, param: 0, value: 0 })));
    let back = alsa_event_to_raw_midi(&Event::Pitchbend(EvCtrl { channel: 1, param: 0, value: 8191 }));
    assert_eq!(back, Some(vec![0xE1, 0x7F, 0x7F]));
    let low = alsa_event_to_raw_midi(&Event::Pitchbend(EvCtrl { channel: 0, param: 0, value: -8192 }));
    assert_eq!(low, Some(vec![0xE0, 0, 0]));
}

#[test]
fn sysex_is_kept_whole() {
    let data = [0xF0, 1, 2, 3, 0xF7, 0x90, 60, 1];
    let (e, used) = raw_midi_to_alsa_event(&data);
    assert_eq!(e, Some(Event::Sysex(vec![0xF0, 1, 2, 3, 0xF7])));
    assert_eq!(used, 5);
}

#[test]
fn stream_of_events_is_read_in_order() {
    let data = [0x90, 60, 100, 0xF8, 0xB2, 7, 127, 0xC0, 5, 0x80, 60, 0];
    let events = midi_events(&data);
    assert_eq!(events.len(), 5);
    assert_eq!(events[0], Event::Noteon(note(0, 60, 100)));
    assert_eq!(events[1], Event::Clock);
    assert_eq!(events[2], Event::Controller(EvCtrl { channel: 2, param: 7, value: 127 }));
    assert_eq!(events[3], Event::Pgmchange(EvCtrl { channel: 0, param: 0, value: 5 }));
    assert!(matches!(events[4], Event::Noteoff(_)));
}

#[test]
fn bytes_without_status_are_skipped() {
    assert_eq!(midi_events(&[1, 2, 3, 0xFA]), vec![Event::Start]);
}

#[test]
fn written_events_are_read_back() {
    let messages: Vec<Vec<u8>> = vec![
        vec![0x85, 60, 64],
        vec![0x9F, 127, 1],
        vec![0xA1, 10, 20],
        vec![0xB0, 120, 0],
        vec![0xC7, 99],
        vec![0xD3, 42],
        vec![0xE4, 0x12, 0x34],
        vec![0xF0, 9, 8, 7, 0xF7],
        vec![0xF8],
        vec![0xFF],
    ];
    for m in messages.iter() {
        let (e, used) = raw_midi_to_alsa_event(m);
        assert_eq!(used, m.len());
        let e = e.unwrap();
        assert_eq!(alsa_event_to_raw_midi(&e), Some(m.clone()));
    }
}

#[test]
fn other_events_have_no_bytes() {
    assert_eq!(alsa_event_to_raw_midi(&Event::Other), None);
}

#[test]
fn channel_message_becomes_one_word() {
    assert_eq!(midi1_to_ump_messages(&[0x90, 60, 100]), vec![(1, 0x2090_3C64, 0)]);
    assert_eq!(midi1_to_ump_messages(&[0xC3, 5]), vec![(1, 0x20C3_0500, 0)]);
    assert_eq!(midi1_to_ump_messages(&[0xF8]), vec![(1, 0x10F8_0000, 0)]);
    assert_eq!(midi1_to_ump_messages(&[]), vec![]);
}

#[test]
fn incomplete_channel_message_ends_the_packets() {
    assert_eq!(midi1_to_ump_messages(&[0xF8, 0x90, 60]), vec![(1, 0x10F8_0000, 0)]);
}

#[test]
fn sysex_is_cut_into_packets() {
    let short = midi1_to_ump_messages(&[0xF0, 1, 2, 3, 0xF7]);
    assert_eq!(short, vec![(2, 0x3003_0000, 0x0102_0300)]);
    let long = midi1_to_ump_messages(&[0xF0, 1, 2, 3, 4, 5, 6, 7, 8, 0xF7]);
    assert_eq!(long, vec![(2, 0x3016_0506, 0x0102_0304), (2, 0x3032_0000, 0x0708_0000)]);
}

#[test]
fn sysex_comes_back_whole() {
    for n in 1..20u8 {
        let mut message = vec![0xF0];
        message.extend(1..=n);
        message.push(0xF7);
        let back: Vec<u8> = midi1_to_ump_messages(&message)
            .iter()
            .flat_map(|(words, w0, w1)| ump_to_midi1(*words, *w0, *w1))
            .collect();
        assert_eq!(back, message);
    }
    assert_eq!(ump_to_midi1(2, 0x3006_0506, 0x0102_0304), vec![0xF0, 1, 2, 3, 4, 5, 6, 0xF7]);
}

#[test]
fn packets_turn_back_into_bytes() {
    assert_eq!(ump_to_midi1(1, 0x2090_3C64, 0), vec![0x90, 60, 100]);
    assert_eq!(ump_to_midi1(1, 0x20C3_0500, 0), vec![0xC3, 5]);
    assert_eq!(ump_to_midi1(1, 0x10F8_0000, 0), vec![0xF8]);
    assert_eq!(ump_to_midi1(2, 0x3003_0000, 0x0102_0300), vec![0xF0, 1, 2, 3, 0xF7]);
    assert_eq!(ump_to_midi1(2, 0x4090_3C00, 0xFFFF_0000), vec![0x90, 60, 127]);
    assert_eq!(ump_to_midi1(1, 0x3003_0000, 0x0102_0300), Vec::<u8>::new());
    assert_eq!(ump_to_midi1(1, 0x5000_0000, 0), Vec::<u8>::new());
}
