//! What the metrics loop computes every second: the health score, the traffic
//! rates and the list of MIDI devices.
use vstd::prelude::*;

use crate::metrics_store::MetricsSample;
use crate::settings::MidiDeviceInfo;
use crate::status::{MidiMetrics, SystemStatus};
use crate::text::{
    cat, cat3, chars, contains, count_from, count_matches, decimal, find, find_chars, first_at,
    hex_digits_value, hex_value, lemma_digits_of_decimal, lemma_find_first, lemma_split_first,
    lines, lowercase, occurs_at, parse_decimal, parse_hex16, parsed, parsed_hex16, slice_text,
    split, str_contains, str_lines, str_split, str_starts_with, str_trim, str_words, texts,
    to_decimal, to_lowercase, trimmed, words,
};

verus! {

// ── Health score ──

/// How bad a measured value is.
#[derive(Clone, Copy, Debug, PartialEq, Eq, Structural)]
pub enum Band {
    Good,
    Fair,
    Poor,
    Bad,
}

/// What the health score is made of. The bands are:
/// latency p95 over 5, 10 and 20 ms; packet loss over 0.5, 1 and 5 percent;
/// processor temperature over 70 (fair) and 80 (poor) degrees.
#[derive(Clone, Copy, Debug, PartialEq, Eq, Structural)]
pub struct HealthInputs {
    pub latency: Band,
    pub packet_loss: Band,
    pub cpu_temp: Band,
    pub client_count: u32,
    pub midi_device_connected: bool,
    pub disk_free_mb: u64,
}

/// The penalty of latency or packet loss.
pub open spec fn band_penalty(b: Band) -> int {
    match b {
        Band::Good => 0,
        Band::Fair => 5,
        Band::Poor => 15,
        Band::Bad => 30,
    }
}

/// The penalty of the processor temperature.
pub open spec fn temp_penalty(b: Band) -> int {
    match b {
        Band::Good => 0,
        Band::Fair => 5,
        _ => 15,
    }
}

/// All penalties together.
pub open spec fn penalty(h: HealthInputs) -> int {
    band_penalty(h.latency) + band_penalty(h.packet_loss) + (if h.client_count == 0 {
        5int
    } else {
        0
    }) + temp_penalty(h.cpu_temp) + (if h.midi_device_connected {
        0int
    } else {
        20
    }) + (if h.disk_free_mb < 100 {
        5int
    } else {
        0
    })
}

/// The health score: 100 less the penalties, but not below 0.
pub fn health_score(h: &HealthInputs) -> (score: u8)
    ensures
        score == if penalty(*h) > 100 { 0 } else { 100 - penalty(*h) },
        score <= 100,
        score == 100 <==> penalty(*h) == 0,
{
    let latency: i32 = match h.latency {
        Band::Good => 0,
        Band::Fair => 5,
        Band::Poor => 15,
        Band::Bad => 30,
    };
    let loss: i32 = match h.packet_loss {
        Band::Good => 0,
        Band::Fair => 5,
        Band::Poor => 15,
        Band::Bad => 30,
    };
    let temp: i32 = match h.cpu_temp {
        Band::Good => 0,
        Band::Fair => 5,
        _ => 15,
    };
    let mut score: i32 = 100 - latency - loss;
    if h.client_count == 0 {
        score -= 5;
    }
    score -= temp;
    if !h.midi_device_connected {
        score -= 20;
    }
    if h.disk_free_mb < 100 {
        score -= 5;
    }
    if score < 0 {
        0
    } else {
        score as u8
    }
}

// ── One second ──

/// Bytes in a mebibyte.
pub const MEBIBYTE: u64 = 1_048_576;

/// The free space of several disks, each in whole mebibytes.
pub open spec fn free_mebibytes(disks: Seq<u64>) -> int
    decreases disks.len(),
{
    if disks.len() == 0 {
        0
    } else {
        free_mebibytes(disks.drop_last()) + disks.last() / MEBIBYTE
    }
}

proof fn lemma_free_grows(disks: Seq<u64>, i: int)
    requires
        0 <= i <= disks.len(),
    ensures
        0 <= free_mebibytes(disks.take(i)) <= free_mebibytes(disks),
    decreases disks.len() - i,
{
    if i < disks.len() {
        lemma_free_grows(disks, i + 1);
        assert(disks.take(i + 1).drop_last() =~= disks.take(i));
        lemma_free_not_negative(disks.take(i));
    } else {
        assert(disks.take(i) =~= disks);
        lemma_free_not_negative(disks);
    }
}

proof fn lemma_free_not_negative(disks: Seq<u64>)
    ensures
        0 <= free_mebibytes(disks),
    decreases disks.len(),
{
    if disks.len() > 0 {
        lemma_free_not_negative(disks.drop_last());
    }
}

/// Adds up the free space of the disks.
pub fn disk_free_mb(disks: &Vec<u64>) -> (r: u64)
    requires
        free_mebibytes(disks@) <= u64::MAX,
    ensures
        r == free_mebibytes(disks@),
{
    let mut r: u64 = 0;
    let mut i: usize = 0;
    while i < disks.len()
        invariant
            i <= disks@.len(),
            free_mebibytes(disks@) <= u64::MAX,
            r == free_mebibytes(disks@.take(i as int)),
        decreases disks@.len() - i,
    {
        proof {
            lemma_free_grows(disks@, i + 1);
            assert(disks@.take(i + 1).drop_last() =~= disks@.take(i as int));
        }
        r = r + disks[i] / MEBIBYTE;
        i += 1;
    }
    assert(disks@.take(i as int) =~= disks@);
    r
}

/// What is read off the machine and the clients in a second. The values that are
/// not whole are kept as the bits of their single precision form.
#[derive(Debug)]
pub struct Readings {
    /// Seconds since the epoch.
    pub now: u64,
    pub cpu_percent_bits: u32,
    pub cpu_temp_c_bits: u32,
    pub memory_used_bytes: u64,
    pub memory_total_bytes: u64,
    pub disk_free_mb: u64,
    pub packet_loss_percent_bits: u32,
    /// The mean latency of the clients, which stands for all percentiles.
    pub latency_ms_bits: u32,
    pub client_count: u32,
    pub latency: Band,
    pub packet_loss: Band,
    pub cpu_temp: Band,
    pub midi_device_connected: bool,
}

/// What the health score is made of in a second.
pub open spec fn health_inputs(r: Readings) -> HealthInputs {
    HealthInputs {
        latency: r.latency,
        packet_loss: r.packet_loss,
        cpu_temp: r.cpu_temp,
        client_count: r.client_count,
        midi_device_connected: r.midi_device_connected,
        disk_free_mb: r.disk_free_mb,
    }
}

/// Takes the readings of a second into the state of the machine, and makes a
/// sample of them and of the MIDI traffic.
pub fn collect(r: &Readings, system: &mut SystemStatus, midi: &MidiMetrics) -> (sample:
    MetricsSample)
    ensures
        *final(system) == (SystemStatus {
            health_score: final(system).health_score,
            cpu_percent_bits: r.cpu_percent_bits,
            cpu_temp_c_bits: r.cpu_temp_c_bits,
            memory_used_mb: r.memory_used_bytes / MEBIBYTE,
            memory_total_mb: r.memory_total_bytes / MEBIBYTE,
            disk_free_mb: r.disk_free_mb,
            network_tx_bytes: old(system).network_tx_bytes,
            network_rx_bytes: old(system).network_rx_bytes,
        }),
        final(system).health_score == (if penalty(health_inputs(*r)) > 100 {
            0
        } else {
            100 - penalty(health_inputs(*r))
        }),
        sample == (MetricsSample {
            timestamp: r.now,
            cpu_percent_bits: r.cpu_percent_bits,
            cpu_temp_c_bits: r.cpu_temp_c_bits,
            memory_used_mb: r.memory_used_bytes / MEBIBYTE,
            midi_messages_per_sec_bits: midi.messages_in_per_sec_bits,
            midi_bytes_per_sec: midi.bytes_in_per_sec,
            active_notes: midi.active_notes,
            packet_loss_percent_bits: r.packet_loss_percent_bits,
            latency_p50_ms_bits: r.latency_ms_bits,
            latency_p95_ms_bits: r.latency_ms_bits,
            latency_p99_ms_bits: r.latency_ms_bits,
            client_count: r.client_count,
            network_tx_bytes: old(system).network_tx_bytes,
            network_rx_bytes: old(system).network_rx_bytes,
        }),
{
    let memory_used_mb: u64 = r.memory_used_bytes / MEBIBYTE;
    system.health_score = health_score(
        &HealthInputs {
            latency: r.latency,
            packet_loss: r.packet_loss,
            cpu_temp: r.cpu_temp,
            client_count: r.client_count,
            midi_device_connected: r.midi_device_connected,
            disk_free_mb: r.disk_free_mb,
        },
    );
    system.cpu_percent_bits = r.cpu_percent_bits;
    system.cpu_temp_c_bits = r.cpu_temp_c_bits;
    system.memory_used_mb = memory_used_mb;
    system.memory_total_mb = r.memory_total_bytes / MEBIBYTE;
    system.disk_free_mb = r.disk_free_mb;
    MetricsSample {
        timestamp: r.now,
        cpu_percent_bits: r.cpu_percent_bits,
        cpu_temp_c_bits: r.cpu_temp_c_bits,
        memory_used_mb,
        midi_messages_per_sec_bits: midi.messages_in_per_sec_bits,
        midi_bytes_per_sec: midi.bytes_in_per_sec,
        active_notes: midi.active_notes,
        packet_loss_percent_bits: r.packet_loss_percent_bits,
        latency_p50_ms_bits: r.latency_ms_bits,
        latency_p95_ms_bits: r.latency_ms_bits,
        latency_p99_ms_bits: r.latency_ms_bits,
        client_count: r.client_count,
        network_tx_bytes: system.network_tx_bytes,
        network_rx_bytes: system.network_rx_bytes,
    }
}

/// Whether a sensor measures the temperature of the processor, by its name.
pub fn is_cpu_sensor(label: &str) -> (r: bool)
    ensures
        r == ({
            let l = lowercase(label@);
            contains(l, "cpu"@) || contains(l, "core"@) || contains(l, "soc"@)
        }),
{
    let l = to_lowercase(label);
    str_contains(l.as_str(), "cpu") || str_contains(l.as_str(), "core") || str_contains(
        l.as_str(),
        "soc",
    )
}

/// Whether a device is connected.
pub open spec fn some_connected(devices: Seq<MidiDeviceInfo>) -> bool {
    exists|i: int| 0 <= i < devices.len() && (#[trigger] devices[i]).connected
}

/// Whether any device is connected.
pub fn any_connected(devices: &Vec<MidiDeviceInfo>) -> (r: bool)
    ensures
        r == some_connected(devices@),
{
    let mut i: usize = 0;
    while i < devices.len()
        invariant
            i <= devices@.len(),
            forall|j: int| 0 <= j < i ==> !(#[trigger] devices@[j]).connected,
        decreases devices@.len() - i,
    {
        if devices[i].connected {
            return true;
        }
        i += 1;
    }
    false
}

// ── Traffic ──

/// Counters of the traffic since the last reset.
#[derive(Clone, Copy, Debug, PartialEq, Eq, Structural)]
pub struct TrafficCounters {
    pub midi_packets_in: u64,
    pub midi_packets_out: u64,
    pub osc_messages: u64,
    pub api_requests: u64,
}

impl TrafficCounters {
    pub fn new() -> (r: Self)
        ensures
            r == (TrafficCounters {
                midi_packets_in: 0,
                midi_packets_out: 0,
                osc_messages: 0,
                api_requests: 0,
            }),
    {
        TrafficCounters { midi_packets_in: 0, midi_packets_out: 0, osc_messages: 0, api_requests: 0 }
    }

    /// The counts since the last reset; all counters start from zero again.
    pub fn snapshot_and_reset(&mut self) -> (r: (u64, u64, u64, u64))
        ensures
            r == (
                old(self).midi_packets_in,
                old(self).midi_packets_out,
                old(self).osc_messages,
                old(self).api_requests,
            ),
            *final(self) == (TrafficCounters {
                midi_packets_in: 0,
                midi_packets_out: 0,
                osc_messages: 0,
                api_requests: 0,
            }),
    {
        let r = (
            self.midi_packets_in,
            self.midi_packets_out,
            self.osc_messages,
            self.api_requests,
        );
        self.midi_packets_in = 0;
        self.midi_packets_out = 0;
        self.osc_messages = 0;
        self.api_requests = 0;
        r
    }
}

/// The traffic of the last second.
#[derive(Clone, Copy, Debug, PartialEq, Eq, Structural)]
pub struct TrafficRates {
    pub midi_in_per_sec: u64,
    pub midi_out_per_sec: u64,
    pub osc_per_sec: u64,
    pub api_per_sec: u64,
    pub ws_connections: u32,
}

/// Takes the traffic of the last second out of the counters.
pub fn sample_traffic(counters: &mut TrafficCounters, ws_connections: u32) -> (r: TrafficRates)
    ensures
        r == (TrafficRates {
            midi_in_per_sec: old(counters).midi_packets_in,
            midi_out_per_sec: old(counters).midi_packets_out,
            osc_per_sec: old(counters).osc_messages,
            api_per_sec: old(counters).api_requests,
            ws_connections,
        }),
        final(counters).midi_packets_in == 0,
        final(counters).midi_packets_out == 0,
        final(counters).osc_messages == 0,
        final(counters).api_requests == 0,
{
    let (midi_in, midi_out, osc, api) = counters.snapshot_and_reset();
    TrafficRates {
        midi_in_per_sec: midi_in,
        midi_out_per_sec: midi_out,
        osc_per_sec: osc,
        api_per_sec: api,
        ws_connections,
    }
}

// ── MIDI devices ──

/// A sound card in `/proc/asound/cards`.
pub struct Card {
    pub number: u32,
    pub name: String,
    pub manufacturer: String,
}

pub struct CardView {
    pub number: u32,
    pub name: Seq<char>,
    pub manufacturer: Seq<char>,
}

impl View for Card {
    type V = CardView;

    open spec fn view(&self) -> CardView {
        CardView { number: self.number, name: self.name@, manufacturer: self.manufacturer@ }
    }
}

/// The card number at the front of a trimmed line that begins with a digit.
pub open spec fn card_number(line: Seq<char>) -> Option<u32> {
    if line.len() > 0 && '0' <= line[0] && line[0] <= '9' && words(line).len() > 0 {
        match parsed(words(line)[0], u32::MAX as int) {
            Some(n) => Some(n as u32),
            None => None,
        }
    } else {
        None
    }
}

/// The name behind `" - "` in a card's line, or `Card` and the number.
pub open spec fn card_name(line: Seq<char>, number: u32) -> Seq<char> {
    match find(line, " - "@) {
        Some(i) => trimmed(line.skip(i + 3)),
        None => "Card "@ + decimal(number as nat),
    }
}

/// Position of the first line from `i` on that begins with the number.
pub open spec fn card_line(all: Seq<Seq<char>>, number: u32, i: int) -> int
    decreases all.len() - i,
{
    if 0 <= i < all.len() && !decimal(number as nat).is_prefix_of(trimmed(all[i])) {
        card_line(all, number, i + 1)
    } else {
        i
    }
}

/// The text before `" at "`, or the whole text.
pub open spec fn before_at(line: Seq<char>) -> Seq<char> {
    match find(line, " at "@) {
        Some(i) => line.take(i),
        None => line,
    }
}

/// The manufacturer of a card: the line behind the card's line.
pub open spec fn card_manufacturer(all: Seq<Seq<char>>, number: u32) -> Seq<char> {
    let i = card_line(all, number, 0) + 1;
    if i < all.len() {
        before_at(trimmed(all[i]))
    } else {
        Seq::empty()
    }
}

/// The card of a line, if the line is the first one of a card.
pub open spec fn card_of_line(all: Seq<Seq<char>>, line: Seq<char>) -> Option<CardView> {
    match card_number(trimmed(line)) {
        Some(n) => Some(
            CardView {
                number: n,
                name: card_name(trimmed(line), n),
                manufacturer: card_manufacturer(all, n),
            },
        ),
        None => None,
    }
}

/// The cards of the first `k` lines.
pub open spec fn cards_of(all: Seq<Seq<char>>, k: int) -> Seq<CardView>
    decreases k,
{
    if k <= 0 || k > all.len() {
        Seq::empty()
    } else {
        match card_of_line(all, all[k - 1]) {
            Some(c) => cards_of(all, k - 1).push(c),
            None => cards_of(all, k - 1),
        }
    }
}

/// The views of several cards.
pub open spec fn card_views(v: Seq<Card>) -> Seq<CardView> {
    v.map_values(|c: Card| c@)
}

fn read_number(line: &str) -> (r: Option<u32>)
    ensures
        r == card_number(line@),
{
    let c = chars(line);
    if c.len() == 0 || c[0] < '0' || c[0] > '9' {
        return None;
    }
    let w = str_words(line);
    if w.len() == 0 {
        assert(words(line@).len() == 0);
        return None;
    }
    assert(words(line@)[0] == w@[0]@);
    match parse_decimal(w[0].as_str(), u32::MAX as u64) {
        Some(n) => {
            assert(n <= u32::MAX);
            Some(n as u32)
        },
        None => None,
    }
}

fn read_name(line: &str, number: u32) -> (r: String)
    ensures
        r@ == card_name(line@, number),
{
    let c = chars(line);
    let sep = chars(" - ");
    let len: usize = c.len();
    proof {
        reveal_strlit(" - ");
    }
    match find_chars(c.as_slice(), sep.as_slice()) {
        Some(i) => {
            let rest = slice_text(c.as_slice(), i + 3, len);
            str_trim(rest.as_str())
        },
        None => {
            let n = to_decimal(number as u64);
            cat("Card ", n.as_str())
        },
    }
}

fn read_manufacturer(all: &Vec<String>, number: u32) -> (r: String)
    ensures
        r@ == card_manufacturer(texts(all@), number),
{
    let n = to_decimal(number as u64);
    let len: usize = all.len();
    let mut i: usize = 0;
    while i < len
        invariant
            i <= len == all@.len(),
            n@ == decimal(number as nat),
            card_line(texts(all@), number, i as int) == card_line(texts(all@), number, 0),
        decreases len - i,
    {
        let t = str_trim(all[i].as_str());
        assert(texts(all@)[i as int] == all@[i as int]@);
        if str_starts_with(t.as_str(), n.as_str()) {
            if i + 1 >= len {
                return String::new();
            }
            assert(texts(all@)[i + 1] == all@[i + 1]@);
            let m = str_trim(all[i + 1].as_str());
            let c = chars(m.as_str());
            let at = chars(" at ");
            return match find_chars(c.as_slice(), at.as_slice()) {
                Some(k) => slice_text(c.as_slice(), 0, k),
                None => m,
            };
        }
        i += 1;
    }
    String::new()
}

/// The sound cards of `/proc/asound/cards`.
pub fn list_cards(cards: &str) -> (r: Vec<Card>)
    ensures
        card_views(r@) == cards_of(lines(cards@), lines(cards@).len() as int),
{
    let all = str_lines(cards);
    let mut r: Vec<Card> = Vec::new();
    let mut k: usize = 0;
    assert(card_views(r@) =~= Seq::<CardView>::empty());
    while k < all.len()
        invariant
            k <= all@.len(),
            texts(all@) == lines(cards@),
            card_views(r@) == cards_of(lines(cards@), k as int),
        decreases all@.len() - k,
    {
        let line = str_trim(all[k].as_str());
        assert(lines(cards@)[k as int] == all@[k as int]@);
        if let Some(number) = read_number(line.as_str()) {
            let card = Card {
                number,
                name: read_name(line.as_str(), number),
                manufacturer: read_manufacturer(&all, number),
            };
            let ghost before = card_views(r@);
            r.push(card);
            assert(card_views(r@) =~= before.push(card@));
        }
        k += 1;
    }
    assert(lines(cards@).len() == all@.len());
    r
}

/// Vendor and product of a USB id such as `09e8:0029`. A part that is no
/// number counts as 0, and so do both where the id has not two parts.
pub open spec fn usb_id(text: Seq<char>) -> (u16, u16) {
    let parts = split(trimmed(text), ':');
    if parts.len() == 2 {
        (
            match parsed_hex16(parts[0]) {
                Some(n) => n as u16,
                None => 0,
            },
            match parsed_hex16(parts[1]) {
                Some(n) => n as u16,
                None => 0,
            },
        )
    } else {
        (0, 0)
    }
}

/// Reads a USB id.
pub fn parse_usb_id(text: &str) -> (r: (u16, u16))
    ensures
        r == usb_id(text@),
{
    let t = str_trim(text);
    let parts = str_split(t.as_str(), ':');
    assert(split(trimmed(text@), ':').len() == parts@.len());
    if parts.len() != 2 {
        return (0, 0);
    }
    assert(split(trimmed(text@), ':')[0] == parts@[0]@);
    assert(split(trimmed(text@), ':')[1] == parts@[1]@);
    let vid: u16 = match parse_hex16(parts[0].as_str()) {
        Some(n) => n,
        None => 0,
    };
    let pid: u16 = match parse_hex16(parts[1].as_str()) {
        Some(n) => n,
        None => 0,
    };
    (vid, pid)
}

/// What the system says of a card besides its lines: the contents of its
/// `midi0` file, absent for a card without MIDI ports, and its USB id.
pub struct CardFiles {
    pub midi: Option<String>,
    pub usb_id: Option<String>,
}

pub struct DeviceView {
    pub id: Seq<char>,
    pub name: Seq<char>,
    pub manufacturer: Seq<char>,
    pub vendor_id: u16,
    pub product_id: u16,
    pub port_count_in: u8,
    pub port_count_out: u8,
    pub connected: bool,
}

impl View for MidiDeviceInfo {
    type V = DeviceView;

    open spec fn view(&self) -> DeviceView {
        DeviceView {
            id: self.id@,
            name: self.name@,
            manufacturer: self.manufacturer@,
            vendor_id: self.vendor_id,
            product_id: self.product_id,
            port_count_in: self.port_count_in,
            port_count_out: self.port_count_out,
            connected: self.connected,
        }
    }
}

/// The device of a card, if the card has MIDI ports. Ports are counted by the
/// words `Input` and `Output`, modulo 256.
pub open spec fn device_of_card(card: CardView, files: CardFiles) -> Option<DeviceView> {
    match files.midi {
        Some(midi) => Some(
            DeviceView {
                id: "hw:"@ + decimal(card.number as nat) + ",0,0"@,
                name: card.name,
                manufacturer: card.manufacturer,
                vendor_id: match files.usb_id {
                    Some(t) => usb_id(t@).0,
                    None => 0,
                },
                product_id: match files.usb_id {
                    Some(t) => usb_id(t@).1,
                    None => 0,
                },
                port_count_in: (count_from(midi@, "Input"@, 0) % 256) as u8,
                port_count_out: (count_from(midi@, "Output"@, 0) % 256) as u8,
                connected: true,
            },
        ),
        None => None,
    }
}

/// The devices of the first `k` cards.
pub open spec fn devices_of(cards: Seq<CardView>, files: Seq<CardFiles>, k: int) -> Seq<DeviceView>
    decreases k,
{
    if k <= 0 || k > cards.len() {
        Seq::empty()
    } else {
        match device_of_card(cards[k - 1], files[k - 1]) {
            Some(d) => devices_of(cards, files, k - 1).push(d),
            None => devices_of(cards, files, k - 1),
        }
    }
}

/// The views of several devices.
pub open spec fn device_views(v: Seq<MidiDeviceInfo>) -> Seq<DeviceView> {
    v.map_values(|d: MidiDeviceInfo| d@)
}

fn count_ports(text: &str, word: &str) -> (n: u8)
    requires
        word@.len() > 0,
    ensures
        n == count_from(text@, word@, 0) % 256,
{
    (count_matches(text, word) % 256) as u8
}

/// The MIDI devices: every card that has MIDI ports, in order.
pub fn scan_midi_devices(cards: &Vec<Card>, files: &Vec<CardFiles>) -> (r: Vec<MidiDeviceInfo>)
    requires
        cards@.len() == files@.len(),
    ensures
        device_views(r@) == devices_of(card_views(cards@), files@, cards@.len() as int),
{
    let mut r: Vec<MidiDeviceInfo> = Vec::new();
    let mut k: usize = 0;
    assert(device_views(r@) =~= Seq::<DeviceView>::empty());
    while k < cards.len()
        invariant
            k <= cards@.len() == files@.len(),
            device_views(r@) == devices_of(card_views(cards@), files@, k as int),
        decreases cards@.len() - k,
    {
        let card = &cards[k];
        assert(card_views(cards@)[k as int] == card@);
        if let Some(midi) = &files[k].midi {
            let (vendor_id, product_id) = match &files[k].usb_id {
                Some(t) => parse_usb_id(t.as_str()),
                None => (0, 0),
            };
            let number = to_decimal(card.number as u64);
            proof {
                reveal_strlit("Input");
                reveal_strlit("Output");
            }
            let device = MidiDeviceInfo {
                id: cat3("hw:", number.as_str(), ",0,0"),
                name: card.name.clone(),
                manufacturer: card.manufacturer.clone(),
                vendor_id,
                product_id,
                port_count_in: count_ports(midi.as_str(), "Input"),
                port_count_out: count_ports(midi.as_str(), "Output"),
                connected: true,
            };
            let ghost before = device_views(r@);
            r.push(device);
            assert(device_views(r@) =~= before.push(device@));
        }
        k += 1;
    }
    r
}

// ── What is promised ──

/// The health score: 100 points less 5, 15 or 30 each for latency and packet loss, 5 or
/// 15 for heat, 20 for an unplugged device, 5 each for no clients and a full disk, and
/// never below 0.
pub proof fn law_health_points(h: HealthInputs, score: u8)
    requires
        call_ensures(health_score, (&h,), score),
    ensures
        ({
            let latency = if h.latency == Band::Good {
                0int
            } else if h.latency == Band::Fair {
                5
            } else if h.latency == Band::Poor {
                15
            } else {
                30
            };
            let loss = if h.packet_loss == Band::Good {
                0int
            } else if h.packet_loss == Band::Fair {
                5
            } else if h.packet_loss == Band::Poor {
                15
            } else {
                30
            };
            let heat = if h.cpu_temp == Band::Good {
                0int
            } else if h.cpu_temp == Band::Fair {
                5
            } else {
                15
            };
            let device = if h.midi_device_connected {
                0int
            } else {
                20
            };
            let clients = if h.client_count == 0 {
                5int
            } else {
                0
            };
            let disk = if h.disk_free_mb < 100 {
                5int
            } else {
                0
            };
            let points = 100 - latency - loss - heat - device - clients - disk;
            score == (if points < 0 {
                0
            } else {
                points
            })
        }),
{
}

/// What is worse never scores better: unplugging the device costs 20 points, or all that
/// are left.
pub proof fn law_unplugged_device_costs(a: HealthInputs, b: HealthInputs, x: u8, y: u8)
    requires
        a.midi_device_connected,
        b == (HealthInputs { midi_device_connected: false, ..a }),
        call_ensures(health_score, (&a,), x),
        call_ensures(health_score, (&b,), y),
    ensures
        y == (if x >= 20 {
            x - 20
        } else {
            0int
        }),
{
}

/// One disk more adds its whole mebibytes.
pub proof fn law_disks_add_up(v: Vec<u64>, w: Vec<u64>, bytes: u64, a: u64, b: u64)
    requires
        w@ == v@.push(bytes),
        call_ensures(disk_free_mb, (&v,), a),
        call_ensures(disk_free_mb, (&w,), b),
    ensures
        b == a + bytes / 1_048_576,
        v@.len() == 0 ==> a == 0,
{
    assert(w@.drop_last() =~= v@);
}

/// A second's sample holds what was read in that second, memory in whole mebibytes, and
/// the state of the machine is the same with the health score of the readings.
pub proof fn law_collected_sample(
    r: Readings,
    system: &mut SystemStatus,
    midi: MidiMetrics,
    sample: MetricsSample,
    h: HealthInputs,
    score: u8,
)
    requires
        call_ensures(collect, (&r, system, &midi), sample),
        h == (HealthInputs {
            latency: r.latency,
            packet_loss: r.packet_loss,
            cpu_temp: r.cpu_temp,
            client_count: r.client_count,
            midi_device_connected: r.midi_device_connected,
            disk_free_mb: r.disk_free_mb,
        }),
        call_ensures(health_score, (&h,), score),
    ensures
        final(system).health_score == score,
        final(system).cpu_percent_bits == r.cpu_percent_bits,
        final(system).cpu_temp_c_bits == r.cpu_temp_c_bits,
        final(system).memory_used_mb == r.memory_used_bytes / 1_048_576,
        final(system).memory_total_mb == r.memory_total_bytes / 1_048_576,
        final(system).disk_free_mb == r.disk_free_mb,
        final(system).network_tx_bytes == old(system).network_tx_bytes,
        final(system).network_rx_bytes == old(system).network_rx_bytes,
        sample.timestamp == r.now,
        sample.cpu_percent_bits == r.cpu_percent_bits,
        sample.cpu_temp_c_bits == r.cpu_temp_c_bits,
        sample.memory_used_mb == r.memory_used_bytes / 1_048_576,
        sample.midi_messages_per_sec_bits == midi.messages_in_per_sec_bits,
        sample.midi_bytes_per_sec == midi.bytes_in_per_sec,
        sample.active_notes == midi.active_notes,
        sample.packet_loss_percent_bits == r.packet_loss_percent_bits,
        sample.latency_p50_ms_bits == r.latency_ms_bits,
        sample.latency_p95_ms_bits == r.latency_ms_bits,
        sample.latency_p99_ms_bits == r.latency_ms_bits,
        sample.client_count == r.client_count,
        sample.network_tx_bytes == old(system).network_tx_bytes,
        sample.network_rx_bytes == old(system).network_rx_bytes,
{
}

/// The traffic of a second is what was counted since the last one: the next sample
/// without traffic gives zeros.
pub proof fn law_traffic_of_a_second(
    t: &mut TrafficCounters,
    u: &mut TrafficCounters,
    ws: u32,
    r: TrafficRates,
    again: TrafficRates,
)
    requires
        call_ensures(sample_traffic, (t, ws), r),
        *old(u) == *final(t),
        call_ensures(sample_traffic, (u, ws), again),
    ensures
        r.midi_in_per_sec == old(t).midi_packets_in,
        r.midi_out_per_sec == old(t).midi_packets_out,
        r.osc_per_sec == old(t).osc_messages,
        r.api_per_sec == old(t).api_requests,
        r.ws_connections == ws,
        again.midi_in_per_sec == 0 && again.midi_out_per_sec == 0 && again.osc_per_sec == 0
            && again.api_per_sec == 0,
{
}

/// A sensor is one of the processor when its name speaks of it, in capitals or not.
pub proof fn law_processor_sensors(label: &str, r: bool)
    requires
        call_ensures(is_cpu_sensor, (label,), r),
    ensures
        r <==> contains(lowercase(label@), "cpu"@) || contains(lowercase(label@), "core"@)
            || contains(lowercase(label@), "soc"@),
{
}

/// The cards are those of the lines that begin with a number, in their order: one line
/// more with a number gives one card more, with the name behind the first dash of the
/// line.
pub proof fn law_cards_of_lines(all: Seq<Seq<char>>, k: int, n: u32)
    requires
        0 < k <= all.len(),
        trimmed(all[k - 1]).len() > 0,
    ensures
        ({
            let line = trimmed(all[k - 1]);
            let before = cards_of(all, k - 1);
            let after = cards_of(all, k);
            &&& !('0' <= line[0] && line[0] <= '9') ==> after == before
            &&& '0' <= line[0] && line[0] <= '9' && words(line).len() > 0 && words(line)[0]
                == decimal(n as nat) ==> {
                &&& after.len() == before.len() + 1
                &&& after.drop_last() == before
                &&& after.last().number == n
                &&& contains(line, " - "@) ==> exists|i: int|
                    #[trigger] first_at(line, " - "@, i) && after.last().name == trimmed(
                        line.skip(i + 3),
                    )
                &&& !contains(line, " - "@) ==> after.last().name == "Card "@ + decimal(n as nat)
            }
        }),
{
    let line = trimmed(all[k - 1]);
    lemma_digits_of_decimal(n as nat);
    assert(decimal(n as nat).skip(0) =~= decimal(n as nat));
    let before = cards_of(all, k - 1);
    let after = cards_of(all, k);
    if '0' <= line[0] && line[0] <= '9' && words(line).len() > 0 && words(line)[0] == decimal(
        n as nat,
    ) {
        assert(after.drop_last() =~= before);
        lemma_find_first(line, " - "@);
    }
}

/// The list of cards is that of all lines.
pub proof fn law_listed_cards(text: &str, r: Vec<Card>)
    requires
        call_ensures(list_cards, (text,), r),
    ensures
        r@.len() == cards_of(lines(text@), lines(text@).len() as int).len(),
        forall|i: int|
            0 <= i < r@.len() ==> {
                let c = cards_of(lines(text@), lines(text@).len() as int)[i];
                &&& (#[trigger] r@[i]).number == c.number
                &&& r@[i].name@ == c.name
                &&& r@[i].manufacturer@ == c.manufacturer
            },
        lines(text@).len() == 0 ==> r@.len() == 0,
{
    let v = card_views(r@);
    assert(v.len() == r@.len());
    assert forall|i: int| 0 <= i < r@.len() implies (#[trigger] r@[i])@ == v[i] by {}
}

/// The manufacturer of a card stands in the line behind the first one that begins with
/// the card's number, up to the word that tells where the card is plugged in.
pub proof fn law_manufacturer(all: Seq<Seq<char>>, number: u32, i: int)
    requires
        0 <= i < all.len(),
        decimal(number as nat).is_prefix_of(trimmed(all[i])),
        forall|j: int|
            0 <= j < i ==> !decimal(number as nat).is_prefix_of(trimmed(#[trigger] all[j])),
    ensures
        i + 1 == all.len() ==> card_manufacturer(all, number).len() == 0,
        i + 1 < all.len() ==> {
            let next = trimmed(all[i + 1]);
            &&& !contains(next, " at "@) ==> card_manufacturer(all, number) == next
            &&& contains(next, " at "@) ==> exists|k: int|
                #[trigger] first_at(next, " at "@, k) && card_manufacturer(all, number)
                    == next.take(k)
        },
{
    lemma_card_line(all, number, 0, i);
    if i + 1 < all.len() {
        lemma_find_first(trimmed(all[i + 1]), " at "@);
    }
}

proof fn lemma_card_line(all: Seq<Seq<char>>, number: u32, from: int, i: int)
    requires
        0 <= from <= i < all.len(),
        decimal(number as nat).is_prefix_of(trimmed(all[i])),
        forall|j: int|
            0 <= j < i ==> !decimal(number as nat).is_prefix_of(trimmed(#[trigger] all[j])),
    ensures
        card_line(all, number, from) == i,
    decreases i - from,
{
    if from < i {
        assert(!decimal(number as nat).is_prefix_of(trimmed(all[from])));
        lemma_card_line(all, number, from + 1, i);
    }
}

/// A USB id is two hexadecimal numbers with a colon between, vendor first.
pub proof fn law_usb_id(text: &str, vendor: Seq<char>, product: Seq<char>, r: (u16, u16))
    requires
        call_ensures(parse_usb_id, (text,), r),
        trimmed(text@) == vendor + seq![':'] + product,
        vendor.len() == 4 && product.len() == 4,
        forall|i: int| 0 <= i < 4 ==> hex_value(#[trigger] vendor[i]) is Some,
        forall|i: int| 0 <= i < 4 ==> hex_value(#[trigger] product[i]) is Some,
    ensures
        r.0 == 4096 * hex_value(vendor[0])->0 + 256 * hex_value(vendor[1])->0 + 16 * hex_value(
            vendor[2],
        )->0 + hex_value(vendor[3])->0,
        r.1 == 4096 * hex_value(product[0])->0 + 256 * hex_value(product[1])->0 + 16 * hex_value(
            product[2],
        )->0 + hex_value(product[3])->0,
{
    lemma_hex4(vendor);
    lemma_hex4(product);
    assert(!vendor.contains(':'));
    assert(!product.contains(':'));
    lemma_split_first(vendor, ':', product);
    lemma_split_first(product, ':', seq![]);
    assert(split(trimmed(text@), ':') =~= seq![vendor, product]);
    assert(vendor.skip(0) =~= vendor);
    assert(product.skip(0) =~= product);
}

proof fn lemma_hex4(s: Seq<char>)
    requires
        s.len() == 4,
        forall|i: int| 0 <= i < 4 ==> hex_value(#[trigger] s[i]) is Some,
    ensures
        hex_digits_value(s) == Some(
            4096 * hex_value(s[0])->0 + 256 * hex_value(s[1])->0 + 16 * hex_value(s[2])->0
                + hex_value(s[3])->0,
        ),
        0 <= hex_digits_value(s)->0 <= 65535,
        forall|i: int| 0 <= i < 4 ==> #[trigger] s[i] != ':' && s[i] != '+',
{
    let a = s.drop_last();
    let b = a.drop_last();
    let c = b.drop_last();
    assert(c.drop_last() =~= Seq::<char>::empty());
    assert(hex_digits_value(Seq::<char>::empty()) == Some(0int));
    assert(hex_value(s[0]) is Some && hex_value(s[1]) is Some);
    assert(hex_value(s[2]) is Some && hex_value(s[3]) is Some);
    assert(hex_digits_value(c) == Some(hex_value(s[0])->0));
    assert(hex_digits_value(b) == Some(16 * hex_value(s[0])->0 + hex_value(s[1])->0));
    assert(hex_digits_value(a) == Some(
        256 * hex_value(s[0])->0 + 16 * hex_value(s[1])->0 + hex_value(s[2])->0,
    ));
    assert(hex_digits_value(s) == Some(hex_digits_value(a)->0 * 16 + hex_value(s[3])->0));
}

/// Every card with MIDI ports is a device, in order, and no other card is: one card more
/// adds its device behind the others, by its number, name and maker.
pub proof fn law_devices_of_cards(
    cards: Vec<Card>,
    files: Vec<CardFiles>,
    front: Vec<Card>,
    front_files: Vec<CardFiles>,
    all: Vec<MidiDeviceInfo>,
    before: Vec<MidiDeviceInfo>,
)
    requires
        cards@.len() == files@.len(),
        cards@.len() > 0,
        front@ == cards@.drop_last(),
        front_files@ == files@.drop_last(),
        call_ensures(scan_midi_devices, (&cards, &files), all),
        call_ensures(scan_midi_devices, (&front, &front_files), before),
    ensures
        files@.last().midi is None ==> device_views(all@) == device_views(before@),
        files@.last().midi is Some ==> {
            let d = all@.last();
            &&& all@.len() == before@.len() + 1
            &&& device_views(all@).drop_last() == device_views(before@)
            &&& d.id@ == "hw:"@ + decimal(cards@.last().number as nat) + ",0,0"@
            &&& d.name@ == cards@.last().name@
            &&& d.manufacturer@ == cards@.last().manufacturer@
            &&& d.connected
            &&& files@.last().usb_id is None ==> d.vendor_id == 0 && d.product_id == 0
            &&& files@.last().usb_id matches Some(t) ==> (d.vendor_id, d.product_id) == usb_id(t@)
            &&& !contains(files@.last().midi->0@, "Input"@) ==> d.port_count_in == 0
            &&& !contains(files@.last().midi->0@, "Output"@) ==> d.port_count_out == 0
        },
{
    let n = cards@.len() as int;
    let c = card_views(cards@);
    let f = card_views(front@);
    assert(f =~= c.drop_last());
    lemma_devices_front(c, files@, f, front_files@, n - 1);
    assert(device_views(all@).len() == all@.len());
    assert(device_views(before@).len() == before@.len());
    if files@.last().midi is Some {
        assert(device_views(all@).drop_last() =~= device_views(before@));
        assert(device_views(all@).last() == all@.last()@);
        let midi = files@.last().midi->0@;
        reveal_strlit("Input");
        reveal_strlit("Output");
        lemma_no_match(midi, "Input"@, 0);
        lemma_no_match(midi, "Output"@, 0);
    }
}

proof fn lemma_devices_front(
    c: Seq<CardView>,
    files: Seq<CardFiles>,
    f: Seq<CardView>,
    front: Seq<CardFiles>,
    k: int,
)
    requires
        f == c.drop_last(),
        front == files.drop_last(),
        c.len() == files.len(),
        0 <= k < c.len(),
    ensures
        devices_of(c, files, k) == devices_of(f, front, k),
    decreases k,
{
    if k > 0 {
        lemma_devices_front(c, files, f, front, k - 1);
    }
}

proof fn lemma_no_match(s: Seq<char>, p: Seq<char>, i: int)
    requires
        0 <= i,
    ensures
        !contains(s, p) ==> count_from(s, p, i) == 0,
    decreases s.len() - i,
{
    if !contains(s, p) && i < s.len() && p.len() > 0 {
        assert(!occurs_at(s, p, i));
        lemma_no_match(s, p, i + 1);
    }
}

/// Ports are counted by their word: one that stands at the front counts, and the rest is
/// counted behind it.
pub proof fn law_ports_are_counted(text: &str, word: &str, n: usize)
    requires
        call_ensures(count_matches, (text, word), n),
        word@.len() > 0,
    ensures
        !contains(text@, word@) ==> n == 0,
        contains(text@, word@) ==> n > 0,
        occurs_at(text@, word@, 0) ==> n == 1 + count_from(text@, word@, word@.len() as int),
{
    lemma_no_match(text@, word@, 0);
    if contains(text@, word@) {
        let k = choose|k: int| occurs_at(text@, word@, k);
        lemma_some_match(text@, word@, 0, k);
    }
}

proof fn lemma_some_match(s: Seq<char>, p: Seq<char>, i: int, k: int)
    requires
        0 <= i <= k,
        occurs_at(s, p, k),
        p.len() > 0,
    ensures
        count_from(s, p, i) > 0,
    decreases k - i,
{
    if i < k && !occurs_at(s, p, i) {
        lemma_some_match(s, p, i + 1, k);
    }
}

/// A device is connected where one of the listed ones is; at the start nothing was counted.
pub proof fn law_connected_devices(
    devices: Vec<MidiDeviceInfo>,
    r: bool,
    i: int,
    t: TrafficCounters,
)
    requires
        call_ensures(any_connected, (&devices,), r),
        call_ensures(TrafficCounters::new, (), t),
    ensures
        0 <= i < devices@.len() && devices@[i].connected ==> r,
        (forall|k: int| 0 <= k < devices@.len() ==> !(#[trigger] devices@[k]).connected) ==> !r,
        t.midi_packets_in == 0 && t.midi_packets_out == 0 && t.osc_messages == 0 && t.api_requests
            == 0,
{
}

/// The ports of the device of a card are as many as the words for them in its file, modulo
/// 256.
pub proof fn law_ports_of_a_device(
    cards: Vec<Card>,
    files: Vec<CardFiles>,
    r: Vec<MidiDeviceInfo>,
    text: &str,
    input: &str,
    output: &str,
    x: usize,
    y: usize,
)
    requires
        cards@.len() == files@.len(),
        cards@.len() > 0,
        call_ensures(scan_midi_devices, (&cards, &files), r),
        files@.last().midi matches Some(t) && t@ == text@,
        input@ == "Input"@,
        output@ == "Output"@,
        call_ensures(count_matches, (text, input), x),
        call_ensures(count_matches, (text, output), y),
    ensures
        r@.len() > 0,
        r@.last().port_count_in == x % 256,
        r@.last().port_count_out == y % 256,
{
    let n = cards@.len() as int;
    let d = devices_of(card_views(cards@), files@, n);
    assert(device_views(r@).len() == r@.len());
    assert(card_views(cards@).len() == n);
    assert(d.len() > 0);
    assert(device_views(r@).last() == r@.last()@);
}

} // verus!
