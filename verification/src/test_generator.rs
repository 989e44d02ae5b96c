//! The synthetic load test: its profiles, its MIDI pattern and its control.
use vstd::prelude::*;

use crate::bits::lemma_status;
use crate::fleet::{host_views, HostInfo, HostView};
use crate::text::{all_ascii, ascii_lower, lowercase, same, to_lowercase};

verus! {

/// The host id of test traffic; hosts have the ids 1 and 2.
pub const TEST_HOST_ID: u8 = 254;

/// How much the test sends, and of what.
#[derive(Clone, Copy, Debug, PartialEq, Eq, Structural)]
pub enum TestProfile {
    /// A controller sweep on one channel, 10 messages a second.
    Gentle,
    /// Sweeps and notes on four channels, 50 messages a second.
    Normal,
    /// Everything on all channels, 200 messages a second.
    Stress,
    /// From `Gentle` to `Stress` in a straight line.
    Ramp,
}

/// The name of a profile.
pub open spec fn profile_name(p: TestProfile) -> Seq<char> {
    match p {
        TestProfile::Gentle => "gentle"@,
        TestProfile::Normal => "normal"@,
        TestProfile::Stress => "stress"@,
        TestProfile::Ramp => "ramp"@,
    }
}

/// The profile of a name in lower case; a name that is not known is `Gentle`.
pub open spec fn profile_of(name: Seq<char>) -> TestProfile {
    if name == "normal"@ {
        TestProfile::Normal
    } else if name == "stress"@ {
        TestProfile::Stress
    } else if name == "ramp"@ {
        TestProfile::Ramp
    } else {
        TestProfile::Gentle
    }
}

impl TestProfile {
    /// The profile of a name in any case.
    pub fn from_str(s: &str) -> (r: Self)
        ensures
            r == profile_of(lowercase(s@)),
            all_ascii(s@) ==> r == profile_of(s@.map_values(|c: char| ascii_lower(c))),
    {
        let l = to_lowercase(s);
        let l = l.as_str();
        if same(l, "normal") {
            TestProfile::Normal
        } else if same(l, "stress") {
            TestProfile::Stress
        } else if same(l, "ramp") {
            TestProfile::Ramp
        } else {
            TestProfile::Gentle
        }
    }

    /// The name of the profile.
    pub fn as_str(&self) -> (r: &'static str)
        ensures
            r@ == profile_name(*self),
    {
        match self {
            TestProfile::Gentle => "gentle",
            TestProfile::Normal => "normal",
            TestProfile::Stress => "stress",
            TestProfile::Ramp => "ramp",
        }
    }
}

/// What a test run sends.
#[derive(Debug)]
pub struct TestConfig {
    pub profile: TestProfile,
    /// 0 runs until the test is stopped.
    pub duration_secs: u32,
    pub ramp_duration_secs: u32,
    pub multicast_group: String,
    pub data_port: u16,
}

/// What a test sends at a moment.
#[derive(Clone, Copy, Debug, PartialEq, Eq, Structural)]
pub struct TestRate {
    pub interval_us: u64,
    pub channels: u8,
    pub send_notes: bool,
    pub send_pitchbend: bool,
}

/// The rate of a profile. The rate of a ramp, which is interpolated between
/// `Gentle` and `Stress`, is given as it stands at the moment.
pub fn profile_params(profile: TestProfile, ramp: TestRate) -> (r: TestRate)
    ensures
        r == match profile {
            TestProfile::Gentle => TestRate {
                interval_us: 100_000,
                channels: 1,
                send_notes: false,
                send_pitchbend: false,
            },
            TestProfile::Normal => TestRate {
                interval_us: 20_000,
                channels: 4,
                send_notes: true,
                send_pitchbend: false,
            },
            TestProfile::Stress => TestRate {
                interval_us: 5_000,
                channels: 16,
                send_notes: true,
                send_pitchbend: true,
            },
            TestProfile::Ramp => ramp,
        },
{
    match profile {
        TestProfile::Gentle => TestRate {
            interval_us: 100_000,
            channels: 1,
            send_notes: false,
            send_pitchbend: false,
        },
        TestProfile::Normal => TestRate {
            interval_us: 20_000,
            channels: 4,
            send_notes: true,
            send_pitchbend: false,
        },
        TestProfile::Stress => TestRate {
            interval_us: 5_000,
            channels: 16,
            send_notes: true,
            send_pitchbend: true,
        },
        TestProfile::Ramp => ramp,
    }
}

/// Whether a run is over after a time.
pub fn duration_over(duration_secs: u32, elapsed_secs: u64) -> (r: bool)
    ensures
        r == (duration_secs > 0 && elapsed_secs >= duration_secs),
{
    duration_secs > 0 && elapsed_secs >= duration_secs as u64
}

// ── The pattern ──

/// Where the pattern stands.
#[derive(Clone, Copy, Debug, PartialEq, Eq, Structural)]
pub struct Pattern {
    pub cc_value: u8,
    /// Whether the sweep goes up.
    pub cc_ascending: bool,
    pub note_index: u8,
    pub channel_index: u8,
}

/// The pattern after one batch: the sweep takes a step or turns round, a note
/// was used if notes were sent, and the next channel follows.
pub open spec fn next_pattern(p: Pattern, sends_note: bool) -> Pattern {
    Pattern {
        cc_value: if p.cc_ascending {
            if p.cc_value >= 127 {
                p.cc_value
            } else {
                (p.cc_value + 1) as u8
            }
        } else {
            if p.cc_value == 0 {
                p.cc_value
            } else {
                (p.cc_value - 1) as u8
            }
        },
        cc_ascending: if p.cc_ascending {
            p.cc_value < 127
        } else {
            p.cc_value == 0
        },
        note_index: if sends_note {
            ((p.note_index + 1) % 256) as u8
        } else {
            p.note_index
        },
        channel_index: ((p.channel_index + 1) % 256) as u8,
    }
}

/// A controller value on a channel.
pub open spec fn cc_bytes(ch: u8, value: u8) -> Seq<u8> {
    seq![0xB0u8 | ch, 1u8, value]
}

/// A note that starts and ends.
pub open spec fn note_bytes(ch: u8, note: u8) -> Seq<u8> {
    seq![0x90u8 | ch, note, 100u8, 0x80u8 | ch, note, 0u8]
}

/// A pitch bend with only the upper seven bits.
pub open spec fn bend_bytes(ch: u8, msb: u8) -> Seq<u8> {
    seq![0xE0u8 | ch, 0u8, msb]
}

/// The bytes of one batch: a controller value, a note at every fifth tick if
/// notes are sent, and a pitch bend at every third if bends are.
pub open spec fn batch(p: Pattern, rate: TestRate, tick: u64) -> Seq<u8> {
    let ch = p.channel_index % rate.channels;
    cc_bytes(ch, p.cc_value) + (if rate.send_notes && tick % 5 == 0 {
        note_bytes(ch, (48 + p.note_index % 24) as u8)
    } else {
        Seq::empty()
    }) + (if rate.send_pitchbend && tick % 3 == 0 {
        bend_bytes(ch, (tick % 128) as u8)
    } else {
        Seq::empty()
    })
}

impl Pattern {
    pub fn new() -> (r: Self)
        ensures
            r == (Pattern {
                cc_value: 0,
                cc_ascending: true,
                note_index: 0,
                channel_index: 0,
            }),
    {
        Pattern { cc_value: 0, cc_ascending: true, note_index: 0, channel_index: 0 }
    }

    /// Makes one batch of MIDI bytes and moves the pattern on.
    pub fn generate_midi(&mut self, rate: &TestRate, tick: u64) -> (data: Vec<u8>)
        requires
            rate.channels > 0,
        ensures
            data@ == batch(*old(self), *rate, tick),
            *final(self) == next_pattern(*old(self), rate.send_notes && tick % 5 == 0),
    {
        let ch: u8 = self.channel_index % rate.channels;
        let mut data: Vec<u8> = Vec::new();
        data.push(0xB0 | ch);
        data.push(1);
        data.push(self.cc_value);
        if self.cc_ascending {
            if self.cc_value >= 127 {
                self.cc_ascending = false;
            } else {
                self.cc_value = self.cc_value + 1;
            }
        } else {
            if self.cc_value == 0 {
                self.cc_ascending = true;
            } else {
                self.cc_value = self.cc_value - 1;
            }
        }
        if rate.send_notes && tick % 5 == 0 {
            let note: u8 = 48 + self.note_index % 24;
            data.push(0x90 | ch);
            data.push(note);
            data.push(100);
            data.push(0x80 | ch);
            data.push(note);
            data.push(0);
            self.note_index = self.note_index.wrapping_add(1);
        }
        if rate.send_pitchbend && tick % 3 == 0 {
            let step: u8 = (tick % 128) as u8;
            data.push(0xE0 | ch);
            data.push(0);
            data.push(step);
        }
        self.channel_index = self.channel_index.wrapping_add(1);
        assert(data@ =~= batch(*old(self), *rate, tick));
        data
    }
}

/// The packets of a running test.
#[derive(Clone, Copy, Debug, PartialEq, Eq, Structural)]
pub struct TestStream {
    pub pattern: Pattern,
    pub sequence: u16,
    pub tick: u64,
}

impl TestStream {
    /// A stream before its first packet.
    pub fn new() -> (r: Self)
        ensures
            r.pattern == (Pattern {
                cc_value: 0,
                cc_ascending: true,
                note_index: 0,
                channel_index: 0,
            }),
            r.sequence == 0,
            r.tick == 0,
    {
        TestStream { pattern: Pattern::new(), sequence: 0, tick: 0 }
    }

    /// The sequence number and the MIDI bytes of the next packet. Sequence numbers
    /// and ticks start over behind their largest value.
    pub fn next_packet(&mut self, rate: &TestRate) -> (r: (u16, Vec<u8>))
        requires
            rate.channels > 0,
        ensures
            r.0 == old(self).sequence,
            r.1@ == batch(old(self).pattern, *rate, old(self).tick),
            final(self).pattern == next_pattern(
                old(self).pattern,
                rate.send_notes && old(self).tick % 5 == 0,
            ),
            final(self).sequence == if old(self).sequence == u16::MAX {
                0
            } else {
                old(self).sequence + 1
            },
            final(self).tick == if old(self).tick == u64::MAX {
                0
            } else {
                old(self).tick + 1
            },
    {
        let sequence: u16 = self.sequence;
        let data = self.pattern.generate_midi(rate, self.tick);
        self.sequence = self.sequence.wrapping_add(1);
        self.tick = self.tick.wrapping_add(1);
        (sequence, data)
    }
}

// ── Control ──

/// A request to start a test.
#[derive(Debug)]
pub struct StartTestBody {
    pub profile: String,
    pub duration_secs: u32,
    pub ramp_duration_secs: u32,
}

pub fn default_profile() -> (r: String)
    ensures
        r@ == "gentle"@,
{
    "gentle".to_owned()
}

pub fn default_ramp_duration() -> (r: u32)
    ensures
        r == 20,
{
    20
}

/// Where a test sends to: the first host that is known, or else the defaults
/// of the protocol.
pub open spec fn test_target(hosts: Seq<HostView>) -> (Seq<char>, u16) {
    if hosts.len() > 0 {
        (hosts[0].multicast_group, hosts[0].data_port)
    } else {
        ("239.69.83.1"@, 5004)
    }
}

/// Works out a test run, unless one is running already.
pub fn start_test(running: bool, hosts: &Vec<HostInfo>, body: &StartTestBody) -> (r: Result<
    TestConfig,
    String,
>)
    ensures
        match r {
            Ok(c) => {
                &&& !running
                &&& c.profile == profile_of(lowercase(body.profile@))
                &&& c.duration_secs == body.duration_secs
                &&& c.ramp_duration_secs == body.ramp_duration_secs
                &&& (c.multicast_group@, c.data_port) == test_target(host_views(hosts@))
            },
            Err(e) => running && e@ == "Test already running"@,
        },
{
    if running {
        return Err("Test already running".to_owned());
    }
    let (multicast_group, data_port) = if hosts.len() > 0 {
        assert(host_views(hosts@)[0] == hosts@[0]@);
        (hosts[0].multicast_group.clone(), hosts[0].data_port)
    } else {
        ("239.69.83.1".to_owned(), 5004)
    };
    Ok(
        TestConfig {
            profile: TestProfile::from_str(body.profile.as_str()),
            duration_secs: body.duration_secs,
            ramp_duration_secs: body.ramp_duration_secs,
            multicast_group,
            data_port,
        },
    )
}

/// How a test is going.
#[derive(Debug)]
pub struct TestState {
    pub running: bool,
    pub profile: String,
    /// Milliseconds since the epoch.
    pub started_at: Option<u64>,
    pub packets_sent: u64,
    pub duration_secs: u32,
}

impl TestState {
    /// The state before any test.
    pub fn new() -> (r: Self)
        ensures
            !r.running,
            r.profile@ == Seq::<char>::empty(),
            r.started_at is None,
            r.packets_sent == 0,
            r.duration_secs == 0,
    {
        TestState {
            running: false,
            profile: String::new(),
            started_at: None,
            packets_sent: 0,
            duration_secs: 0,
        }
    }

    /// A test starts.
    pub fn start(&mut self, config: &TestConfig, now_ms: u64)
        ensures
            final(self).running,
            final(self).profile@ == profile_name(config.profile),
            final(self).started_at == Some(now_ms),
            final(self).packets_sent == 0,
            final(self).duration_secs == config.duration_secs,
    {
        self.running = true;
        self.profile = config.profile.as_str().to_owned();
        self.started_at = Some(now_ms);
        self.packets_sent = 0;
        self.duration_secs = config.duration_secs;
    }

    /// A test ends.
    pub fn finish(&mut self, packets_sent: u64)
        ensures
            !final(self).running,
            final(self).packets_sent == packets_sent,
            final(self).profile == old(self).profile,
            final(self).started_at == old(self).started_at,
            final(self).duration_secs == old(self).duration_secs,
    {
        self.running = false;
        self.packets_sent = packets_sent;
    }

    /// The packets sent so far: of a running test the live count.
    pub fn packets(&self, live: u64) -> (n: u64)
        ensures
            n == if self.running { live } else { self.packets_sent },
    {
        if self.running {
            live
        } else {
            self.packets_sent
        }
    }

    /// The time since the start, in whole seconds.
    pub fn elapsed_secs(&self, now_ms: u64) -> (n: u64)
        ensures
            n == match self.started_at {
                Some(t) => if now_ms > t {
                    ((now_ms - t) / 1000) as u64
                } else {
                    0
                },
                None => 0,
            },
    {
        match self.started_at {
            Some(t) => now_ms.saturating_sub(t) / 1000,
            None => 0,
        }
    }
}

/// Whether there is a test to stop.
pub fn stop_test(cancellable: bool) -> (r: Result<(), String>)
    ensures
        match r {
            Ok(_) => cancellable,
            Err(e) => !cancellable && e@ == "No test running"@,
        },
{
    if cancellable {
        Ok(())
    } else {
        Err("No test running".to_owned())
    }
}

/// A client returns the time stamp of a packet.
#[derive(Clone, Copy, Debug)]
pub struct EchoBody {
    pub client_id: u32,
    pub timestamp_us: u64,
}

/// The time between a packet and its echo; both times are of one clock.
pub fn round_trip_us(body: &EchoBody, now_us: u64) -> (r: u64)
    ensures
        r == if now_us > body.timestamp_us { now_us - body.timestamp_us } else { 0 },
{
    now_us.saturating_sub(body.timestamp_us)
}

/// A request to let the test send or to hold it back.
#[derive(Clone, Copy, Debug)]
pub struct FireBody {
    pub enabled: bool,
}

// ── Laws ──

/// The name of a profile leads back to the profile.
pub proof fn law_profile_names(p: TestProfile)
    ensures
        profile_of(profile_name(p)) == p,
        all_ascii(profile_name(p)),
        profile_name(p).map_values(|c: char| ascii_lower(c)) == profile_name(p),
{
    reveal_strlit("gentle");
    reveal_strlit("normal");
    reveal_strlit("stress");
    reveal_strlit("ramp");
    assert("gentle"@[0] != "normal"@[0]);
    assert("gentle"@[0] != "stress"@[0]);
    assert("normal"@[0] != "stress"@[0]);
    assert("gentle"@.len() != "ramp"@.len());
    assert("normal"@.len() != "ramp"@.len());
    assert("stress"@.len() != "ramp"@.len());
    assert(profile_name(p).map_values(|c: char| ascii_lower(c)) =~= profile_name(p));
}

/// The sweep stays within the values of a controller, and each step changes
/// the value by one or turns round at an end.
pub proof fn law_sweep(p: Pattern, sends_note: bool)
    requires
        p.cc_value <= 127,
    ensures
        next_pattern(p, sends_note).cc_value <= 127,
        ({
            let q = next_pattern(p, sends_note);
            ||| q.cc_value == p.cc_value + 1 && p.cc_ascending && q.cc_ascending
            ||| q.cc_value == p.cc_value - 1 && !p.cc_ascending && !q.cc_ascending
            ||| q.cc_value == p.cc_value == 127 && p.cc_ascending && !q.cc_ascending
            ||| q.cc_value == p.cc_value == 0 && !p.cc_ascending && q.cc_ascending
        }),
{
}

/// Every message of a batch is a well-formed MIDI message: the batch is read
/// as channel messages with data below 128.
pub proof fn law_batch_is_midi(p: Pattern, rate: TestRate, tick: u64, i: int)
    requires
        p.cc_value <= 127,
        0 < rate.channels <= 16,
        0 <= i < batch(p, rate, tick).len(),
    ensures
        batch(p, rate, tick).len() % 3 == 0,
        i % 3 == 0 ==> 0x80 <= batch(p, rate, tick)[i] < 0xF0 && batch(p, rate, tick)[i] % 16
            < rate.channels,
        i % 3 != 0 ==> batch(p, rate, tick)[i] < 128,
{
    let ch = p.channel_index % rate.channels;
    assert(ch < rate.channels) by (nonlinear_arith)
        requires
            ch == p.channel_index % rate.channels,
            0 < rate.channels,
    ;
    lemma_status(0xB0, ch);
    lemma_status(0x90, ch);
    lemma_status(0x80, ch);
    lemma_status(0xE0, ch);
}

/// A batch starts with a value of the sweep on the channel whose turn it is; notes follow
/// at every fifth tick, on and off, and bends at every third, each where the rate has
/// them, and nothing else.
pub proof fn law_batch(p: &mut Pattern, rate: TestRate, tick: u64, data: Vec<u8>)
    requires
        call_ensures(Pattern::generate_midi, (p, &rate, tick), data),
        0 < rate.channels <= 16,
        old(p).cc_value <= 127,
    ensures
        ({
            let ch = old(p).channel_index as int % rate.channels as int;
            let notes = rate.send_notes && tick % 5 == 0;
            let bends = rate.send_pitchbend && tick % 3 == 0;
            let n = if notes {
                9int
            } else {
                3
            };
            &&& data@.len() == n + if bends {
                3int
            } else {
                0
            }
            &&& data@[0] == 0xB0 + ch && data@[1] == 1 && data@[2] == old(p).cc_value
            &&& notes ==> data@[3] == 0x90 + ch && data@[5] == 100 && data@[6] == 0x80 + ch
                && data@[8] == 0 && data@[4] == data@[7] && data@[4] == 48 + old(p).note_index % 24
            &&& bends ==> data@[n] == 0xE0 + ch && data@[n + 1] == 0 && data@[n + 2] == tick % 128
        }),
{
    let ch = (old(p).channel_index % rate.channels) as u8;
    lemma_status(0xB0, ch);
    lemma_status(0x90, ch);
    lemma_status(0x80, ch);
    lemma_status(0xE0, ch);
}

/// How the pattern goes on: the sweep goes up to 127 and down to 0 by single steps and
/// stays one batch where it turns, the channels take turns, and a note is used up by a
/// batch with notes alone.
pub proof fn law_pattern_goes_on(p: &mut Pattern, rate: TestRate, tick: u64, data: Vec<u8>)
    requires
        call_ensures(Pattern::generate_midi, (p, &rate, tick), data),
        rate.channels > 0,
        old(p).cc_value <= 127,
    ensures
        old(p).cc_ascending && old(p).cc_value < 127 ==> final(p).cc_value == old(p).cc_value + 1
            && final(p).cc_ascending,
        old(p).cc_ascending && old(p).cc_value == 127 ==> final(p).cc_value == 127 && !final(p).cc_ascending,
        !old(p).cc_ascending && old(p).cc_value > 0 ==> final(p).cc_value == old(p).cc_value - 1
            && !final(p).cc_ascending,
        !old(p).cc_ascending && old(p).cc_value == 0 ==> final(p).cc_value == 0 && final(p).cc_ascending,
        old(p).channel_index < 255 ==> final(p).channel_index == old(p).channel_index + 1,
        old(p).channel_index == 255 ==> final(p).channel_index == 0,
        rate.send_notes && tick % 5 == 0 && old(p).note_index < 255 ==> final(p).note_index == old(p).note_index + 1,
        rate.send_notes && tick % 5 == 0 && old(p).note_index == 255 ==> final(p).note_index == 0,
        !(rate.send_notes && tick % 5 == 0) ==> final(p).note_index == old(p).note_index,
{
}

/// The packets of a stream are numbered one after the other, each with the batch of its
/// tick; it starts at the bottom of the sweep with nothing sent.
pub proof fn law_packets_in_order(
    s: &mut TestStream,
    rate: TestRate,
    r: (u16, Vec<u8>),
    p: &mut Pattern,
    data: Vec<u8>,
    t: &mut TestStream,
    next: (u16, Vec<u8>),
    fresh: TestStream,
    start: Pattern,
)
    requires
        rate.channels > 0,
        call_ensures(TestStream::next_packet, (s, &rate), r),
        *old(p) == old(s).pattern,
        call_ensures(Pattern::generate_midi, (p, &rate, old(s).tick), data),
        *old(t) == *final(s),
        call_ensures(TestStream::next_packet, (t, &rate), next),
        call_ensures(TestStream::new, (), fresh),
        call_ensures(Pattern::new, (), start),
    ensures
        r.0 == old(s).sequence,
        r.1@ == data@,
        final(s).pattern == *final(p),
        r.0 < 65535 ==> next.0 == r.0 + 1,
        r.0 == 65535 ==> next.0 == 0,
        old(s).tick < u64::MAX ==> final(s).tick == old(s).tick + 1,
        old(s).tick == u64::MAX ==> final(s).tick == 0,
        fresh.sequence == 0 && fresh.tick == 0 && fresh.pattern == start,
        start.cc_value == 0 && start.cc_ascending && start.note_index == 0 && start.channel_index
            == 0,
{
}

/// The rates of the profiles: ten messages a second on one channel, fifty on four with
/// notes, two hundred on all with everything; a ramp has the rate that it was given.
pub proof fn law_rates(profile: TestProfile, ramp: TestRate, r: TestRate)
    requires
        call_ensures(profile_params, (profile, ramp), r),
    ensures
        profile is Gentle ==> 10 * r.interval_us == 1_000_000 && r.channels == 1 && !r.send_notes
            && !r.send_pitchbend,
        profile is Normal ==> 50 * r.interval_us == 1_000_000 && r.channels == 4 && r.send_notes
            && !r.send_pitchbend,
        profile is Stress ==> 200 * r.interval_us == 1_000_000 && r.channels == 16 && r.send_notes
            && r.send_pitchbend,
        profile is Ramp ==> r == ramp,
{
}

/// The name of a profile, in the case of the letters that it has, is the name of that
/// profile; what is no name is `Gentle`.
pub proof fn law_profile_by_name(p: TestProfile, name: &'static str, text: &str, r: TestProfile)
    requires
        call_ensures(TestProfile::as_str, (&p,), name),
        call_ensures(TestProfile::from_str, (text,), r),
        all_ascii(text@),
    ensures
        text@.map_values(|c: char| ascii_lower(c)) == name@ ==> r == p,
        !(r is Gentle) ==> text@.map_values(|c: char| ascii_lower(c)) == "normal"@
            || text@.map_values(|c: char| ascii_lower(c)) == "stress"@ || text@.map_values(
            |c: char| ascii_lower(c),
        ) == "ramp"@,
        p is Gentle ==> name@ == "gentle"@,
        p is Normal ==> name@ == "normal"@,
        p is Stress ==> name@ == "stress"@,
        p is Ramp ==> name@ == "ramp"@,
{
    law_profile_names(p);
}

/// A test is started unless one is running. It sends to the first host that is known, or
/// to the group and port of the primary, for as long as it was asked to.
pub proof fn law_test_starts(
    running: bool,
    hosts: Vec<HostInfo>,
    body: StartTestBody,
    r: Result<TestConfig, String>,
)
    requires
        call_ensures(start_test, (running, &hosts, &body), r),
    ensures
        r is Ok <==> !running,
        r matches Err(e) ==> e@ == "Test already running"@,
        r matches Ok(c) ==> {
            &&& c.duration_secs == body.duration_secs
            &&& c.ramp_duration_secs == body.ramp_duration_secs
            &&& hosts@.len() > 0 ==> c.multicast_group@ == hosts@[0].multicast_group@
                && c.data_port == hosts@[0].data_port
            &&& hosts@.len() == 0 ==> c.multicast_group@ == "239.69.83.1"@ && c.data_port == 5004
            &&& lowercase(body.profile@) == "normal"@ ==> c.profile is Normal
            &&& lowercase(body.profile@) == "stress"@ ==> c.profile is Stress
            &&& lowercase(body.profile@) == "ramp"@ ==> c.profile is Ramp
            &&& c.profile is Normal ==> lowercase(body.profile@) == "normal"@
            &&& c.profile is Stress ==> lowercase(body.profile@) == "stress"@
            &&& c.profile is Ramp ==> lowercase(body.profile@) == "ramp"@
        },
{
    law_profile_names(TestProfile::Normal);
    law_profile_names(TestProfile::Stress);
    law_profile_names(TestProfile::Ramp);
    if hosts@.len() > 0 {
        assert(host_views(hosts@)[0] == hosts@[0]@);
    }
}

/// The course of a test: it runs from its start to its end, counts live while it runs and
/// keeps the number that it ended with, and its seconds are those since its start.
pub proof fn law_test_course(
    s: &mut TestState,
    config: TestConfig,
    now_ms: u64,
    t: &mut TestState,
    sent: u64,
    during: TestState,
    after: TestState,
    live: u64,
    a: u64,
    b: u64,
    later: u64,
    secs: u64,
)
    requires
        call_ensures(TestState::start, (s, &config, now_ms), ()),
        during == *final(s),
        *old(t) == *final(s),
        call_ensures(TestState::finish, (t, sent), ()),
        after == *final(t),
        call_ensures(TestState::packets, (&during, live), a),
        call_ensures(TestState::packets, (&after, live), b),
        call_ensures(TestState::elapsed_secs, (&during, later), secs),
    ensures
        during.running && !after.running,
        a == live && b == sent,
        during.packets_sent == 0,
        during.started_at == Some(now_ms) && after.started_at == Some(now_ms),
        during.duration_secs == config.duration_secs && after.duration_secs
            == config.duration_secs,
        during.profile@ == profile_name(config.profile) && after.profile@ == during.profile@,
        later >= now_ms ==> secs == (later - now_ms) / 1000,
        later < now_ms ==> secs == 0,
{
}

/// Before any test nothing runs and no time has passed.
pub proof fn law_no_test_yet(
    s: TestState,
    now_ms: u64,
    secs: u64,
    profile: String,
    ramp: u32,
    cancellable: bool,
    r: Result<(), String>,
)
    requires
        call_ensures(TestState::new, (), s),
        call_ensures(TestState::elapsed_secs, (&s, now_ms), secs),
        call_ensures(default_profile, (), profile),
        call_ensures(default_ramp_duration, (), ramp),
        call_ensures(stop_test, (cancellable,), r),
    ensures
        !s.running && s.started_at is None && s.packets_sent == 0 && s.duration_secs == 0
            && s.profile@.len() == 0,
        secs == 0,
        profile@ == "gentle"@,
        ramp == 20,
        r is Ok <==> cancellable,
        r matches Err(e) ==> e@ == "No test running"@,
{
}

/// A run without a duration is never over, and another one once its seconds have passed;
/// an echo took as long as passed since its packet.
pub proof fn law_times(
    duration_secs: u32,
    elapsed_secs: u64,
    over: bool,
    body: EchoBody,
    trip: u64,
    r: u64,
)
    requires
        call_ensures(duration_over, (duration_secs, elapsed_secs), over),
        body.timestamp_us + trip <= u64::MAX,
        call_ensures(round_trip_us, (&body, (body.timestamp_us + trip) as u64), r),
    ensures
        duration_secs == 0 ==> !over,
        duration_secs > 0 ==> (over <==> elapsed_secs >= duration_secs),
        r == trip,
{
}

} // verus!
