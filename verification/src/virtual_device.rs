//! Virtual MIDI devices: what every device does, the choice of the backend and
//! the creation with a timeout.
use vstd::prelude::*;

use crate::text::same;

verus! {

/// Who a device pretends to be.
#[derive(Debug)]
pub struct DeviceIdentity {
    /// The name that applications see.
    pub name: String,
    pub manufacturer: String,
}

/// The name and the manufacturer of a device.
#[verifier::ext_equal]
pub struct DeviceIdentityView {
    pub name: Seq<char>,
    pub manufacturer: Seq<char>,
}

impl View for DeviceIdentity {
    type V = DeviceIdentityView;

    open spec fn view(&self) -> DeviceIdentityView {
        DeviceIdentityView { name: self.name@, manufacturer: self.manufacturer@ }
    }
}

impl DeviceIdentity {
    pub fn copy(&self) -> (r: Self)
        ensures
            r@ == self@,
    {
        DeviceIdentity { name: self.name.clone(), manufacturer: self.manufacturer.clone() }
    }
}

/// The controllers that silence a channel: All Sound Off and All Notes Off.
pub const ALL_SOUND_OFF: u8 = 120;

pub const ALL_NOTES_OFF: u8 = 123;

/// The message of a number that silences the device: two for every channel.
pub open spec fn off_message(i: int) -> Seq<u8> {
    seq![
        (0xB0 + i / 2) as u8,
        if i % 2 == 0 {
            ALL_SOUND_OFF
        } else {
            ALL_NOTES_OFF
        },
        0u8,
    ]
}

/// The messages that silence a device: All Sound Off and All Notes Off on all 16
/// channels.
pub open spec fn all_off() -> Seq<Seq<u8>> {
    Seq::new(32, |i: int| off_message(i))
}

/// The contents of several messages.
pub open spec fn messages_of(v: Seq<Vec<u8>>) -> Seq<Seq<u8>> {
    v.map_values(|m: Vec<u8>| m@)
}

/// Lists the messages that silence a device.
pub fn all_off_messages() -> (r: Vec<Vec<u8>>)
    ensures
        messages_of(r@) == all_off(),
{
    let mut r: Vec<Vec<u8>> = Vec::new();
    let mut i: u8 = 0;
    while i < 32
        invariant
            i <= 32,
            messages_of(r@) =~= all_off().take(i as int),
        decreases 32 - i,
    {
        let controller: u8 = if i % 2 == 0 {
            ALL_SOUND_OFF
        } else {
            ALL_NOTES_OFF
        };
        let message: Vec<u8> = vec![0xB0 + i / 2, controller, 0u8];
        assert(message@ =~= all_off()[i as int]);
        let ghost before = messages_of(r@);
        r.push(message);
        assert(messages_of(r@) =~= before.push(message@));
        i = i + 1;
    }
    assert(all_off().take(32) =~= all_off());
    r
}

/// How a call ended: well, or with the words of an error.
pub open spec fn outcome(r: Result<(), String>) -> Result<(), Seq<char>> {
    match r {
        Ok(_) => Ok(()),
        Err(e) => Err(e@),
    }
}

/// A message that a device was asked to send, and how that ended.
pub type Sending = (Seq<u8>, Result<(), Seq<char>>);

/// Messages that were all taken.
pub open spec fn all_taken(messages: Seq<Seq<u8>>) -> Seq<Sending> {
    messages.map_values(|m: Seq<u8>| (m, Ok::<(), Seq<char>>(())))
}

/// The sendings of a silencing whose message `k` failed with an error: the
/// messages before it were taken, and none was tried after it.
pub open spec fn stopped_at(k: int, error: Seq<char>) -> Seq<Sending> {
    all_taken(all_off().take(k)).push((all_off()[k], Err::<(), Seq<char>>(error)))
}

/// One message more that was taken.
pub proof fn lemma_one_more_taken(messages: Seq<Seq<u8>>, m: Seq<u8>)
    ensures
        all_taken(messages.push(m)) == all_taken(messages).push((m, Ok::<(), Seq<char>>(()))),
{
    assert(all_taken(messages.push(m)) =~= all_taken(messages).push(
        (m, Ok::<(), Seq<char>>(())),
    ));
}

/// A virtual MIDI device of some platform. The contracts hold of the devices of
/// this crate, which give the specification functions a meaning. Of a device that
/// ordinary Rust implements they are a promise of its author, which nothing
/// checks; the functions have a body here only so that it need not write them.
pub trait VirtualMidiDevice {
    /// The name of the device.
    closed spec fn named(&self) -> Seq<char> {
        arbitrary()
    }

    /// The messages that the device has taken for the applications.
    closed spec fn sent(&self) -> Seq<Seq<u8>> {
        arbitrary()
    }

    /// The messages that the device was asked to send, whether it took them or
    /// not.
    closed spec fn sendings(&self) -> Seq<Sending> {
        arbitrary()
    }

    /// How often the device was asked to close.
    closed spec fn closings(&self) -> nat {
        arbitrary()
    }

    /// The messages from applications that wait to be received.
    closed spec fn waiting(&self) -> Seq<Seq<u8>> {
        arbitrary()
    }

    /// Whether the device silences itself when it is let go.
    closed spec fn silences(&self) -> bool {
        arbitrary()
    }

    /// Whether the device takes every message and closes without an error. A
    /// device that does not say so promises nothing.
    open spec fn reliable(&self) -> bool {
        false
    }

    /// Creates the device with an identity.
    fn create(&mut self, identity: &DeviceIdentity) -> (r: Result<(), String>)
        ensures
            r is Ok ==> final(self).named() == identity.name@,
            final(self).sent() == old(self).sent(),
            final(self).sendings() == old(self).sendings(),
            final(self).closings() == old(self).closings(),
    ;

    /// Sends a message out through the device.
    fn send(&mut self, data: &[u8]) -> (r: Result<(), String>)
        ensures
            final(self).named() == old(self).named(),
            final(self).sent() == match r {
                Ok(_) => old(self).sent().push(data@),
                Err(_) => old(self).sent(),
            },
            final(self).sendings() == old(self).sendings().push((data@, outcome(r))),
            final(self).closings() == old(self).closings(),
            final(self).reliable() == old(self).reliable(),
            old(self).reliable() ==> r is Ok,
    ;

    /// Receives the oldest message of an application, if there is one.
    fn receive(&mut self) -> (r: Result<Option<Vec<u8>>, String>)
        ensures
            final(self).named() == old(self).named(),
            final(self).sent() == old(self).sent(),
            final(self).sendings() == old(self).sendings(),
            final(self).closings() == old(self).closings(),
            r matches Ok(Some(m)) ==> {
                &&& old(self).waiting().len() > 0
                &&& m@ == old(self).waiting()[0]
                &&& final(self).waiting() == old(self).waiting().skip(1)
            },
            r matches Ok(None) ==> {
                &&& old(self).waiting().len() == 0
                &&& final(self).waiting() == old(self).waiting()
            },
    ;

    /// Closes the device.
    fn close(&mut self) -> (r: Result<(), String>)
        ensures
            final(self).named() == old(self).named(),
            final(self).sent() == old(self).sent(),
            final(self).sendings() == old(self).sendings(),
            final(self).closings() == old(self).closings() + 1,
            old(self).reliable() ==> r is Ok,
    ;

    /// The name of the device as applications see it.
    fn device_name(&self) -> (r: &str)
        ensures
            r@ == self.named(),
    ;

    /// Sends All Sound Off and All Notes Off on all 16 channels. It stops at the
    /// first message that fails, and hands the error of that message back.
    fn send_all_off(&mut self) -> (r: Result<(), String>)
        ensures
            final(self).named() == old(self).named(),
            match r {
                Ok(_) => {
                    &&& final(self).sent() == old(self).sent() + all_off()
                    &&& final(self).sendings() == old(self).sendings() + all_taken(all_off())
                },
                Err(e) => exists|k: int|
                    {
                        &&& 0 <= k < 32
                        &&& final(self).sent() == old(self).sent() + all_off().take(k)
                        &&& final(self).sendings() == old(self).sendings() + #[trigger] stopped_at(
                            k,
                            e@,
                        )
                    },
            },
            final(self).closings() == old(self).closings(),
            final(self).reliable() == old(self).reliable(),
            old(self).reliable() ==> r is Ok,
    {
        let ghost name = self.named();
        let ghost before = self.sent();
        let ghost tried = self.sendings();
        let mut i: u8 = 0;
        assert(self.sent() =~= before + all_off().take(0));
        assert(self.sendings() =~= tried + all_taken(all_off().take(0)));
        while i < 32
            invariant
                0 <= i <= 32,
                name == old(self).named(),
                before == old(self).sent(),
                tried == old(self).sendings(),
                self.named() == name,
                self.sent() == before + all_off().take(i as int),
                self.sendings() == tried + all_taken(all_off().take(i as int)),
                self.closings() == old(self).closings(),
                self.reliable() == old(self).reliable(),
            decreases 32 - i,
        {
            let controller: u8 = if i % 2 == 0 {
                ALL_SOUND_OFF
            } else {
                ALL_NOTES_OFF
            };
            let message = [0xB0 + i / 2, controller, 0u8];
            let ghost k = i as int;
            proof {
                assert(message@ =~= all_off()[k]);
                assert(all_off().take(k + 1) =~= all_off().take(k).push(message@));
                lemma_one_more_taken(all_off().take(k), message@);
                assert(before + all_off().take(k + 1) =~= (before + all_off().take(k)).push(
                    message@,
                ));
                assert(tried + all_taken(all_off().take(k + 1)) =~= (tried + all_taken(
                    all_off().take(k),
                )).push((message@, Ok::<(), Seq<char>>(()))));
            }
            match self.send(message.as_slice()) {
                Ok(_) => {},
                Err(e) => {
                    assert(self.sendings() =~= tried + stopped_at(k, e@));
                    return Err(e);
                },
            }
            i = i + 1;
        }
        assert(all_off().take(32) =~= all_off());
        Ok(())
    }

    /// Silences the device and lets it go: a device that is not silent is not
    /// closed. It fails only where a message or the closing fails.
    fn silence_and_detach(&mut self) -> (r: Result<(), String>)
        ensures
            final(self).named() == old(self).named(),
            old(self).silences() ==> match r {
                Ok(_) => {
                    &&& final(self).sent() == old(self).sent() + all_off()
                    &&& final(self).sendings() == old(self).sendings() + all_taken(all_off())
                    &&& final(self).closings() == old(self).closings() + 1
                },
                Err(e) => {
                    ||| {
                        &&& final(self).sent() == old(self).sent() + all_off()
                        &&& final(self).sendings() == old(self).sendings() + all_taken(all_off())
                        &&& final(self).closings() == old(self).closings() + 1
                    }
                    ||| exists|k: int|
                        {
                            &&& 0 <= k < 32
                            &&& final(self).sent() == old(self).sent() + all_off().take(k)
                            &&& final(self).sendings() == old(self).sendings()
                                + #[trigger] stopped_at(k, e@)
                            &&& final(self).closings() == old(self).closings()
                        }
                },
            },
            old(self).reliable() ==> r is Ok,
    {
        match self.send_all_off() {
            Ok(_) => self.close(),
            Err(e) => Err(e),
        }
    }
}

/// The device of a platform without virtual MIDI: it takes everything and gives
/// nothing back.
pub struct StubVirtualDevice {
    name: String,
    sent: Ghost<Seq<Seq<u8>>>,
    closings: Ghost<nat>,
}

impl StubVirtualDevice {
    pub fn new() -> (r: Self)
        ensures
            r.named() == ""@,
            r.sent() == Seq::<Seq<u8>>::empty(),
            r.closings() == 0,
    {
        StubVirtualDevice { name: "".to_owned(), sent: Ghost(Seq::empty()), closings: Ghost(0) }
    }
}

impl VirtualMidiDevice for StubVirtualDevice {
    closed spec fn named(&self) -> Seq<char> {
        self.name@
    }

    closed spec fn sent(&self) -> Seq<Seq<u8>> {
        self.sent@
    }

    closed spec fn sendings(&self) -> Seq<Sending> {
        all_taken(self.sent@)
    }

    closed spec fn closings(&self) -> nat {
        self.closings@
    }

    open spec fn waiting(&self) -> Seq<Seq<u8>> {
        Seq::empty()
    }

    open spec fn silences(&self) -> bool {
        true
    }

    open spec fn reliable(&self) -> bool {
        true
    }

    fn create(&mut self, identity: &DeviceIdentity) -> (r: Result<(), String>)
        ensures
            r is Ok,
    {
        self.name = identity.name.clone();
        Ok(())
    }

    fn send(&mut self, data: &[u8]) -> (r: Result<(), String>)
        ensures
            r is Ok,
    {
        proof {
            lemma_one_more_taken(self.sent@, data@);
        }
        self.sent = Ghost(self.sent@.push(data@));
        Ok(())
    }

    fn receive(&mut self) -> (r: Result<Option<Vec<u8>>, String>)
        ensures
            r == Ok::<Option<Vec<u8>>, String>(None),
    {
        Ok(None)
    }

    fn close(&mut self) -> (r: Result<(), String>)
        ensures
            r is Ok,
    {
        self.closings = Ghost(self.closings@ + 1);
        Ok(())
    }

    fn device_name(&self) -> &str {
        self.name.as_str()
    }
}

/// Every channel is silenced twice, once for its sounds and once for its notes,
/// and nothing else is sent.
pub proof fn law_all_channels_silenced(channel: int)
    requires
        0 <= channel < 16,
    ensures
        all_off().contains(seq![(0xB0 + channel) as u8, ALL_SOUND_OFF, 0u8]),
        all_off().contains(seq![(0xB0 + channel) as u8, ALL_NOTES_OFF, 0u8]),
        all_off().len() == 32,
        forall|i: int, j: int|
            0 <= i < j < 32 ==> #[trigger] all_off()[i] != #[trigger] all_off()[j],
{
    assert(all_off()[2 * channel] =~= seq![(0xB0 + channel) as u8, ALL_SOUND_OFF, 0u8]);
    assert(all_off()[2 * channel + 1] =~= seq![(0xB0 + channel) as u8, ALL_NOTES_OFF, 0u8]);
    assert forall|i: int, j: int| 0 <= i < j < 32 implies #[trigger] all_off()[i]
        != #[trigger] all_off()[j] by {
        assert(all_off()[i][0] == (0xB0 + i / 2) as u8);
        assert(all_off()[j][0] == (0xB0 + j / 2) as u8);
        if i / 2 == j / 2 {
            assert(all_off()[i][1] != all_off()[j][1]);
        }
    }
}

// ── The choice of the device ──

/// What a virtual device is made with.
#[derive(Clone, Copy, Debug, PartialEq, Eq, Structural)]
pub enum DeviceKind {
    /// The sequencer of Linux.
    Alsa,
    /// The MIDI system of macOS.
    CoreMidi,
    /// One of the two backends of Windows.
    Windows,
    /// No virtual MIDI.
    Stub,
    /// The bridge process, which owns the device.
    Bridge,
}

/// The device of an operating system.
pub open spec fn platform_device(os: Seq<char>) -> DeviceKind {
    if os == "linux"@ {
        DeviceKind::Alsa
    } else if os == "macos"@ {
        DeviceKind::CoreMidi
    } else if os == "windows"@ {
        DeviceKind::Windows
    } else {
        DeviceKind::Stub
    }
}

/// Picks the device of an operating system.
pub fn create_virtual_device(os: &str) -> (r: DeviceKind)
    ensures
        r == platform_device(os@),
{
    if same(os, "linux") {
        DeviceKind::Alsa
    } else if same(os, "macos") {
        DeviceKind::CoreMidi
    } else if same(os, "windows") {
        DeviceKind::Windows
    } else {
        DeviceKind::Stub
    }
}

/// Picks the best device: the bridge where one is running, because its device
/// survives a restart of the client, else the device of the platform.
pub fn create_device(bridge_available: bool, os: &str) -> (r: DeviceKind)
    ensures
        r == (if bridge_available {
            DeviceKind::Bridge
        } else {
            platform_device(os@)
        }),
{
    if bridge_available {
        DeviceKind::Bridge
    } else {
        create_virtual_device(os)
    }
}

// ── Creation with a timeout ──

/// The time that one attempt to create a device may take.
pub const CREATE_TIMEOUT_SECS: u64 = 15;

/// The wait for a killed MIDI service to start again.
pub const SERVICE_RESTART_SECS: u64 = 3;

/// How an attempt to create a device went.
#[derive(Clone, Copy, Debug, PartialEq, Eq, Structural)]
pub enum CreateOutcome {
    Created,
    Failed,
    Panicked,
    TimedOut,
}

/// What to do about the device.
#[derive(Clone, Copy, Debug, PartialEq, Eq, Structural)]
pub enum CreateStep {
    /// Try to create the device.
    Attempt,
    /// Kill the hung MIDI service, remove the crash mark, wait and try again.
    ResetAndRetry,
    /// The created device is in use.
    UseCreated,
    /// A fresh device that was not created is in use.
    UseUncreated,
}

/// What follows an attempt: a hung first attempt is worth a second one, and
/// nothing else is.
pub open spec fn create_step(retried: bool, outcome: CreateOutcome) -> CreateStep {
    match outcome {
        CreateOutcome::Created => CreateStep::UseCreated,
        CreateOutcome::TimedOut if !retried => CreateStep::ResetAndRetry,
        _ => CreateStep::UseUncreated,
    }
}

/// The creation of a device, attempt by attempt.
#[derive(Clone, Copy, Debug, PartialEq, Eq, Structural)]
pub struct DeviceCreation {
    pub retried: bool,
}

impl DeviceCreation {
    pub fn new() -> (r: Self)
        ensures
            !r.retried,
    {
        DeviceCreation { retried: false }
    }

    /// Decides what follows an attempt.
    pub fn create_virtual_device_async(&mut self, outcome: CreateOutcome) -> (r: CreateStep)
        ensures
            r == create_step(old(self).retried, outcome),
            final(self).retried == (old(self).retried || r == CreateStep::ResetAndRetry),
    {
        match outcome {
            CreateOutcome::Created => CreateStep::UseCreated,
            CreateOutcome::TimedOut => {
                if self.retried {
                    CreateStep::UseUncreated
                } else {
                    self.retried = true;
                    CreateStep::ResetAndRetry
                }
            },
            _ => CreateStep::UseUncreated,
        }
    }
}

/// There are at most two attempts, and a created device is always used.
pub proof fn law_at_most_two_attempts(first: CreateOutcome, second: CreateOutcome)
    ensures
        create_step(true, second) != CreateStep::ResetAndRetry,
        create_step(false, first) == CreateStep::ResetAndRetry <==> first
            == CreateOutcome::TimedOut,
        create_step(false, first) == CreateStep::UseCreated <==> first == CreateOutcome::Created,
        create_step(true, second) == CreateStep::UseCreated <==> second == CreateOutcome::Created,
{
}

/// The messages that silence a device: on every channel first its sounds and then its
/// notes, by the controllers 120 and 123 with the value zero.
pub proof fn law_silencing_messages(r: Vec<Vec<u8>>, channel: int)
    requires
        call_ensures(all_off_messages, (), r),
        0 <= channel < 16,
    ensures
        r@.len() == 32,
        r@[2 * channel]@ == seq![(0xB0 + channel) as u8, 120u8, 0u8],
        r@[2 * channel + 1]@ == seq![(0xB0 + channel) as u8, 123u8, 0u8],
{
    let v = messages_of(r@);
    assert(v.len() == r@.len());
    assert(v[2 * channel] == r@[2 * channel]@);
    assert(v[2 * channel + 1] == r@[2 * channel + 1]@);
    assert(2 * channel / 2 == channel && (2 * channel + 1) / 2 == channel);
}

/// A copy of an identity says who the identity is.
pub proof fn law_copied_identity(d: DeviceIdentity, r: DeviceIdentity)
    requires
        call_ensures(DeviceIdentity::copy, (&d,), r),
    ensures
        r.name@ == d.name@,
        r.manufacturer@ == d.manufacturer@,
{
    assert(r@.name == d@.name && r@.manufacturer == d@.manufacturer);
}

/// Which device there is: the bridge where one is running, and otherwise that of the
/// operating system, if it is one of three.
pub proof fn law_device_of_a_platform(
    os: &str,
    own: DeviceKind,
    bridge: bool,
    best: DeviceKind,
)
    requires
        call_ensures(create_virtual_device, (os,), own),
        call_ensures(create_device, (bridge, os), best),
    ensures
        own is Alsa <==> os@ == "linux"@,
        own is CoreMidi <==> os@ == "macos"@,
        own is Windows <==> os@ == "windows"@,
        !(own is Bridge),
        bridge ==> best is Bridge,
        !bridge ==> best == own,
{
    reveal_strlit("linux");
    reveal_strlit("macos");
    reveal_strlit("windows");
    assert("linux"@[0] == 'l' && "macos"@[0] == 'm' && "windows"@[0] == 'w');
}

/// A device that was created is used; a first attempt that hung is made once more, and
/// whatever else fails is the end.
pub proof fn law_attempts(
    start: DeviceCreation,
    c: &mut DeviceCreation,
    first: CreateOutcome,
    r: CreateStep,
    d: &mut DeviceCreation,
    second: CreateOutcome,
    s: CreateStep,
)
    requires
        call_ensures(DeviceCreation::new, (), start),
        *old(c) == start,
        call_ensures(DeviceCreation::create_virtual_device_async, (c, first), r),
        *old(d) == *final(c),
        call_ensures(DeviceCreation::create_virtual_device_async, (d, second), s),
    ensures
        r is UseCreated <==> first is Created,
        r is ResetAndRetry <==> first is TimedOut,
        r is UseUncreated <==> first is Failed || first is Panicked,
        s is UseCreated <==> second is Created,
        r is ResetAndRetry ==> (s is UseUncreated <==> !(second is Created)),
{
}

/// A device without virtual MIDI takes the name that it is created with, takes every
/// message in order, has none to give, and is silenced and closed when it is let go.
pub proof fn law_stub_device(
    d: &mut StubVirtualDevice,
    identity: DeviceIdentity,
    a: Result<(), String>,
    e: &mut StubVirtualDevice,
    data: &[u8],
    b: Result<(), String>,
    f: &mut StubVirtualDevice,
    c: Result<(), String>,
)
    requires
        call_ensures(StubVirtualDevice::create, (d, &identity), a),
        *old(e) == *final(d),
        call_ensures(StubVirtualDevice::send, (e, data), b),
        *old(f) == *final(e),
        call_ensures(StubVirtualDevice::close, (f,), c),
    ensures
        a is Ok && b is Ok && c is Ok,
        final(d).named() == identity.name@,
        final(f).named() == identity.name@,
        final(f).sent() == old(d).sent().push(data@),
        final(f).closings() == old(d).closings() + 1,
{
}

} // verus!
