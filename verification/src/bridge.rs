//! The bridge process, which owns the virtual device so that the device
//! survives a restart of the client, and the client's end of the connection.
use vstd::prelude::*;

use crate::text::{cat, same, text_opt, texts};
use crate::virtual_device::{DeviceIdentity, DeviceIdentityView};

verus! {

/// The kinds of frames between the client and the bridge.
#[derive(Clone, Copy, Debug, PartialEq, Eq, Structural)]
pub enum FrameType {
    Identity,
    Ack,
    SendMidi,
    FeedbackMidi,
    Heartbeat,
    Status,
}

/// The name of a kind of frame.
pub open spec fn frame_name(t: FrameType) -> Seq<char> {
    match t {
        FrameType::Identity => "Identity"@,
        FrameType::Ack => "Ack"@,
        FrameType::SendMidi => "SendMidi"@,
        FrameType::FeedbackMidi => "FeedbackMidi"@,
        FrameType::Heartbeat => "Heartbeat"@,
        FrameType::Status => "Status"@,
    }
}

fn name_of_frame(t: FrameType) -> (r: &'static str)
    ensures
        r@ == frame_name(t),
{
    match t {
        FrameType::Identity => "Identity",
        FrameType::Ack => "Ack",
        FrameType::SendMidi => "SendMidi",
        FrameType::FeedbackMidi => "FeedbackMidi",
        FrameType::Heartbeat => "Heartbeat",
        FrameType::Status => "Status",
    }
}

/// The bridge's answer to an identity.
#[derive(Debug)]
pub struct AckPayload {
    /// Whether the device was created for this client.
    pub created: bool,
    pub device_name: String,
}

/// Where the bridge listens on an operating system.
pub fn bridge_socket_path(windows: bool) -> (r: String)
    ensures
        r@ == (if windows {
            "\\\\.\\pipe\\midinet-bridge"@
        } else {
            "/tmp/midinet-bridge.sock"@
        }),
{
    if windows {
        "\\\\.\\pipe\\midinet-bridge".to_owned()
    } else {
        "/tmp/midinet-bridge.sock".to_owned()
    }
}

// ── The client's end ──

/// The time without a message after which the client sends a heartbeat.
pub const HEARTBEAT_INTERVAL_MS: u64 = 2000;

/// The client's connection to the bridge. Times are in milliseconds of a clock
/// that does not go back.
#[derive(Debug)]
pub struct BridgeVirtualDevice {
    pub socket_path: String,
    pub name: String,
    pub connected: bool,
    pub last_send: u64,
}

/// What came in when the client looked for a frame.
#[derive(Debug)]
pub enum FrameRead {
    Frame(FrameType, Vec<u8>),
    Nothing,
    Failed,
}

/// What the client gets out of a frame: feedback and nothing else.
pub open spec fn feedback_of(frame: FrameRead) -> Option<Vec<u8>> {
    match frame {
        FrameRead::Frame(FrameType::FeedbackMidi, payload) => Some(payload),
        _ => None,
    }
}

impl BridgeVirtualDevice {
    /// A device that is not connected.
    pub fn new(socket_path: &str, now: u64) -> (r: Self)
        ensures
            r.socket_path@ == socket_path@,
            r.name@ == ""@,
            !r.connected,
            r.last_send == now,
    {
        BridgeVirtualDevice {
            socket_path: socket_path.to_owned(),
            name: "".to_owned(),
            connected: false,
            last_send: now,
        }
    }

    /// Takes the name of the identity that goes to the bridge.
    pub fn start(&mut self, identity: &DeviceIdentity)
        ensures
            final(self).name@ == identity.name@,
            final(self).socket_path == old(self).socket_path,
            final(self).connected == old(self).connected,
            final(self).last_send == old(self).last_send,
    {
        self.name = identity.name.clone();
    }

    /// Reads the kind of the bridge's answer: only an acknowledgement will do.
    pub fn check_ack(header: Option<FrameType>) -> (r: Result<(), String>)
        ensures
            match header {
                None => r matches Err(e) && e@ == "Invalid ack header from bridge"@,
                Some(FrameType::Ack) => r is Ok,
                Some(t) => r matches Err(e) && e@ == "Expected Ack from bridge, got "@
                    + frame_name(t),
            },
    {
        match header {
            None => Err("Invalid ack header from bridge".to_owned()),
            Some(FrameType::Ack) => Ok(()),
            Some(t) => Err(cat("Expected Ack from bridge, got ", name_of_frame(t))),
        }
    }

    /// Takes in the bridge's answer and keeps the connection if it was read.
    pub fn create(&mut self, ack: Result<AckPayload, String>) -> (r: Result<(), String>)
        ensures
            match ack {
                Ok(_) => r is Ok && *final(self) == (BridgeVirtualDevice {
                    connected: true,
                    ..*old(self)
                }),
                Err(e) => r == Err::<(), String>(e) && *final(self) == *old(self),
            },
    {
        match ack {
            Ok(_) => {
                self.connected = true;
                Ok(())
            },
            Err(e) => Err(e),
        }
    }

    /// Whether a message can go to the bridge.
    pub fn send(&self) -> (r: Result<FrameType, String>)
        ensures
            match r {
                Ok(t) => self.connected && t == FrameType::SendMidi,
                Err(e) => !self.connected && e@ == "Not connected to bridge"@,
            },
    {
        if self.connected {
            Ok(FrameType::SendMidi)
        } else {
            Err("Not connected to bridge".to_owned())
        }
    }

    /// Notes that a message has gone to the bridge.
    pub fn message_sent(&mut self, now: u64)
        ensures
            *final(self) == (BridgeVirtualDevice { last_send: now, ..*old(self) }),
    {
        self.last_send = now;
    }

    /// Whether a heartbeat is due before the client looks for a frame. It counts
    /// as sent whether or not it arrives.
    pub fn heartbeat_due(&mut self, now: u64) -> (r: bool)
        ensures
            r == (old(self).connected && now - old(self).last_send >= HEARTBEAT_INTERVAL_MS),
            *final(self) == (if r {
                BridgeVirtualDevice { last_send: now, ..*old(self) }
            } else {
                *old(self)
            }),
    {
        if self.connected && now.saturating_sub(self.last_send) >= HEARTBEAT_INTERVAL_MS {
            self.last_send = now;
            true
        } else {
            false
        }
    }

    /// Takes in what the connection brought: feedback for the caller. A failure
    /// ends the connection and is no error of the device.
    pub fn receive(&mut self, frame: FrameRead) -> (r: Option<Vec<u8>>)
        ensures
            r == (if old(self).connected {
                feedback_of(frame)
            } else {
                None
            }),
            *final(self) == (if frame is Failed {
                BridgeVirtualDevice { connected: false, ..*old(self) }
            } else {
                *old(self)
            }),
    {
        match frame {
            FrameRead::Frame(t, payload) => {
                if self.connected && t == FrameType::FeedbackMidi {
                    Some(payload)
                } else {
                    None
                }
            },
            FrameRead::Nothing => None,
            FrameRead::Failed => {
                self.connected = false;
                None
            },
        }
    }

    /// Ends the connection. The bridge silences the device and keeps it.
    pub fn close(&mut self)
        ensures
            *final(self) == (BridgeVirtualDevice { connected: false, ..*old(self) }),
    {
        self.connected = false;
    }

    /// Lets the device go, which is to end the connection.
    pub fn silence_and_detach(&mut self)
        ensures
            *final(self) == (BridgeVirtualDevice { connected: false, ..*old(self) }),
    {
        self.close();
    }

    /// The name of the device.
    pub fn device_name(&self) -> (r: &str)
        ensures
            r@ == self.name@,
    {
        self.name.as_str()
    }
}

// ── The bridge process ──

/// The time without a heartbeat after which a silent client counts as gone.
pub const CLIENT_TIMEOUT_MS: u64 = 10_000;

/// What the bridge holds: the device by its name, the identity that it was
/// given last, and whether a client is connected.
#[derive(Debug)]
pub struct BridgeState {
    pub device: Option<String>,
    pub identity: Option<DeviceIdentity>,
    pub client_connected: bool,
}

/// The contents of the bridge's state.
#[verifier::ext_equal]
pub struct BridgeStateView {
    pub device: Option<Seq<char>>,
    pub identity: Option<DeviceIdentityView>,
    pub client_connected: bool,
}

impl View for BridgeState {
    type V = BridgeStateView;

    open spec fn view(&self) -> BridgeStateView {
        BridgeStateView {
            device: text_opt(self.device),
            identity: match self.identity {
                Some(i) => Some(i@),
                None => None,
            },
            client_connected: self.client_connected,
        }
    }
}

/// What a client's session does next.
#[derive(Debug)]
pub enum SessionStep {
    /// Create a device with the identity.
    CreateDevice(DeviceIdentity),
    /// Acknowledge the identity.
    SendAck(AckPayload),
    /// Read the next frame.
    ReadFrame,
    /// Hand a message to the device, then read the next frame.
    SendToDevice(Vec<u8>),
    /// The session is over; the device, if there is one, is silenced.
    End { silence: bool },
}

/// What a session brings while it runs.
#[derive(Debug)]
pub enum SessionEvent {
    /// No frame has come for a while.
    ReadTimedOut,
    /// The client is gone, or its frames cannot be read.
    ReadFailed,
    /// A message for the device.
    SendMidi(Vec<u8>),
    Heartbeat,
    /// An identity that replaces the one of the device, or one that could not be
    /// read.
    Identity(Option<DeviceIdentity>),
    /// A frame that a client does not send.
    Other,
}

/// The state of a session: when the client last sent a heartbeat.
#[derive(Clone, Copy, Debug, PartialEq, Eq, Structural)]
pub struct ClientSession {
    pub last_heartbeat: u64,
}

/// The first frame of a client: only an identity will do.
pub fn read_identity(header: Option<FrameType>) -> (r: Result<(), String>)
    ensures
        match header {
            None => r matches Err(e) && e@ == "Invalid identity frame header"@,
            Some(FrameType::Identity) => r is Ok,
            Some(t) => r matches Err(e) && e@ == "Expected Identity frame, got "@ + frame_name(t),
        },
{
    match header {
        None => Err("Invalid identity frame header".to_owned()),
        Some(FrameType::Identity) => Ok(()),
        Some(t) => Err(cat("Expected Identity frame, got ", name_of_frame(t))),
    }
}

/// Whether the bridge's device already has a name.
pub open spec fn has_device(s: BridgeStateView, name: Seq<char>) -> bool {
    s.device == Some(name)
}

/// Whether an event ends a session.
pub open spec fn ends(last_heartbeat: u64, event: SessionEvent, now: u64) -> bool {
    match event {
        SessionEvent::ReadFailed => true,
        SessionEvent::ReadTimedOut => now - last_heartbeat > CLIENT_TIMEOUT_MS,
        _ => false,
    }
}

impl BridgeState {
    /// A bridge without a device.
    pub fn new() -> (r: Self)
        ensures
            r@ == (BridgeStateView { device: None, identity: None, client_connected: false }),
    {
        BridgeState { device: None, identity: None, client_connected: false }
    }

    /// Takes a client in.
    pub fn client_accepted(&mut self)
        ensures
            final(self)@ == (BridgeStateView { client_connected: true, ..old(self)@ }),
    {
        self.client_connected = true;
    }

    /// Takes in a client's identity: a device of the same name is used again,
    /// else one has to be created. Without an identity the session is over.
    pub fn ensure_device(&mut self, identity: Option<DeviceIdentity>) -> (r: SessionStep)
        ensures
            match identity {
                None => r == (SessionStep::End { silence: false }) && final(self)@ == (
                BridgeStateView { client_connected: false, ..old(self)@ }),
                Some(id) => if has_device(old(self)@, id.name@) {
                    (r matches SessionStep::SendAck(ack) && !ack.created && ack.device_name@
                        == id.name@) && final(self)@ == (BridgeStateView {
                        identity: Some(id@),
                        ..old(self)@
                    })
                } else {
                    r == SessionStep::CreateDevice(id) && final(self)@ == old(self)@
                },
            },
    {
        let id = match identity {
            Some(id) => id,
            None => {
                self.client_connected = false;
                return SessionStep::End { silence: false };
            },
        };
        let known = match &self.device {
            Some(name) => same(name.as_str(), id.name.as_str()),
            None => false,
        };
        if known {
            let device_name = id.name.clone();
            self.identity = Some(id);
            SessionStep::SendAck(AckPayload { created: false, device_name })
        } else {
            SessionStep::CreateDevice(id)
        }
    }

    /// Takes in whether the device was created. A device that could not be
    /// created leaves the old one, and the client is acknowledged all the same.
    pub fn device_created(&mut self, id: DeviceIdentity, created: bool) -> (r: SessionStep)
        ensures
            r matches SessionStep::SendAck(ack) && ack.created == created && ack.device_name@
                == id.name@,
            final(self)@ == (if created {
                BridgeStateView {
                    device: Some(id.name@),
                    identity: Some(id@),
                    client_connected: old(self)@.client_connected,
                }
            } else {
                old(self)@
            }),
    {
        let device_name = id.name.clone();
        if created {
            self.device = Some(id.name.clone());
            self.identity = Some(id);
        }
        SessionStep::SendAck(AckPayload { created, device_name })
    }

    /// Takes in whether the acknowledgement went out and feedback can flow back.
    /// A session that did not get so far has sent nothing, so nothing is
    /// silenced.
    pub fn handshake_finished(&mut self, complete: bool) -> (r: SessionStep)
        ensures
            r == (if complete {
                SessionStep::ReadFrame
            } else {
                SessionStep::End { silence: false }
            }),
            final(self)@ == (BridgeStateView {
                client_connected: old(self)@.client_connected && complete,
                ..old(self)@
            }),
    {
        if complete {
            SessionStep::ReadFrame
        } else {
            self.client_connected = false;
            SessionStep::End { silence: false }
        }
    }

    /// Takes in what a running session brings.
    pub fn handle_client(
        &mut self,
        session: &mut ClientSession,
        event: SessionEvent,
        now: u64,
    ) -> (r: SessionStep)
        ensures
            r == (if ends(old(session).last_heartbeat, event, now) {
                SessionStep::End { silence: old(self).device is Some }
            } else {
                match event {
                    SessionEvent::SendMidi(data) if old(self).device is Some =>
                        SessionStep::SendToDevice(data),
                    _ => SessionStep::ReadFrame,
                }
            }),
            final(self)@ == after_event(old(self)@, old(session).last_heartbeat, event, now),
            final(session).last_heartbeat == (if event is Heartbeat {
                now
            } else {
                old(session).last_heartbeat
            }),
    {
        let has_device = self.device.is_some();
        match event {
            SessionEvent::ReadFailed => {
                self.client_connected = false;
                SessionStep::End { silence: has_device }
            },
            SessionEvent::ReadTimedOut => {
                if now.saturating_sub(session.last_heartbeat) > CLIENT_TIMEOUT_MS {
                    self.client_connected = false;
                    SessionStep::End { silence: has_device }
                } else {
                    SessionStep::ReadFrame
                }
            },
            SessionEvent::SendMidi(data) => {
                if has_device {
                    SessionStep::SendToDevice(data)
                } else {
                    SessionStep::ReadFrame
                }
            },
            SessionEvent::Heartbeat => {
                session.last_heartbeat = now;
                SessionStep::ReadFrame
            },
            SessionEvent::Identity(id) => {
                match id {
                    Some(id) => {
                        self.identity = Some(id);
                    },
                    None => {},
                }
                SessionStep::ReadFrame
            },
            SessionEvent::Other => SessionStep::ReadFrame,
        }
    }
}

/// The bridge's state after an event of a running session.
pub open spec fn after_event(
    s: BridgeStateView,
    last_heartbeat: u64,
    event: SessionEvent,
    now: u64,
) -> BridgeStateView {
    BridgeStateView {
        identity: match event {
            SessionEvent::Identity(Some(id)) => Some(id@),
            _ => s.identity,
        },
        client_connected: s.client_connected && !ends(last_heartbeat, event, now),
        ..s
    }
}

/// Nothing that a session brings takes the device away, not even its end: a
/// client that comes back with the same name finds its device.
pub proof fn law_device_survives(
    s: BridgeStateView,
    last_heartbeat: u64,
    event: SessionEvent,
    now: u64,
    name: Seq<char>,
)
    ensures
        after_event(s, last_heartbeat, event, now).device == s.device,
        has_device(s, name) ==> has_device(after_event(s, last_heartbeat, event, now), name),
        event is ReadFailed ==> !after_event(s, last_heartbeat, event, now).client_connected,
{
}

/// The file for the log: the argument behind the first `--log-file`.
pub open spec fn log_file_of(args: Seq<Seq<char>>, from: int) -> Option<Seq<char>>
    decreases args.len() - from,
{
    if from < 0 || from >= args.len() {
        None
    } else if args[from] == "--log-file"@ {
        if from + 1 < args.len() {
            Some(args[from + 1])
        } else {
            None
        }
    } else {
        log_file_of(args, from + 1)
    }
}

/// Finds the file for the log among the arguments of the program.
pub fn log_file(args: &Vec<String>) -> (r: Option<String>)
    ensures
        text_opt(r) == log_file_of(texts(args@), 0),
{
    let mut i: usize = 0;
    let len: usize = args.len();
    while i < len
        invariant
            len == args@.len(),
            i <= len,
            log_file_of(texts(args@), i as int) == log_file_of(texts(args@), 0),
        decreases len - i,
    {
        assert(texts(args@)[i as int] == args@[i as int]@);
        if same(args[i].as_str(), "--log-file") {
            if i + 1 < len {
                assert(texts(args@)[i + 1] == args@[i + 1]@);
                return Some(args[i + 1].clone());
            }
            return None;
        }
        i += 1;
    }
    None
}

/// Where the bridge is reached, by operating system.
pub proof fn law_socket_path(windows: bool, r: String)
    requires
        call_ensures(bridge_socket_path, (windows,), r),
    ensures
        !windows ==> r@ == "/tmp/midinet-bridge.sock"@,
        windows ==> r@ == "\\\\.\\pipe\\midinet-bridge"@,
{
}

/// A heartbeat goes to the bridge once nothing has been sent for two seconds, and not
/// again before two more have passed.
pub proof fn law_heartbeats(
    d: &mut BridgeVirtualDevice,
    e: &mut BridgeVirtualDevice,
    now: u64,
    later: u64,
    due: bool,
    again: bool,
)
    requires
        call_ensures(BridgeVirtualDevice::heartbeat_due, (d, now), due),
        *old(e) == *final(d),
        now <= later,
        call_ensures(BridgeVirtualDevice::heartbeat_due, (e, later), again),
    ensures
        due <==> old(d).connected && now >= old(d).last_send + 2000,
        due ==> (again <==> later >= now + 2000),
        final(d).connected == old(d).connected,
{
}

/// The client hands feedback on, as long as it is connected, and nothing else of what
/// the bridge sends; a connection that fails is over.
pub proof fn law_client_receives(
    d: &mut BridgeVirtualDevice,
    frame: FrameRead,
    r: Option<Vec<u8>>,
)
    requires
        call_ensures(BridgeVirtualDevice::receive, (d, frame), r),
    ensures
        !old(d).connected ==> r is None,
        frame matches FrameRead::Frame(FrameType::FeedbackMidi, data) ==> (old(d).connected ==> r
            == Some(data)),
        !(frame matches FrameRead::Frame(FrameType::FeedbackMidi, _)) ==> r is None,
        frame is Failed ==> !final(d).connected,
        !(frame is Failed) ==> final(d).connected == old(d).connected,
        final(d).last_send == old(d).last_send,
        final(d).name == old(d).name,
{
}

/// The client sends only over a connection, which the bridge's acknowledgement opens and
/// a close ends.
pub proof fn law_client_connection(
    d: &mut BridgeVirtualDevice,
    ack: Result<AckPayload, String>,
    r: Result<(), String>,
    e: &mut BridgeVirtualDevice,
    after: BridgeVirtualDevice,
    sent: Result<FrameType, String>,
)
    requires
        call_ensures(BridgeVirtualDevice::create, (d, ack), r),
        call_ensures(BridgeVirtualDevice::close, (e,), ()),
        after == *final(e),
        call_ensures(BridgeVirtualDevice::send, (&after,), sent),
    ensures
        ack is Ok ==> r is Ok && final(d).connected,
        ack is Err ==> r is Err && final(d).connected == old(d).connected,
        sent is Err,
{
}

/// Only an acknowledgement answers an identity, and only an identity opens a session.
pub proof fn law_handshake_frames(
    header: Option<FrameType>,
    ack: Result<(), String>,
    first: Result<(), String>,
)
    requires
        call_ensures(BridgeVirtualDevice::check_ack, (header,), ack),
        call_ensures(read_identity, (header,), first),
    ensures
        ack is Ok <==> header == Some(FrameType::Ack),
        first is Ok <==> header == Some(FrameType::Identity),
{
}

/// A client that names the device that is there gets that device; one that names another
/// has it made, and from then on that one is there. The answer says which it was.
pub proof fn law_device_is_reused(
    b: &mut BridgeState,
    id: DeviceIdentity,
    step: SessionStep,
)
    requires
        call_ensures(BridgeState::ensure_device, (b, Some(id)), step),
    ensures
        (old(b).device matches Some(name) && name@ == id.name@) ==> (step matches SessionStep::SendAck(
            ack,
        ) && !ack.created && ack.device_name@ == id.name@),
        !(old(b).device matches Some(name) && name@ == id.name@) ==> (
        step matches SessionStep::CreateDevice(d) && d@ == id@),
        final(b)@.device == old(b)@.device,
        final(b)@.client_connected == old(b)@.client_connected,
{
}

/// A device that was created is the bridge's device afterwards. One that could not be
/// created leaves the old one; the client is answered all the same.
pub proof fn law_created_device(
    b: &mut BridgeState,
    id: DeviceIdentity,
    created: bool,
    step: SessionStep,
)
    requires
        call_ensures(BridgeState::device_created, (b, id, created), step),
    ensures
        created ==> (final(b).device matches Some(name) && name@ == id.name@),
        created ==> (final(b).identity matches Some(i) && i@ == id@),
        !created ==> final(b)@ == old(b)@,
        step matches SessionStep::SendAck(ack) && ack.created == created && ack.device_name@
            == id.name@,
{
    assert(final(b)@.device == text_opt(final(b).device));
}

/// What a session does about an event: MIDI goes to the device if there is one, a client
/// that fails or has sent no heartbeat for more than ten seconds is let go and its device
/// silenced, and anything else is passed over.
pub proof fn law_session(
    b: &mut BridgeState,
    session: &mut ClientSession,
    event: SessionEvent,
    now: u64,
    step: SessionStep,
)
    requires
        call_ensures(BridgeState::handle_client, (b, session, event, now), step),
    ensures
        event matches SessionEvent::SendMidi(data) ==> step == (if old(b).device is Some {
            SessionStep::SendToDevice(data)
        } else {
            SessionStep::ReadFrame
        }),
        event is ReadFailed ==> step == (SessionStep::End { silence: old(b).device is Some }),
        event is ReadTimedOut && now > old(session).last_heartbeat + 10_000 ==> step == (
        SessionStep::End { silence: old(b).device is Some }),
        event is ReadTimedOut && now <= old(session).last_heartbeat + 10_000 ==> step
            == SessionStep::ReadFrame,
        event is Heartbeat || event is Identity || event is Other ==> step
            == SessionStep::ReadFrame,
        event is Heartbeat ==> final(session).last_heartbeat == now,
        !(event is Heartbeat) ==> final(session).last_heartbeat == old(session).last_heartbeat,
        step is End ==> !final(b).client_connected,
        !(step is End) ==> final(b).client_connected == old(b).client_connected,
        final(b)@.device == old(b)@.device,
        event matches SessionEvent::Identity(Some(id)) ==> final(b)@.identity == Some(id@),
        !(event matches SessionEvent::Identity(Some(_))) ==> final(b)@.identity == old(b)@.identity,
{
    assert(final(b)@.client_connected == final(b).client_connected);
}

/// A session starts to read once its handshake is complete; one that is not silences
/// nothing, because nothing was played.
pub proof fn law_handshake(b: &mut BridgeState, complete: bool, step: SessionStep)
    requires
        call_ensures(BridgeState::handshake_finished, (b, complete), step),
    ensures
        complete ==> step == SessionStep::ReadFrame,
        !complete ==> step == (SessionStep::End { silence: false }),
        final(b).client_connected == (old(b).client_connected && complete),
        final(b)@.device == old(b)@.device,
{
    assert(final(b)@.client_connected == final(b).client_connected);
}

/// The log goes to the file that stands behind the option, wherever that is.
pub proof fn law_log_file(args: Vec<String>, r: Option<String>, k: int)
    requires
        call_ensures(log_file, (&args,), r),
        0 <= k < args@.len(),
        args@[k]@ == "--log-file"@,
        forall|i: int| 0 <= i < k ==> (#[trigger] args@[i])@ != "--log-file"@,
    ensures
        k + 1 < args@.len() ==> (r matches Some(f) && f@ == args@[k + 1]@),
        k + 1 == args@.len() ==> r is None,
{
    lemma_log_file(texts(args@), 0, k);
}

proof fn lemma_log_file(args: Seq<Seq<char>>, from: int, k: int)
    requires
        0 <= from <= k < args.len(),
        args[k] == "--log-file"@,
        forall|i: int| 0 <= i < k ==> #[trigger] args[i] != "--log-file"@,
    ensures
        log_file_of(args, from) == (if k + 1 < args.len() {
            Some(args[k + 1])
        } else {
            None
        }),
    decreases k - from,
{
    if from < k {
        assert(args[from] != "--log-file"@);
        lemma_log_file(args, from + 1, k);
    }
}

/// A device behind a bridge is not connected at first, has the name that it is started
/// with, remembers when it last sent, and is not connected once it was let go.
pub proof fn law_bridged_device(
    fresh: BridgeVirtualDevice,
    socket_path: &str,
    now: u64,
    d: &mut BridgeVirtualDevice,
    identity: DeviceIdentity,
    e: &mut BridgeVirtualDevice,
    later: u64,
    f: &mut BridgeVirtualDevice,
    after: BridgeVirtualDevice,
    name: &str,
)
    requires
        call_ensures(BridgeVirtualDevice::new, (socket_path, now), fresh),
        call_ensures(BridgeVirtualDevice::start, (d, &identity), ()),
        *old(e) == *final(d),
        call_ensures(BridgeVirtualDevice::message_sent, (e, later), ()),
        *old(f) == *final(e),
        call_ensures(BridgeVirtualDevice::silence_and_detach, (f,), ()),
        after == *final(f),
        call_ensures(BridgeVirtualDevice::device_name, (&after,), name),
    ensures
        fresh.socket_path@ == socket_path@ && fresh.name@ == ""@ && !fresh.connected
            && fresh.last_send == now,
        name@ == identity.name@,
        final(e).connected == old(d).connected && !after.connected,
        after.last_send == later,
        after.socket_path == old(d).socket_path,
{
}

/// A bridge at the start has no device and no client; a client that it accepts is there,
/// and the device stays as it is.
pub proof fn law_accepted_client(fresh: BridgeState, b: &mut BridgeState)
    requires
        call_ensures(BridgeState::new, (), fresh),
        call_ensures(BridgeState::client_accepted, (b,), ()),
    ensures
        fresh@.device is None && fresh@.identity is None && !fresh@.client_connected,
        final(b)@.client_connected,
        final(b)@.device == old(b)@.device && final(b)@.identity == old(b)@.identity,
{
}

/// A message goes to a bridge that is connected, as such, and to no other one.
pub proof fn law_message_to_the_bridge(d: BridgeVirtualDevice, r: Result<FrameType, String>)
    requires
        call_ensures(BridgeVirtualDevice::send, (&d,), r),
    ensures
        r is Ok <==> d.connected,
        r matches Ok(t) ==> t == FrameType::SendMidi,
        r matches Err(e) ==> e@ == "Not connected to bridge"@,
{
}

} // verus!
