//! The two backends of Windows: Windows MIDI Services and the teVirtualMIDI
//! driver. Outside Windows both refuse to be created.
use vstd::prelude::*;

use crate::feedback::{newest, FeedbackBuffer, CALLBACK_LIMIT, FEEDBACK_LIMIT};
use crate::text::{
    cat, cat3, contains_text, hex8, replace_char, same, str_replace_char, texts, to_hex8,
    to_uppercase, uppercase,
};
use crate::ump::{midi1_to_ump_messages, packet_bytes, packets_of, ump_to_midi1, Packet};
use crate::virtual_device::{
    all_off, all_taken, lemma_one_more_taken, DeviceIdentity, Sending, VirtualMidiDevice,
};

verus! {

// ── Windows MIDI Services ──

/// A virtual device of Windows MIDI Services, outside Windows.
pub struct MidiServicesDevice {
    name: String,
    sent: Ghost<Seq<Seq<u8>>>,
    closings: Ghost<nat>,
}

impl MidiServicesDevice {
    pub fn new() -> (r: Self)
        ensures
            r.named() == ""@,
            r.sent() == Seq::<Seq<u8>>::empty(),
            r.closings() == 0,
    {
        MidiServicesDevice { name: "".to_owned(), sent: Ghost(Seq::empty()), closings: Ghost(0) }
    }

    /// Whether the runtime of Windows MIDI Services is there: it is not.
    pub fn is_available() -> (r: bool)
        ensures
            !r,
    {
        false
    }
}

impl VirtualMidiDevice for MidiServicesDevice {
    closed spec fn named(&self) -> Seq<char> {
        self.name@
    }

    closed spec fn sent(&self) -> Seq<Seq<u8>> {
        self.sent@
    }

    closed spec fn sendings(&self) -> Seq<Sending> {
        all_taken(self.sent@)
    }

    closed spec fn closings(&self) -> nat {
        self.closings@
    }

    open spec fn waiting(&self) -> Seq<Seq<u8>> {
        Seq::empty()
    }

    open spec fn silences(&self) -> bool {
        true
    }

    open spec fn reliable(&self) -> bool {
        true
    }

    fn create(&mut self, identity: &DeviceIdentity) -> (r: Result<(), String>)
        ensures
            final(self).named() == identity.name@,
            r matches Err(e) && e@ == "Windows MIDI Services: not available on non-Windows"@,
    {
        self.name = identity.name.clone();
        Err("Windows MIDI Services: not available on non-Windows".to_owned())
    }

    fn send(&mut self, data: &[u8]) -> (r: Result<(), String>)
        ensures
            r is Ok,
    {
        proof {
            lemma_one_more_taken(self.sent@, data@);
        }
        self.sent = Ghost(self.sent@.push(data@));
        Ok(())
    }

    fn receive(&mut self) -> (r: Result<Option<Vec<u8>>, String>)
        ensures
            r == Ok::<Option<Vec<u8>>, String>(None),
            *final(self) == *old(self),
    {
        Ok(None)
    }

    fn close(&mut self) -> (r: Result<(), String>)
        ensures
            r is Ok,
    {
        self.closings = Ghost(self.closings@ + 1);
        Ok(())
    }

    fn device_name(&self) -> &str {
        self.name.as_str()
    }
}

/// The identifier of the COM class that lets the process use the SDK.
pub const CLSID_MIDI_CLIENT_INITIALIZER: u128 = 0xc3263827_c3b0_bdbd_2500_ce63a3f3f2c3;

/// The ways in which messages pass through a function block.
#[derive(Clone, Copy, Debug, PartialEq, Eq, Structural)]
pub enum BlockDirection {
    Input,
    Output,
    Bidirectional,
}

/// Whether a function block stands for a MIDI 1.0 connection.
#[derive(Clone, Copy, Debug, PartialEq, Eq, Structural)]
pub enum Midi1Connection {
    No,
    /// One that may use the full bandwidth.
    Unrestricted,
    /// One at the bandwidth of a MIDI cable.
    Restricted,
}

/// A function block of an endpoint.
#[derive(Debug)]
pub struct BlockDeclaration {
    pub number: u8,
    pub name: String,
    pub active: bool,
    pub direction: BlockDirection,
    pub midi1: Midi1Connection,
    pub first_group: u8,
    pub group_count: u8,
}

/// What a virtual endpoint is declared as.
#[derive(Debug)]
pub struct EndpointDeclaration {
    pub session_name: String,
    pub name: String,
    pub product_instance_id: String,
    pub description: String,
    pub manufacturer: String,
    pub supports_midi1: bool,
    pub supports_midi2: bool,
    pub supports_receiving_jr: bool,
    pub supports_sending_jr: bool,
    pub static_function_blocks: bool,
    pub function_blocks: u8,
    pub version_major: u8,
    pub version_minor: u8,
    /// The one function block.
    pub block: BlockDeclaration,
}

/// The identifier of a product: the name in capitals without spaces.
pub open spec fn instance_id(name: Seq<char>) -> Seq<char> {
    "MIDINET_"@ + uppercase(replace_char(name, ' ', '_'))
}

/// Declares an endpoint for an identity: one active block of MIDI 1.0 in both
/// directions, on the first group alone.
pub fn declare_endpoint(identity: &DeviceIdentity) -> (r: EndpointDeclaration)
    ensures
        r.session_name@ == "MIDInet-"@ + identity.name@,
        r.name@ == identity.name@,
        r.product_instance_id@ == instance_id(identity.name@),
        r.description@ == "MIDInet virtual device: "@ + identity.name@,
        r.manufacturer@ == identity.manufacturer@,
        r.supports_midi1 && r.static_function_blocks,
        !r.supports_midi2 && !r.supports_receiving_jr && !r.supports_sending_jr,
        r.function_blocks == 1 && r.version_major == 1 && r.version_minor == 0,
        r.block.number == 0,
        r.block.name@ == identity.name@,
        r.block.active,
        r.block.direction == BlockDirection::Bidirectional,
        r.block.midi1 == Midi1Connection::Unrestricted,
        r.block.first_group == 0,
        r.block.group_count == 1,
{
    let plain = str_replace_char(identity.name.as_str(), ' ', '_');
    let upper = to_uppercase(plain.as_str());
    EndpointDeclaration {
        session_name: cat("MIDInet-", identity.name.as_str()),
        name: identity.name.clone(),
        product_instance_id: cat("MIDINET_", upper.as_str()),
        description: cat("MIDInet virtual device: ", identity.name.as_str()),
        manufacturer: identity.manufacturer.clone(),
        supports_midi1: true,
        supports_midi2: false,
        supports_receiving_jr: false,
        supports_sending_jr: false,
        static_function_blocks: true,
        function_blocks: 1,
        version_major: 1,
        version_minor: 0,
        block: BlockDeclaration {
            number: 0,
            name: identity.name.clone(),
            active: true,
            direction: BlockDirection::Bidirectional,
            midi1: Midi1Connection::Unrestricted,
            first_group: 0,
            group_count: 1,
        },
    }
}

/// The steps that set a virtual endpoint up.
#[derive(Clone, Copy, Debug, PartialEq, Eq, Structural)]
pub enum SetupStep {
    InitializeRuntime,
    Bootstrap,
    CreateSession,
    CreateConfig,
    CreateBlock,
    SetBlockNumber,
    SetBlockName,
    ActivateBlock,
    SetBlockDirection,
    SetMidi1Mode,
    CreateGroup,
    SetFirstGroup,
    SetGroupCount,
    GetFunctionBlocks,
    AddFunctionBlock,
    CreateDevice,
    GetEndpointId,
    CreateConnection,
    AddMessagePlugin,
    RegisterCallback,
    OpenConnection,
}

/// The number of steps.
pub const SETUP_STEPS: u8 = 21;

/// The steps in their order.
pub open spec fn setup_steps() -> Seq<SetupStep> {
    seq![
        SetupStep::InitializeRuntime,
        SetupStep::Bootstrap,
        SetupStep::CreateSession,
        SetupStep::CreateConfig,
        SetupStep::CreateBlock,
        SetupStep::SetBlockNumber,
        SetupStep::SetBlockName,
        SetupStep::ActivateBlock,
        SetupStep::SetBlockDirection,
        SetupStep::SetMidi1Mode,
        SetupStep::CreateGroup,
        SetupStep::SetFirstGroup,
        SetupStep::SetGroupCount,
        SetupStep::GetFunctionBlocks,
        SetupStep::AddFunctionBlock,
        SetupStep::CreateDevice,
        SetupStep::GetEndpointId,
        SetupStep::CreateConnection,
        SetupStep::AddMessagePlugin,
        SetupStep::RegisterCallback,
        SetupStep::OpenConnection,
    ]
}

/// An error of the operating system: its text and its code.
#[derive(Debug)]
pub struct SystemError {
    pub message: String,
    pub code: u32,
}

/// What is said when a step fails: the words in front of the error, whether its
/// code is shown, and the words behind.
pub open spec fn failure_words(step: SetupStep) -> (Seq<char>, bool, Seq<char>) {
    match step {
        SetupStep::InitializeRuntime => ("Failed to initialize WinRT: "@, true, ""@),
        SetupStep::Bootstrap => (
            "Failed to create MIDI SDK bootstrapper: "@,
            true,
            ". Install Windows MIDI Services SDK via: winget install Microsoft.WindowsMIDIServicesSDK"@,
        ),
        SetupStep::CreateSession => ("Failed to create MIDI Services session: "@, true, ""@),
        SetupStep::CreateConfig => ("Failed to create virtual device config: "@, false, ""@),
        SetupStep::CreateBlock => ("Failed to create function block: "@, false, ""@),
        SetupStep::SetBlockNumber => ("Failed to set block number: "@, false, ""@),
        SetupStep::SetBlockName => ("Failed to set block name: "@, false, ""@),
        SetupStep::ActivateBlock => ("Failed to activate block: "@, false, ""@),
        SetupStep::SetBlockDirection => ("Failed to set block direction: "@, false, ""@),
        SetupStep::SetMidi1Mode => ("Failed to set MIDI 1.0 mode: "@, false, ""@),
        SetupStep::CreateGroup => ("Failed to create MidiGroup(0): "@, false, ""@),
        SetupStep::SetFirstGroup => ("Failed to set first group: "@, false, ""@),
        SetupStep::SetGroupCount => ("Failed to set group count: "@, false, ""@),
        SetupStep::GetFunctionBlocks => ("Failed to get function blocks: "@, false, ""@),
        SetupStep::AddFunctionBlock => ("Failed to add function block: "@, false, ""@),
        SetupStep::CreateDevice => (
            "Failed to create virtual MIDI device: "@,
            true,
            ". Windows MIDI Services may not support virtual devices on this version."@,
        ),
        SetupStep::GetEndpointId => ("Failed to get device endpoint ID: "@, false, ""@),
        SetupStep::CreateConnection => ("Failed to create endpoint connection: "@, false, ""@),
        SetupStep::AddMessagePlugin => (
            "Failed to add virtual device as message plugin: "@,
            false,
            ""@,
        ),
        SetupStep::RegisterCallback => ("Failed to register message callback: "@, false, ""@),
        SetupStep::OpenConnection => ("Failed to open MIDI endpoint connection: "@, false, ""@),
    }
}

/// The text of a failed step.
pub open spec fn failure_text(step: SetupStep, message: Seq<char>, code: u32) -> Seq<char> {
    let (front, coded, behind) = failure_words(step);
    if coded {
        front + message + " (0x"@ + hex8(code) + ")"@ + behind
    } else {
        front + message
    }
}

fn setup_failure(step: SetupStep, error: &SystemError) -> (r: String)
    ensures
        r@ == failure_text(step, error.message@, error.code),
{
    let (front, coded, behind) = match step {
        SetupStep::InitializeRuntime => ("Failed to initialize WinRT: ", true, ""),
        SetupStep::Bootstrap => (
            "Failed to create MIDI SDK bootstrapper: ",
            true,
            ". Install Windows MIDI Services SDK via: winget install Microsoft.WindowsMIDIServicesSDK",
        ),
        SetupStep::CreateSession => ("Failed to create MIDI Services session: ", true, ""),
        SetupStep::CreateConfig => ("Failed to create virtual device config: ", false, ""),
        SetupStep::CreateBlock => ("Failed to create function block: ", false, ""),
        SetupStep::SetBlockNumber => ("Failed to set block number: ", false, ""),
        SetupStep::SetBlockName => ("Failed to set block name: ", false, ""),
        SetupStep::ActivateBlock => ("Failed to activate block: ", false, ""),
        SetupStep::SetBlockDirection => ("Failed to set block direction: ", false, ""),
        SetupStep::SetMidi1Mode => ("Failed to set MIDI 1.0 mode: ", false, ""),
        SetupStep::CreateGroup => ("Failed to create MidiGroup(0): ", false, ""),
        SetupStep::SetFirstGroup => ("Failed to set first group: ", false, ""),
        SetupStep::SetGroupCount => ("Failed to set group count: ", false, ""),
        SetupStep::GetFunctionBlocks => ("Failed to get function blocks: ", false, ""),
        SetupStep::AddFunctionBlock => ("Failed to add function block: ", false, ""),
        SetupStep::CreateDevice => (
            "Failed to create virtual MIDI device: ",
            true,
            ". Windows MIDI Services may not support virtual devices on this version.",
        ),
        SetupStep::GetEndpointId => ("Failed to get device endpoint ID: ", false, ""),
        SetupStep::CreateConnection => ("Failed to create endpoint connection: ", false, ""),
        SetupStep::AddMessagePlugin => (
            "Failed to add virtual device as message plugin: ",
            false,
            "",
        ),
        SetupStep::RegisterCallback => ("Failed to register message callback: ", false, ""),
        SetupStep::OpenConnection => ("Failed to open MIDI endpoint connection: ", false, ""),
    };
    let plain = cat(front, error.message.as_str());
    if coded {
        let code = to_hex8(error.code);
        let shown = cat3(plain.as_str(), " (0x", code.as_str());
        cat3(shown.as_str(), ")", behind)
    } else {
        plain
    }
}

/// The setup of a virtual endpoint, step by step.
#[derive(Debug)]
pub struct MidiServicesSetup {
    done: u8,
}

impl MidiServicesSetup {
    /// The steps that have succeeded.
    pub closed spec fn done(&self) -> int {
        self.done as int
    }

    pub open spec fn wf(&self) -> bool {
        0 <= self.done() <= SETUP_STEPS
    }

    pub fn new() -> (r: Self)
        ensures
            r.wf(),
            r.done() == 0,
    {
        MidiServicesSetup { done: 0 }
    }

    /// The step to take next; the endpoint is connected when there is none.
    pub fn next_step(&self) -> (r: Option<SetupStep>)
        requires
            self.wf(),
        ensures
            r == (if self.done() < SETUP_STEPS {
                Some(setup_steps()[self.done()])
            } else {
                None
            }),
    {
        match self.done {
            0 => Some(SetupStep::InitializeRuntime),
            1 => Some(SetupStep::Bootstrap),
            2 => Some(SetupStep::CreateSession),
            3 => Some(SetupStep::CreateConfig),
            4 => Some(SetupStep::CreateBlock),
            5 => Some(SetupStep::SetBlockNumber),
            6 => Some(SetupStep::SetBlockName),
            7 => Some(SetupStep::ActivateBlock),
            8 => Some(SetupStep::SetBlockDirection),
            9 => Some(SetupStep::SetMidi1Mode),
            10 => Some(SetupStep::CreateGroup),
            11 => Some(SetupStep::SetFirstGroup),
            12 => Some(SetupStep::SetGroupCount),
            13 => Some(SetupStep::GetFunctionBlocks),
            14 => Some(SetupStep::AddFunctionBlock),
            15 => Some(SetupStep::CreateDevice),
            16 => Some(SetupStep::GetEndpointId),
            17 => Some(SetupStep::CreateConnection),
            18 => Some(SetupStep::AddMessagePlugin),
            19 => Some(SetupStep::RegisterCallback),
            20 => Some(SetupStep::OpenConnection),
            _ => None,
        }
    }

    /// Takes in how the next step went. A failure ends the setup with its words.
    pub fn step_finished(&mut self, result: Result<(), SystemError>) -> (r: Result<
        Option<SetupStep>,
        String,
    >)
        requires
            old(self).wf(),
            old(self).done() < SETUP_STEPS,
        ensures
            final(self).wf(),
            match result {
                Ok(_) => final(self).done() == old(self).done() + 1 && r == Ok::<
                    Option<SetupStep>,
                    String,
                >(
                    if final(self).done() < SETUP_STEPS {
                        Some(setup_steps()[final(self).done()])
                    } else {
                        None
                    },
                ),
                Err(e) => final(self).done() == old(self).done() && (r matches Err(text) && text@
                    == failure_text(setup_steps()[old(self).done()], e.message@, e.code)),
            },
    {
        match result {
            Ok(_) => {
                self.done = self.done + 1;
                Ok(self.next_step())
            },
            Err(e) => {
                match self.next_step() {
                    Some(step) => Err(setup_failure(step, &e)),
                    None => Ok(None),
                }
            },
        }
    }
}

/// No step is taken twice, the SDK is bootstrapped before anything of it is
/// used, the block has its group before it is added, and messages are wired
/// before the connection opens.
pub proof fn law_setup_order(i: int, j: int)
    requires
        0 <= i < j < SETUP_STEPS,
    ensures
        setup_steps().len() == SETUP_STEPS,
        setup_steps()[i] != setup_steps()[j],
        setup_steps()[j] == SetupStep::Bootstrap ==> setup_steps()[i]
            == SetupStep::InitializeRuntime,
        setup_steps()[i] == SetupStep::AddFunctionBlock ==> setup_steps()[j]
            != SetupStep::SetFirstGroup && setup_steps()[j] != SetupStep::SetGroupCount,
        setup_steps()[i] != SetupStep::OpenConnection,
{
}

/// A connected endpoint of Windows MIDI Services.
#[derive(Debug)]
pub struct MidiServicesPort {
    pub connected: bool,
    /// The endpoint stays until the process ends.
    pub detached: bool,
    pub feedback: FeedbackBuffer,
}

impl MidiServicesPort {
    pub open spec fn wf(&self) -> bool {
        self.feedback.wf() && self.feedback.limit() == FEEDBACK_LIMIT
    }

    /// An endpoint before its setup.
    pub fn new() -> (r: Self)
        ensures
            r.wf(),
            !r.connected && !r.detached,
            r.feedback@.len() == 0,
    {
        MidiServicesPort {
            connected: false,
            detached: false,
            feedback: FeedbackBuffer::new(FEEDBACK_LIMIT),
        }
    }

    /// The packets that carry some MIDI bytes; none before the setup.
    pub fn send(&self, data: &[u8]) -> (r: Vec<Packet>)
        ensures
            r@ == (if self.connected {
                packets_of(data@)
            } else {
                Seq::empty()
            }),
    {
        if self.connected {
            midi1_to_ump_messages(data)
        } else {
            Vec::new()
        }
    }

    /// Takes in the words of a packet from an application.
    pub fn message_received(&mut self, word_count: u8, w0: u32, w1: u32)
        requires
            old(self).wf(),
        ensures
            final(self).wf(),
            final(self).connected == old(self).connected,
            final(self).detached == old(self).detached,
            final(self).feedback@ == (if packet_bytes(word_count, w0, w1).len() == 0 {
                old(self).feedback@
            } else {
                newest(
                    old(self).feedback@.push(packet_bytes(word_count, w0, w1)),
                    FEEDBACK_LIMIT as nat,
                )
            }),
    {
        let bytes = ump_to_midi1(word_count, w0, w1);
        if bytes.len() > 0 {
            self.feedback.push(bytes);
        }
    }

    /// Whether the endpoint is to be torn down: never one that was let go.
    pub fn close(&mut self) -> (r: bool)
        ensures
            r == !old(self).detached,
            final(self).connected == (old(self).connected && old(self).detached),
            final(self).detached == old(self).detached,
            final(self).feedback == old(self).feedback,
    {
        if self.detached {
            return false;
        }
        self.connected = false;
        true
    }

    /// Lets a silenced endpoint go.
    pub fn detach(&mut self)
        ensures
            *final(self) == (MidiServicesPort { detached: true, ..*old(self) }),
    {
        self.detached = true;
    }
}

// ── teVirtualMIDI ──

/// A virtual device of the teVirtualMIDI driver, outside Windows.
pub struct TeVirtualMidiDevice {
    name: String,
    sent: Ghost<Seq<Seq<u8>>>,
    closings: Ghost<nat>,
}

impl TeVirtualMidiDevice {
    pub fn new() -> (r: Self)
        ensures
            r.named() == ""@,
            r.sent() == Seq::<Seq<u8>>::empty(),
            r.closings() == 0,
    {
        TeVirtualMidiDevice { name: "".to_owned(), sent: Ghost(Seq::empty()), closings: Ghost(0) }
    }
}

impl VirtualMidiDevice for TeVirtualMidiDevice {
    closed spec fn named(&self) -> Seq<char> {
        self.name@
    }

    closed spec fn sent(&self) -> Seq<Seq<u8>> {
        self.sent@
    }

    closed spec fn sendings(&self) -> Seq<Sending> {
        all_taken(self.sent@)
    }

    closed spec fn closings(&self) -> nat {
        self.closings@
    }

    open spec fn waiting(&self) -> Seq<Seq<u8>> {
        Seq::empty()
    }

    open spec fn silences(&self) -> bool {
        true
    }

    open spec fn reliable(&self) -> bool {
        true
    }

    fn create(&mut self, identity: &DeviceIdentity) -> (r: Result<(), String>)
        ensures
            final(self).named() == identity.name@,
            r matches Err(e) && e@ == "teVirtualMIDI: not available on non-Windows"@,
    {
        self.name = identity.name.clone();
        Err("teVirtualMIDI: not available on non-Windows".to_owned())
    }

    fn send(&mut self, data: &[u8]) -> (r: Result<(), String>)
        ensures
            r is Ok,
    {
        proof {
            lemma_one_more_taken(self.sent@, data@);
        }
        self.sent = Ghost(self.sent@.push(data@));
        Ok(())
    }

    fn receive(&mut self) -> (r: Result<Option<Vec<u8>>, String>)
        ensures
            r == Ok::<Option<Vec<u8>>, String>(None),
            *final(self) == *old(self),
    {
        Ok(None)
    }

    fn close(&mut self) -> (r: Result<(), String>)
        ensures
            r is Ok,
    {
        self.closings = Ghost(self.closings@ + 1);
        Ok(())
    }

    fn device_name(&self) -> &str {
        self.name.as_str()
    }
}

/// The functions that the driver's library has to export.
pub open spec fn driver_functions() -> Seq<Seq<char>> {
    seq![
        "virtualMIDICreatePortEx2"@,
        "virtualMIDIClosePort"@,
        "virtualMIDISendData"@,
        "virtualMIDIGetData"@,
        "virtualMIDIGetVersion"@,
        "virtualMIDIGetDriverVersion"@,
    ]
}

/// Lists the functions that the driver's library has to export.
pub fn driver_function_names() -> (r: Vec<String>)
    ensures
        texts(r@) == driver_functions(),
{
    let mut r: Vec<String> = Vec::new();
    r.push("virtualMIDICreatePortEx2".to_owned());
    r.push("virtualMIDIClosePort".to_owned());
    r.push("virtualMIDISendData".to_owned());
    r.push("virtualMIDIGetData".to_owned());
    r.push("virtualMIDIGetVersion".to_owned());
    r.push("virtualMIDIGetDriverVersion".to_owned());
    assert(texts(r@) =~= driver_functions());
    r
}

/// The names under which the library is looked for, the 64-bit one first.
pub fn library_names() -> (r: Vec<String>)
    ensures
        texts(r@) == seq!["teVirtualMIDI64.dll"@, "teVirtualMIDI.dll"@],
{
    let mut r: Vec<String> = Vec::new();
    r.push("teVirtualMIDI64.dll".to_owned());
    r.push("teVirtualMIDI.dll".to_owned());
    assert(texts(r@) =~= seq!["teVirtualMIDI64.dll"@, "teVirtualMIDI.dll"@]);
    r
}

/// A library that was looked for: what it exports, if it is there.
#[derive(Debug)]
pub struct Library {
    pub exports: Option<Vec<String>>,
}

/// Whether a library is there and complete.
pub open spec fn usable(library: Library) -> bool {
    library.exports is Some && forall|k: int|
        0 <= k < 6 ==> texts(library.exports->0@).contains(#[trigger] driver_functions()[k])
}

/// Whether none of the first `n` libraries is there and complete.
pub open spec fn none_usable(libraries: Seq<Library>, n: int) -> bool {
    forall|j: int| 0 <= j < n ==> !usable(#[trigger] libraries[j])
}

fn is_usable(library: &Library) -> (r: bool)
    ensures
        r == usable(*library),
{
    let exports = match &library.exports {
        Some(e) => e,
        None => {
            return false;
        },
    };
    let create = contains_text(exports, "virtualMIDICreatePortEx2");
    let close = contains_text(exports, "virtualMIDIClosePort");
    let send = contains_text(exports, "virtualMIDISendData");
    let get = contains_text(exports, "virtualMIDIGetData");
    let version = contains_text(exports, "virtualMIDIGetVersion");
    let driver = contains_text(exports, "virtualMIDIGetDriverVersion");
    proof {
        let f = driver_functions();
        assert(f[0] == "virtualMIDICreatePortEx2"@);
        assert(f[1] == "virtualMIDIClosePort"@);
        assert(f[2] == "virtualMIDISendData"@);
        assert(f[3] == "virtualMIDIGetData"@);
        assert(f[4] == "virtualMIDIGetVersion"@);
        assert(f[5] == "virtualMIDIGetDriverVersion"@);
    }
    create && close && send && get && version && driver
}

/// Picks the first library that is there and complete.
pub fn load(libraries: &Vec<Library>) -> (r: Option<usize>)
    ensures
        match r {
            Some(i) => i < libraries@.len() && usable(libraries@[i as int]) && none_usable(
                libraries@,
                i as int,
            ),
            None => none_usable(libraries@, libraries@.len() as int),
        },
{
    let mut i: usize = 0;
    while i < libraries.len()
        invariant
            i <= libraries@.len(),
            forall|j: int| 0 <= j < i ==> !usable(#[trigger] libraries@[j]),
        decreases libraries@.len() - i,
    {
        if is_usable(&libraries[i]) {
            return Some(i);
        }
        i += 1;
    }
    None
}

/// The flags of the driver.
pub const TE_VM_FLAGS_PARSE_RX: u32 = 0x01;

pub const TE_VM_FLAGS_PARSE_TX: u32 = 0x02;

pub const TE_VM_FLAGS_INSTANTIATE_BOTH: u32 = 0x0C;

/// Both ends of a port, and messages towards it parsed.
pub const PLAIN_FLAGS: u32 = TE_VM_FLAGS_PARSE_RX + TE_VM_FLAGS_INSTANTIATE_BOTH;

/// Both ends of a port, and messages in both directions parsed.
pub const PARSED_FLAGS: u32 = TE_VM_FLAGS_PARSE_RX + TE_VM_FLAGS_PARSE_TX
    + TE_VM_FLAGS_INSTANTIATE_BOTH;

/// The longest system exclusive message of a port.
pub const MAX_SYSEX_LENGTH: u32 = 65535;

/// The wait for the system to register the ports of a device.
pub const REGISTER_WAIT_MS: u64 = 300;

/// The wait behind a port that was closed again.
pub const RETRY_WAIT_MS: u64 = 100;

/// One way to create a port.
#[derive(Clone, Copy, Debug, PartialEq, Eq, Structural)]
pub struct Attempt {
    pub flags: u32,
    pub callback: bool,
}

/// The number of attempts that look for a MIDI input, and of the one behind
/// them.
pub const SEARCH_ATTEMPTS: u8 = 6;

/// The attempts: with a callback first, because some versions of the driver
/// register an input only then. The last one takes any port.
pub open spec fn attempts() -> Seq<Attempt> {
    seq![
        Attempt { flags: PLAIN_FLAGS, callback: true },
        Attempt { flags: PARSED_FLAGS, callback: true },
        Attempt { flags: TE_VM_FLAGS_PARSE_RX, callback: true },
        Attempt { flags: 0, callback: true },
        Attempt { flags: PLAIN_FLAGS, callback: false },
        Attempt { flags: TE_VM_FLAGS_PARSE_RX, callback: false },
        Attempt { flags: PLAIN_FLAGS, callback: true },
    ]
}

/// How the creation of a port went.
#[derive(Clone, Copy, Debug, PartialEq, Eq, Structural)]
pub enum PortOutcome {
    NotCreated,
    /// The port is there; so many MIDI inputs are registered now.
    Created(u32),
}

/// What follows the creation of a port.
#[derive(Debug)]
pub enum PortStep {
    /// The port is in use.
    Keep(Attempt),
    /// Close the port if there is one, and try the next way.
    Next { close: bool, attempt: Attempt },
    /// Close the port if there is one, and give up.
    Failed { close: bool, error: String },
}

/// Whether an attempt brought a MIDI input, so that its port is kept.
pub open spec fn keeps(before: u32, attempt: int, outcome: PortOutcome) -> bool {
    attempt < SEARCH_ATTEMPTS && (outcome matches PortOutcome::Created(n) && n > before)
}

/// The attempt that follows one, unless the search ends with it.
pub open spec fn attempt_after(before: u32, attempt: int, outcome: PortOutcome) -> Option<int> {
    if keeps(before, attempt, outcome) || attempt == SEARCH_ATTEMPTS {
        None
    } else {
        Some(attempt + 1)
    }
}

/// The search for a port with a MIDI input.
#[derive(Debug)]
pub struct PortSearch {
    midi_in_before: u32,
    attempt: u8,
}

impl PortSearch {
    /// The MIDI inputs before the search.
    pub closed spec fn inputs_before(&self) -> u32 {
        self.midi_in_before
    }

    /// The attempt that is being made.
    pub closed spec fn attempt(&self) -> int {
        self.attempt as int
    }

    pub open spec fn wf(&self) -> bool {
        0 <= self.attempt() <= SEARCH_ATTEMPTS
    }

    /// Starts a search, if the driver's library is there.
    pub fn start(library: Option<usize>, midi_in_before: u32) -> (r: Result<Self, String>)
        ensures
            match r {
                Ok(search) => library is Some && search.wf() && search.attempt() == 0
                    && search.inputs_before() == midi_in_before,
                Err(e) => library is None && e@
                    == "teVirtualMIDI DLL not found — driver not installed"@,
            },
    {
        match library {
            Some(_) => Ok(PortSearch { midi_in_before, attempt: 0 }),
            None => Err("teVirtualMIDI DLL not found — driver not installed".to_owned()),
        }
    }

    /// The attempt to make.
    pub fn current(&self) -> (r: Attempt)
        requires
            self.wf(),
        ensures
            r == attempts()[self.attempt()],
    {
        match self.attempt {
            0 => Attempt { flags: PLAIN_FLAGS, callback: true },
            1 => Attempt { flags: PARSED_FLAGS, callback: true },
            2 => Attempt { flags: TE_VM_FLAGS_PARSE_RX, callback: true },
            3 => Attempt { flags: 0, callback: true },
            4 => Attempt { flags: PLAIN_FLAGS, callback: false },
            5 => Attempt { flags: TE_VM_FLAGS_PARSE_RX, callback: false },
            _ => Attempt { flags: PLAIN_FLAGS, callback: true },
        }
    }

    /// Decides what follows an attempt. A port is kept when it brought a MIDI
    /// input; behind the search any port shows only that the driver does not
    /// work.
    pub fn port_tried(&mut self, outcome: PortOutcome) -> (r: PortStep)
        requires
            old(self).wf(),
        ensures
            final(self).wf(),
            final(self).inputs_before() == old(self).inputs_before(),
            r is Keep <==> keeps(old(self).inputs_before(), old(self).attempt(), outcome),
            match attempt_after(old(self).inputs_before(), old(self).attempt(), outcome) {
                Some(next) => r is Next && final(self).attempt() == next,
                None => !(r is Next) && final(self).attempt() == old(self).attempt(),
            },
            match outcome {
                PortOutcome::Created(n) => if old(self).attempt() == SEARCH_ATTEMPTS {
                    r matches PortStep::Failed { close, error } && close && error@
                        == "teVirtualMIDI port created but no MIDI Input registered — kernel driver not functioning correctly"@
                } else if n > old(self).inputs_before() {
                    r == PortStep::Keep(attempts()[old(self).attempt()])
                } else {
                    r == (PortStep::Next {
                        close: true,
                        attempt: attempts()[old(self).attempt() + 1],
                    })
                },
                PortOutcome::NotCreated => if old(self).attempt() == SEARCH_ATTEMPTS {
                    r matches PortStep::Failed { close, error } && !close && error@
                        == "teVirtualMIDI port creation failed — all flag combinations exhausted"@
                } else {
                    r == (PortStep::Next {
                        close: false,
                        attempt: attempts()[old(self).attempt() + 1],
                    })
                },
            },
    {
        let current = self.current();
        match outcome {
            PortOutcome::Created(n) => {
                if self.attempt == SEARCH_ATTEMPTS {
                    return PortStep::Failed {
                        close: true,
                        error:
                            "teVirtualMIDI port created but no MIDI Input registered — kernel driver not functioning correctly".to_owned(),
                    };
                }
                if n > self.midi_in_before {
                    return PortStep::Keep(current);
                }
                self.attempt = self.attempt + 1;
                PortStep::Next { close: true, attempt: self.current() }
            },
            PortOutcome::NotCreated => {
                if self.attempt == SEARCH_ATTEMPTS {
                    return PortStep::Failed {
                        close: false,
                        error:
                            "teVirtualMIDI port creation failed — all flag combinations exhausted".to_owned(),
                    };
                }
                self.attempt = self.attempt + 1;
                PortStep::Next { close: false, attempt: self.current() }
            },
        }
    }
}

/// How a search ends: with the first attempt that brought a MIDI input, or
/// without a port. `None` stands for a search that failed or has seen too few
/// outcomes.
pub open spec fn search_end(before: u32, outcomes: Seq<PortOutcome>, from: int) -> Option<int>
    decreases SEARCH_ATTEMPTS + 1 - from,
{
    if from < 0 || from > SEARCH_ATTEMPTS || from >= outcomes.len() {
        None
    } else {
        match attempt_after(before, from, outcomes[from]) {
            Some(next) => search_end(before, outcomes, next),
            None => if keeps(before, from, outcomes[from]) {
                Some(from)
            } else {
                None
            },
        }
    }
}

/// A search keeps the port of the first attempt that brought a MIDI input, and
/// fails only when none of the six did.
pub proof fn law_search(before: u32, outcomes: Seq<PortOutcome>, from: int)
    requires
        0 <= from <= SEARCH_ATTEMPTS,
        outcomes.len() >= SEARCH_ATTEMPTS,
    ensures
        match search_end(before, outcomes, from) {
            Some(i) => from <= i < SEARCH_ATTEMPTS && keeps(before, i, outcomes[i]) && forall|
                j: int,
            |
                from <= j < i ==> !keeps(before, j, #[trigger] outcomes[j]),
            None => forall|j: int|
                from <= j < SEARCH_ATTEMPTS ==> !keeps(before, j, #[trigger] outcomes[j]),
        },
    decreases SEARCH_ATTEMPTS - from,
{
    if from < SEARCH_ATTEMPTS {
        law_search(before, outcomes, from + 1);
    }
}

/// An open port of the driver.
#[derive(Debug)]
pub struct TePort {
    pub open: bool,
    pub callback: bool,
    pub detached: bool,
    pub feedback: FeedbackBuffer,
}

impl TePort {
    pub open spec fn wf(&self) -> bool {
        self.feedback.wf() && self.feedback.limit() == CALLBACK_LIMIT
    }

    /// A port that an attempt has opened.
    pub fn new(attempt: Attempt) -> (r: Self)
        ensures
            r.wf(),
            r.open && r.callback == attempt.callback && !r.detached,
            r.feedback@.len() == 0,
    {
        TePort {
            open: true,
            callback: attempt.callback,
            detached: false,
            feedback: FeedbackBuffer::new(CALLBACK_LIMIT),
        }
    }

    /// Takes in what the driver's callback brings.
    pub fn midi_data_callback(&mut self, data: Vec<u8>)
        requires
            old(self).wf(),
        ensures
            final(self).wf(),
            final(self).open == old(self).open,
            final(self).callback == old(self).callback,
            final(self).detached == old(self).detached,
            final(self).feedback@ == (if data@.len() == 0 {
                old(self).feedback@
            } else {
                newest(old(self).feedback@.push(data@), CALLBACK_LIMIT as nat)
            }),
    {
        if data.len() > 0 {
            self.feedback.push(data);
        }
    }

    /// Hands out the next message: from the queue with a callback, else what the
    /// driver was asked for.
    pub fn receive(&mut self, polled: Option<Vec<u8>>) -> (r: Option<Vec<u8>>)
        requires
            old(self).wf(),
        ensures
            final(self).wf(),
            final(self).open == old(self).open,
            final(self).callback == old(self).callback,
            final(self).detached == old(self).detached,
            old(self).callback ==> match r {
                Some(m) => old(self).feedback@.len() > 0 && m@ == old(self).feedback@[0] && final(self).feedback@ == old(self).feedback@.skip(1),
                None => old(self).feedback@.len() == 0 && final(self).feedback@ == old(self).feedback@,
            },
            !old(self).callback ==> final(self).feedback@ == old(self).feedback@ && r == (
            match polled {
                Some(m) if old(self).open && m@.len() > 0 => Some(m),
                _ => None,
            }),
    {
        if self.callback {
            return self.feedback.receive();
        }
        match polled {
            Some(m) => {
                if self.open && m.len() > 0 {
                    Some(m)
                } else {
                    None
                }
            },
            None => None,
        }
    }

    /// Whether the port is to be closed: never one that was let go, and none
    /// twice.
    pub fn close(&mut self) -> (r: bool)
        ensures
            r == (old(self).open && !old(self).detached),
            final(self).open == (old(self).open && old(self).detached),
            final(self).callback == old(self).callback,
            final(self).detached == old(self).detached,
            final(self).feedback == old(self).feedback,
    {
        if self.detached || !self.open {
            return false;
        }
        self.open = false;
        true
    }

    /// Lets a silenced port go.
    pub fn detach(&mut self)
        ensures
            *final(self) == (TePort { detached: true, ..*old(self) }),
    {
        self.detached = true;
    }
}

// ── The choice of the backend ──

/// The first build of Windows 11.
pub const WINDOWS_11_BUILD: u32 = 22000;

/// Whether a build number is that of Windows 11; outside Windows there is none.
pub fn is_windows_11(build: Option<u32>) -> (r: bool)
    ensures
        r == (build is Some && build->0 >= WINDOWS_11_BUILD),
{
    match build {
        Some(n) => n >= WINDOWS_11_BUILD,
        None => false,
    }
}

/// The name of the file that marks an unfinished attempt.
pub open spec fn sentinel_name() -> Seq<char> {
    ".midinet-midi-services-crash"@
}

/// The parts of the path of the crash mark: in the user's application data, else
/// beside the program, else in the working directory.
pub fn crash_sentinel(local_app_data: &Option<String>, exe_dir: &Option<String>) -> (r: Vec<String>)
    ensures
        texts(r@) == match (*local_app_data, *exe_dir) {
            (Some(d), _) => seq![d@, "MIDInet"@, sentinel_name()],
            (None, Some(d)) => seq![d@, sentinel_name()],
            (None, None) => seq!["."@, sentinel_name()],
        },
{
    let mut r: Vec<String> = Vec::new();
    match local_app_data {
        Some(d) => {
            r.push(d.clone());
            r.push("MIDInet".to_owned());
        },
        None => match exe_dir {
            Some(d) => {
                r.push(d.clone());
            },
            None => {
                r.push(".".to_owned());
            },
        },
    }
    r.push(".midinet-midi-services-crash".to_owned());
    assert(texts(r@) =~= match (*local_app_data, *exe_dir) {
        (Some(d), _) => seq![d@, "MIDInet"@, sentinel_name()],
        (None, Some(d)) => seq![d@, sentinel_name()],
        (None, None) => seq!["."@, sentinel_name()],
    });
    r
}

/// Whether the MIDI service is to be killed before an attempt: the last attempt
/// crashed or hung, or the user asks for it.
pub fn must_reset_service(sentinel_exists: bool, skip_setting: &Option<String>) -> (r: bool)
    ensures
        r == (sentinel_exists || skip_setting is Some && skip_setting->0@ == "1"@),
{
    if sentinel_exists {
        return true;
    }
    match skip_setting {
        Some(v) => same(v.as_str(), "1"),
        None => false,
    }
}

/// A step of an attempt on Windows 11.
#[derive(Clone, Copy, Debug, PartialEq, Eq, Structural)]
pub enum Win11Step {
    /// Kill the MIDI service; it comes back by itself.
    KillService,
    /// Wait until the service is back.
    WaitForService,
    /// Write the crash mark.
    WriteMark,
    /// Create the device, which can crash or hang.
    CreateDevice,
    /// Remove the crash mark, whether the device was created or not.
    RemoveMark,
}

/// The steps of an attempt on Windows 11, with or without a reset of the service.
pub open spec fn win11_steps(reset: bool) -> Seq<Win11Step> {
    (if reset {
        seq![Win11Step::KillService, Win11Step::RemoveMark, Win11Step::WaitForService]
    } else {
        Seq::empty()
    }) + seq![Win11Step::WriteMark, Win11Step::CreateDevice, Win11Step::RemoveMark]
}

/// Lists the steps of an attempt on Windows 11.
pub fn creation_steps(mark_exists: bool, skip_setting: &Option<String>) -> (r: Vec<Win11Step>)
    ensures
        r@ == win11_steps(mark_exists || skip_setting is Some && skip_setting->0@ == "1"@),
{
    let mut r: Vec<Win11Step> = Vec::new();
    if must_reset_service(mark_exists, skip_setting) {
        r.push(Win11Step::KillService);
        r.push(Win11Step::RemoveMark);
        r.push(Win11Step::WaitForService);
    }
    r.push(Win11Step::WriteMark);
    r.push(Win11Step::CreateDevice);
    r.push(Win11Step::RemoveMark);
    assert(r@ =~= win11_steps(mark_exists || skip_setting is Some && skip_setting->0@ == "1"@));
    r
}

/// Whether the crash mark is there after the first `k` steps.
pub open spec fn mark_after(steps: Seq<Win11Step>, k: int, before: bool) -> bool
    decreases k,
{
    if k <= 0 || k > steps.len() {
        before
    } else {
        match steps[k - 1] {
            Win11Step::WriteMark => true,
            Win11Step::RemoveMark => false,
            _ => mark_after(steps, k - 1, before),
        }
    }
}

/// The crash mark is there while the device is created and gone once the attempt
/// is over. So it stays behind exactly where an attempt is cut short, and the next
/// attempt then resets the service first.
pub proof fn law_crash_mark(before: bool, asked: bool)
    ensures
        ({
            let steps = win11_steps(before || asked);
            &&& steps[steps.len() - 2] == Win11Step::CreateDevice
            &&& mark_after(steps, steps.len() - 2, before)
            &&& !mark_after(steps, steps.len() as int, before)
            &&& before ==> steps[0] == Win11Step::KillService
            &&& !before && !asked ==> !steps.contains(Win11Step::KillService)
        }),
{
    let steps = win11_steps(before || asked);
    let n = steps.len() as int;
    assert(steps[n - 1] == Win11Step::RemoveMark);
    assert(steps[n - 2] == Win11Step::CreateDevice);
    assert(steps[n - 3] == Win11Step::WriteMark);
}

/// What a virtual device of Windows is made of.
pub enum Backend {
    TeVirtualMidi(TeVirtualMidiDevice),
    MidiServices(MidiServicesDevice),
    /// Nothing has been created yet.
    Uninit,
}

/// A virtual device of Windows: Windows MIDI Services from Windows 11 on, the
/// teVirtualMIDI driver before.
pub struct WindowsVirtualDevice {
    backend: Backend,
    build: Option<u32>,
    sent: Ghost<Seq<Seq<u8>>>,
    closings: Ghost<nat>,
}

impl WindowsVirtualDevice {
    /// The build of Windows that the device is made for.
    pub closed spec fn build(&self) -> Option<u32> {
        self.build
    }

    /// Whether a backend is there.
    pub closed spec fn created(&self) -> bool {
        !(self.backend is Uninit)
    }

    /// Whether the backend is Windows MIDI Services.
    pub closed spec fn on_midi_services(&self) -> bool {
        self.backend is MidiServices
    }

    /// Whether the backend is the teVirtualMIDI driver.
    pub closed spec fn on_driver(&self) -> bool {
        self.backend is TeVirtualMidi
    }

    /// The messages that the backend has taken.
    pub closed spec fn delivered(&self) -> Seq<Seq<u8>> {
        match self.backend {
            Backend::TeVirtualMidi(d) => d.sent(),
            Backend::MidiServices(d) => d.sent(),
            Backend::Uninit => Seq::empty(),
        }
    }

    /// How often the backend was asked to close.
    pub closed spec fn backend_closings(&self) -> nat {
        match self.backend {
            Backend::TeVirtualMidi(d) => d.closings(),
            Backend::MidiServices(d) => d.closings(),
            Backend::Uninit => 0,
        }
    }

    pub fn new() -> (r: Self)
        ensures
            !r.created(),
            r.build() is None,
            r.named() == ""@,
            r.sent() == Seq::<Seq<u8>>::empty(),
            r.delivered() == Seq::<Seq<u8>>::empty(),
            r.closings() == 0,
            r.backend_closings() == 0,
    {
        WindowsVirtualDevice {
            backend: Backend::Uninit,
            build: None,
            sent: Ghost(Seq::empty()),
            closings: Ghost(0),
        }
    }

    /// A device for a build of Windows.
    pub fn on_build(build: u32) -> (r: Self)
        ensures
            !r.created(),
            r.build() == Some(build),
            r.named() == ""@,
            r.sent() == Seq::<Seq<u8>>::empty(),
            r.delivered() == Seq::<Seq<u8>>::empty(),
            r.closings() == 0,
            r.backend_closings() == 0,
    {
        WindowsVirtualDevice {
            backend: Backend::Uninit,
            build: Some(build),
            sent: Ghost(Seq::empty()),
            closings: Ghost(0),
        }
    }

    /// Takes Windows MIDI Services, which is the only way on Windows 11.
    fn create_win11(&mut self, identity: &DeviceIdentity) -> (r: Result<(), String>)
        ensures
            r matches Err(e) && e@
                == "Windows MIDI Services failed. MIDI Services may need to be restarted (taskkill /F /IM midisrv.exe)."@,
            *final(self) == *old(self),
    {
        let mut device = MidiServicesDevice::new();
        let result = device.create(identity);
        self.backend_tried(true, identity, result)
    }

    /// Takes the driver, which is the only way before Windows 11.
    fn create_win10(&mut self, identity: &DeviceIdentity) -> (r: Result<(), String>)
        ensures
            r matches Err(e) && e@
                == "Virtual MIDI device creation failed. Install teVirtualMIDI from https://www.tobias-erichsen.de/software/virtualmidi.html"@,
            *final(self) == *old(self),
    {
        let mut device = TeVirtualMidiDevice::new();
        let result = device.create(identity);
        self.backend_tried(false, identity, result)
    }

    /// Takes in how the backend's attempt ended: a device that was created is kept,
    /// of Windows MIDI Services from Windows 11 on and of the driver before. A
    /// failure changes nothing, and the backend's own words stay in the log.
    pub fn backend_tried(
        &mut self,
        windows_11: bool,
        identity: &DeviceIdentity,
        result: Result<(), String>,
    ) -> (r: Result<(), String>)
        ensures
            match result {
                Ok(_) => {
                    &&& r is Ok
                    &&& final(self).on_midi_services() == windows_11
                    &&& final(self).on_driver() == !windows_11
                    &&& final(self).created()
                    &&& final(self).named() == identity.name@
                    &&& final(self).delivered() == Seq::<Seq<u8>>::empty()
                    &&& final(self).backend_closings() == 0
                    &&& final(self).sent() == old(self).sent()
                    &&& final(self).closings() == old(self).closings()
                    &&& final(self).build() == old(self).build()
                },
                Err(_) => {
                    &&& r matches Err(e) && e@ == (if windows_11 {
                        "Windows MIDI Services failed. MIDI Services may need to be restarted (taskkill /F /IM midisrv.exe)."@
                    } else {
                        "Virtual MIDI device creation failed. Install teVirtualMIDI from https://www.tobias-erichsen.de/software/virtualmidi.html"@
                    })
                    &&& *final(self) == *old(self)
                },
            },
    {
        if result.is_ok() {
            let name = identity.name.clone();
            self.backend = if windows_11 {
                Backend::MidiServices(
                    MidiServicesDevice { name, sent: Ghost(Seq::empty()), closings: Ghost(0) },
                )
            } else {
                Backend::TeVirtualMidi(
                    TeVirtualMidiDevice { name, sent: Ghost(Seq::empty()), closings: Ghost(0) },
                )
            };
        }
        backend_result(windows_11, result)
    }
}

impl VirtualMidiDevice for WindowsVirtualDevice {
    closed spec fn named(&self) -> Seq<char> {
        match self.backend {
            Backend::TeVirtualMidi(d) => d.named(),
            Backend::MidiServices(d) => d.named(),
            Backend::Uninit => ""@,
        }
    }

    closed spec fn sent(&self) -> Seq<Seq<u8>> {
        self.sent@
    }

    closed spec fn sendings(&self) -> Seq<Sending> {
        all_taken(self.sent@)
    }

    closed spec fn closings(&self) -> nat {
        self.closings@
    }

    open spec fn waiting(&self) -> Seq<Seq<u8>> {
        Seq::empty()
    }

    open spec fn silences(&self) -> bool {
        self.created()
    }

    open spec fn reliable(&self) -> bool {
        true
    }

    fn create(&mut self, identity: &DeviceIdentity) -> (r: Result<(), String>)
        ensures
            r matches Err(e) && e@ == (if old(self).build() is Some && old(self).build()->0
                >= WINDOWS_11_BUILD {
                "Windows MIDI Services failed. MIDI Services may need to be restarted (taskkill /F /IM midisrv.exe)."@
            } else {
                "Virtual MIDI device creation failed. Install teVirtualMIDI from https://www.tobias-erichsen.de/software/virtualmidi.html"@
            }),
            *final(self) == *old(self),
    {
        if is_windows_11(self.build) {
            self.create_win11(identity)
        } else {
            self.create_win10(identity)
        }
    }

    fn send(&mut self, data: &[u8]) -> (r: Result<(), String>)
        ensures
            r is Ok,
            final(self).build() == old(self).build(),
            final(self).on_midi_services() == old(self).on_midi_services(),
            final(self).on_driver() == old(self).on_driver(),
            final(self).created() == old(self).created(),
            final(self).delivered() == (if old(self).created() {
                old(self).delivered().push(data@)
            } else {
                old(self).delivered()
            }),
            final(self).backend_closings() == old(self).backend_closings(),
    {
        let r = match &mut self.backend {
            Backend::TeVirtualMidi(d) => d.send(data),
            Backend::MidiServices(d) => d.send(data),
            Backend::Uninit => Ok(()),
        };
        proof {
            lemma_one_more_taken(self.sent@, data@);
        }
        if r.is_ok() {
            self.sent = Ghost(self.sent@.push(data@));
        }
        r
    }

    fn receive(&mut self) -> (r: Result<Option<Vec<u8>>, String>)
        ensures
            r == Ok::<Option<Vec<u8>>, String>(None),
            *final(self) == *old(self),
    {
        match &mut self.backend {
            Backend::TeVirtualMidi(d) => d.receive(),
            Backend::MidiServices(d) => d.receive(),
            Backend::Uninit => Ok(None),
        }
    }

    fn close(&mut self) -> (r: Result<(), String>)
        ensures
            r is Ok,
            final(self).build() == old(self).build(),
            final(self).on_midi_services() == old(self).on_midi_services(),
            final(self).on_driver() == old(self).on_driver(),
            final(self).created() == old(self).created(),
            final(self).delivered() == old(self).delivered(),
            final(self).backend_closings() == (if old(self).created() {
                old(self).backend_closings() + 1
            } else {
                old(self).backend_closings()
            }),
    {
        self.closings = Ghost(self.closings@ + 1);
        match &mut self.backend {
            Backend::TeVirtualMidi(d) => d.close(),
            Backend::MidiServices(d) => d.close(),
            Backend::Uninit => Ok(()),
        }
    }

    fn silence_and_detach(&mut self) -> (r: Result<(), String>)
        ensures
            !old(self).created() ==> r is Ok && *final(self) == *old(self),
            final(self).build() == old(self).build(),
            final(self).on_midi_services() == old(self).on_midi_services(),
            final(self).on_driver() == old(self).on_driver(),
            final(self).created() == old(self).created(),
            final(self).delivered() == (if old(self).created() {
                old(self).delivered() + all_off()
            } else {
                old(self).delivered()
            }),
            final(self).backend_closings() == (if old(self).created() {
                old(self).backend_closings() + 1
            } else {
                old(self).backend_closings()
            }),
    {
        let r = match &mut self.backend {
            Backend::TeVirtualMidi(d) => d.silence_and_detach(),
            Backend::MidiServices(d) => d.silence_and_detach(),
            Backend::Uninit => {
                return Ok(());
            },
        };
        proof {
            assert(all_taken(self.sent@ + all_off()) =~= all_taken(self.sent@) + all_taken(
                all_off(),
            ));
        }
        if r.is_ok() {
            self.sent = Ghost(self.sent@ + all_off());
            self.closings = Ghost(self.closings@ + 1);
        }
        r
    }

    fn device_name(&self) -> &str {
        match &self.backend {
            Backend::TeVirtualMidi(d) => d.device_name(),
            Backend::MidiServices(d) => d.device_name(),
            Backend::Uninit => "",
        }
    }
}

/// What an attempt on Windows 11 or before it leads to, once the backend has
/// answered. The backend's own words stay in the log.
pub fn backend_result(windows_11: bool, result: Result<(), String>) -> (r: Result<(), String>)
    ensures
        match result {
            Ok(_) => r is Ok,
            Err(_) => r matches Err(e) && e@ == (if windows_11 {
                "Windows MIDI Services failed. MIDI Services may need to be restarted (taskkill /F /IM midisrv.exe)."@
            } else {
                "Virtual MIDI device creation failed. Install teVirtualMIDI from https://www.tobias-erichsen.de/software/virtualmidi.html"@
            }),
        },
{
    match result {
        Ok(_) => Ok(()),
        Err(_) => {
            if windows_11 {
                Err(
                    "Windows MIDI Services failed. MIDI Services may need to be restarted (taskkill /F /IM midisrv.exe).".to_owned(),
                )
            } else {
                Err(
                    "Virtual MIDI device creation failed. Install teVirtualMIDI from https://www.tobias-erichsen.de/software/virtualmidi.html".to_owned(),
                )
            }
        },
    }
}

/// What is said of a step that fails: what failed, the words of the system and, of the
/// steps that use the system itself, its code.
pub proof fn law_failed_step(
    s: &mut MidiServicesSetup,
    before: MidiServicesSetup,
    step: SetupStep,
    error: SystemError,
    text: String,
    message: Seq<char>,
    code: u32,
)
    requires
        before == *old(s),
        before.wf() && before.done() < SETUP_STEPS,
        call_ensures(MidiServicesSetup::next_step, (&before,), Some(step)),
        call_ensures(MidiServicesSetup::step_finished, (s, Err(error)), Err(text)),
        message == error.message@,
        code == error.code,
    ensures
        step is InitializeRuntime ==> text@ == "Failed to initialize WinRT: "@ + message
            + " (0x"@ + hex8(code) + ")"@,
        step is Bootstrap ==> text@ == "Failed to create MIDI SDK bootstrapper: "@ + message
            + " (0x"@ + hex8(code) + ")"@
            + ". Install Windows MIDI Services SDK via: winget install Microsoft.WindowsMIDIServicesSDK"@,
        step is CreateSession ==> text@ == "Failed to create MIDI Services session: "@ + message
            + " (0x"@ + hex8(code) + ")"@,
        step is CreateConfig ==> text@ == "Failed to create virtual device config: "@ + message,
        step is CreateBlock ==> text@ == "Failed to create function block: "@ + message,
        step is SetBlockNumber ==> text@ == "Failed to set block number: "@ + message,
        step is SetBlockName ==> text@ == "Failed to set block name: "@ + message,
        step is ActivateBlock ==> text@ == "Failed to activate block: "@ + message,
        step is SetBlockDirection ==> text@ == "Failed to set block direction: "@ + message,
        step is SetMidi1Mode ==> text@ == "Failed to set MIDI 1.0 mode: "@ + message,
        step is CreateGroup ==> text@ == "Failed to create MidiGroup(0): "@ + message,
        step is SetFirstGroup ==> text@ == "Failed to set first group: "@ + message,
        step is SetGroupCount ==> text@ == "Failed to set group count: "@ + message,
        step is GetFunctionBlocks ==> text@ == "Failed to get function blocks: "@ + message,
        step is AddFunctionBlock ==> text@ == "Failed to add function block: "@ + message,
        step is CreateDevice ==> text@ == "Failed to create virtual MIDI device: "@ + message
            + " (0x"@ + hex8(code) + ")"@
            + ". Windows MIDI Services may not support virtual devices on this version."@,
        step is GetEndpointId ==> text@ == "Failed to get device endpoint ID: "@ + message,
        step is CreateConnection ==> text@ == "Failed to create endpoint connection: "@ + message,
        step is AddMessagePlugin ==> text@ == "Failed to add virtual device as message plugin: "@ + message,
        step is RegisterCallback ==> text@ == "Failed to register message callback: "@ + message,
        step is OpenConnection ==> text@ == "Failed to open MIDI endpoint connection: "@ + message,
{
    reveal_strlit("");
    let init = "Failed to initialize WinRT: "@ + message + " (0x"@ + hex8(code) + ")"@;
    assert(init + ""@ =~= init);
    let session = "Failed to create MIDI Services session: "@ + message + " (0x"@ + hex8(code)
        + ")"@;
    assert(session + ""@ =~= session);
}

/// The setup starts the runtime first and opens the connection last; a step that succeeds
/// is followed by the next one, and a step that fails ends it and can be tried again.
pub proof fn law_setup_goes_on(
    fresh: MidiServicesSetup,
    s: &mut MidiServicesSetup,
    result: Result<(), SystemError>,
    r: Result<Option<SetupStep>, String>,
    before: MidiServicesSetup,
    step: Option<SetupStep>,
    after: MidiServicesSetup,
    next: Option<SetupStep>,
)
    requires
        call_ensures(MidiServicesSetup::new, (), fresh),
        before == *old(s),
        after == *final(s),
        before.wf() && before.done() < 21,
        call_ensures(MidiServicesSetup::next_step, (&before,), step),
        call_ensures(MidiServicesSetup::step_finished, (s, result), r),
        call_ensures(MidiServicesSetup::next_step, (&after,), next),
    ensures
        fresh.done() == 0,
        r is Ok <==> result is Ok,
        r matches Ok(n) ==> n == next && next != step,
        r is Err ==> next == step,
        before.done() == 0 ==> step == Some(SetupStep::InitializeRuntime),
        step == Some(SetupStep::OpenConnection) && r is Ok ==> next is None,
        step == Some(SetupStep::InitializeRuntime) && r is Ok ==> next == Some(SetupStep::Bootstrap),
        step == Some(SetupStep::Bootstrap) && r is Ok ==> next == Some(SetupStep::CreateSession),
        next is None ==> step == Some(SetupStep::OpenConnection),
        step is Some,
{
    let n = before.done();
    if n + 1 < 21 {
        law_setup_order(n, n + 1);
    }
    assert(setup_steps()[0] == SetupStep::InitializeRuntime);
    assert(setup_steps()[20] == SetupStep::OpenConnection);
    if n < 20 {
        law_setup_order(n, 20);
    }
    if n > 0 {
        law_setup_order(0, n);
    }
    if n > 1 {
        law_setup_order(1, n);
    }
}

/// An endpoint carries the identity in its name, its session and its description, and is
/// one block of MIDI 1.0 in both directions on the first group.
pub proof fn law_declared_endpoint(identity: DeviceIdentity, r: EndpointDeclaration)
    requires
        call_ensures(declare_endpoint, (&identity,), r),
    ensures
        r.name@ == identity.name@ && r.block.name@ == identity.name@,
        r.manufacturer@ == identity.manufacturer@,
        r.session_name@ == "MIDInet-"@ + identity.name@,
        r.description@ == "MIDInet virtual device: "@ + identity.name@,
        r.product_instance_id@ == "MIDINET_"@ + uppercase(
            identity.name@.map_values(
                |c: char|
                    if c == ' ' {
                        '_'
                    } else {
                        c
                    },
            ),
        ),
        r.supports_midi1 && !r.supports_midi2 && !r.supports_receiving_jr
            && !r.supports_sending_jr,
        r.static_function_blocks && r.function_blocks == 1 && r.version_major == 1
            && r.version_minor == 0,
        r.block.number == 0 && r.block.active && r.block.direction is Bidirectional
            && r.block.midi1 is Unrestricted && r.block.first_group == 0 && r.block.group_count == 1,
{
    assert(replace_char(identity.name@, ' ', '_') =~= identity.name@.map_values(
        |c: char|
            if c == ' ' {
                '_'
            } else {
                c
            },
    ));
}

/// An endpoint sends once it is connected, and then what the bytes become as packets.
pub proof fn law_port_sends(
    port: MidiServicesPort,
    data: &[u8],
    r: Vec<Packet>,
    packets: Vec<Packet>,
)
    requires
        call_ensures(MidiServicesPort::send, (&port, data), r),
        call_ensures(midi1_to_ump_messages, (data,), packets),
    ensures
        port.connected ==> r@ == packets@,
        !port.connected ==> r@.len() == 0,
{
}

/// What an application sends to an endpoint waits last in its queue, unless it is empty;
/// the oldest gives way where the queue is full.
pub proof fn law_port_receives(
    port: &mut MidiServicesPort,
    word_count: u8,
    w0: u32,
    w1: u32,
    bytes: Vec<u8>,
)
    requires
        old(port).wf(),
        call_ensures(MidiServicesPort::message_received, (port, word_count, w0, w1), ()),
        call_ensures(ump_to_midi1, (word_count, w0, w1), bytes),
    ensures
        bytes@.len() == 0 ==> final(port).feedback@ == old(port).feedback@,
        bytes@.len() > 0 && old(port).feedback@.len() < FEEDBACK_LIMIT ==> final(port).feedback@
            == old(port).feedback@.push(bytes@),
        bytes@.len() > 0 && old(port).feedback@.len() == FEEDBACK_LIMIT ==> final(port).feedback@
            == old(port).feedback@.skip(1).push(bytes@),
        final(port).connected == old(port).connected,
        final(port).detached == old(port).detached,
{
    let all = old(port).feedback@.push(bytes@);
    if old(port).feedback@.len() == FEEDBACK_LIMIT {
        assert(all.skip(1) =~= old(port).feedback@.skip(1).push(bytes@));
    }
}

/// An endpoint is torn down when it is closed, but never once it was let go.
pub proof fn law_port_closes(
    fresh: MidiServicesPort,
    p: &mut MidiServicesPort,
    r: bool,
    q: &mut MidiServicesPort,
    s: &mut MidiServicesPort,
    t: bool,
)
    requires
        call_ensures(MidiServicesPort::new, (), fresh),
        call_ensures(MidiServicesPort::close, (p,), r),
        call_ensures(MidiServicesPort::detach, (q,), ()),
        *old(s) == *final(q),
        call_ensures(MidiServicesPort::close, (s,), t),
    ensures
        !fresh.connected && !fresh.detached && fresh.feedback@.len() == 0,
        r <==> !old(p).detached,
        r ==> !final(p).connected,
        final(q).detached && final(q).connected == old(q).connected,
        !t && final(s).connected == old(q).connected,
{
}

/// The driver is there where a library exports its six functions; the first such library
/// is taken.
pub proof fn law_driver_library(libraries: Vec<Library>, r: Option<usize>, names: Vec<String>, j: int)
    requires
        call_ensures(load, (&libraries,), r),
        call_ensures(driver_function_names, (), names),
    ensures
        names@.len() == 6,
        r matches Some(i) ==> i < libraries@.len() && (libraries@[i as int].exports matches Some(e)
            && forall|k: int| 0 <= k < 6 ==> texts(e@).contains(#[trigger] texts(names@)[k])),
        r is Some && 0 <= j < r->0 || r is None && 0 <= j < libraries@.len() ==> (
        libraries@[j].exports matches Some(e) ==> exists|k: int|
            0 <= k < 6 && !texts(e@).contains(#[trigger] texts(names@)[k])),
{
    assert(texts(names@).len() == names@.len());
    assert(driver_functions().len() == 6);
    if r is None && 0 <= j < libraries@.len() {
        assert(!usable(libraries@[j]));
    }
    if r is Some && 0 <= j < r->0 {
        assert(!usable(libraries@[j]));
    }
}

/// The names of the libraries and of the driver's functions, all of which begin alike.
pub proof fn law_driver_names(names: Vec<String>, libraries: Vec<String>, k: int)
    requires
        call_ensures(driver_function_names, (), names),
        call_ensures(library_names, (), libraries),
    ensures
        libraries@.len() == 2,
        libraries@[0]@ == "teVirtualMIDI64.dll"@,
        libraries@[1]@ == "teVirtualMIDI.dll"@,
        names@.len() == 6,
        0 <= k < 6 ==> names@[k]@.len() > 11 && names@[k]@.take(11) == "virtualMIDI"@,
{
    reveal_strlit("virtualMIDI");
    reveal_strlit("virtualMIDICreatePortEx2");
    reveal_strlit("virtualMIDIClosePort");
    reveal_strlit("virtualMIDISendData");
    reveal_strlit("virtualMIDIGetData");
    reveal_strlit("virtualMIDIGetVersion");
    reveal_strlit("virtualMIDIGetDriverVersion");
    assert(texts(names@).len() == names@.len());
    assert(texts(libraries@).len() == libraries@.len());
    assert(texts(libraries@)[0] == libraries@[0]@ && texts(libraries@)[1] == libraries@[1]@);
    if 0 <= k < 6 {
        assert(texts(names@)[k] == names@[k]@);
        assert(names@[k]@.take(11) =~= "virtualMIDI"@);
    }
}

/// The search for a port: it starts where the driver is there, keeps the first port that
/// brought a MIDI input, closes every other one, and ends after seven attempts.
pub proof fn law_port_search(
    library: Option<usize>,
    inputs: u32,
    start: Result<PortSearch, String>,
    s: &mut PortSearch,
    outcome: PortOutcome,
    r: PortStep,
)
    requires
        call_ensures(PortSearch::start, (library, inputs), start),
        old(s).wf(),
        call_ensures(PortSearch::port_tried, (s, outcome), r),
    ensures
        start is Ok <==> library is Some,
        start matches Ok(p) ==> p.attempt() == 0 && p.inputs_before() == inputs,
        start matches Err(e) ==> e@ == "teVirtualMIDI DLL not found — driver not installed"@,
        r is Keep <==> old(s).attempt() < 6 && (outcome matches PortOutcome::Created(n) && n > old(s).inputs_before()),
        r is Failed <==> old(s).attempt() == 6,
        r matches PortStep::Next { close, .. } ==> (close <==> outcome is Created) && final(s).attempt() == old(s).attempt() + 1,
        r matches PortStep::Failed { close, error } ==> (close <==> outcome is Created) && (
        outcome is NotCreated ==> error@
            == "teVirtualMIDI port creation failed — all flag combinations exhausted"@) && (
        outcome is Created ==> error@
            == "teVirtualMIDI port created but no MIDI Input registered — kernel driver not functioning correctly"@),
        final(s).inputs_before() == old(s).inputs_before(),
{
}

/// What is tried is what the search stands at, before and after an attempt; the first
/// four ways have a callback, and so has the one behind the search, which is the first
/// way again.
pub proof fn law_port_attempts(
    s: &mut PortSearch,
    outcome: PortOutcome,
    r: PortStep,
    before: PortSearch,
    tried: Attempt,
    after: PortSearch,
    next: Attempt,
)
    requires
        old(s).wf(),
        before == *old(s),
        after == *final(s),
        call_ensures(PortSearch::current, (&before,), tried),
        call_ensures(PortSearch::port_tried, (s, outcome), r),
        call_ensures(PortSearch::current, (&after,), next),
    ensures
        r matches PortStep::Keep(a) ==> a == tried && next == tried,
        r matches PortStep::Next { attempt, .. } ==> attempt == next,
        tried.callback <==> before.attempt() < 4 || before.attempt() == 6,
        before.attempt() == 0 || before.attempt() == 4 || before.attempt() == 6 ==> tried.flags
            == 0x0D,
        before.attempt() == 1 ==> tried.flags == 0x0F,
        before.attempt() == 2 || before.attempt() == 5 ==> tried.flags == 0x01,
        before.attempt() == 3 ==> tried.flags == 0,
{
}

/// A port of the driver queues what its callback brings, hands it out oldest first, and
/// without a callback hands out what the driver was asked for while it is open.
pub proof fn law_driver_port(
    attempt: Attempt,
    fresh: TePort,
    p: &mut TePort,
    data: Vec<u8>,
    q: &mut TePort,
    polled: Option<Vec<u8>>,
    r: Option<Vec<u8>>,
)
    requires
        call_ensures(TePort::new, (attempt,), fresh),
        old(p).wf(),
        call_ensures(TePort::midi_data_callback, (p, data), ()),
        *old(q) == *final(p),
        call_ensures(TePort::receive, (q, polled), r),
    ensures
        fresh.open && !fresh.detached && fresh.callback == attempt.callback
            && fresh.feedback@.len() == 0,
        data@.len() == 0 ==> final(p).feedback@ == old(p).feedback@,
        data@.len() > 0 && old(p).feedback@.len() < CALLBACK_LIMIT ==> final(p).feedback@ == old(p).feedback@.push(data@),
        data@.len() > 0 && old(p).feedback@.len() == CALLBACK_LIMIT ==> final(p).feedback@ == old(p).feedback@.skip(1).push(data@),
        old(p).callback && old(p).feedback@.len() == 0 && data@.len() > 0 ==> (r matches Some(m)
            && m@ == data@),
        old(p).callback && old(p).feedback@.len() == 0 && data@.len() == 0 ==> r is None,
        old(p).callback && 0 < old(p).feedback@.len() < CALLBACK_LIMIT ==> (r matches Some(m) && m@
            == old(p).feedback@[0]),
        !old(p).callback && old(p).open && (polled matches Some(m) && m@.len() > 0) ==> r == polled,
        !old(p).callback && !(old(p).open && (polled matches Some(m) && m@.len() > 0)) ==> r is None,
{
    let all = old(p).feedback@.push(data@);
    if old(p).feedback@.len() == CALLBACK_LIMIT {
        assert(all.skip(1) =~= old(p).feedback@.skip(1).push(data@));
    }
}

/// A port of the driver is closed once, and not at all once it was let go.
pub proof fn law_driver_port_closes(
    p: &mut TePort,
    first: bool,
    q: &mut TePort,
    second: bool,
    s: &mut TePort,
    t: &mut TePort,
    third: bool,
)
    requires
        call_ensures(TePort::close, (p,), first),
        *old(q) == *final(p),
        call_ensures(TePort::close, (q,), second),
        call_ensures(TePort::detach, (s,), ()),
        *old(t) == *final(s),
        call_ensures(TePort::close, (t,), third),
    ensures
        first <==> old(p).open && !old(p).detached,
        !second,
        first ==> !final(p).open,
        final(s).detached && final(s).open == old(s).open,
        !third && final(t).open == old(s).open,
{
}

/// Windows 11 begins with build 22000, and outside Windows it is not there.
pub proof fn law_windows_11(build: Option<u32>, r: bool)
    requires
        call_ensures(is_windows_11, (build,), r),
    ensures
        build is None ==> !r,
        build matches Some(b) ==> (r <==> b >= 22000),
{
}

/// Where the crash mark is: always the same file, in the user's application data, else
/// beside the program, else in the working directory.
pub proof fn law_crash_mark_path(
    local_app_data: Option<String>,
    exe_dir: Option<String>,
    r: Vec<String>,
)
    requires
        call_ensures(crash_sentinel, (&local_app_data, &exe_dir), r),
    ensures
        r@.len() > 0 && r@[r@.len() - 1]@ == ".midinet-midi-services-crash"@,
        local_app_data matches Some(d) ==> r@.len() == 3 && r@[0]@ == d@ && r@[1]@ == "MIDInet"@,
        local_app_data is None && exe_dir is Some ==> r@.len() == 2 && r@[0]@ == exe_dir->0@,
        local_app_data is None && exe_dir is None ==> r@.len() == 2 && r@[0]@ == "."@,
{
    let v = texts(r@);
    assert(v.len() == r@.len());
    assert(v[r@.len() - 1] == r@[r@.len() - 1]@);
    assert(v[0] == r@[0]@);
    if r@.len() > 1 {
        assert(v[1] == r@[1]@);
    }
}

/// An attempt resets the service first where the last one was cut short or the user asks
/// for it. It creates the device once, between writing the mark and removing it.
pub proof fn law_creation_steps(
    mark_exists: bool,
    skip_setting: Option<String>,
    reset: bool,
    r: Vec<Win11Step>,
    i: int,
)
    requires
        call_ensures(must_reset_service, (mark_exists, &skip_setting), reset),
        call_ensures(creation_steps, (mark_exists, &skip_setting), r),
    ensures
        reset <==> mark_exists || (skip_setting matches Some(s) && s@ == "1"@),
        ({
            let n = r@.len();
            &&& n >= 3
            &&& r@[n - 3] is WriteMark && r@[n - 2] is CreateDevice && r@[n - 1] is RemoveMark
            &&& reset <==> n > 3
            &&& reset ==> n == 6 && r@[0] is KillService && r@[1] is RemoveMark
                && r@[2] is WaitForService
            &&& 0 <= i < n && r@[i] is CreateDevice ==> i == n - 2
        }),
{
}

/// What a backend's answer means on Windows: success is success, and a failure is told in
/// the words of the version, whatever the backend said.
pub proof fn law_backend_answer(
    windows_11: bool,
    result: Result<(), String>,
    r: Result<(), String>,
    d: &mut WindowsVirtualDevice,
    identity: DeviceIdentity,
    s: Result<(), String>,
)
    requires
        call_ensures(backend_result, (windows_11, result), r),
        call_ensures(WindowsVirtualDevice::backend_tried, (d, windows_11, &identity, result), s),
    ensures
        r is Ok <==> result is Ok,
        s is Ok <==> result is Ok,
        r matches Err(e) ==> e@ == (if windows_11 {
            "Windows MIDI Services failed. MIDI Services may need to be restarted (taskkill /F /IM midisrv.exe)."@
        } else {
            "Virtual MIDI device creation failed. Install teVirtualMIDI from https://www.tobias-erichsen.de/software/virtualmidi.html"@
        }),
        r matches Err(e) ==> (s matches Err(f) && f@ == e@ && *final(d) == *old(d)),
        s is Ok ==> final(d).created() && final(d).on_midi_services() == windows_11
            && final(d).on_driver() == !windows_11 && final(d).named() == identity.name@
            && final(d).delivered().len() == 0 && final(d).backend_closings() == 0 && final(d).sent() == old(d).sent() && final(d).build() == old(d).build(),
{
}

/// A message to a device of Windows reaches its backend, if it has one, and a device that
/// is let go is silenced on all channels and closed once.
pub proof fn law_device_of_windows(
    d: &mut WindowsVirtualDevice,
    data: &[u8],
    a: Result<(), String>,
    e: &mut WindowsVirtualDevice,
    b: Result<(), String>,
)
    requires
        call_ensures(WindowsVirtualDevice::send, (d, data), a),
        *old(e) == *final(d),
        call_ensures(WindowsVirtualDevice::silence_and_detach, (e,), b),
    ensures
        a is Ok && b is Ok,
        old(d).created() ==> final(d).delivered() == old(d).delivered().push(data@)
            && final(e).delivered() == old(d).delivered().push(data@) + all_off()
            && final(e).backend_closings() == old(d).backend_closings() + 1,
        !old(d).created() ==> final(e).delivered() == old(d).delivered()
            && final(e).backend_closings() == old(d).backend_closings(),
        final(e).created() == old(d).created(),
{
}

/// Outside Windows no device can be created: each says so in its own words, and a device
/// of Windows in those of its build.
pub proof fn law_nothing_outside_windows(
    services: &mut MidiServicesDevice,
    driver: &mut TeVirtualMidiDevice,
    device: &mut WindowsVirtualDevice,
    identity: DeviceIdentity,
    a: Result<(), String>,
    b: Result<(), String>,
    c: Result<(), String>,
    available: bool,
)
    requires
        call_ensures(MidiServicesDevice::create, (services, &identity), a),
        call_ensures(TeVirtualMidiDevice::create, (driver, &identity), b),
        call_ensures(WindowsVirtualDevice::create, (device, &identity), c),
        call_ensures(MidiServicesDevice::is_available, (), available),
    ensures
        !available,
        a matches Err(e) && e@ == "Windows MIDI Services: not available on non-Windows"@,
        b matches Err(e) && e@ == "teVirtualMIDI: not available on non-Windows"@,
        c is Err,
        (old(device).build() matches Some(n) && n >= 22000) ==> (c matches Err(e) && e@
            == "Windows MIDI Services failed. MIDI Services may need to be restarted (taskkill /F /IM midisrv.exe)."@),
        !(old(device).build() matches Some(n) && n >= 22000) ==> (c matches Err(e) && e@
            == "Virtual MIDI device creation failed. Install teVirtualMIDI from https://www.tobias-erichsen.de/software/virtualmidi.html"@),
        *final(device) == *old(device),
{
}

/// Outside Windows the devices are there in name alone: they take every message and give
/// none back, and closing them is counted.
pub proof fn law_devices_outside_windows(
    services: &mut MidiServicesDevice,
    driver: &mut TeVirtualMidiDevice,
    data: &[u8],
    a: Result<(), String>,
    b: Result<(), String>,
    e: &mut MidiServicesDevice,
    f: &mut TeVirtualMidiDevice,
    c: Result<(), String>,
    d: Result<(), String>,
    w: WindowsVirtualDevice,
    build: u32,
    v: WindowsVirtualDevice,
)
    requires
        call_ensures(MidiServicesDevice::send, (services, data), a),
        call_ensures(TeVirtualMidiDevice::send, (driver, data), b),
        *old(e) == *final(services),
        *old(f) == *final(driver),
        call_ensures(MidiServicesDevice::close, (e,), c),
        call_ensures(TeVirtualMidiDevice::close, (f,), d),
        call_ensures(WindowsVirtualDevice::new, (), w),
        call_ensures(WindowsVirtualDevice::on_build, (build,), v),
    ensures
        a is Ok && b is Ok && c is Ok && d is Ok,
        final(e).sent() == old(services).sent().push(data@),
        final(f).sent() == old(driver).sent().push(data@),
        final(e).closings() == old(services).closings() + 1,
        final(f).closings() == old(driver).closings() + 1,
        !w.created() && w.build() is None,
        !v.created() && v.build() == Some(build),
{
}

} // verus!
