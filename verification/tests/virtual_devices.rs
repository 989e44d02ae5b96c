//! Virtual devices, the backends of Windows and the feedback queue.
use midinet::feedback::{FeedbackBuffer, CALLBACK_LIMIT};
use midinet::virtual_device::{
    all_off_messages, create_device, create_virtual_device, CreateOutcome, CreateStep,
    DeviceCreation, DeviceIdentity, DeviceKind, StubVirtualDevice, VirtualMidiDevice,
};
use midinet::windows_midi::{
    backend_result, crash_sentinel, creation_steps, declare_endpoint, driver_function_names, is_windows_11,
    library_names,
    load, must_reset_service, Attempt, BlockDirection, Library, Midi1Connection,
    MidiServicesDevice, MidiServicesPort, MidiServicesSetup, PortOutcome, PortSearch, PortStep, SetupStep, SystemError, TePort,
    TeVirtualMidiDevice, Win11Step, WindowsVirtualDevice,
};

fn identity() -> DeviceIdentity {
    DeviceIdentity { name: "APC40 mkII".to_string(), manufacturer: "Akai".to_string() }
}

/// A device that records what it is sent and has room for so many messages.
struct Recorder {
    messages: Vec<Vec<u8>>,
    room: usize,
    closed: bool,
}

impl VirtualMidiDevice for Recorder {
    fn create(&mut self, _identity: &DeviceIdentity) -> Result<(), String> {
        Ok(())
    }

    fn send(&mut self, data: &[u8]) -> Result<(), String> {
        if self.messages.len() >= self.room {
            return Err("full".to_string());
        }
        self.messages.push(data.to_vec());
        Ok(())
    }

    fn receive(&mut self) -> Result<Option<Vec<u8>>, String> {
        Ok(None)
    }

    fn close(&mut self) -> Result<(), String> {
        self.closed = true;
        Ok(())
    }

    fn device_name(&self) -> &str {
        "recorder"
    }
}

#[test]
fn every_channel_is_silenced_before_the_close() {
    let mut r = Recorder { messages: Vec::new(), room: 32, closed: false };
    assert_eq!(r.silence_and_detach(), Ok(()));
    assert!(r.closed);
    assert_eq!(r.messages.len(), 32);
    for ch in 0..16usize {
        assert_eq!(r.messages[2 * ch], vec![0xB0 | ch as u8, 120, 0]);
        assert_eq!(r.messages[2 * ch + 1], vec![0xB0 | ch as u8, 123, 0]);
    }
}

#[test]
fn device_that_is_not_silent_is_not_closed() {
    let mut r = Recorder { messages: Vec::new(), room: 5, closed: false };
    assert_eq!(r.silence_and_detach(), Err("full".to_string()));
    assert!(!r.closed);
    assert_eq!(r.messages.len(), 5);
    assert_eq!(r.messages[4], vec![0xB2, 120, 0]);
}

#[test]
fn stub_takes_everything() {
    let mut d = StubVirtualDevice::new();
    assert_eq!(d.device_name(), "");
    assert_eq!(d.create(&identity()), Ok(()));
    assert_eq!(d.device_name(), "APC40 mkII");
    assert_eq!(d.send(&[0x90, 60, 100]), Ok(()));
    assert_eq!(d.receive(), Ok(None));
    assert_eq!(d.send_all_off(), Ok(()));
    assert_eq!(d.silence_and_detach(), Ok(()));
    assert_eq!(d.close(), Ok(()));
}

#[test]
fn windows_keeps_the_backend_that_was_created() {
    for windows_11 in [true, false] {
        let mut w = WindowsVirtualDevice::on_build(if windows_11 { 22000 } else { 19045 });
        assert!(w.backend_tried(windows_11, &identity(), Err("hung".to_string())).is_err());
        assert_eq!(w.device_name(), "");
        assert_eq!(w.backend_tried(windows_11, &identity(), Ok(())), Ok(()));
        assert_eq!(w.device_name(), "APC40 mkII");
        assert_eq!(w.send(&[0x90, 60, 100]), Ok(()));
        assert_eq!(w.silence_and_detach(), Ok(()));
    }
}

#[test]
fn crash_mark_is_there_during_the_attempt() {
    let plain = vec![Win11Step::WriteMark, Win11Step::CreateDevice, Win11Step::RemoveMark];
    assert_eq!(creation_steps(false, &None), plain);
    let mut reset = vec![Win11Step::KillService, Win11Step::RemoveMark, Win11Step::WaitForService];
    reset.extend(plain);
    assert_eq!(creation_steps(true, &None), reset);
    assert_eq!(creation_steps(false, &Some("1".to_string())), reset);
}

#[test]
fn failing_message_is_not_tried_again() {
    let mut r = Recorder { messages: Vec::new(), room: 0, closed: false };
    assert_eq!(r.send_all_off(), Err("full".to_string()));
    assert!(r.messages.is_empty());
    let all = all_off_messages();
    assert_eq!((all.len(), all[31].clone()), (32, vec![0xBF, 123, 0]));
}

#[test]
fn device_of_a_platform() {
    assert_eq!(create_virtual_device("linux"), DeviceKind::Alsa);
    assert_eq!(create_virtual_device("macos"), DeviceKind::CoreMidi);
    assert_eq!(create_virtual_device("windows"), DeviceKind::Windows);
    assert_eq!(create_virtual_device("freebsd"), DeviceKind::Stub);
    assert_eq!(create_device(true, "linux"), DeviceKind::Bridge);
    assert_eq!(create_device(false, "linux"), DeviceKind::Alsa);
}

#[test]
fn hung_creation_is_tried_once_more() {
    let mut c = DeviceCreation::new();
    assert_eq!(c.create_virtual_device_async(CreateOutcome::TimedOut), CreateStep::ResetAndRetry);
    assert_eq!(c.create_virtual_device_async(CreateOutcome::TimedOut), CreateStep::UseUncreated);
    let mut d = DeviceCreation::new();
    assert_eq!(d.create_virtual_device_async(CreateOutcome::TimedOut), CreateStep::ResetAndRetry);
    assert_eq!(d.create_virtual_device_async(CreateOutcome::Created), CreateStep::UseCreated);
}

#[test]
fn failed_creation_is_not_tried_again() {
    let mut c = DeviceCreation::new();
    assert_eq!(c.create_virtual_device_async(CreateOutcome::Failed), CreateStep::UseUncreated);
    assert_eq!(c.create_virtual_device_async(CreateOutcome::Panicked), CreateStep::UseUncreated);
    assert_eq!(c.create_virtual_device_async(CreateOutcome::Created), CreateStep::UseCreated);
}

#[test]
fn feedback_is_first_in_first_out() {
    let mut b = FeedbackBuffer::new(3);
    assert_eq!(b.receive(), None);
    for i in 0u8..5 {
        b.push(vec![i]);
    }
    assert_eq!(b.receive(), Some(vec![2]));
    assert_eq!(b.receive(), Some(vec![3]));
    assert_eq!(b.receive(), Some(vec![4]));
    assert_eq!(b.receive(), None);
}

#[test]
fn windows_backends_refuse_elsewhere() {
    let mut m = MidiServicesDevice::new();
    assert!(!MidiServicesDevice::is_available());
    assert_eq!(
        m.create(&identity()),
        Err("Windows MIDI Services: not available on non-Windows".to_string())
    );
    assert_eq!(m.device_name(), "APC40 mkII");
    assert_eq!(m.send(&[1]), Ok(()));
    assert_eq!(m.receive(), Ok(None));
    assert_eq!(m.silence_and_detach(), Ok(()));
    let mut t = TeVirtualMidiDevice::new();
    assert_eq!(
        t.create(&identity()),
        Err("teVirtualMIDI: not available on non-Windows".to_string())
    );
    assert_eq!(t.device_name(), "APC40 mkII");
    assert_eq!(t.close(), Ok(()));
}

#[test]
fn windows_device_without_a_backend() {
    let mut w = WindowsVirtualDevice::new();
    assert_eq!(w.device_name(), "");
    assert_eq!(w.send(&[0x90, 1, 1]), Ok(()));
    assert_eq!(w.receive(), Ok(None));
    assert_eq!(w.silence_and_detach(), Ok(()));
    assert_eq!(w.close(), Ok(()));
    assert_eq!(
        w.create(&identity()),
        Err("Virtual MIDI device creation failed. Install teVirtualMIDI from https://www.tobias-erichsen.de/software/virtualmidi.html".to_string())
    );
    assert_eq!(w.device_name(), "");
    let mut eleven = WindowsVirtualDevice::on_build(22000);
    assert_eq!(
        eleven.create(&identity()),
        Err("Windows MIDI Services failed. MIDI Services may need to be restarted (taskkill /F /IM midisrv.exe).".to_string())
    );
}

#[test]
fn windows_11_begins_with_its_build() {
    assert!(!is_windows_11(Some(21999)));
    assert!(is_windows_11(Some(22000)));
    assert!(!is_windows_11(None));
    assert_eq!(backend_result(true, Ok(())), Ok(()));
    assert!(backend_result(false, Err("x".to_string())).is_err());
}

#[test]
fn crash_mark_and_reset() {
    assert_eq!(
        crash_sentinel(&Some("C:\\Users\\a\\AppData\\Local".to_string()), &None),
        vec!["C:\\Users\\a\\AppData\\Local", "MIDInet", ".midinet-midi-services-crash"]
    );
    assert_eq!(
        crash_sentinel(&None, &Some("C:\\MIDInet".to_string())),
        vec!["C:\\MIDInet", ".midinet-midi-services-crash"]
    );
    assert_eq!(crash_sentinel(&None, &None), vec![".", ".midinet-midi-services-crash"]);
    assert!(must_reset_service(true, &None));
    assert!(must_reset_service(false, &Some("1".to_string())));
    assert!(!must_reset_service(false, &Some("0".to_string())));
    assert!(!must_reset_service(false, &None));
}

#[test]
fn endpoint_is_declared_in_capitals() {
    let d = declare_endpoint(&identity());
    assert_eq!(d.session_name, "MIDInet-APC40 mkII");
    assert_eq!(d.product_instance_id, "MIDINET_APC40_MKII");
    assert_eq!(d.description, "MIDInet virtual device: APC40 mkII");
    assert_eq!(d.manufacturer, "Akai");
    assert!(d.supports_midi1 && !d.supports_midi2);
    assert_eq!((d.function_blocks, d.version_major, d.version_minor), (1, 1, 0));
    assert_eq!((d.block.number, d.block.first_group, d.block.group_count), (0, 0, 1));
    assert_eq!(d.block.name, "APC40 mkII");
    assert!(d.block.active);
    assert_eq!(d.block.direction, BlockDirection::Bidirectional);
    assert_eq!(d.block.midi1, Midi1Connection::Unrestricted);
}

#[test]
fn setup_runs_through_all_steps() {
    let mut s = MidiServicesSetup::new();
    assert_eq!(s.next_step(), Some(SetupStep::InitializeRuntime));
    let mut steps = 0;
    while s.next_step().is_some() {
        assert!(s.step_finished(Ok(())).is_ok());
        steps += 1;
    }
    assert_eq!(steps, 21);
}

#[test]
fn setup_failures_say_what_failed() {
    let error = || SystemError { message: "no".to_string(), code: 0x8004_0154 };
    let mut s = MidiServicesSetup::new();
    assert_eq!(
        s.step_finished(Err(error())),
        Err("Failed to initialize WinRT: no (0x80040154)".to_string())
    );
    assert_eq!(s.step_finished(Ok(())), Ok(Some(SetupStep::Bootstrap)));
    assert_eq!(
        s.step_finished(Err(error())),
        Err("Failed to create MIDI SDK bootstrapper: no (0x80040154). Install Windows MIDI Services SDK via: winget install Microsoft.WindowsMIDIServicesSDK".to_string())
    );
    assert_eq!(s.step_finished(Ok(())), Ok(Some(SetupStep::CreateSession)));
    assert_eq!(s.step_finished(Ok(())), Ok(Some(SetupStep::CreateConfig)));
    assert_eq!(
        s.step_finished(Err(error())),
        Err("Failed to create virtual device config: no".to_string())
    );
}

#[test]
fn midi_services_port_carries_packets() {
    let mut p = MidiServicesPort::new();
    assert!(p.send(&[0x90, 60, 100]).is_empty());
    p.connected = true;
    assert_eq!(p.send(&[0x90, 60, 100]), vec![(1, 0x2090_3C64, 0)]);
    p.message_received(1, 0x2090_3C64, 0);
    p.message_received(1, 0x5000_0000, 0);
    assert_eq!(p.feedback.receive(), Some(vec![0x90, 60, 100]));
    assert_eq!(p.feedback.receive(), None);
    p.detach();
    assert!(!p.close());
    assert!(p.connected);
    p.detached = false;
    assert!(p.close());
    assert!(!p.connected);
}

#[test]
fn library_has_to_be_complete() {
    let all = || {
        vec![
            "virtualMIDICreatePortEx2".to_string(),
            "virtualMIDIClosePort".to_string(),
            "virtualMIDISendData".to_string(),
            "virtualMIDIGetData".to_string(),
            "virtualMIDIGetVersion".to_string(),
            "virtualMIDIGetDriverVersion".to_string(),
        ]
    };
    assert_eq!(library_names(), vec!["teVirtualMIDI64.dll", "teVirtualMIDI.dll"]);
    assert_eq!(driver_function_names(), all());
    let mut short = all();
    short.pop();
    assert_eq!(load(&vec![Library { exports: Some(short) }, Library { exports: Some(all()) }]), Some(1));
    assert_eq!(load(&vec![Library { exports: None }]), None);
    assert_eq!(load(&vec![Library { exports: Some(all()) }, Library { exports: Some(all()) }]), Some(0));
}

#[test]
fn port_search_keeps_the_first_port_with_an_input() {
    let mut s = PortSearch::start(Some(0), 2).unwrap();
    assert_eq!(s.current(), Attempt { flags: 0x0D, callback: true });
    match s.port_tried(PortOutcome::Created(2)) {
        PortStep::Next { close, attempt } => {
            assert!(close);
            assert_eq!(attempt, Attempt { flags: 0x0F, callback: true });
        }
        other => panic!("{:?}", other),
    }
    match s.port_tried(PortOutcome::NotCreated) {
        PortStep::Next { close, attempt } => {
            assert!(!close);
            assert_eq!(attempt, Attempt { flags: 0x01, callback: true });
        }
        other => panic!("{:?}", other),
    }
    match s.port_tried(PortOutcome::Created(3)) {
        PortStep::Keep(attempt) => assert_eq!(attempt, Attempt { flags: 0x01, callback: true }),
        other => panic!("{:?}", other),
    }
}

#[test]
fn port_search_gives_up() {
    assert_eq!(
        PortSearch::start(None, 0).err(),
        Some("teVirtualMIDI DLL not found — driver not installed".to_string())
    );
    let mut s = PortSearch::start(Some(1), 0).unwrap();
    for _ in 0..6 {
        assert!(matches!(s.port_tried(PortOutcome::NotCreated), PortStep::Next { .. }));
    }
    match s.port_tried(PortOutcome::NotCreated) {
        PortStep::Failed { close, error } => {
            assert!(!close);
            assert_eq!(error, "teVirtualMIDI port creation failed — all flag combinations exhausted");
        }
        other => panic!("{:?}", other),
    }
    match s.port_tried(PortOutcome::Created(9)) {
        PortStep::Failed { close, error } => {
            assert!(close);
            assert_eq!(
                error,
                "teVirtualMIDI port created but no MIDI Input registered — kernel driver not functioning correctly"
            );
        }
        other => panic!("{:?}", other),
    }
}

#[test]
fn driver_port_receives() {
    let mut p = TePort::new(Attempt { flags: 0, callback: true });
    p.midi_data_callback(vec![]);
    for i in 0..CALLBACK_LIMIT + 1 {
        p.midi_data_callback(vec![(i % 128) as u8, 1]);
    }
    assert_eq!(p.receive(Some(vec![9])), Some(vec![1, 1]));
    let mut q = TePort::new(Attempt { flags: 0, callback: false });
    assert_eq!(q.receive(Some(vec![9])), Some(vec![9]));
    assert_eq!(q.receive(Some(vec![])), None);
    assert_eq!(q.receive(None), None);
    assert!(q.close());
    assert!(!q.close());
    assert_eq!(q.receive(Some(vec![9])), None);
    p.detach();
    assert!(!p.close());
    assert!(p.open);
}
