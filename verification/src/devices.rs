//! MIDI devices: identification by flashing lights, and their activity.
use vstd::prelude::*;

use crate::collector::{device_views, DeviceView};
use crate::seqs::{any, first_index, lemma_first_index, lemma_first_index_bounds};
use crate::settings::MidiDeviceInfo;
use crate::text::{
    cat3, decimal, lemma_digits_of_decimal, lemma_split_first, parse_decimal, parsed, same, split,
    str_skip, str_split, str_starts_with, to_decimal,
};
use vstd::string::StringExecFns;

verus! {

/// How long a device is identified, in milliseconds.
pub const IDENTIFY_MS: u64 = 5000;

/// A device that is being identified.
#[derive(Debug)]
pub struct IdentifyRequest {
    pub device_id: String,
    /// Milliseconds since the epoch.
    pub requested_at: u64,
}

/// The devices that are being identified, with the time of the request.
pub open spec fn request_views(v: Seq<IdentifyRequest>) -> Seq<(Seq<char>, u64)> {
    v.map_values(|r: IdentifyRequest| (r.device_id@, r.requested_at))
}

/// The request for a device.
pub open spec fn request_is(id: Seq<char>) -> spec_fn((Seq<char>, u64)) -> bool {
    |r: (Seq<char>, u64)| r.0 == id
}

/// The device with an id.
pub open spec fn device_is(id: Seq<char>) -> spec_fn(DeviceView) -> bool {
    |d: DeviceView| d.id == id
}

/// The requests with the one for a device set to a time.
pub open spec fn with_request(v: Seq<(Seq<char>, u64)>, id: Seq<char>, now: u64) -> Seq<
    (Seq<char>, u64),
> {
    let i = first_index(v, request_is(id));
    if i < v.len() {
        v.update(i, (id, now))
    } else {
        v.push((id, now))
    }
}

/// The requests without the one for a device.
pub open spec fn without_request(v: Seq<(Seq<char>, u64)>, id: Seq<char>) -> Seq<(Seq<char>, u64)> {
    let i = first_index(v, request_is(id));
    if i < v.len() {
        v.remove(i)
    } else {
        v
    }
}

/// Every device is identified at most once at a time.
pub open spec fn requests_distinct(v: Seq<(Seq<char>, u64)>) -> bool {
    forall|i: int, j: int| #![trigger v[i], v[j]] 0 <= i < j < v.len() ==> v[i].0 != v[j].0
}

/// When the identification of a device was asked for; 0 where it was not.
pub open spec fn asked_at(v: Seq<(Seq<char>, u64)>, id: Seq<char>) -> u64 {
    let i = first_index(v, request_is(id));
    if i < v.len() {
        v[i].1
    } else {
        0
    }
}

/// Why a device is not identified, if it is not.
pub open spec fn identify_error(
    devices: Seq<DeviceView>,
    v: Seq<(Seq<char>, u64)>,
    id: Seq<char>,
    now: u64,
) -> Option<Seq<char>> {
    let i = first_index(v, request_is(id));
    if !any(devices, device_is(id)) {
        Some("Device not found"@)
    } else if i < v.len() && now - v[i].1 < IDENTIFY_MS {
        Some("Identify already in progress for this device"@)
    } else {
        None
    }
}

fn request_index(v: &Vec<IdentifyRequest>, id: &str) -> (i: usize)
    ensures
        i == first_index(request_views(v@), request_is(id@)),
        i <= v@.len(),
{
    let mut i: usize = 0;
    while i < v.len()
        invariant
            i <= v@.len(),
            forall|j: int| 0 <= j < i ==> !request_is(id@)(#[trigger] request_views(v@)[j]),
        decreases v@.len() - i,
    {
        if same(v[i].device_id.as_str(), id) {
            proof {
                lemma_first_index(request_views(v@), request_is(id@), i as int);
            }
            return i;
        }
        i += 1;
    }
    proof {
        lemma_first_index(request_views(v@), request_is(id@), i as int);
    }
    i
}

/// Starts to identify a device; its name is returned. The device has to be
/// known, and must not be in the middle of an identification.
pub fn identify_device(
    devices: &Vec<MidiDeviceInfo>,
    requests: &mut Vec<IdentifyRequest>,
    id: &str,
    now: u64,
) -> (r: Result<String, String>)
    requires
        any(device_views(devices@), device_is(id@)) ==> asked_at(
            request_views(old(requests)@),
            id@,
        ) <= now,
    ensures
        match identify_error(device_views(devices@), request_views(old(requests)@), id@, now) {
            Some(e) => r matches Err(m) && m@ == e && final(requests)@ == old(requests)@,
            None => {
                &&& r matches Ok(name) && name@ == device_views(
                    devices@,
                )[first_index(device_views(devices@), device_is(id@))].name
                &&& request_views(final(requests)@) == with_request(
                    request_views(old(requests)@),
                    id@,
                    now,
                )
            },
        },
{
    let mut k: usize = 0;
    while k < devices.len() && !same(devices[k].id.as_str(), id)
        invariant
            k <= devices@.len(),
            forall|j: int|
                0 <= j < k ==> !device_is(id@)(#[trigger] device_views(devices@)[j]),
        decreases devices@.len() - k,
    {
        k += 1;
    }
    proof {
        lemma_first_index(device_views(devices@), device_is(id@), k as int);
        lemma_first_index_bounds(device_views(devices@), device_is(id@));
    }
    if k == devices.len() {
        return Err("Device not found".to_owned());
    }
    let name = devices[k].name.clone();
    let i: usize = request_index(requests, id);
    let ghost before = request_views(requests@);
    if i < requests.len() {
        if now - requests[i].requested_at < IDENTIFY_MS {
            return Err("Identify already in progress for this device".to_owned());
        }
        let mut r = requests.remove(i);
        assert(before[i as int] == (r.device_id@, r.requested_at));
        proof {
            lemma_first_index_bounds(before, request_is(id@));
        }
        r.requested_at = now;
        requests.insert(i, r);
        assert(request_views(requests@) =~= before.update(i as int, (id@, now)));
    } else {
        let r = IdentifyRequest { device_id: id.to_owned(), requested_at: now };
        requests.push(r);
        assert(request_views(requests@) =~= before.push((id@, now)));
    }
    Ok(name)
}

/// Ends the identification of a device.
pub fn cancel_identify(requests: &mut Vec<IdentifyRequest>, id: &str)
    ensures
        request_views(final(requests)@) == without_request(request_views(old(requests)@), id@),
{
    let ghost before = request_views(requests@);
    let i: usize = request_index(requests, id);
    if i < requests.len() {
        requests.remove(i);
        assert(request_views(requests@) =~= before.remove(i as int));
    }
}

// ── Lights ──

/// Number of notes that are flashed, from note 0 on.
pub const FLASH_NOTES: u8 = 40;

/// Notes 0 to 39 with a status byte and a velocity.
pub open spec fn all_notes(status: u8, velocity: u8) -> Seq<u8> {
    Seq::new(
        120,
        |i: int|
            if i % 3 == 0 {
                status
            } else if i % 3 == 1 {
                (i / 3) as u8
            } else {
                velocity
            },
    )
}

fn push_notes(status: u8, velocity: u8) -> (buf: Vec<u8>)
    ensures
        buf@ == all_notes(status, velocity),
{
    let mut buf: Vec<u8> = Vec::new();
    let mut n: u8 = 0;
    while n < FLASH_NOTES
        invariant
            n <= FLASH_NOTES,
            buf@ =~= all_notes(status, velocity).take(3 * n),
        decreases FLASH_NOTES - n,
    {
        buf.push(status);
        buf.push(n);
        buf.push(velocity);
        n += 1;
    }
    assert(all_notes(status, velocity).take(120) =~= all_notes(status, velocity));
    buf
}

/// The bytes that turn all lights on or off.
pub fn flash_bytes(on: bool) -> (buf: Vec<u8>)
    ensures
        buf@ == if on {
            all_notes(0x90, 0x7F)
        } else {
            all_notes(0x80, 0)
        },
{
    if on {
        push_notes(0x90, 0x7F)
    } else {
        push_notes(0x80, 0)
    }
}

/// The bytes that end an identification: all lights off, all notes off, all
/// controllers reset.
pub fn flash_end_bytes() -> (buf: Vec<u8>)
    ensures
        buf@ == all_notes(0x80, 0) + seq![0xB0u8, 123u8, 0u8, 0xB0u8, 121u8, 0u8],
{
    let mut buf = push_notes(0x80, 0);
    buf.push(0xB0);
    buf.push(123);
    buf.push(0);
    buf.push(0xB0);
    buf.push(121);
    buf.push(0);
    assert(buf@ =~= all_notes(0x80, 0) + seq![0xB0u8, 123u8, 0u8, 0xB0u8, 121u8, 0u8]);
    buf
}

/// The time between two changes of the lights.
pub const FLASH_MS: u64 = 200;

/// What is done next about the lights of a device.
#[derive(Debug, PartialEq, Eq)]
pub enum FlashStep {
    /// Wait for the next change and write the bytes.
    Change(Vec<u8>),
    /// Write the bytes; the identification is over.
    End(Vec<u8>),
}

/// Decides what follows `changes` changes of the lights, so long after the start:
/// the lights go on first, then off and on in turn, until the time is over.
pub fn flash_step(elapsed_ms: u64, changes: u64) -> (r: FlashStep)
    ensures
        if elapsed_ms < IDENTIFY_MS {
            r matches FlashStep::Change(bytes) && bytes@ == (if changes % 2 == 0 {
                all_notes(0x90, 0x7F)
            } else {
                all_notes(0x80, 0)
            })
        } else {
            r matches FlashStep::End(bytes) && bytes@ == all_notes(0x80, 0)
                + seq![0xB0u8, 123u8, 0u8, 0xB0u8, 121u8, 0u8]
        },
{
    if elapsed_ms < IDENTIFY_MS {
        FlashStep::Change(flash_bytes(changes % 2 == 0))
    } else {
        FlashStep::End(flash_end_bytes())
    }
}

/// The raw MIDI file of a device id such as `hw:3,0,0`: `/dev/snd/midiC3D0`.
/// A device number that is missing or no number is 0.
pub open spec fn rawmidi_path(id: Seq<char>) -> Option<Seq<char>> {
    if !"hw:"@.is_prefix_of(id) {
        None
    } else {
        let parts = split(id.skip(3), ',');
        match parsed(parts[0], u32::MAX as int) {
            None => None,
            Some(card) => {
                let dev = if parts.len() > 1 {
                    match parsed(parts[1], u32::MAX as int) {
                        Some(d) => d,
                        None => 0,
                    }
                } else {
                    0
                };
                Some("/dev/snd/midiC"@ + decimal(card as nat) + "D"@ + decimal(dev as nat))
            },
        }
    }
}

/// The raw MIDI file of a device id.
pub fn parse_rawmidi_path(device_id: &str) -> (r: Option<String>)
    ensures
        match r {
            Some(p) => rawmidi_path(device_id@) == Some(p@),
            None => rawmidi_path(device_id@) is None,
        },
{
    if !str_starts_with(device_id, "hw:") {
        return None;
    }
    proof {
        reveal_strlit("hw:");
    }
    let rest = str_skip(device_id, 3);
    let parts = str_split(rest.as_str(), ',');
    assert(split(rest@, ',').len() == parts@.len());
    assert(split(rest@, ',')[0] == parts@[0]@);
    let card: u64 = match parse_decimal(parts[0].as_str(), u32::MAX as u64) {
        Some(n) => n,
        None => {
            return None;
        },
    };
    let dev: u64 = if parts.len() > 1 {
        assert(split(rest@, ',')[1] == parts@[1]@);
        match parse_decimal(parts[1].as_str(), u32::MAX as u64) {
            Some(n) => n,
            None => 0,
        }
    } else {
        0
    };
    let c = to_decimal(card);
    let d = to_decimal(dev);
    let mut path = cat3("/dev/snd/midiC", c.as_str(), "D");
    path.append(d.as_str());
    Some(path)
}

// ── Activity ──

/// The last message of a device.
#[derive(Debug)]
pub struct DeviceActivity {
    pub device_id: String,
    pub last_activity_ms: u64,
    pub last_message: String,
    pub message_count: u64,
}

pub struct ActivityView {
    pub device_id: Seq<char>,
    pub last_activity_ms: u64,
    pub last_message: Seq<char>,
    pub message_count: u64,
}

impl View for DeviceActivity {
    type V = ActivityView;

    open spec fn view(&self) -> ActivityView {
        ActivityView {
            device_id: self.device_id@,
            last_activity_ms: self.last_activity_ms,
            last_message: self.last_message@,
            message_count: self.message_count,
        }
    }
}

/// The views of several activities.
pub open spec fn activity_views(v: Seq<DeviceActivity>) -> Seq<ActivityView> {
    v.map_values(|a: DeviceActivity| a@)
}

/// The activity of a device.
pub open spec fn activity_is(id: Seq<char>) -> spec_fn(ActivityView) -> bool {
    |a: ActivityView| a.device_id == id
}

/// The activities with that of one device set.
pub open spec fn with_activity(v: Seq<ActivityView>, a: ActivityView) -> Seq<ActivityView> {
    let i = first_index(v, activity_is(a.device_id));
    if i < v.len() {
        v.update(i, a)
    } else {
        v.push(a)
    }
}

/// A report of the host about a device.
pub struct ReportActivityRequest {
    pub last_message: String,
    pub message_count: u64,
}

/// Takes in a report about a device; it replaces the last one.
pub fn report_device_activity(
    activity: &mut Vec<DeviceActivity>,
    device_id: &str,
    req: ReportActivityRequest,
    now: u64,
)
    ensures
        activity_views(final(activity)@) == with_activity(
            activity_views(old(activity)@),
            ActivityView {
                device_id: device_id@,
                last_activity_ms: now,
                last_message: req.last_message@,
                message_count: req.message_count,
            },
        ),
{
    let a = DeviceActivity {
        device_id: device_id.to_owned(),
        last_activity_ms: now,
        last_message: req.last_message,
        message_count: req.message_count,
    };
    let ghost before = activity_views(activity@);
    let mut i: usize = 0;
    while i < activity.len() && !same(activity[i].device_id.as_str(), device_id)
        invariant
            i <= activity@.len(),
            before == activity_views(activity@),
            activity_views(old(activity)@) == before,
            forall|j: int| 0 <= j < i ==> !activity_is(device_id@)(#[trigger] before[j]),
        decreases activity@.len() - i,
    {
        i += 1;
    }
    proof {
        lemma_first_index(before, activity_is(device_id@), i as int);
    }
    if i < activity.len() {
        activity.remove(i);
        activity.insert(i, a);
        assert(activity_views(activity@) =~= before.update(i as int, a@));
    } else {
        activity.push(a);
        assert(activity_views(activity@) =~= before.push(a@));
    }
}

// ── Laws ──

/// A device that is being identified is not identified again before its time
/// is over, and can be once it was cancelled.
pub proof fn law_identify(
    devices: Seq<DeviceView>,
    v: Seq<(Seq<char>, u64)>,
    id: Seq<char>,
    t1: u64,
    t2: u64,
)
    requires
        requests_distinct(v),
        any(devices, device_is(id)),
        t1 <= t2,
    ensures
        requests_distinct(with_request(v, id, t1)),
        identify_error(devices, with_request(v, id, t1), id, t2) is Some <==> t2 - t1 < IDENTIFY_MS,
        identify_error(devices, without_request(with_request(v, id, t1), id), id, t2) is None,
{
    let p = request_is(id);
    lemma_first_index_bounds(v, p);
    let w = with_request(v, id, t1);
    let i = first_index(v, p);
    assert forall|j: int| 0 <= j < i implies !p(#[trigger] w[j]) by {
        assert(!p(v[j]));
    }
    lemma_first_index(w, p, i);
    let x = without_request(w, id);
    assert(requests_distinct(w));
    assert forall|j: int| 0 <= j < x.len() implies !p(#[trigger] x[j]) by {
        let orig = if j < i { j } else { j + 1 };
        assert(x[j] == w[orig]);
        assert(w[i].0 == id);
        if orig < i {
            assert(w[orig].0 != w[i].0);
        } else {
            assert(w[i].0 != w[orig].0);
        }
    }
    lemma_first_index(x, p, x.len() as int);
}

/// When a device is identified: it has to be there, and its last request has to lie five
/// seconds back. Its name is answered, and the request is noted with its time.
pub proof fn law_identified_device(
    devices: Vec<MidiDeviceInfo>,
    requests: &mut Vec<IdentifyRequest>,
    id: &str,
    now: u64,
    r: Result<String, String>,
    k: int,
)
    requires
        call_ensures(identify_device, (&devices, requests, id, now), r),
        0 <= k < old(requests)@.len() ==> old(requests)@[k].device_id@ == id@ && (forall|j: int|
            0 <= j < k ==> (#[trigger] old(requests)@[j]).device_id@ != id@),
        !(0 <= k < old(requests)@.len()) ==> forall|j: int|
            0 <= j < old(requests)@.len() ==> (#[trigger] old(requests)@[j]).device_id@ != id@,
    ensures
        ({
            let known = exists|i: int|
                0 <= i < devices@.len() && (#[trigger] devices@[i]).id@ == id@;
            let busy = 0 <= k < old(requests)@.len() && now - old(requests)@[k].requested_at
                < 5000;
            &&& r is Ok <==> known && !busy
            &&& !known ==> (r matches Err(e) && e@ == "Device not found"@)
            &&& known && busy ==> (r matches Err(e) && e@
                == "Identify already in progress for this device"@)
            &&& r matches Ok(name) ==> exists|i: int|
                0 <= i < devices@.len() && (#[trigger] devices@[i]).id@ == id@ && devices@[i].name@
                    == name@
            &&& r is Ok ==> request_views(final(requests)@).contains((id@, now))
            &&& r is Err ==> final(requests)@ == old(requests)@
        }),
{
    let d = device_views(devices@);
    let v = request_views(old(requests)@);
    lemma_first_index_bounds(d, device_is(id@));
    lemma_first_index_bounds(v, request_is(id@));
    if exists|i: int| 0 <= i < devices@.len() && (#[trigger] devices@[i]).id@ == id@ {
        let i = choose|i: int| 0 <= i < devices@.len() && (#[trigger] devices@[i]).id@ == id@;
        assert(device_is(id@)(d[i]));
    }
    if any(d, device_is(id@)) {
        let i = first_index(d, device_is(id@));
        assert(d[i] == devices@[i]@);
        assert(devices@[i].id@ == id@);
    }
    if 0 <= k < v.len() {
        assert forall|j: int| 0 <= j < k implies !request_is(id@)(#[trigger] v[j]) by {
            assert(old(requests)@[j].device_id@ != id@);
        }
        lemma_first_index(v, request_is(id@), k);
    } else {
        assert forall|j: int| 0 <= j < v.len() implies !request_is(id@)(#[trigger] v[j]) by {
            assert(old(requests)@[j].device_id@ != id@);
        }
        lemma_first_index(v, request_is(id@), v.len() as int);
    }
    if r is Ok {
        let w = request_views(final(requests)@);
        assert(w[first_index(v, request_is(id@))] == (id@, now));
    }
}

/// A request that is cancelled is gone, and all others stay.
pub proof fn law_cancelled_request(
    requests: &mut Vec<IdentifyRequest>,
    id: &str,
    other: (Seq<char>, u64),
)
    requires
        call_ensures(cancel_identify, (requests, id), ()),
        requests_distinct(request_views(old(requests)@)),
    ensures
        other.0 == id@ ==> !request_views(final(requests)@).contains(other),
        other.0 != id@ ==> (request_views(final(requests)@).contains(other) <==> request_views(
            old(requests)@,
        ).contains(other)),
{
    let v = request_views(old(requests)@);
    let w = request_views(final(requests)@);
    let p = request_is(id@);
    let i = first_index(v, p);
    lemma_first_index_bounds(v, p);
    if w.contains(other) {
        let k = w.index_of(other);
        let there = if k < i {
            k
        } else {
            k + 1
        };
        if i < v.len() {
            assert(v[there] == other);
            assert(v[i].0 != v[there].0);
        } else {
            assert(!p(v[k]));
        }
    }
    if v.contains(other) && other.0 != id@ {
        let k = v.index_of(other);
        if i < v.len() {
            assert(k != i);
            if k < i {
                assert(w[k] == other);
            } else {
                assert(w[k - 1] == other);
            }
        }
    }
}

/// The lights of an identification: notes 0 to 39 of the first channel, on with full
/// velocity and off, in turn every time, for five seconds; at the end they are off, and
/// all notes and controllers are reset.
pub proof fn law_lights(elapsed_ms: u64, changes: u64, r: FlashStep, n: int)
    requires
        call_ensures(flash_step, (elapsed_ms, changes), r),
        0 <= n < 40,
    ensures
        elapsed_ms < 5000 <==> r is Change,
        r matches FlashStep::Change(b) ==> b@.len() == 120 && b@[3 * n + 1] == n && (if changes % 2
            == 0 {
            b@[3 * n] == 0x90 && b@[3 * n + 2] == 127
        } else {
            b@[3 * n] == 0x80 && b@[3 * n + 2] == 0
        }),
        r matches FlashStep::End(b) ==> b@.len() == 126 && b@[3 * n] == 0x80 && b@[3 * n + 1] == n
            && b@[3 * n + 2] == 0 && b@.skip(120) == seq![0xB0u8, 123u8, 0u8, 0xB0u8, 121u8, 0u8],
{
    if let FlashStep::End(b) = r {
        assert(b@.skip(120) =~= seq![0xB0u8, 123u8, 0u8, 0xB0u8, 121u8, 0u8]);
    }
}

/// The file of a card and its device: the two numbers of the id, the second one 0 where
/// it is missing; an id of another kind has none.
pub proof fn law_raw_midi_file(
    id: &str,
    r: Option<String>,
    card: u32,
    dev: u32,
    rest: Seq<char>,
)
    requires
        call_ensures(parse_rawmidi_path, (id,), r),
    ensures
        id@ == "hw:"@ + (decimal(card as nat) + seq![','] + (decimal(dev as nat) + seq![','] + rest))
            ==> (r matches Some(p) && p@ == "/dev/snd/midiC"@ + decimal(card as nat) + "D"@
            + decimal(dev as nat)),
        id@ == "hw:"@ + (decimal(card as nat) + seq![','] + decimal(dev as nat)) ==> (
        r matches Some(p) && p@ == "/dev/snd/midiC"@ + decimal(card as nat) + "D"@ + decimal(
            dev as nat,
        )),
        id@ == "hw:"@ + decimal(card as nat) ==> (r matches Some(p) && p@ == "/dev/snd/midiC"@
            + decimal(card as nat) + "D"@ + decimal(0)),
        id@.len() < 3 || id@.take(3) != "hw:"@ ==> r is None,
{
    reveal_strlit("hw:");
    let c = decimal(card as nat);
    let d = decimal(dev as nat);
    lemma_digits_of_decimal(card as nat);
    lemma_digits_of_decimal(dev as nat);
    assert(!c.contains(',') && !d.contains(','));
    assert(c.skip(0) =~= c);
    assert(d.skip(0) =~= d);
    lemma_split_first(c, ',', d + seq![','] + rest);
    lemma_split_first(d, ',', rest);
    lemma_split_first(c, ',', d);
    if "hw:"@.is_prefix_of(id@) {
        assert(id@.take(3) =~= "hw:"@);
    }
    let a = c + seq![','] + (d + seq![','] + rest);
    let b = c + seq![','] + d;
    if id@ == "hw:"@ + a {
        assert(id@.take(3) =~= "hw:"@);
        assert(id@.skip(3) =~= a);
        assert(split(a, ',')[0] == c && split(a, ',')[1] == d);
    }
    if id@ == "hw:"@ + b {
        assert(id@.take(3) =~= "hw:"@);
        assert(id@.skip(3) =~= b);
        assert(split(b, ',')[0] == c && split(b, ',')[1] == d);
    }
    if id@ == "hw:"@ + c {
        assert(id@.take(3) =~= "hw:"@);
        assert(id@.skip(3) =~= c);
        assert(split(c, ',')[0] == c);
    }
}

/// A report about a device is what is known of it afterwards, and what is known of other
/// devices stays.
pub proof fn law_activity_is_replaced(
    activity: &mut Vec<DeviceActivity>,
    device_id: &str,
    req: ReportActivityRequest,
    now: u64,
    other: ActivityView,
)
    requires
        call_ensures(report_device_activity, (activity, device_id, req, now), ()),
    ensures
        activity_views(final(activity)@).contains(
            ActivityView {
                device_id: device_id@,
                last_activity_ms: now,
                last_message: req.last_message@,
                message_count: req.message_count,
            },
        ),
        other.device_id != device_id@ ==> (activity_views(final(activity)@).contains(other)
            <==> activity_views(old(activity)@).contains(other)),
        final(activity)@.len() <= old(activity)@.len() + 1,
{
    let v = activity_views(old(activity)@);
    let w = activity_views(final(activity)@);
    let p = activity_is(device_id@);
    let i = first_index(v, p);
    lemma_first_index_bounds(v, p);
    assert(w.len() == final(activity)@.len());
    assert(w[i].device_id == device_id@);
    assert(w.contains(w[i]));
    if other.device_id != device_id@ {
        if v.contains(other) {
            let k = v.index_of(other);
            assert(w[k] == other);
        }
        if w.contains(other) {
            let k = w.index_of(other);
            assert(v[k] == other);
        }
    }
}

/// The lights on and off: forty notes of the first channel from zero on, with full velocity
/// or none; at the end they are off and everything is reset.
pub proof fn law_light_bytes(on: bool, r: Vec<u8>, end: Vec<u8>, off: Vec<u8>, n: int)
    requires
        call_ensures(flash_bytes, (on,), r),
        call_ensures(flash_bytes, (false,), off),
        call_ensures(flash_end_bytes, (), end),
        0 <= n < 40,
    ensures
        r@.len() == 120,
        r@[3 * n] == (if on {
            0x90int
        } else {
            0x80
        }),
        r@[3 * n + 1] == n,
        r@[3 * n + 2] == (if on {
            127int
        } else {
            0
        }),
        end@ == off@ + seq![0xB0u8, 123u8, 0u8, 0xB0u8, 121u8, 0u8],
{
}

} // verus!
