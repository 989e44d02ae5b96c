//! The fleet: the hosts and clients that the administration service knows.
use vstd::prelude::*;

use crate::seqs::{
    any, first_index, lemma_filter_contains, lemma_first_index, lemma_first_index_bounds,
};
use crate::text::{byte_of, decimal, lemma_digits_of_decimal, parse_byte, same, texts};

verus! {

// ── Hosts ──

/// A host on the network.
#[derive(Debug)]
pub struct HostInfo {
    pub id: u8,
    pub name: String,
    /// `primary` or `standby`.
    pub role: String,
    pub ip: String,
    pub uptime_seconds: u64,
    pub device_name: String,
    pub midi_active: bool,
    pub heartbeat_ok: bool,
    pub last_heartbeat_ms: u64,
    pub multicast_group: String,
    pub data_port: u16,
    pub heartbeat_port: u16,
    pub operational_mode: String,
}

pub struct HostView {
    pub id: u8,
    pub name: Seq<char>,
    pub role: Seq<char>,
    pub ip: Seq<char>,
    pub uptime_seconds: u64,
    pub device_name: Seq<char>,
    pub midi_active: bool,
    pub heartbeat_ok: bool,
    pub last_heartbeat_ms: u64,
    pub multicast_group: Seq<char>,
    pub data_port: u16,
    pub heartbeat_port: u16,
    pub operational_mode: Seq<char>,
}

impl View for HostInfo {
    type V = HostView;

    open spec fn view(&self) -> HostView {
        HostView {
            id: self.id,
            name: self.name@,
            role: self.role@,
            ip: self.ip@,
            uptime_seconds: self.uptime_seconds,
            device_name: self.device_name@,
            midi_active: self.midi_active,
            heartbeat_ok: self.heartbeat_ok,
            last_heartbeat_ms: self.last_heartbeat_ms,
            multicast_group: self.multicast_group@,
            data_port: self.data_port,
            heartbeat_port: self.heartbeat_port,
            operational_mode: self.operational_mode@,
        }
    }
}

/// The views of several hosts.
pub open spec fn host_views(v: Seq<HostInfo>) -> Seq<HostView> {
    v.map_values(|h: HostInfo| h@)
}

/// The host with an id.
pub open spec fn host_is(id: u8) -> spec_fn(HostView) -> bool {
    |h: HostView| h.id == id
}

/// Every host has an id of its own.
pub open spec fn hosts_distinct(hosts: Seq<HostView>) -> bool {
    forall|i: int, j: int|
        #![trigger hosts[i], hosts[j]]
        0 <= i < j < hosts.len() ==> hosts[i].id != hosts[j].id
}

// ── Clients ──

/// A client that has registered. Rates are held by the bits of their
/// floating-point form.
#[derive(Debug)]
pub struct ClientInfo {
    pub id: u32,
    pub ip: String,
    pub hostname: String,
    pub os: String,
    pub connected_since: u64,
    pub last_heartbeat_ms: u64,
    pub latency_ms_bits: u32,
    pub packet_loss_percent_bits: u32,
    pub device_name: String,
    pub device_ready: bool,
    pub midi_rate_in_bits: u32,
    pub midi_rate_out_bits: u32,
    pub connection_state: String,
    /// Whether a protected application is running.
    pub midi_apps_active: bool,
    pub installed_apps: Vec<String>,
}

pub struct ClientView {
    pub id: u32,
    pub ip: Seq<char>,
    pub hostname: Seq<char>,
    pub os: Seq<char>,
    pub connected_since: u64,
    pub last_heartbeat_ms: u64,
    pub latency_ms_bits: u32,
    pub packet_loss_percent_bits: u32,
    pub device_name: Seq<char>,
    pub device_ready: bool,
    pub midi_rate_in_bits: u32,
    pub midi_rate_out_bits: u32,
    pub connection_state: Seq<char>,
    pub midi_apps_active: bool,
    pub installed_apps: Seq<Seq<char>>,
}

impl View for ClientInfo {
    type V = ClientView;

    open spec fn view(&self) -> ClientView {
        ClientView {
            id: self.id,
            ip: self.ip@,
            hostname: self.hostname@,
            os: self.os@,
            connected_since: self.connected_since,
            last_heartbeat_ms: self.last_heartbeat_ms,
            latency_ms_bits: self.latency_ms_bits,
            packet_loss_percent_bits: self.packet_loss_percent_bits,
            device_name: self.device_name@,
            device_ready: self.device_ready,
            midi_rate_in_bits: self.midi_rate_in_bits,
            midi_rate_out_bits: self.midi_rate_out_bits,
            connection_state: self.connection_state@,
            midi_apps_active: self.midi_apps_active,
            installed_apps: texts(self.installed_apps@),
        }
    }
}

/// The views of several clients.
pub open spec fn client_views(v: Seq<ClientInfo>) -> Seq<ClientView> {
    v.map_values(|c: ClientInfo| c@)
}

/// The client with an id.
pub open spec fn client_is(id: u32) -> spec_fn(ClientView) -> bool {
    |c: ClientView| c.id == id
}

/// Every client has an id of its own.
pub open spec fn clients_distinct(clients: Seq<ClientView>) -> bool {
    forall|i: int, j: int|
        #![trigger clients[i], clients[j]]
        0 <= i < j < clients.len() ==> clients[i].id != clients[j].id
}

/// What a client says of itself when it starts.
pub struct RegisterClientBody {
    pub id: u32,
    pub ip: String,
    pub hostname: String,
    pub os: String,
    pub device_name: String,
    pub device_ready: bool,
    pub connection_state: String,
}

pub struct RegisterView {
    pub id: u32,
    pub ip: Seq<char>,
    pub hostname: Seq<char>,
    pub os: Seq<char>,
    pub device_name: Seq<char>,
    pub device_ready: bool,
    pub connection_state: Seq<char>,
}

impl View for RegisterClientBody {
    type V = RegisterView;

    open spec fn view(&self) -> RegisterView {
        RegisterView {
            id: self.id,
            ip: self.ip@,
            hostname: self.hostname@,
            os: self.os@,
            device_name: self.device_name@,
            device_ready: self.device_ready,
            connection_state: self.connection_state@,
        }
    }
}

/// A client that registers for the first time.
pub open spec fn new_client(b: RegisterView, now_ms: u64) -> ClientView {
    ClientView {
        id: b.id,
        ip: b.ip,
        hostname: b.hostname,
        os: b.os,
        connected_since: now_ms,
        last_heartbeat_ms: now_ms,
        latency_ms_bits: 0,
        packet_loss_percent_bits: 0,
        device_name: b.device_name,
        device_ready: b.device_ready,
        midi_rate_in_bits: 0,
        midi_rate_out_bits: 0,
        connection_state: b.connection_state,
        midi_apps_active: false,
        installed_apps: Seq::empty(),
    }
}

/// A client that registers again: it keeps the time since which it is
/// connected, and its measured rates.
pub open spec fn returning_client(c: ClientView, b: RegisterView, now_ms: u64) -> ClientView {
    ClientView {
        ip: b.ip,
        hostname: b.hostname,
        os: b.os,
        device_name: b.device_name,
        device_ready: b.device_ready,
        connection_state: b.connection_state,
        last_heartbeat_ms: now_ms,
        ..c
    }
}

/// The clients after a registration at `now_ms`.
pub open spec fn registered(clients: Seq<ClientView>, b: RegisterView, now_ms: u64) -> Seq<
    ClientView,
> {
    let i = first_index(clients, client_is(b.id));
    if i < clients.len() {
        clients.update(i, returning_client(clients[i], b, now_ms))
    } else {
        clients.push(new_client(b, now_ms))
    }
}

/// What a client reports every few seconds.
pub struct ClientHeartbeatBody {
    pub latency_ms_bits: u32,
    pub packet_loss_percent_bits: u32,
    pub midi_rate_in_bits: u32,
    pub midi_rate_out_bits: u32,
    pub device_ready: bool,
    /// Empty when it stays as it is.
    pub device_name: String,
    /// Empty when it stays as it is.
    pub connection_state: String,
    pub midi_apps_active: bool,
    /// Empty when it stays as it is.
    pub installed_apps: Vec<String>,
}

/// A client after a report at `now_ms`.
pub open spec fn reported(c: ClientView, b: ClientHeartbeatBody, now_ms: u64) -> ClientView {
    ClientView {
        last_heartbeat_ms: now_ms,
        latency_ms_bits: b.latency_ms_bits,
        packet_loss_percent_bits: b.packet_loss_percent_bits,
        midi_rate_in_bits: b.midi_rate_in_bits,
        midi_rate_out_bits: b.midi_rate_out_bits,
        device_ready: b.device_ready,
        device_name: if b.device_name@.len() == 0 {
            c.device_name
        } else {
            b.device_name@
        },
        connection_state: if b.connection_state@.len() == 0 {
            c.connection_state
        } else {
            b.connection_state@
        },
        midi_apps_active: b.midi_apps_active,
        installed_apps: if b.installed_apps@.len() == 0 {
            c.installed_apps
        } else {
            texts(b.installed_apps@)
        },
        ..c
    }
}

/// Position of the client with an id, or the number of clients.
pub fn client_index(clients: &Vec<ClientInfo>, id: u32) -> (i: usize)
    ensures
        i == first_index(client_views(clients@), client_is(id)),
        i <= clients@.len(),
{
    let mut i: usize = 0;
    while i < clients.len()
        invariant
            i <= clients@.len(),
            forall|j: int|
                0 <= j < i ==> !client_is(id)(#[trigger] client_views(clients@)[j]),
        decreases clients@.len() - i,
    {
        if clients[i].id == id {
            proof {
                lemma_first_index(client_views(clients@), client_is(id), i as int);
            }
            return i;
        }
        i += 1;
    }
    proof {
        lemma_first_index(client_views(clients@), client_is(id), i as int);
    }
    i
}

/// Enters a client, or refreshes it when it is known already.
pub fn register_client(clients: &mut Vec<ClientInfo>, body: RegisterClientBody, now_ms: u64)
    ensures
        client_views(final(clients)@) == registered(client_views(old(clients)@), body@, now_ms),
{
    let ghost before = client_views(clients@);
    let i: usize = client_index(clients, body.id);
    if i < clients.len() {
        let mut c = take_client(clients, i);
        c.ip = body.ip;
        c.hostname = body.hostname;
        c.os = body.os;
        c.device_name = body.device_name;
        c.device_ready = body.device_ready;
        c.connection_state = body.connection_state;
        c.last_heartbeat_ms = now_ms;
        clients.insert(i, c);
        assert(client_views(clients@) =~= before.update(i as int, c@));
    } else {
        let c = ClientInfo {
            id: body.id,
            ip: body.ip,
            hostname: body.hostname,
            os: body.os,
            connected_since: now_ms,
            last_heartbeat_ms: now_ms,
            latency_ms_bits: 0,
            packet_loss_percent_bits: 0,
            device_name: body.device_name,
            device_ready: body.device_ready,
            midi_rate_in_bits: 0,
            midi_rate_out_bits: 0,
            connection_state: body.connection_state,
            midi_apps_active: false,
            installed_apps: Vec::new(),
        };
        assert(texts(c.installed_apps@) =~= Seq::<Seq<char>>::empty());
        clients.push(c);
        assert(client_views(clients@) =~= before.push(c@));
    }
}

/// Takes a client out of the list.
fn take_client(clients: &mut Vec<ClientInfo>, i: usize) -> (c: ClientInfo)
    requires
        i < old(clients)@.len(),
    ensures
        c == old(clients)@[i as int],
        final(clients)@ == old(clients)@.remove(i as int),
{
    clients.remove(i)
}

/// Takes in a client's report. A client that has not registered is refused.
pub fn client_heartbeat(
    clients: &mut Vec<ClientInfo>,
    id: u32,
    body: ClientHeartbeatBody,
    now_ms: u64,
) -> (r: Result<(), String>)
    ensures
        ({
            let i = first_index(client_views(old(clients)@), client_is(id));
            if i < old(clients)@.len() {
                &&& r is Ok
                &&& client_views(final(clients)@) == client_views(old(clients)@).update(
                    i,
                    reported(client_views(old(clients)@)[i], body, now_ms),
                )
            } else {
                &&& r matches Err(e) && e@ == "Client not registered"@
                &&& final(clients)@ == old(clients)@
            }
        }),
{
    let ghost before = client_views(clients@);
    let i: usize = client_index(clients, id);
    if i >= clients.len() {
        return Err("Client not registered".to_owned());
    }
    let mut c = take_client(clients, i);
    c.last_heartbeat_ms = now_ms;
    c.latency_ms_bits = body.latency_ms_bits;
    c.packet_loss_percent_bits = body.packet_loss_percent_bits;
    c.midi_rate_in_bits = body.midi_rate_in_bits;
    c.midi_rate_out_bits = body.midi_rate_out_bits;
    c.device_ready = body.device_ready;
    if !body.device_name.as_str().is_empty() {
        c.device_name = body.device_name;
    }
    if !body.connection_state.as_str().is_empty() {
        c.connection_state = body.connection_state;
    }
    c.midi_apps_active = body.midi_apps_active;
    if body.installed_apps.len() > 0 {
        c.installed_apps = body.installed_apps;
    }
    clients.insert(i, c);
    assert(client_views(clients@) =~= before.update(i as int, c@));
    Ok(())
}

/// Sets the latency of a client, if it is known.
pub fn set_latency(clients: &mut Vec<ClientInfo>, id: u32, latency_ms_bits: u32)
    ensures
        ({
            let before = client_views(old(clients)@);
            let i = first_index(before, client_is(id));
            client_views(final(clients)@) == if i < before.len() {
                before.update(i, ClientView { latency_ms_bits, ..before[i] })
            } else {
                before
            }
        }),
{
    let ghost before = client_views(clients@);
    let i: usize = client_index(clients, id);
    if i < clients.len() {
        let mut c = take_client(clients, i);
        c.latency_ms_bits = latency_ms_bits;
        clients.insert(i, c);
        assert(client_views(clients@) =~= before.update(i as int, c@));
    }
}

/// The longest time that a client has been silent, in seconds.
pub open spec fn silence(clients: Seq<ClientView>, now_ms: u64) -> int
    decreases clients.len(),
{
    if clients.len() == 0 {
        0
    } else {
        let rest = silence(clients.drop_last(), now_ms);
        let last = clients.last().last_heartbeat_ms;
        let own = if now_ms > last {
            (now_ms - last) / 1000
        } else {
            0
        };
        if own > rest {
            own
        } else {
            rest
        }
    }
}

/// The longest time that a client has been silent, in seconds.
pub fn longest_silence(clients: &Vec<ClientInfo>, now_ms: u64) -> (r: u64)
    ensures
        r == silence(client_views(clients@), now_ms),
{
    let mut r: u64 = 0;
    let mut i: usize = 0;
    assert(client_views(clients@).take(0) =~= Seq::<ClientView>::empty());
    while i < clients.len()
        invariant
            i <= clients@.len(),
            r == silence(client_views(clients@).take(i as int), now_ms),
        decreases clients@.len() - i,
    {
        let ghost next = client_views(clients@).take(i + 1);
        assert(next.drop_last() =~= client_views(clients@).take(i as int));
        assert(next.last() == clients@[i as int]@);
        let last: u64 = clients[i].last_heartbeat_ms;
        let own: u64 = if now_ms > last {
            (now_ms - last) / 1000
        } else {
            0
        };
        if own > r {
            r = own;
        }
        i += 1;
    }
    assert(client_views(clients@).take(i as int) =~= client_views(clients@));
    r
}

// ── Designations ──

/// A request to change the role of a host.
pub struct SetHostRoleBody {
    pub role: String,
}

/// Makes a host the designated primary, or takes the designation away from it.
pub fn set_host_role(designated: Option<u8>, id: u8, body: &SetHostRoleBody) -> (r: Option<u8>)
    ensures
        r == if body.role@ == "primary"@ {
            Some(id)
        } else if designated == Some(id) {
            None
        } else {
            designated
        },
{
    if same(body.role.as_str(), "primary") {
        return Some(id);
    }
    match designated {
        Some(d) if d == id => None,
        other => other,
    }
}

/// A request to give a client the focus or to take it away.
#[derive(Clone, Copy, Debug)]
pub struct SetClientFocusBody {
    pub focus: bool,
}

/// Makes a client the designated focus holder, or takes the designation away
/// from it.
pub fn set_client_focus(designated: Option<u32>, id: u32, body: &SetClientFocusBody) -> (r: Option<
    u32,
>)
    ensures
        r == if body.focus {
            Some(id)
        } else if designated == Some(id) {
            None
        } else {
            designated
        },
{
    if body.focus {
        return Some(id);
    }
    match designated {
        Some(d) if d == id => None,
        other => other,
    }
}

// ── Discovery ──

/// What the network announces of a host. Properties that are missing are `None`.
pub struct HostAnnouncement {
    pub fullname: String,
    pub port: u16,
    pub id: Option<String>,
    pub role: Option<String>,
    pub device: Option<String>,
    pub multicast_group: Option<String>,
    pub ip: Option<String>,
}

/// The multicast group of the primary host.
pub open spec fn default_primary_group() -> Seq<char> {
    "239.69.83.1"@
}

/// The text, or another one where there is none.
pub open spec fn text_or(t: Option<String>, other: Seq<char>) -> Seq<char> {
    match t {
        Some(s) => s@,
        None => other,
    }
}

/// The port above another one, or the highest port.
pub open spec fn port_above(port: u16) -> u16 {
    if port == u16::MAX {
        u16::MAX
    } else {
        (port + 1) as u16
    }
}

/// A host that was announced at `now_ms`.
pub open spec fn announced_host(a: HostAnnouncement, now_ms: u64) -> HostView {
    HostView {
        id: match byte_of(a.id) {
            Some(id) => id,
            None => 0,
        },
        name: a.fullname@,
        role: text_or(a.role, "unknown"@),
        ip: text_or(a.ip, Seq::empty()),
        uptime_seconds: 0,
        device_name: text_or(a.device, "Unknown"@),
        midi_active: false,
        heartbeat_ok: true,
        last_heartbeat_ms: now_ms,
        multicast_group: text_or(a.multicast_group, default_primary_group()),
        data_port: a.port,
        heartbeat_port: port_above(a.port),
        operational_mode: Seq::empty(),
    }
}

/// The hosts after an announcement: a known host is refreshed, a new one added.
pub open spec fn with_host(hosts: Seq<HostView>, h: HostView) -> Seq<HostView> {
    let i = first_index(hosts, host_is(h.id));
    if i < hosts.len() {
        hosts.update(
            i,
            HostView {
                name: h.name,
                role: h.role,
                ip: h.ip,
                device_name: h.device_name,
                heartbeat_ok: true,
                last_heartbeat_ms: h.last_heartbeat_ms,
                ..hosts[i]
            },
        )
    } else {
        hosts.push(h)
    }
}

fn text_or_else(t: Option<String>, other: &str) -> (r: String)
    ensures
        r@ == text_or(t, other@),
{
    match t {
        Some(s) => s,
        None => other.to_owned(),
    }
}

/// Takes in the announcement of a host.
pub fn handle_resolved(hosts: &mut Vec<HostInfo>, a: HostAnnouncement, now_ms: u64)
    ensures
        host_views(final(hosts)@) == with_host(
            host_views(old(hosts)@),
            announced_host(a, now_ms),
        ),
{
    let ghost before = host_views(hosts@);
    let id: u8 = match parse_byte(&a.id) {
        Some(id) => id,
        None => 0,
    };
    let ip: String = match a.ip {
        Some(ip) => ip,
        None => String::new(),
    };
    let host = HostInfo {
        id,
        name: a.fullname,
        role: text_or_else(a.role, "unknown"),
        ip,
        uptime_seconds: 0,
        device_name: text_or_else(a.device, "Unknown"),
        midi_active: false,
        heartbeat_ok: true,
        last_heartbeat_ms: now_ms,
        multicast_group: text_or_else(a.multicast_group, "239.69.83.1"),
        data_port: a.port,
        heartbeat_port: if a.port == u16::MAX {
            u16::MAX
        } else {
            a.port + 1
        },
        operational_mode: String::new(),
    };
    let mut i: usize = 0;
    while i < hosts.len() && hosts[i].id != id
        invariant
            i <= hosts@.len(),
            before == host_views(hosts@),
            host_views(old(hosts)@) == before,
            forall|j: int| 0 <= j < i ==> !host_is(id)(#[trigger] before[j]),
        decreases hosts@.len() - i,
    {
        i += 1;
    }
    proof {
        lemma_first_index(before, host_is(id), i as int);
    }
    if i < hosts.len() {
        let mut h = hosts.remove(i);
        h.name = host.name;
        h.role = host.role;
        h.ip = host.ip;
        h.device_name = host.device_name;
        h.heartbeat_ok = true;
        h.last_heartbeat_ms = now_ms;
        hosts.insert(i, h);
        assert(host_views(hosts@) =~= before.update(i as int, h@));
    } else {
        hosts.push(host);
        assert(host_views(hosts@) =~= before.push(host@));
    }
}

/// The hosts without those of a name.
pub open spec fn without_name(hosts: Seq<HostView>, name: Seq<char>) -> Seq<HostView> {
    hosts.filter(|h: HostView| h.name != name)
}

/// Takes out the hosts of a name.
pub fn handle_removed(hosts: &mut Vec<HostInfo>, fullname: &str)
    ensures
        host_views(final(hosts)@) == without_name(host_views(old(hosts)@), fullname@),
{
    let ghost before = host_views(hosts@);
    let ghost keep = |h: HostView| h.name != fullname@;
    let mut i: usize = 0;
    let ghost mut done: int = 0;
    assert(before.take(0).filter(keep) =~= Seq::<HostView>::empty()) by {
        reveal(Seq::filter);
    }
    while i < hosts.len()
        invariant
            keep == (|h: HostView| h.name != fullname@),
            0 <= i <= hosts@.len(),
            0 <= done <= before.len(),
            hosts@.len() - i == before.len() - done,
            host_views(hosts@).take(i as int) == before.take(done).filter(keep),
            host_views(hosts@).skip(i as int) == before.skip(done),
            host_views(old(hosts)@) == before,
        decreases hosts@.len() - i,
    {
        let ghost h = host_views(hosts@)[i as int];
        let ghost now = host_views(hosts@);
        proof {
            let next = before.take(done + 1);
            assert(h == now.skip(i as int)[0]);
            assert(before.skip(done)[0] == before[done]);
            assert(next.drop_last() =~= before.take(done));
            assert(next.last() == h);
            reveal(Seq::filter);
        }
        if same(hosts[i].name.as_str(), fullname) {
            hosts.remove(i);
            assert(host_views(hosts@) =~= now.remove(i as int));
            assert(host_views(hosts@).take(i as int) =~= now.take(i as int));
            assert(host_views(hosts@).skip(i as int) =~= now.skip(i as int).drop_first());
        } else {
            i += 1;
            assert(now.take(i as int) =~= now.take(i - 1).push(h));
            assert(now.skip(i as int) =~= now.skip(i - 1).drop_first());
        }
        proof {
            assert(before.skip(done).drop_first() =~= before.skip(done + 1));
            done = done + 1;
        }
    }
    assert(host_views(hosts@).take(i as int) =~= host_views(hosts@));
    assert(before.take(done) =~= before);
}

// ── Laws ──

/// A registration keeps the ids of the clients distinct, and the client that
/// registered is known afterwards under what it said of itself.
pub proof fn law_register(clients: Seq<ClientView>, b: RegisterView, now_ms: u64)
    requires
        clients_distinct(clients),
    ensures
        clients_distinct(registered(clients, b, now_ms)),
        ({
            let after = registered(clients, b, now_ms);
            let i = first_index(after, client_is(b.id));
            &&& i < after.len()
            &&& after[i].hostname == b.hostname
            &&& after[i].ip == b.ip
            &&& after[i].last_heartbeat_ms == now_ms
        }),
{
    let p = client_is(b.id);
    let after = registered(clients, b, now_ms);
    let i = first_index(clients, p);
    lemma_first_index_bounds(clients, p);
    assert forall|j: int| 0 <= j < i implies !p(#[trigger] after[j]) by {
        assert(!p(clients[j]));
    }
    lemma_first_index(after, p, i);
}

/// A client that registers twice stands in the list once and keeps the time of
/// its first registration.
pub proof fn law_register_twice(
    clients: Seq<ClientView>,
    first: RegisterView,
    second: RegisterView,
    t1: u64,
    t2: u64,
)
    requires
        first.id == second.id,
        !any(clients, client_is(first.id)),
    ensures
        ({
            let after = registered(registered(clients, first, t1), second, t2);
            &&& after.len() == clients.len() + 1
            &&& after.last() == returning_client(new_client(first, t1), second, t2)
            &&& after.last().connected_since == t1
            &&& after.drop_last() == clients
        }),
{
    let p = client_is(first.id);
    lemma_first_index_bounds(clients, p);
    let mid = registered(clients, first, t1);
    assert forall|j: int| 0 <= j < clients.len() implies !p(#[trigger] mid[j]) by {
        assert(mid[j] == clients[j]);
    }
    lemma_first_index(mid, p, clients.len() as int);
    let after = registered(mid, second, t2);
    assert(after.drop_last() =~= clients);
}

/// An announcement keeps the ids of the hosts distinct.
pub proof fn law_hosts_distinct(hosts: Seq<HostView>, h: HostView)
    requires
        hosts_distinct(hosts),
    ensures
        hosts_distinct(with_host(hosts, h)),
{
    lemma_first_index_bounds(hosts, host_is(h.id));
}

/// After a removal no host of that name is left, and every other host is.
pub proof fn law_removed(hosts: Seq<HostView>, name: Seq<char>, h: HostView)
    ensures
        without_name(hosts, name).contains(h) == (hosts.contains(h) && h.name != name),
{
    lemma_filter_contains(hosts, |x: HostView| x.name != name, h);
}

/// A client that registers stands in the list under its id with all that it said of
/// itself, once; a client that was not there is connected since now, and one that was
/// there keeps the time since when it is. All other clients stay as they are.
pub proof fn law_client_registers(
    clients: &mut Vec<ClientInfo>,
    body: RegisterClientBody,
    now_ms: u64,
    k: int,
)
    requires
        call_ensures(register_client, (clients, body, now_ms), ()),
        clients_distinct(client_views(old(clients)@)),
        0 <= k < final(clients)@.len(),
    ensures
        exists|i: int|
            0 <= i < final(clients)@.len() && (#[trigger] final(clients)@[i]).id == body.id,
        final(clients)@.len() == old(clients)@.len() || final(clients)@.len() == old(clients)@.len() + 1 && forall|j: int|
            0 <= j < old(clients)@.len() ==> (#[trigger] old(clients)@[j]).id != body.id,
        ({
            let c = final(clients)@[k];
            &&& c.id == body.id ==> c.ip@ == body.ip@ && c.hostname@ == body.hostname@ && c.os@
                == body.os@ && c.device_name@ == body.device_name@ && c.device_ready
                == body.device_ready && c.connection_state@ == body.connection_state@
                && c.last_heartbeat_ms == now_ms
            &&& k < old(clients)@.len() ==> {
                let b = old(clients)@[k];
                &&& c.id == b.id
                &&& b.id != body.id ==> c@ == b@
                &&& c.connected_since == b.connected_since
                &&& c.latency_ms_bits == b.latency_ms_bits
                &&& c.packet_loss_percent_bits == b.packet_loss_percent_bits
                &&& c.midi_rate_in_bits == b.midi_rate_in_bits
                &&& c.midi_rate_out_bits == b.midi_rate_out_bits
                &&& c.midi_apps_active == b.midi_apps_active
                &&& texts(c.installed_apps@) == texts(b.installed_apps@)
            }
            &&& k == old(clients)@.len() ==> c.id == body.id && c.connected_since == now_ms
                && c.latency_ms_bits == 0 && c.packet_loss_percent_bits == 0
                && c.midi_rate_in_bits == 0 && c.midi_rate_out_bits == 0 && !c.midi_apps_active
                && c.installed_apps@.len() == 0
        }),
{
    let v = client_views(old(clients)@);
    let w = client_views(final(clients)@);
    let p = client_is(body.id);
    let i = first_index(v, p);
    lemma_first_index_bounds(v, p);
    assert(w.len() == final(clients)@.len());
    assert(w[i] == final(clients)@[i]@);
    assert(final(clients)@[i].id == body.id);
    assert(w[k] == final(clients)@[k]@);
    if k < v.len() {
        assert(v[k] == old(clients)@[k]@);
        if i < v.len() && k != i {
            assert(v[k].id != v[i].id);
        }
    } else {
        assert(texts(final(clients)@[k].installed_apps@).len() == 0);
    }
    if i == v.len() {
        assert forall|j: int| 0 <= j < old(clients)@.len() implies (#[trigger] old(clients)@[j]).id != body.id by {
            assert(!p(v[j]));
        }
    }
}

/// A report of a client is known of it afterwards, with what it leaves empty as it was,
/// and changes no other client; who has not registered cannot report.
pub proof fn law_client_reports(
    clients: &mut Vec<ClientInfo>,
    id: u32,
    body: ClientHeartbeatBody,
    now_ms: u64,
    r: Result<(), String>,
    k: int,
)
    requires
        call_ensures(client_heartbeat, (clients, id, body, now_ms), r),
        clients_distinct(client_views(old(clients)@)),
    ensures
        final(clients)@.len() == old(clients)@.len(),
        r is Ok <==> exists|i: int|
            0 <= i < old(clients)@.len() && (#[trigger] old(clients)@[i]).id == id,
        r matches Err(e) ==> e@ == "Client not registered"@ && final(clients)@ == old(clients)@,
        0 <= k < old(clients)@.len() ==> {
            let b = old(clients)@[k];
            let c = final(clients)@[k];
            &&& c.id == b.id && c.ip@ == b.ip@ && c.hostname@ == b.hostname@ && c.os@ == b.os@
                && c.connected_since == b.connected_since
            &&& b.id != id ==> c@ == b@
            &&& b.id == id ==> {
                &&& c.last_heartbeat_ms == now_ms
                &&& c.latency_ms_bits == body.latency_ms_bits
                &&& c.packet_loss_percent_bits == body.packet_loss_percent_bits
                &&& c.midi_rate_in_bits == body.midi_rate_in_bits
                &&& c.midi_rate_out_bits == body.midi_rate_out_bits
                &&& c.device_ready == body.device_ready
                &&& c.midi_apps_active == body.midi_apps_active
                &&& c.device_name@ == (if body.device_name@.len() == 0 {
                    b.device_name@
                } else {
                    body.device_name@
                })
                &&& c.connection_state@ == (if body.connection_state@.len() == 0 {
                    b.connection_state@
                } else {
                    body.connection_state@
                })
                &&& texts(c.installed_apps@) == (if body.installed_apps@.len() == 0 {
                    texts(b.installed_apps@)
                } else {
                    texts(body.installed_apps@)
                })
            }
        },
{
    let v = client_views(old(clients)@);
    let w = client_views(final(clients)@);
    let p = client_is(id);
    let i = first_index(v, p);
    lemma_first_index_bounds(v, p);
    assert(w.len() == final(clients)@.len());
    assert(v.len() == old(clients)@.len());
    if i < v.len() {
        assert(v[i] == old(clients)@[i]@);
        assert(old(clients)@[i].id == id);
    } else {
        assert forall|j: int| 0 <= j < old(clients)@.len() implies (#[trigger] old(clients)@[j]).id != id by {
            assert(!p(v[j]));
        }
    }
    if 0 <= k < v.len() {
        assert(v[k] == old(clients)@[k]@);
        assert(w[k] == final(clients)@[k]@);
        if i < v.len() && k != i {
            assert(v[k].id != v[i].id);
        }
    }
}

/// The latency of a client is as it was set, and nothing else about any client changes.
pub proof fn law_latency_is_set(
    clients: &mut Vec<ClientInfo>,
    id: u32,
    latency_ms_bits: u32,
    k: int,
)
    requires
        call_ensures(set_latency, (clients, id, latency_ms_bits), ()),
        clients_distinct(client_views(old(clients)@)),
    ensures
        final(clients)@.len() == old(clients)@.len(),
        0 <= k < old(clients)@.len() ==> {
            let b = old(clients)@[k]@;
            let c = final(clients)@[k]@;
            &&& b.id != id ==> c == b
            &&& b.id == id ==> c == (ClientView { latency_ms_bits, ..b })
        },
{
    let v = client_views(old(clients)@);
    let w = client_views(final(clients)@);
    let p = client_is(id);
    let i = first_index(v, p);
    lemma_first_index_bounds(v, p);
    assert(w.len() == final(clients)@.len());
    if 0 <= k < v.len() {
        assert(v[k] == old(clients)@[k]@);
        assert(w[k] == final(clients)@[k]@);
        if i < v.len() && k != i {
            assert(v[k].id != v[i].id);
        }
        if i == v.len() {
            assert(!p(v[k]));
        }
    }
}

proof fn lemma_silence(clients: Seq<ClientView>, now_ms: u64, k: int)
    ensures
        silence(clients, now_ms) >= 0,
        0 <= k < clients.len() && now_ms >= clients[k].last_heartbeat_ms ==> (now_ms
            - clients[k].last_heartbeat_ms) / 1000 <= silence(clients, now_ms),
        silence(clients, now_ms) > 0 ==> exists|i: int|
            0 <= i < clients.len() && now_ms > (#[trigger] clients[i]).last_heartbeat_ms && (now_ms
                - clients[i].last_heartbeat_ms) / 1000 == silence(clients, now_ms),
    decreases clients.len(),
{
    if clients.len() > 0 {
        let rest = clients.drop_last();
        let n = clients.len() - 1;
        lemma_silence(rest, now_ms, k);
        if k < n && k >= 0 {
            assert(rest[k] == clients[k]);
        }
        let s = silence(clients, now_ms);
        if s > 0 {
            if s == silence(rest, now_ms) {
                let i = choose|i: int|
                    0 <= i < rest.len() && now_ms > (#[trigger] rest[i]).last_heartbeat_ms && (
                    now_ms - rest[i].last_heartbeat_ms) / 1000 == silence(rest, now_ms);
                assert(rest[i] == clients[i]);
            } else {
                assert(clients[n] == clients.last());
            }
        }
    }
}

/// The longest silence is that of a client, in whole seconds, and no client has been
/// silent for longer; without a client that was silent it is zero.
pub proof fn law_longest_silence(clients: Vec<ClientInfo>, now_ms: u64, r: u64, k: int)
    requires
        call_ensures(longest_silence, (&clients, now_ms), r),
    ensures
        0 <= k < clients@.len() && now_ms >= clients@[k].last_heartbeat_ms ==> (now_ms
            - clients@[k].last_heartbeat_ms) / 1000 <= r,
        r > 0 ==> exists|i: int|
            0 <= i < clients@.len() && now_ms > (#[trigger] clients@[i]).last_heartbeat_ms && (
            now_ms - clients@[i].last_heartbeat_ms) / 1000 == r,
{
    let v = client_views(clients@);
    lemma_silence(v, now_ms, k);
    if 0 <= k < v.len() {
        assert(v[k] == clients@[k]@);
    }
    if r > 0 {
        let i = choose|i: int|
            0 <= i < v.len() && now_ms > (#[trigger] v[i]).last_heartbeat_ms && (now_ms
                - v[i].last_heartbeat_ms) / 1000 == silence(v, now_ms);
        assert(v[i] == clients@[i]@);
        assert(clients@[i].last_heartbeat_ms == v[i].last_heartbeat_ms);
    }
}

/// Who is made primary is the primary, who was another host no longer is; a host that
/// loses the role leaves it vacant if it had it, and with its holder if it had it not.
pub proof fn law_designated_primary(
    before: Option<u8>,
    id: u8,
    body: SetHostRoleBody,
    after: Option<u8>,
)
    requires
        call_ensures(set_host_role, (before, id, &body), after),
    ensures
        body.role@ == "primary"@ <==> after == Some(id),
        body.role@ != "primary"@ && before != Some(id) ==> after == before,
        body.role@ != "primary"@ && before == Some(id) ==> after is None,
{
}

/// Who is given the focus holds it; who is to lose it does not hold it afterwards, and
/// another holder keeps it.
pub proof fn law_designated_focus(
    before: Option<u32>,
    id: u32,
    body: SetClientFocusBody,
    after: Option<u32>,
)
    requires
        call_ensures(set_client_focus, (before, id, &body), after),
    ensures
        body.focus <==> after == Some(id),
        !body.focus && before != Some(id) ==> after == before,
        !body.focus && before == Some(id) ==> after is None,
{
}

/// A host that is announced is known under what it announced, once, and heard of now;
/// all other hosts stay as they are.
pub proof fn law_host_is_announced(
    hosts: &mut Vec<HostInfo>,
    a: HostAnnouncement,
    now_ms: u64,
    id: u8,
    k: int,
)
    requires
        call_ensures(handle_resolved, (hosts, a, now_ms), ()),
        hosts_distinct(host_views(old(hosts)@)),
        a.id matches Some(t) ==> t@ == decimal(id as nat),
        a.id is None ==> id == 0,
    ensures
        exists|i: int| 0 <= i < final(hosts)@.len() && (#[trigger] final(hosts)@[i]).id == id,
        final(hosts)@.len() == old(hosts)@.len() || final(hosts)@.len() == old(hosts)@.len() + 1
            && forall|j: int| 0 <= j < old(hosts)@.len() ==> (#[trigger] old(hosts)@[j]).id != id,
        0 <= k < final(hosts)@.len() ==> {
            let h = final(hosts)@[k];
            &&& h.id == id ==> {
                &&& h.name@ == a.fullname@
                &&& h.heartbeat_ok
                &&& h.last_heartbeat_ms == now_ms
                &&& a.role matches Some(t) ==> h.role@ == t@
                &&& a.role is None ==> h.role@ == "unknown"@
                &&& a.ip matches Some(t) ==> h.ip@ == t@
                &&& a.ip is None ==> h.ip@.len() == 0
                &&& a.device matches Some(t) ==> h.device_name@ == t@
                &&& a.device is None ==> h.device_name@ == "Unknown"@
            }
            &&& k < old(hosts)@.len() ==> {
                let b = old(hosts)@[k];
                &&& h.id == b.id && h.data_port == b.data_port && h.heartbeat_port
                    == b.heartbeat_port && h.multicast_group@ == b.multicast_group@
                    && h.uptime_seconds == b.uptime_seconds && h.midi_active == b.midi_active
                    && h.operational_mode@ == b.operational_mode@
                &&& b.id != id ==> h@ == b@
            }
            &&& k == old(hosts)@.len() ==> {
                &&& h.id == id
                &&& h.data_port == a.port
                &&& a.port < 65535 ==> h.heartbeat_port == a.port + 1
                &&& a.port == 65535 ==> h.heartbeat_port == 65535
                &&& a.multicast_group matches Some(t) ==> h.multicast_group@ == t@
                &&& a.multicast_group is None ==> h.multicast_group@ == "239.69.83.1"@
                &&& h.uptime_seconds == 0 && !h.midi_active && h.operational_mode@.len() == 0
            }
        },
{
    lemma_digits_of_decimal(id as nat);
    assert(decimal(id as nat).skip(0) =~= decimal(id as nat));
    let v = host_views(old(hosts)@);
    let w = host_views(final(hosts)@);
    let p = host_is(id);
    let i = first_index(v, p);
    lemma_first_index_bounds(v, p);
    assert(announced_host(a, now_ms).id == id);
    assert(w.len() == final(hosts)@.len());
    assert(w[i] == final(hosts)@[i]@);
    assert(final(hosts)@[i].id == id);
    if i == v.len() {
        assert forall|j: int| 0 <= j < old(hosts)@.len() implies (#[trigger] old(hosts)@[j]).id
            != id by {
            assert(!p(v[j]));
        }
    }
    if 0 <= k < w.len() {
        assert(w[k] == final(hosts)@[k]@);
        if k < v.len() {
            assert(v[k] == old(hosts)@[k]@);
            if i < v.len() && k != i {
                assert(v[k].id != v[i].id);
            }
        }
    }
}

/// A host that leaves is no longer known, and every host of another name is.
pub proof fn law_host_is_removed(hosts: &mut Vec<HostInfo>, fullname: &str, h: HostView)
    requires
        call_ensures(handle_removed, (hosts, fullname), ()),
    ensures
        host_views(final(hosts)@).contains(h) <==> host_views(old(hosts)@).contains(h) && h.name
            != fullname@,
{
    law_removed(host_views(old(hosts)@), fullname@, h);
}

/// The place of a client in the list is where its id stands first; who is not in the list
/// has the place behind it.
pub proof fn law_client_place(clients: Vec<ClientInfo>, id: u32, i: usize, k: int)
    requires
        call_ensures(client_index, (&clients, id), i),
    ensures
        i < clients@.len() ==> clients@[i as int].id == id,
        0 <= k < i ==> clients@[k].id != id,
        i <= clients@.len(),
{
    let v = client_views(clients@);
    let p = client_is(id);
    lemma_first_index_bounds(v, p);
    if i < v.len() {
        assert(v[i as int] == clients@[i as int]@);
    }
    if 0 <= k < i {
        assert(!p(v[k]));
        assert(v[k] == clients@[k]@);
    }
}

} // verus!
