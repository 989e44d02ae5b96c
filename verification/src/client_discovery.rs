//! The client's view of the hosts: which are known, which one is active and
//! what its device is called.
use vstd::prelude::*;
use vstd::string::StringExecFns;

use crate::fleet::text_or;
use crate::seqs::{
    any, first, first_index, lemma_filter_contains, lemma_first_index, lemma_first_index_bounds,
};
use crate::text::{
    byte_of, cat, cat3, decimal, lemma_digits_of_decimal, parse_byte, same, str_without_slashes,
    text_opt, texts, to_decimal, without_slashes,
};

verus! {

/// A host that the client has found.
#[derive(Debug)]
pub struct DiscoveredHost {
    pub id: u8,
    pub name: String,
    /// `primary` or `standby`.
    pub role: String,
    /// Addresses in their text form.
    pub addresses: Vec<String>,
    pub multicast_group: String,
    pub data_port: u16,
    pub control_group: Option<String>,
    pub device_name: String,
    pub protocol_version: Option<u8>,
    pub admin_url: Option<String>,
}

pub struct FoundHost {
    pub id: u8,
    pub name: Seq<char>,
    pub role: Seq<char>,
    pub addresses: Seq<Seq<char>>,
    pub multicast_group: Seq<char>,
    pub data_port: u16,
    pub control_group: Option<Seq<char>>,
    pub device_name: Seq<char>,
    pub protocol_version: Option<u8>,
    pub admin_url: Option<Seq<char>>,
}

impl View for DiscoveredHost {
    type V = FoundHost;

    open spec fn view(&self) -> FoundHost {
        FoundHost {
            id: self.id,
            name: self.name@,
            role: self.role@,
            addresses: texts(self.addresses@),
            multicast_group: self.multicast_group@,
            data_port: self.data_port,
            control_group: text_opt(self.control_group),
            device_name: self.device_name@,
            protocol_version: self.protocol_version,
            admin_url: text_opt(self.admin_url),
        }
    }
}

/// The views of several hosts.
pub open spec fn found_hosts(v: Seq<DiscoveredHost>) -> Seq<FoundHost> {
    v.map_values(|h: DiscoveredHost| h@)
}

/// The host with an id.
pub open spec fn found_is(id: u8) -> spec_fn(FoundHost) -> bool {
    |h: FoundHost| h.id == id
}

/// The host with a name.
pub open spec fn found_named(name: Seq<char>) -> spec_fn(FoundHost) -> bool {
    |h: FoundHost| h.name == name
}

/// A primary host.
pub open spec fn found_primary() -> spec_fn(FoundHost) -> bool {
    |h: FoundHost| h.role == "primary"@
}

/// What the client knows of the hosts.
pub struct Discovery {
    pub hosts: Vec<DiscoveredHost>,
    pub active_host_id: Option<u8>,
    /// The name of the device of the active host.
    pub identity_name: String,
}

pub struct DiscoveryView {
    pub hosts: Seq<FoundHost>,
    pub active_host_id: Option<u8>,
    pub identity_name: Seq<char>,
}

impl View for Discovery {
    type V = DiscoveryView;

    open spec fn view(&self) -> DiscoveryView {
        DiscoveryView {
            hosts: found_hosts(self.hosts@),
            active_host_id: self.active_host_id,
            identity_name: self.identity_name@,
        }
    }
}

/// The hosts with one entered: it replaces the host of its id or is added.
pub open spec fn upserted(hosts: Seq<FoundHost>, h: FoundHost) -> Seq<FoundHost> {
    let i = first_index(hosts, found_is(h.id));
    if i < hosts.len() {
        hosts.update(i, h)
    } else {
        hosts.push(h)
    }
}

/// The active host after a host was found: the first one found, or a primary
/// in place of another host.
pub open spec fn active_after_found(active: Option<u8>, h: FoundHost) -> Option<u8> {
    if active is None || (active->0 != h.id && h.role == "primary"@) {
        Some(h.id)
    } else {
        active
    }
}

/// The client's knowledge after a host was found. The device takes its name
/// from the active host.
pub open spec fn after_found(s: DiscoveryView, h: FoundHost) -> DiscoveryView {
    let active = active_after_found(s.active_host_id, h);
    DiscoveryView {
        hosts: upserted(s.hosts, h),
        active_host_id: active,
        identity_name: if active == Some(h.id) {
            h.device_name
        } else {
            s.identity_name
        },
    }
}

/// The client's knowledge after the hosts of a name have left the network. If
/// the active host was the first of them, a primary takes its place, or else
/// the first host, or none.
pub open spec fn after_removed(s: DiscoveryView, name: Seq<char>) -> DiscoveryView {
    let hosts = s.hosts.filter(|h: FoundHost| h.name != name);
    let gone = first(s.hosts, found_named(name));
    DiscoveryView {
        hosts,
        active_host_id: if gone is Some && s.active_host_id == Some(gone->0.id) {
            match first(hosts, found_primary()) {
                Some(h) => Some(h.id),
                None => if hosts.len() > 0 {
                    Some(hosts[0].id)
                } else {
                    None
                },
            }
        } else {
            s.active_host_id
        },
        ..s
    }
}

impl Discovery {
    pub fn new() -> (r: Self)
        ensures
            r@.hosts.len() == 0,
            r@.active_host_id is None,
            r@.identity_name.len() == 0,
    {
        Discovery { hosts: Vec::new(), active_host_id: None, identity_name: String::new() }
    }

    /// Takes in a host that was found, by whatever way.
    pub fn host_found(&mut self, host: DiscoveredHost)
        ensures
            final(self)@ == after_found(old(self)@, host@),
    {
        let ghost before = found_hosts(self.hosts@);
        let id: u8 = host.id;
        let device = host.device_name.clone();
        let primary = same(host.role.as_str(), "primary");
        let mut i: usize = 0;
        while i < self.hosts.len() && self.hosts[i].id != id
            invariant
                i <= self.hosts@.len(),
                before == found_hosts(self.hosts@),
                self@ == old(self)@,
                forall|j: int| 0 <= j < i ==> !found_is(id)(#[trigger] before[j]),
            decreases self.hosts@.len() - i,
        {
            i += 1;
        }
        proof {
            lemma_first_index(before, found_is(id), i as int);
        }
        if i < self.hosts.len() {
            self.hosts.remove(i);
            self.hosts.insert(i, host);
            assert(found_hosts(self.hosts@) =~= before.update(i as int, host@));
        } else {
            self.hosts.push(host);
            assert(found_hosts(self.hosts@) =~= before.push(host@));
        }
        let take = match self.active_host_id {
            None => true,
            Some(current) => current != id && primary,
        };
        if take {
            self.active_host_id = Some(id);
        }
        if let Some(active) = self.active_host_id {
            if active == id {
                self.identity_name = device;
            }
        }
    }

    /// Takes in that the hosts of a name have left the network.
    pub fn handle_service_removed(&mut self, fullname: &str)
        ensures
            final(self)@ == after_removed(old(self)@, fullname@),
    {
        let ghost before = found_hosts(self.hosts@);
        let ghost keep = |h: FoundHost| h.name != fullname@;
        let ghost named = found_named(fullname@);
        let mut removed: Option<u8> = None;
        let mut rest: Vec<DiscoveredHost> = Vec::new();
        let ghost mut done: int = 0;
        let ghost mut at: int = before.len() as int;
        assert(before.take(0).filter(keep) =~= Seq::<FoundHost>::empty()) by {
            reveal(Seq::filter);
        }
        assert(found_hosts(rest@) =~= Seq::<FoundHost>::empty());
        while self.hosts.len() > 0
            invariant
                keep == (|h: FoundHost| h.name != fullname@),
                named == found_named(fullname@),
                0 <= done <= before.len(),
                before == old(self)@.hosts,
                found_hosts(self.hosts@) == before.skip(done),
                self.hosts@.len() == before.len() - done,
                found_hosts(rest@) == before.take(done).filter(keep),
                self.active_host_id == old(self).active_host_id,
                self.identity_name == old(self).identity_name,
                removed is None ==> forall|j: int| 0 <= j < done ==> !named(#[trigger] before[j]),
                removed is Some ==> 0 <= at < done && named(before[at]) && removed == Some(
                    before[at].id,
                ) && forall|j: int| 0 <= j < at ==> !named(#[trigger] before[j]),
            decreases self.hosts@.len(),
        {
            let h = self.hosts.remove(0);
            proof {
                assert(h@ == before.skip(done)[0]);
                assert(before.skip(done)[0] == before[done]);
                assert(found_hosts(self.hosts@) =~= before.skip(done).drop_first());
                assert(before.skip(done).drop_first() =~= before.skip(done + 1));
                let next = before.take(done + 1);
                assert(next.drop_last() =~= before.take(done));
                assert(next.last() == h@);
                reveal(Seq::filter);
            }
            if same(h.name.as_str(), fullname) {
                if removed.is_none() {
                    removed = Some(h.id);
                    proof {
                        at = done;
                    }
                }
            } else {
                let ghost so_far = found_hosts(rest@);
                rest.push(h);
                assert(found_hosts(rest@) =~= so_far.push(h@));
            }
            proof {
                done = done + 1;
            }
        }
        assert(found_hosts(self.hosts@).len() == 0);
        assert(before.take(done) =~= before);
        proof {
            if removed is Some {
                lemma_first_index(before, named, at);
            } else {
                lemma_first_index(before, named, before.len() as int);
            }
        }
        self.hosts = rest;
        let lost = match (removed, self.active_host_id) {
            (Some(r), Some(a)) => r == a,
            _ => false,
        };
        if lost {
            self.active_host_id = self.fallback();
        }
    }

    /// The host that takes over: a primary, or else the first.
    fn fallback(&self) -> (r: Option<u8>)
        ensures
            r == match first(self@.hosts, found_primary()) {
                Some(h) => Some(h.id),
                None => if self@.hosts.len() > 0 {
                    Some(self@.hosts[0].id)
                } else {
                    None
                },
            },
    {
        let mut i: usize = 0;
        while i < self.hosts.len()
            invariant
                i <= self.hosts@.len(),
                forall|j: int|
                    0 <= j < i ==> !found_primary()(#[trigger] self@.hosts[j]),
            decreases self.hosts@.len() - i,
        {
            if same(self.hosts[i].role.as_str(), "primary") {
                proof {
                    lemma_first_index(self@.hosts, found_primary(), i as int);
                }
                return Some(self.hosts[i].id);
            }
            i += 1;
        }
        proof {
            lemma_first_index(self@.hosts, found_primary(), i as int);
        }
        if self.hosts.len() > 0 {
            Some(self.hosts[0].id)
        } else {
            None
        }
    }

    /// The first address of the administration service that a host gives.
    pub fn admin_url(&self) -> (r: Option<String>)
        ensures
            match r {
                Some(url) => first(
                    self@.hosts,
                    |h: FoundHost| h.admin_url is Some,
                ) matches Some(h) && h.admin_url == Some(url@),
                None => !any(self@.hosts, |h: FoundHost| h.admin_url is Some),
            },
    {
        let ghost p = |h: FoundHost| h.admin_url is Some;
        let mut i: usize = 0;
        while i < self.hosts.len()
            invariant
                i <= self.hosts@.len(),
                p == (|h: FoundHost| h.admin_url is Some),
                forall|j: int| 0 <= j < i ==> !p(#[trigger] self@.hosts[j]),
            decreases self.hosts@.len() - i,
        {
            assert(self@.hosts[i as int] == self.hosts@[i as int]@);
            if let Some(url) = &self.hosts[i].admin_url {
                proof {
                    lemma_first_index(self@.hosts, p, i as int);
                }
                return Some(url.clone());
            }
            i += 1;
        }
        None
    }
}

// ── The ways to find a host ──

/// What mDNS says of a host. Properties that are missing are `None`.
pub struct ServiceRecord {
    pub fullname: String,
    pub port: u16,
    pub addresses: Vec<String>,
    pub id: Option<String>,
    pub role: Option<String>,
    pub multicast_group: Option<String>,
    pub control_group: Option<String>,
    pub device: Option<String>,
    pub protocol_version: Option<String>,
    pub admin_url: Option<String>,
}

/// The host of an mDNS record.
pub open spec fn record_host(r: ServiceRecord) -> FoundHost {
    FoundHost {
        id: match byte_of(r.id) {
            Some(id) => id,
            None => 0,
        },
        name: r.fullname@,
        role: text_or(r.role, "unknown"@),
        addresses: texts(r.addresses@),
        multicast_group: text_or(r.multicast_group, "239.69.83.1"@),
        data_port: r.port,
        control_group: text_opt(r.control_group),
        device_name: text_or(r.device, "Unknown"@),
        protocol_version: byte_of(r.protocol_version),
        admin_url: text_opt(r.admin_url),
    }
}

fn or_text(t: Option<String>, other: &str) -> (r: String)
    ensures
        r@ == text_or(t, other@),
{
    match t {
        Some(s) => s,
        None => other.to_owned(),
    }
}

/// The host of an mDNS record.
pub fn service_host(r: ServiceRecord) -> (h: DiscoveredHost)
    ensures
        h@ == record_host(r),
{
    let protocol_version = parse_byte(&r.protocol_version);
    DiscoveredHost {
        id: match parse_byte(&r.id) {
            Some(id) => id,
            None => 0,
        },
        name: r.fullname,
        role: or_text(r.role, "unknown"),
        addresses: r.addresses,
        multicast_group: or_text(r.multicast_group, "239.69.83.1"),
        data_port: r.port,
        control_group: r.control_group,
        device_name: or_text(r.device, "Unknown"),
        protocol_version,
        admin_url: r.admin_url,
    }
}

/// Whether a host speaks another version of the protocol.
pub fn version_differs(host_version: Option<u8>, own_version: u8) -> (r: bool)
    ensures
        r == (host_version is Some && host_version->0 != own_version),
{
    match host_version {
        Some(v) => v != own_version,
        None => false,
    }
}

/// Takes in the mDNS record of a host, and says whether the host speaks another
/// version of the protocol.
pub fn handle_service_resolved(discovery: &mut Discovery, r: ServiceRecord, own_version: u8) -> (
    differs: bool)
    ensures
        final(discovery)@ == after_found(old(discovery)@, record_host(r)),
        differs == (record_host(r).protocol_version is Some && record_host(r).protocol_version->0
            != own_version),
{
    let host = service_host(r);
    let differs = version_differs(host.protocol_version, own_version);
    discovery.host_found(host);
    differs
}

/// What the administration service says of a host.
pub struct HttpHostInfo {
    pub id: u8,
    pub name: String,
    pub role: String,
    pub ip: String,
    pub device_name: String,
    /// Empty when it is not known.
    pub multicast_group: String,
    /// 0 when it is not known.
    pub data_port: u16,
}

/// The host that the administration service at `admin_url` speaks of.
pub open spec fn http_found(h: HttpHostInfo, admin_url: Seq<char>) -> FoundHost {
    FoundHost {
        id: h.id,
        name: h.name@,
        role: h.role@,
        addresses: seq![h.ip@],
        multicast_group: if h.multicast_group@.len() == 0 {
            "239.69.83.1"@
        } else {
            h.multicast_group@
        },
        data_port: if h.data_port == 0 {
            5004
        } else {
            h.data_port
        },
        control_group: None,
        device_name: h.device_name@,
        protocol_version: None,
        admin_url: Some(admin_url),
    }
}

/// The host that the administration service speaks of.
pub fn http_host(h: HttpHostInfo, admin_url: &str) -> (r: DiscoveredHost)
    ensures
        r@ == http_found(h, admin_url@),
{
    let group: String = if h.multicast_group.as_str().is_empty() {
        "239.69.83.1".to_owned()
    } else {
        h.multicast_group
    };
    let r = DiscoveredHost {
        id: h.id,
        name: h.name,
        role: h.role,
        addresses: vec![h.ip],
        multicast_group: group,
        data_port: if h.data_port == 0 {
            5004
        } else {
            h.data_port
        },
        control_group: None,
        device_name: h.device_name,
        protocol_version: None,
        admin_url: Some(admin_url.to_owned()),
    };
    assert(texts(r.addresses@) =~= seq![h.ip@]);
    r
}

/// The client's knowledge after an answer of the administration service, from a
/// host on. Hosts whose address is none are passed over.
pub open spec fn after_http(
    s: DiscoveryView,
    hosts: Seq<HttpHostInfo>,
    valid: Seq<bool>,
    admin_url: Seq<char>,
    from: int,
) -> DiscoveryView
    decreases hosts.len() - from,
{
    if from < 0 || from >= hosts.len() {
        s
    } else if valid[from] {
        after_http(
            after_found(s, http_found(hosts[from], admin_url)),
            hosts,
            valid,
            admin_url,
            from + 1,
        )
    } else {
        after_http(s, hosts, valid, admin_url, from + 1)
    }
}

/// Takes in an answer of the administration service, host by host; `valid` says
/// whose address is one.
pub fn run_http_discovery(
    discovery: &mut Discovery,
    hosts: Vec<HttpHostInfo>,
    valid: &Vec<bool>,
    admin_url: &str,
)
    requires
        valid@.len() == hosts@.len(),
    ensures
        final(discovery)@ == after_http(old(discovery)@, hosts@, valid@, admin_url@, 0),
{
    let ghost all = hosts@;
    let mut rest = hosts;
    let n: usize = rest.len();
    let mut i: usize = 0;
    assert(rest@ =~= all.skip(0));
    while i < n
        invariant
            i <= n == all.len() == valid@.len(),
            rest@ == all.skip(i as int),
            after_http(discovery@, all, valid@, admin_url@, i as int) == after_http(
                old(discovery)@,
                all,
                valid@,
                admin_url@,
                0,
            ),
        decreases n - i,
    {
        let h = rest.remove(0);
        assert(h == all[i as int]);
        assert(rest@ =~= all.skip(i + 1));
        if valid[i] {
            discovery.host_found(http_host(h, admin_url));
        }
        i += 1;
    }
}

/// The address at which the administration service lists its hosts.
pub fn hosts_url(admin_url: &str) -> (r: String)
    ensures
        r@ == without_slashes(admin_url@) + "/api/hosts"@,
{
    let base = str_without_slashes(admin_url);
    cat(base.as_str(), "/api/hosts")
}

/// The answer of a host to a broadcast.
pub struct DiscoverResponse {
    pub host_id: u8,
    pub primary: bool,
    pub multicast_group: [u8; 4],
    pub data_port: u16,
    pub device_name: String,
    pub protocol_version: u8,
    pub admin_port: u16,
}

/// An address of four bytes in its text form.
pub open spec fn dotted(a: Seq<u8>) -> Seq<char> {
    decimal(a[0] as nat) + "."@ + decimal(a[1] as nat) + "."@ + decimal(a[2] as nat) + "."@
        + decimal(a[3] as nat)
}

fn to_dotted(a: &[u8; 4]) -> (r: String)
    ensures
        r@ == dotted(a@),
{
    let d0 = to_decimal(a[0] as u64);
    let d1 = to_decimal(a[1] as u64);
    let d2 = to_decimal(a[2] as u64);
    let d3 = to_decimal(a[3] as u64);
    let mut r = cat3(d0.as_str(), ".", d1.as_str());
    r.append(".");
    r.append(d2.as_str());
    r.append(".");
    r.append(d3.as_str());
    r
}

/// The host that answered a broadcast from an address.
pub open spec fn response_found(r: DiscoverResponse, source_ip: Seq<char>) -> FoundHost {
    FoundHost {
        id: r.host_id,
        name: "MIDInet host-"@ + decimal(r.host_id as nat),
        role: if r.primary {
            "primary"@
        } else {
            "standby"@
        },
        addresses: seq![source_ip],
        multicast_group: dotted(r.multicast_group@),
        data_port: r.data_port,
        control_group: None,
        device_name: r.device_name@,
        protocol_version: Some(r.protocol_version),
        admin_url: Some("http://"@ + source_ip + ":"@ + decimal(r.admin_port as nat)),
    }
}

/// The host that answered a broadcast.
pub fn response_host(r: DiscoverResponse, source_ip: &str) -> (h: DiscoveredHost)
    ensures
        h@ == response_found(r, source_ip@),
{
    let number = to_decimal(r.host_id as u64);
    let port = to_decimal(r.admin_port as u64);
    let mut url = cat3("http://", source_ip, ":");
    url.append(port.as_str());
    let h = DiscoveredHost {
        id: r.host_id,
        name: cat("MIDInet host-", number.as_str()),
        role: if r.primary {
            "primary".to_owned()
        } else {
            "standby".to_owned()
        },
        addresses: vec![source_ip.to_owned()],
        multicast_group: to_dotted(&r.multicast_group),
        data_port: r.data_port,
        control_group: None,
        device_name: r.device_name,
        protocol_version: Some(r.protocol_version),
        admin_url: Some(url),
    };
    assert(texts(h.addresses@) =~= seq![source_ip@]);
    h
}

/// Takes in the answer of a host to a broadcast.
pub fn handle_discover_response(discovery: &mut Discovery, r: DiscoverResponse, source_ip: &str)
    ensures
        final(discovery)@ == after_found(old(discovery)@, response_found(r, source_ip@)),
{
    discovery.host_found(response_host(r, source_ip));
}

// ── Laws ──

/// Hosts have ids of their own, and the active host is a known one.
pub open spec fn wf_discovery(s: DiscoveryView) -> bool {
    &&& forall|i: int, j: int|
        #![trigger s.hosts[i], s.hosts[j]]
        0 <= i < j < s.hosts.len() ==> s.hosts[i].id != s.hosts[j].id
    &&& s.active_host_id is Some ==> any(s.hosts, found_is(s.active_host_id->0))
}

/// A host that is found keeps the ids distinct and the active host known; a
/// primary that is found is active, and its device gives the name.
pub proof fn law_found(s: DiscoveryView, h: FoundHost)
    requires
        wf_discovery(s),
    ensures
        wf_discovery(after_found(s, h)),
        after_found(s, h).active_host_id is Some,
        h.role == "primary"@ ==> after_found(s, h).active_host_id == Some(h.id) && after_found(
            s,
            h,
        ).identity_name == h.device_name,
{
    let p = found_is(h.id);
    let t = after_found(s, h);
    let i = first_index(s.hosts, p);
    lemma_first_index_bounds(s.hosts, p);
    assert(t.hosts[i] == h);
    assert(p(t.hosts[i]));
    if t.active_host_id != Some(h.id) {
        let a = s.active_host_id->0;
        let k = choose|k: int| 0 <= k < s.hosts.len() && found_is(a)(#[trigger] s.hosts[k]);
        assert(t.hosts[k] == s.hosts[k]);
        assert(found_is(a)(t.hosts[k]));
    }
}

/// An answer of the administration service keeps the ids distinct and the active
/// host known, and a host is active once one with an address was among its hosts.
pub proof fn law_http_answer(
    s: DiscoveryView,
    hosts: Seq<HttpHostInfo>,
    valid: Seq<bool>,
    admin_url: Seq<char>,
    from: int,
)
    requires
        wf_discovery(s),
        0 <= from,
    ensures
        wf_discovery(after_http(s, hosts, valid, admin_url, from)),
        s.active_host_id is Some || (exists|i: int| from <= i < hosts.len() && valid[i])
            ==> after_http(s, hosts, valid, admin_url, from).active_host_id is Some,
    decreases hosts.len() - from,
{
    if from < hosts.len() {
        if valid[from] {
            let h = http_found(hosts[from], admin_url);
            law_found(s, h);
            law_http_answer(after_found(s, h), hosts, valid, admin_url, from + 1);
        } else {
            law_http_answer(s, hosts, valid, admin_url, from + 1);
            if exists|i: int| from <= i < hosts.len() && valid[i] {
                let i = choose|i: int| from <= i < hosts.len() && valid[i];
                assert(from + 1 <= i);
            }
        }
    }
}

/// Hosts that leave are not known any more, and the active host is still a
/// known one, provided that at most one host has the name.
pub proof fn law_removed(s: DiscoveryView, name: Seq<char>)
    requires
        wf_discovery(s),
        forall|i: int, j: int|
            #![trigger s.hosts[i], s.hosts[j]]
            0 <= i < j < s.hosts.len() ==> !(s.hosts[i].name == name && s.hosts[j].name == name),
    ensures
        !any(after_removed(s, name).hosts, found_named(name)),
        after_removed(s, name).active_host_id is Some ==> any(
            after_removed(s, name).hosts,
            found_is(after_removed(s, name).active_host_id->0),
        ),
        after_removed(s, name).hosts.len() > 0 && s.active_host_id is Some ==> after_removed(
            s,
            name,
        ).active_host_id is Some,
{
    let keep = |h: FoundHost| h.name != name;
    let t = after_removed(s, name);
    let named = found_named(name);
    if any(t.hosts, named) {
        let i = choose|i: int| 0 <= i < t.hosts.len() && named(#[trigger] t.hosts[i]);
        lemma_filter_contains(s.hosts, keep, t.hosts[i]);
        assert(t.hosts.contains(t.hosts[i]));
        assert(false);
    }
    lemma_first_index_bounds(s.hosts, named);
    lemma_first_index_bounds(t.hosts, found_primary());
    if t.active_host_id is Some {
        let a = t.active_host_id->0;
        let g = first_index(s.hosts, named);
        if g < s.hosts.len() && s.active_host_id == Some(s.hosts[g].id) {
            let k = first_index(t.hosts, found_primary());
            if k < t.hosts.len() {
                assert(found_is(a)(t.hosts[k]));
            } else {
                assert(found_is(a)(t.hosts[0]));
            }
        } else {
            let k = choose|k: int|
                0 <= k < s.hosts.len() && found_is(a)(#[trigger] s.hosts[k]);
            assert(s.hosts[k].name != name) by {
                if s.hosts[k].name == name {
                    assert(named(s.hosts[k]));
                    if g < k {
                        assert(s.hosts[g].name == name && s.hosts[k].name == name);
                    }
                }
            }
            lemma_filter_contains(s.hosts, keep, s.hosts[k]);
            let m = t.hosts.index_of(s.hosts[k]);
            assert(found_is(a)(t.hosts[m]));
        }
    }
}

/// Finding the same host twice is finding it once.
pub proof fn law_found_twice(s: DiscoveryView, h: FoundHost)
    ensures
        after_found(after_found(s, h), h) == after_found(s, h),
{
    let p = found_is(h.id);
    let t = after_found(s, h);
    let i = first_index(s.hosts, p);
    lemma_first_index_bounds(s.hosts, p);
    assert forall|j: int| 0 <= j < i implies !p(#[trigger] t.hosts[j]) by {
        assert(!p(s.hosts[j]));
    }
    lemma_first_index(t.hosts, p, i);
    assert(upserted(t.hosts, h) =~= t.hosts);
}

/// The host of an mDNS record is as the record announces it, property by property;
/// the defaults are for properties that the record does not have.
pub proof fn law_announced_host(r: ServiceRecord, h: DiscoveredHost)
    requires
        call_ensures(service_host, (r,), h),
    ensures
        h.name@ == r.fullname@,
        h.data_port == r.port,
        texts(h.addresses@) == texts(r.addresses@),
        match r.multicast_group {
            Some(g) => h.multicast_group@ == g@,
            None => h.multicast_group@ == "239.69.83.1"@,
        },
        match r.role {
            Some(role) => h.role@ == role@,
            None => h.role@ == "unknown"@,
        },
        match r.device {
            Some(name) => h.device_name@ == name@,
            None => h.device_name@ == "Unknown"@,
        },
        match r.control_group {
            Some(g) => h.control_group matches Some(t) && t@ == g@,
            None => h.control_group is None,
        },
        match r.admin_url {
            Some(url) => h.admin_url matches Some(t) && t@ == url@,
            None => h.admin_url is None,
        },
{
}

/// The id and the protocol version of a record are the numbers that its properties
/// write; a record without an id, or with one that is no number, is of host 0.
pub proof fn law_announced_numbers(r: ServiceRecord, h: DiscoveredHost, n: u8)
    requires
        call_ensures(service_host, (r,), h),
    ensures
        r.id matches Some(t) && t@ == decimal(n as nat) ==> h.id == n,
        r.id is None ==> h.id == 0,
        r.protocol_version matches Some(t) && t@ == decimal(n as nat) ==> h.protocol_version
            == Some(n),
        r.protocol_version is None ==> h.protocol_version is None,
{
    lemma_digits_of_decimal(n as nat);
    assert(decimal(n as nat).skip(0) =~= decimal(n as nat));
}

/// A host of the administration service is as the service describes it; a group or a
/// port that it does not know is the usual one.
pub proof fn law_http_host(i: HttpHostInfo, admin_url: &str, h: DiscoveredHost)
    requires
        call_ensures(http_host, (i, admin_url), h),
    ensures
        h.id == i.id,
        h.name@ == i.name@,
        h.role@ == i.role@,
        h.device_name@ == i.device_name@,
        h.addresses@.len() == 1 && h.addresses@[0]@ == i.ip@,
        i.multicast_group@.len() > 0 ==> h.multicast_group@ == i.multicast_group@,
        i.multicast_group@.len() == 0 ==> h.multicast_group@ == "239.69.83.1"@,
        i.data_port != 0 ==> h.data_port == i.data_port,
        i.data_port == 0 ==> h.data_port == 5004,
        h.control_group is None,
        h.protocol_version is None,
        h.admin_url matches Some(u) && u@ == admin_url@,
{
    assert(texts(h.addresses@).len() == 1);
    assert(texts(h.addresses@)[0] == h.addresses@[0]@);
}

/// A host that answers a broadcast is as it answers, at the address that the answer
/// came from.
pub proof fn law_broadcast_host(a: DiscoverResponse, source_ip: &str, h: DiscoveredHost)
    requires
        call_ensures(response_host, (a, source_ip), h),
    ensures
        h.id == a.host_id,
        h.name@ == "MIDInet host-"@ + decimal(a.host_id as nat),
        a.primary ==> h.role@ == "primary"@,
        !a.primary ==> h.role@ == "standby"@,
        h.device_name@ == a.device_name@,
        h.data_port == a.data_port,
        h.addresses@.len() == 1 && h.addresses@[0]@ == source_ip@,
        h.multicast_group@ == decimal(a.multicast_group@[0] as nat) + "."@ + decimal(
            a.multicast_group@[1] as nat,
        ) + "."@ + decimal(a.multicast_group@[2] as nat) + "."@ + decimal(
            a.multicast_group@[3] as nat,
        ),
        h.protocol_version == Some(a.protocol_version),
        h.admin_url matches Some(u) && u@ == "http://"@ + source_ip@ + ":"@ + decimal(
            a.admin_port as nat,
        ),
{
    assert(texts(h.addresses@).len() == 1);
    assert(texts(h.addresses@)[0] == h.addresses@[0]@);
}

/// A host that was found is known afterwards in the place of what was known of its id,
/// and every other host is known as before. The first host of all is listened to, and
/// so is every primary; any other host changes nothing in that.
pub proof fn law_found_host_is_known(d: &mut Discovery, host: DiscoveredHost, other: FoundHost)
    requires
        wf_discovery(old(d)@),
        call_ensures(Discovery::host_found, (d, host), ()),
    ensures
        found_hosts(final(d).hosts@).contains(host@),
        other.id != host.id ==> (found_hosts(final(d).hosts@).contains(other) <==> found_hosts(
            old(d).hosts@,
        ).contains(other)),
        other.id == host.id && found_hosts(final(d).hosts@).contains(other) ==> other == host@,
        old(d).active_host_id is None || host.role@ == "primary"@ ==> final(d).active_host_id
            == Some(host.id),
        old(d).active_host_id is Some && host.role@ != "primary"@ ==> final(d).active_host_id
            == old(d).active_host_id,
        final(d).active_host_id == Some(host.id) ==> final(d).identity_name@ == host.device_name@,
        final(d).active_host_id != Some(host.id) ==> final(d).identity_name@ == old(
            d,
        ).identity_name@,
{
    let s = old(d)@.hosts;
    let t = final(d)@.hosts;
    let h = host@;
    let p = found_is(h.id);
    let i = first_index(s, p);
    lemma_first_index_bounds(s, p);
    assert(t[i] == h);
    if s.contains(other) && other.id != h.id {
        let k = s.index_of(other);
        assert(t[k] == other);
    }
    if t.contains(other) {
        let k = t.index_of(other);
        if other.id != h.id {
            assert(k != i);
            assert(s[k] == other);
        } else if k != i {
            assert(s[k] == other);
            assert(p(s[k]));
            assert(i < s.len());
            assert(s[i].id == s[k].id);
        }
    }
}

/// The three ways to find a host end in the same: the host that they describe is
/// entered.
pub proof fn law_ways_to_find(
    d: &mut Discovery,
    e: &mut Discovery,
    r: ServiceRecord,
    own_version: u8,
    differs: bool,
    h: DiscoveredHost,
)
    requires
        call_ensures(handle_service_resolved, (d, r, own_version), differs),
        call_ensures(service_host, (r,), h),
        call_ensures(Discovery::host_found, (e, h), ()),
        old(d)@ == old(e)@,
    ensures
        final(d)@ == final(e)@,
        differs == (h.protocol_version is Some && h.protocol_version->0 != own_version),
{
    assert(h@.protocol_version == h.protocol_version);
}

/// The answer to a broadcast enters the host that it describes.
pub proof fn law_answer_is_entered(
    d: &mut Discovery,
    e: &mut Discovery,
    a: DiscoverResponse,
    source_ip: &str,
    h: DiscoveredHost,
)
    requires
        call_ensures(handle_discover_response, (d, a, source_ip), ()),
        call_ensures(response_host, (a, source_ip), h),
        call_ensures(Discovery::host_found, (e, h), ()),
        old(d)@ == old(e)@,
    ensures
        final(d)@ == final(e)@,
{
}

/// Every host of an answer that has an address is known afterwards, unless a later one
/// has its id.
pub proof fn law_http_hosts_are_known(
    s: DiscoveryView,
    hosts: Seq<HttpHostInfo>,
    valid: Seq<bool>,
    admin_url: Seq<char>,
    from: int,
    k: int,
)
    requires
        0 <= from <= k < hosts.len(),
        valid.len() == hosts.len(),
        valid[k],
        forall|j: int| k < j < hosts.len() && valid[j] ==> hosts[j].id != hosts[k].id,
    ensures
        after_http(s, hosts, valid, admin_url, from).hosts.contains(
            http_found(hosts[k], admin_url),
        ),
    decreases hosts.len() - from,
{
    if from < k {
        let next = if valid[from] {
            after_found(s, http_found(hosts[from], admin_url))
        } else {
            s
        };
        law_http_hosts_are_known(next, hosts, valid, admin_url, from + 1, k);
    } else {
        let h = http_found(hosts[k], admin_url);
        let next = after_found(s, h);
        lemma_first_index_bounds(s.hosts, found_is(h.id));
        assert(next.hosts[first_index(s.hosts, found_is(h.id))] == h);
        lemma_stays_known(next, hosts, valid, admin_url, k + 1, h);
    }
}

proof fn lemma_stays_known(
    s: DiscoveryView,
    hosts: Seq<HttpHostInfo>,
    valid: Seq<bool>,
    admin_url: Seq<char>,
    from: int,
    h: FoundHost,
)
    requires
        0 <= from <= hosts.len(),
        s.hosts.contains(h),
        forall|j: int| from <= j < hosts.len() && valid[j] ==> hosts[j].id != h.id,
    ensures
        after_http(s, hosts, valid, admin_url, from).hosts.contains(h),
    decreases hosts.len() - from,
{
    if from < hosts.len() {
        if valid[from] {
            let g = http_found(hosts[from], admin_url);
            let next = after_found(s, g);
            let k = s.hosts.index_of(h);
            let i = first_index(s.hosts, found_is(g.id));
            lemma_first_index_bounds(s.hosts, found_is(g.id));
            assert(hosts[from].id != h.id);
            if i < s.hosts.len() {
                assert(found_is(g.id)(s.hosts[i]));
            }
            assert(k != i);
            assert(next.hosts[k] == h);
            lemma_stays_known(next, hosts, valid, admin_url, from + 1, h);
        } else {
            lemma_stays_known(s, hosts, valid, admin_url, from + 1, h);
        }
    }
}

/// Hosts without an address are passed over: an answer without any host that has one
/// changes nothing.
pub proof fn law_http_without_address(
    d: &mut Discovery,
    hosts: Vec<HttpHostInfo>,
    valid: Vec<bool>,
    admin_url: &str,
)
    requires
        call_ensures(run_http_discovery, (d, hosts, &valid, admin_url), ()),
        valid@.len() == hosts@.len(),
        forall|i: int| 0 <= i < valid@.len() ==> !#[trigger] valid@[i],
    ensures
        final(d)@ == old(d)@,
{
    lemma_passed_over(old(d)@, hosts@, valid@, admin_url@, 0);
}

proof fn lemma_passed_over(
    s: DiscoveryView,
    hosts: Seq<HttpHostInfo>,
    valid: Seq<bool>,
    admin_url: Seq<char>,
    from: int,
)
    requires
        0 <= from <= hosts.len(),
        valid.len() == hosts.len(),
        forall|i: int| 0 <= i < valid.len() ==> !#[trigger] valid[i],
    ensures
        after_http(s, hosts, valid, admin_url, from) == s,
    decreases hosts.len() - from,
{
    if from < hosts.len() {
        assert(!valid[from]);
        lemma_passed_over(s, hosts, valid, admin_url, from + 1);
    }
}

/// An answer with one host that has an address enters that host.
pub proof fn law_http_one_host(
    d: &mut Discovery,
    e: &mut Discovery,
    hosts: Vec<HttpHostInfo>,
    valid: Vec<bool>,
    admin_url: &str,
    h: DiscoveredHost,
)
    requires
        call_ensures(run_http_discovery, (d, hosts, &valid, admin_url), ()),
        hosts@.len() == 1,
        valid@ == seq![true],
        call_ensures(http_host, (hosts@[0], admin_url), h),
        call_ensures(Discovery::host_found, (e, h), ()),
        old(d)@ == old(e)@,
    ensures
        final(d)@ == final(e)@,
{
    reveal_with_fuel(after_http, 3);
}

/// The hosts of a name that has left the network are not known any more, and all
/// others are. Where the client listened to the host that left, it then listens to a
/// primary if one is left, and to nobody only if none is left.
pub proof fn law_host_leaves(d: &mut Discovery, name: &str, x: FoundHost)
    requires
        call_ensures(Discovery::handle_service_removed, (d, name), ()),
    ensures
        found_hosts(final(d).hosts@).contains(x) <==> found_hosts(old(d).hosts@).contains(x)
            && x.name != name@,
        ({
            let before = found_hosts(old(d).hosts@);
            let after = found_hosts(final(d).hosts@);
            let gone = before.len() > 0 && before[0].name == name@ && old(d).active_host_id == Some(
                before[0].id,
            );
            &&& gone && any(after, found_primary()) ==> exists|i: int|
                0 <= i < after.len() && (#[trigger] after[i]).role == "primary"@ && final(d).active_host_id == Some(after[i].id)
            &&& gone && !any(after, found_primary()) && after.len() > 0 ==> final(d).active_host_id
                == Some(after[0].id)
            &&& gone && after.len() == 0 ==> final(d).active_host_id is None
            &&& !any(before, found_named(name@)) ==> final(d).active_host_id == old(
                d,
            ).active_host_id
        }),
        final(d).identity_name@ == old(d).identity_name@,
{
    let before = found_hosts(old(d).hosts@);
    let after = found_hosts(final(d).hosts@);
    let keep = |h: FoundHost| h.name != name@;
    let named = found_named(name@);
    lemma_filter_contains(before, keep, x);
    lemma_first_index_bounds(before, named);
    lemma_first_index_bounds(after, found_primary());
    assert(final(d)@.active_host_id == final(d).active_host_id);
    if before.len() > 0 && before[0].name == name@ {
        assert(named(before[0]));
        lemma_first_index(before, named, 0);
    }
    let k = first_index(after, found_primary());
    if k < after.len() {
        assert(after[k].role == "primary"@);
    }
}

/// The list of hosts is asked for below the address of the service, whether that ends
/// with a slash or not.
pub proof fn law_hosts_url(a: &str, b: &str, ra: String, rb: String)
    requires
        b@ == a@.push('/'),
        call_ensures(hosts_url, (a,), ra),
        call_ensures(hosts_url, (b,), rb),
    ensures
        ra@ == rb@,
        a@.len() > 0 && a@.last() != '/' ==> ra@ == a@ + "/api/hosts"@,
{
    assert(b@.drop_last() =~= a@);
}

/// The address of the administration is that of the first host which has one; without
/// hosts there is none.
pub proof fn law_admin_address(fresh: Discovery, d: Discovery, r: Option<String>, i: int)
    requires
        call_ensures(Discovery::new, (), fresh),
        call_ensures(Discovery::admin_url, (&d,), r),
    ensures
        fresh@.hosts.len() == 0 && fresh@.active_host_id is None && fresh@.identity_name.len() == 0,
        r is None && 0 <= i < d@.hosts.len() ==> d@.hosts[i].admin_url is None,
        0 <= i < d@.hosts.len() && d@.hosts[i].admin_url is Some && (forall|j: int|
            0 <= j < i ==> (#[trigger] d@.hosts[j]).admin_url is None) ==> (r matches Some(url)
            && d@.hosts[i].admin_url == Some(url@)),
{
    let p = |h: FoundHost| h.admin_url is Some;
    if 0 <= i < d@.hosts.len() {
        assert(p(d@.hosts[i]) == (d@.hosts[i].admin_url is Some));
        if d@.hosts[i].admin_url is Some && (forall|j: int|
            0 <= j < i ==> (#[trigger] d@.hosts[j]).admin_url is None) {
            assert forall|j: int| 0 <= j < i implies !p(#[trigger] d@.hosts[j]) by {
                assert(d@.hosts[j].admin_url is None);
            }
            lemma_first_index(d@.hosts, p, i);
        }
        lemma_first_index_bounds(d@.hosts, p);
    }
}

/// A host has another version where it says so, and where it says nothing it has not.
pub proof fn law_other_version(host_version: Option<u8>, own_version: u8, r: bool)
    requires
        call_ensures(version_differs, (host_version, own_version), r),
    ensures
        host_version is None ==> !r,
        host_version matches Some(v) ==> (r <==> v != own_version),
{
}

} // verus!
