//! Changes of the host configuration file: the operational mode, host
//! redundancy, device highways and protected applications.
use vstd::prelude::*;
use vstd::string::StringExecFns;

use crate::fleet::{client_views, host_views, ClientInfo, ClientView, HostInfo, HostView};
use crate::protected_apps::{unknown_ids, unknown_ids_in};
use crate::seqs::lemma_filter_contains;
use crate::text::{
    cat, cat3, decimal, joined, lowercase, same, str_join, str_trim, texts, to_decimal,
    to_lowercase, trimmed,
};
use crate::toml_doc::{
    array_value, bool_value, get_key, key_is_set, key_value, lemma_key_is_set, new_table, parse_table, print_table, set_key,
    table_contents, table_get, table_insert, table_value, text_value, toml_parsed, toml_printed,
    value_as_array, value_as_bool, value_as_str, value_as_table, value_contents, values_contents,
    with_key, TableView, TomlView,
};

verus! {

// ── The file ──

/// The contents of a file, or the reason why it could not be read.
pub open spec fn file_view(f: Result<String, String>) -> Result<Seq<char>, Seq<char>> {
    match f {
        Ok(s) => Ok(s@),
        Err(e) => Err(e@),
    }
}

/// The document in a configuration file, or the error.
pub open spec fn document(contents: Result<Seq<char>, Seq<char>>) -> Result<TableView, Seq<char>> {
    match contents {
        Err(e) => Err("Cannot read config: "@ + e),
        Ok(text) => match toml_parsed(text) {
            Err(e) => Err("Config parse error: "@ + e),
            Ok(doc) => Ok(doc),
        },
    }
}

/// The text of a document, or the error.
pub open spec fn document_text(doc: TableView) -> Result<Seq<char>, Seq<char>> {
    match toml_printed(doc) {
        Err(e) => Err("Failed to serialize config: "@ + e),
        Ok(text) => Ok(text),
    }
}

fn read_document(contents: &Result<String, String>) -> (r: Result<toml::Table, String>)
    ensures
        match r {
            Ok(t) => document(file_view(*contents)) == Ok::<TableView, Seq<char>>(
                table_contents(t),
            ),
            Err(e) => document(file_view(*contents)) == Err::<TableView, Seq<char>>(e@),
        },
{
    match contents {
        Err(e) => Err(cat("Cannot read config: ", e.as_str())),
        Ok(text) => match parse_table(text.as_str()) {
            Err(e) => Err(cat("Config parse error: ", e.as_str())),
            Ok(t) => Ok(t),
        },
    }
}

fn write_document(doc: &toml::Table) -> (r: Result<String, String>)
    ensures
        match r {
            Ok(s) => document_text(table_contents(*doc)) == Ok::<Seq<char>, Seq<char>>(s@),
            Err(e) => document_text(table_contents(*doc)) == Err::<Seq<char>, Seq<char>>(e@),
        },
{
    match print_table(doc) {
        Err(e) => Err(cat("Failed to serialize config: ", e.as_str())),
        Ok(s) => Ok(s),
    }
}

// ── Clients that stand in the way ──

/// The clients on which a protected application is running.
pub open spec fn blocking(clients: Seq<ClientView>) -> Seq<ClientView> {
    clients.filter(|c: ClientView| c.midi_apps_active)
}

/// A client that stands in the way of a change.
pub struct BlockingClient {
    pub id: u32,
    pub hostname: String,
    pub ip: String,
}

/// What is said of blocking clients.
pub open spec fn blocking_views(v: Seq<BlockingClient>) -> Seq<(u32, Seq<char>, Seq<char>)> {
    v.map_values(|b: BlockingClient| (b.id, b.hostname@, b.ip@))
}

/// What is said of some clients.
pub open spec fn contact_views(v: Seq<ClientView>) -> Seq<(u32, Seq<char>, Seq<char>)> {
    v.map_values(|c: ClientView| (c.id, c.hostname, c.ip))
}

/// Lists the clients on which a protected application is running.
pub fn blocking_clients(clients: &Vec<ClientInfo>) -> (r: Vec<BlockingClient>)
    ensures
        blocking_views(r@) == contact_views(blocking(client_views(clients@))),
        r@.len() == blocking(client_views(clients@)).len(),
{
    let ghost all = client_views(clients@);
    let ghost keep = |c: ClientView| c.midi_apps_active;
    let mut r: Vec<BlockingClient> = Vec::new();
    let mut i: usize = 0;
    assert(all.take(0).filter(keep) =~= Seq::<ClientView>::empty()) by {
        reveal(Seq::filter);
    }
    assert(blocking_views(r@) =~= contact_views(all.take(0).filter(keep)));
    while i < clients.len()
        invariant
            i <= clients@.len(),
            all == client_views(clients@),
            keep == (|c: ClientView| c.midi_apps_active),
            blocking_views(r@) == contact_views(all.take(i as int).filter(keep)),
        decreases clients@.len() - i,
    {
        proof {
            let next = all.take(i + 1);
            assert(next.drop_last() =~= all.take(i as int));
            assert(next.last() == clients@[i as int]@);
            reveal(Seq::filter);
        }
        if clients[i].midi_apps_active {
            let ghost before = blocking_views(r@);
            let b = BlockingClient {
                id: clients[i].id,
                hostname: clients[i].hostname.clone(),
                ip: clients[i].ip.clone(),
            };
            r.push(b);
            assert(blocking_views(r@) =~= before.push((b.id, b.hostname@, b.ip@)));
            assert(contact_views(all.take(i + 1).filter(keep)) =~= contact_views(
                all.take(i as int).filter(keep),
            ).push((b.id, b.hostname@, b.ip@)));
        }
        i += 1;
    }
    assert(all.take(i as int) =~= all);
    assert(blocking_views(r@).len() == r@.len());
    r
}

/// Why a change is not made, and the clients that stand in its way.
pub struct ChangeError {
    pub error: String,
    pub blocking: Vec<BlockingClient>,
}

/// Whether an error has a message and names some clients.
pub open spec fn change_error(e: ChangeError, message: Seq<char>, clients: Seq<ClientView>) -> bool {
    &&& e.error@ == message
    &&& blocking_views(e.blocking@) == contact_views(clients)
}

fn plain_error(message: String) -> (e: ChangeError)
    ensures
        change_error(e, message@, Seq::empty()),
{
    let e = ChangeError { error: message, blocking: Vec::new() };
    assert(blocking_views(e.blocking@) =~= contact_views(Seq::<ClientView>::empty()));
    e
}

// ── Mode ──

/// A request to change the operational mode.
pub struct SetModeBody {
    pub mode: String,
}

/// The modes that there are.
pub open spec fn is_mode(mode: Seq<char>) -> bool {
    mode == "single"@ || mode == "redundant"@ || mode == "multi"@
}

/// The mode that a request asks for.
pub open spec fn requested_mode(body: SetModeBody) -> Seq<char> {
    lowercase(trimmed(body.mode@))
}

/// What is said when clients stand in the way of a mode change.
pub open spec fn mode_blocked(n: nat) -> Seq<char> {
    "Cannot change mode while MIDI applications are running on "@ + decimal(n)
        + " client(s). Close Resolume Arena first."@
}

/// A mode and the text of the configuration file that sets it.
pub struct ModeChange {
    pub mode: String,
    pub config: String,
}

/// The text of the configuration with another mode, or the error.
pub open spec fn mode_config(contents: Result<Seq<char>, Seq<char>>, mode: Seq<char>) -> Result<
    Seq<char>,
    Seq<char>,
> {
    match document(contents) {
        Err(e) => Err(e),
        Ok(doc) => document_text(with_key(doc, "host"@, "mode"@, TomlView::Text(mode))),
    }
}

/// Works out a mode change. It is refused for a mode that does not exist and
/// while a protected application is running on a client; everything in the
/// configuration but `host.mode` stays as it is.
pub fn set_mode(
    body: &SetModeBody,
    clients: &Vec<ClientInfo>,
    contents: &Result<String, String>,
) -> (r: Result<ModeChange, ChangeError>)
    ensures
        ({
            let mode = requested_mode(*body);
            let block = blocking(client_views(clients@));
            if !is_mode(mode) {
                r matches Err(e) && change_error(
                    e,
                    "Invalid mode '"@ + mode
                        + "'. Must be 'single', 'redundant', or 'multi'."@,
                    Seq::empty(),
                )
            } else if block.len() > 0 {
                r matches Err(e) && change_error(e, mode_blocked(block.len()), block)
            } else {
                match mode_config(file_view(*contents), mode) {
                    Err(m) => r matches Err(e) && change_error(e, m, Seq::empty()),
                    Ok(text) => r matches Ok(c) && c.mode@ == mode && c.config@ == text,
                }
            }
        }),
{
    let t = str_trim(body.mode.as_str());
    let mode = to_lowercase(t.as_str());
    if !same(mode.as_str(), "single") && !same(mode.as_str(), "redundant") && !same(
        mode.as_str(),
        "multi",
    ) {
        return Err(
            plain_error(
                cat3(
                    "Invalid mode '",
                    mode.as_str(),
                    "'. Must be 'single', 'redundant', or 'multi'.",
                ),
            ),
        );
    }
    let list = blocking_clients(clients);
    if list.len() > 0 {
        let n = to_decimal(list.len() as u64);
        return Err(
            ChangeError {
                error: cat3(
                    "Cannot change mode while MIDI applications are running on ",
                    n.as_str(),
                    " client(s). Close Resolume Arena first.",
                ),
                blocking: list,
            },
        );
    }
    let mut doc = match read_document(contents) {
        Ok(d) => d,
        Err(e) => {
            return Err(plain_error(e));
        },
    };
    set_key(&mut doc, "host", "mode", text_value(mode.clone()));
    match write_document(&doc) {
        Ok(config) => Ok(ModeChange { mode, config }),
        Err(e) => Err(plain_error(e)),
    }
}

/// The hosts, all in a mode.
pub open spec fn hosts_in_mode(hosts: Seq<HostView>, mode: Seq<char>) -> Seq<HostView> {
    hosts.map_values(|h: HostView| HostView { operational_mode: mode, ..h })
}

/// The ids of some clients.
pub open spec fn client_ids(clients: Seq<ClientView>) -> Seq<u32> {
    clients.map_values(|c: ClientView| c.id)
}

// ── Settings that live in the configuration file ──

/// The part of the state that the configuration file decides.
pub struct HostConfig {
    pub configured_mode: String,
    pub host_redundancy_enabled: bool,
    pub configured_devices: Vec<String>,
    pub protected_apps: Vec<String>,
    pub custom_processes: Vec<String>,
    /// Clients that are to restart.
    pub pending_restarts: Vec<u32>,
}

pub struct HostConfigView {
    pub configured_mode: Seq<char>,
    pub host_redundancy_enabled: bool,
    pub configured_devices: Seq<Seq<char>>,
    pub protected_apps: Seq<Seq<char>>,
    pub custom_processes: Seq<Seq<char>>,
    pub pending_restarts: Seq<u32>,
}

impl View for HostConfig {
    type V = HostConfigView;

    open spec fn view(&self) -> HostConfigView {
        HostConfigView {
            configured_mode: self.configured_mode@,
            host_redundancy_enabled: self.host_redundancy_enabled,
            configured_devices: texts(self.configured_devices@),
            protected_apps: texts(self.protected_apps@),
            custom_processes: texts(self.custom_processes@),
            pending_restarts: self.pending_restarts@,
        }
    }
}

impl HostConfig {
    /// The state once the file sets a mode: all hosts are in that mode and all
    /// clients are to restart. The number of those clients is returned.
    pub fn mode_changed(
        &mut self,
        mode: &str,
        hosts: &mut Vec<HostInfo>,
        clients: &Vec<ClientInfo>,
    ) -> (n: usize)
        ensures
            final(self)@ == (HostConfigView {
                configured_mode: mode@,
                pending_restarts: old(self)@.pending_restarts + client_ids(
                    client_views(clients@),
                ),
                ..old(self)@
            }),
            host_views(final(hosts)@) == hosts_in_mode(host_views(old(hosts)@), mode@),
            n == clients@.len(),
    {
        self.configured_mode = mode.to_owned();
        let ghost start = host_views(hosts@);
        let mut done: Vec<HostInfo> = Vec::new();
        let n: usize = hosts.len();
        let mut i: usize = 0;
        while i < n
            invariant
                i <= n == start.len(),
                hosts@.len() == n - i,
                host_views(hosts@) == start.skip(i as int),
                host_views(done@) =~= hosts_in_mode(start, mode@).take(i as int),
            decreases n - i,
        {
            let mut h = hosts.remove(0);
            assert(h@ == start.skip(i as int)[0]);
            assert(host_views(hosts@) =~= start.skip(i as int).drop_first());
            assert(start.skip(i as int).drop_first() =~= start.skip(i + 1));
            h.operational_mode = mode.to_owned();
            let ghost before = host_views(done@);
            done.push(h);
            assert(host_views(done@) =~= before.push(h@));
            i += 1;
        }
        assert(hosts_in_mode(start, mode@).take(i as int) =~= hosts_in_mode(start, mode@));
        *hosts = done;
        let ghost ids = client_ids(client_views(clients@));
        let ghost pending = self.pending_restarts@;
        let mut k: usize = 0;
        assert(pending =~= pending + ids.take(0));
        while k < clients.len()
            invariant
                k <= clients@.len(),
                ids == client_ids(client_views(clients@)),
                self.pending_restarts@ =~= pending + ids.take(k as int),
                self@ == (HostConfigView {
                    configured_mode: mode@,
                    pending_restarts: self.pending_restarts@,
                    ..old(self)@
                }),
            decreases clients@.len() - k,
        {
            self.pending_restarts.push(clients[k].id);
            k += 1;
        }
        assert(ids.take(k as int) =~= ids);
        clients.len()
    }

    /// Whether a client that reports itself is told to restart. It is told once;
    /// while a protected application is running on it, it has to wait.
    pub fn restart_due(&mut self, id: u32, apps_running: bool) -> (r: bool)
        ensures
            r == (old(self)@.pending_restarts.contains(id) && !apps_running),
            final(self)@ == (if r {
                HostConfigView {
                    pending_restarts: old(self)@.pending_restarts.filter(|p: u32| p != id),
                    ..old(self)@
                }
            } else {
                old(self)@
            }),
    {
        let ghost pending = self.pending_restarts@;
        let ghost keep = |p: u32| p != id;
        let mut found = false;
        let mut rest: Vec<u32> = Vec::new();
        let mut i: usize = 0;
        assert(pending.take(0).filter(keep) =~= Seq::<u32>::empty()) by {
            reveal(Seq::filter);
        }
        while i < self.pending_restarts.len()
            invariant
                i <= pending.len(),
                pending == self.pending_restarts@,
                pending == old(self)@.pending_restarts,
                self@ == old(self)@,
                keep == (|p: u32| p != id),
                rest@ == pending.take(i as int).filter(keep),
                found == pending.take(i as int).contains(id),
            decreases pending.len() - i,
        {
            let p: u32 = self.pending_restarts[i];
            proof {
                let next = pending.take(i + 1);
                assert(next.drop_last() =~= pending.take(i as int));
                assert(next.last() == p);
                assert(next =~= pending.take(i as int).push(p));
                reveal(Seq::filter);
                if found {
                    let k = pending.take(i as int).index_of(id);
                    assert(next[k] == id);
                }
                if p == id {
                    assert(next[i as int] == id);
                }
            }
            if p == id {
                found = true;
            } else {
                rest.push(p);
            }
            i += 1;
        }
        assert(pending.take(i as int) =~= pending);
        if !found || apps_running {
            return false;
        }
        self.pending_restarts = rest;
        true
    }
}

/// A request to turn host redundancy on or off.
#[derive(Clone, Copy, Debug)]
pub struct SetHostRedundancyBody {
    pub enabled: bool,
}

/// The text of the configuration with host redundancy on or off, or the error.
pub open spec fn redundancy_config(contents: Result<Seq<char>, Seq<char>>, enabled: bool) -> Result<
    Seq<char>,
    Seq<char>,
> {
    match document(contents) {
        Err(e) => Err(e),
        Ok(doc) => document_text(
            with_key(doc, "host"@, "host_redundancy"@, TomlView::Boolean(enabled)),
        ),
    }
}

/// Works out the configuration with host redundancy on or off.
pub fn set_host_redundancy(
    body: &SetHostRedundancyBody,
    contents: &Result<String, String>,
) -> (r: Result<String, String>)
    ensures
        file_view(r) == redundancy_config(file_view(*contents), body.enabled),
{
    let mut doc = match read_document(contents) {
        Ok(d) => d,
        Err(e) => {
            return Err(e);
        },
    };
    set_key(&mut doc, "host", "host_redundancy", bool_value(body.enabled));
    write_document(&doc)
}

// ── Device highways ──

/// A device with a highway of its own.
#[derive(Debug)]
pub struct DeviceHighwayEntry {
    pub name: String,
    pub device: String,
}

pub struct HighwayView {
    pub name: Seq<char>,
    pub device: Seq<char>,
}

impl View for DeviceHighwayEntry {
    type V = HighwayView;

    open spec fn view(&self) -> HighwayView {
        HighwayView { name: self.name@, device: self.device@ }
    }
}

/// The views of several entries.
pub open spec fn highway_views(v: Seq<DeviceHighwayEntry>) -> Seq<HighwayView> {
    v.map_values(|e: DeviceHighwayEntry| e@)
}

/// A request to set the device highways.
pub struct SetDeviceHighwaysBody {
    pub devices: Vec<DeviceHighwayEntry>,
}

/// An entry as a TOML table.
pub open spec fn highway_table(e: HighwayView) -> TomlView {
    TomlView::Table(
        TableView::empty().insert("name"@, TomlView::Text(e.name)).insert(
            "device"@,
            TomlView::Text(e.device),
        ),
    )
}

/// The entries as a TOML array.
pub open spec fn highway_array(v: Seq<HighwayView>) -> TomlView {
    TomlView::Array(v.map_values(|e: HighwayView| highway_table(e)))
}

/// What is said when clients stand in the way of new highways.
pub open spec fn highways_blocked(n: nat) -> Seq<char> {
    "Cannot change device highways while MIDI applications are running on "@ + decimal(n)
        + " client(s). Close Resolume Arena first."@
}

/// The text of the configuration with other highways, or the error.
pub open spec fn highway_config(
    contents: Result<Seq<char>, Seq<char>>,
    entries: Seq<HighwayView>,
) -> Result<Seq<char>, Seq<char>> {
    match document(contents) {
        Err(e) => Err(e),
        Ok(doc) => document_text(with_key(doc, "midi"@, "devices"@, highway_array(entries))),
    }
}

fn entry_value(e: &DeviceHighwayEntry) -> (v: toml::Value)
    ensures
        value_contents(v) == highway_table(e@),
{
    let mut t = new_table();
    table_insert(&mut t, "name".to_owned(), text_value(e.name.clone()));
    table_insert(&mut t, "device".to_owned(), text_value(e.device.clone()));
    table_value(t)
}

fn entries_value(entries: &Vec<DeviceHighwayEntry>) -> (v: toml::Value)
    ensures
        value_contents(v) == highway_array(highway_views(entries@)),
{
    let ghost all = highway_views(entries@).map_values(|e: HighwayView| highway_table(e));
    let mut a: Vec<toml::Value> = Vec::new();
    let mut i: usize = 0;
    while i < entries.len()
        invariant
            i <= entries@.len(),
            all == highway_views(entries@).map_values(|e: HighwayView| highway_table(e)),
            values_contents(a@) =~= all.take(i as int),
        decreases entries@.len() - i,
    {
        let v = entry_value(&entries[i]);
        let ghost before = values_contents(a@);
        a.push(v);
        assert(values_contents(a@) =~= before.push(value_contents(v)));
        i += 1;
    }
    assert(all.take(i as int) =~= all);
    array_value(a)
}

/// Works out a change of the device highways. It takes 1 to 16 of them, and is
/// refused while a protected application is running on a client.
pub fn set_device_highways(
    body: &SetDeviceHighwaysBody,
    clients: &Vec<ClientInfo>,
    contents: &Result<String, String>,
) -> (r: Result<String, ChangeError>)
    ensures
        ({
            let entries = highway_views(body.devices@);
            let block = blocking(client_views(clients@));
            if entries.len() == 0 {
                r matches Err(e) && change_error(
                    e,
                    "At least one device highway is required."@,
                    Seq::empty(),
                )
            } else if entries.len() > 16 {
                r matches Err(e) && change_error(
                    e,
                    "Maximum 16 device highways supported."@,
                    Seq::empty(),
                )
            } else if block.len() > 0 {
                r matches Err(e) && change_error(e, highways_blocked(block.len()), block)
            } else {
                match highway_config(file_view(*contents), entries) {
                    Err(m) => r matches Err(e) && change_error(e, m, Seq::empty()),
                    Ok(text) => r matches Ok(s) && s@ == text,
                }
            }
        }),
{
    if body.devices.len() == 0 {
        return Err(plain_error("At least one device highway is required.".to_owned()));
    }
    if body.devices.len() > 16 {
        return Err(plain_error("Maximum 16 device highways supported.".to_owned()));
    }
    let list = blocking_clients(clients);
    if list.len() > 0 {
        let n = to_decimal(list.len() as u64);
        return Err(
            ChangeError {
                error: cat3(
                    "Cannot change device highways while MIDI applications are running on ",
                    n.as_str(),
                    " client(s). Close Resolume Arena first.",
                ),
                blocking: list,
            },
        );
    }
    let mut doc = match read_document(contents) {
        Ok(d) => d,
        Err(e) => {
            return Err(plain_error(e));
        },
    };
    set_key(&mut doc, "midi", "devices", entries_value(&body.devices));
    match write_document(&doc) {
        Ok(s) => Ok(s),
        Err(e) => Err(plain_error(e)),
    }
}

/// The names of the highways.
pub fn highway_names(body: &SetDeviceHighwaysBody) -> (r: Vec<String>)
    ensures
        texts(r@) == highway_views(body.devices@).map_values(|e: HighwayView| e.name),
{
    let ghost all = highway_views(body.devices@).map_values(|e: HighwayView| e.name);
    let mut r: Vec<String> = Vec::new();
    let mut i: usize = 0;
    while i < body.devices.len()
        invariant
            i <= body.devices@.len(),
            all == highway_views(body.devices@).map_values(|e: HighwayView| e.name),
            texts(r@) =~= all.take(i as int),
        decreases body.devices@.len() - i,
    {
        let ghost before = texts(r@);
        r.push(body.devices[i].name.clone());
        assert(texts(r@) =~= before.push(body.devices@[i as int].name@));
        i += 1;
    }
    assert(all.take(i as int) =~= all);
    r
}

/// The text at a key of a table, or the empty text.
pub open spec fn text_at(t: TableView, key: Seq<char>) -> Seq<char> {
    if t.dom().contains(key) {
        match t[key] {
            TomlView::Text(s) => s,
            _ => Seq::empty(),
        }
    } else {
        Seq::empty()
    }
}

/// The entries among the first `k` values of an array; what is no table is
/// passed over.
pub open spec fn entries_of(a: Seq<TomlView>, k: int) -> Seq<HighwayView>
    decreases k,
{
    if k <= 0 || k > a.len() {
        Seq::empty()
    } else {
        match a[k - 1] {
            TomlView::Table(t) => entries_of(a, k - 1).push(
                HighwayView { name: text_at(t, "name"@), device: text_at(t, "device"@) },
            ),
            _ => entries_of(a, k - 1),
        }
    }
}

/// The device highways in a document.
pub open spec fn highways_in(doc: TableView) -> Seq<HighwayView> {
    match key_value(doc, "midi"@, "devices"@) {
        Some(TomlView::Array(a)) => entries_of(a, a.len() as int),
        _ => Seq::empty(),
    }
}

fn read_text(t: &toml::Table, key: &str) -> (r: String)
    ensures
        r@ == text_at(table_contents(*t), key@),
{
    match table_get(t, key) {
        Some(v) => match value_as_str(v) {
            Some(s) => s.to_owned(),
            None => String::new(),
        },
        None => String::new(),
    }
}

/// The device highways of a document.
pub fn read_highways(doc: &toml::Table) -> (r: Vec<DeviceHighwayEntry>)
    ensures
        highway_views(r@) == highways_in(table_contents(*doc)),
{
    let mut r: Vec<DeviceHighwayEntry> = Vec::new();
    assert(highway_views(r@) =~= Seq::<HighwayView>::empty());
    if let Some(v) = get_key(doc, "midi", "devices") {
        if let Some(a) = value_as_array(v) {
            let mut k: usize = 0;
            while k < a.len()
                invariant
                    k <= a@.len(),
                    highway_views(r@) == entries_of(values_contents(a@), k as int),
                decreases a@.len() - k,
            {
                assert(values_contents(a@)[k as int] == value_contents(a@[k as int]));
                if let Some(t) = value_as_table(&a[k]) {
                    let e = DeviceHighwayEntry {
                        name: read_text(t, "name"),
                        device: read_text(t, "device"),
                    };
                    let ghost before = highway_views(r@);
                    r.push(e);
                    assert(highway_views(r@) =~= before.push(e@));
                }
                k += 1;
            }
            assert(values_contents(a@).len() == a@.len());
        }
    }
    r
}

/// The device highways of a configuration file; none where the file cannot be
/// read or is no TOML document.
pub fn get_device_highways(contents: &Result<String, String>) -> (r: Vec<DeviceHighwayEntry>)
    ensures
        highway_views(r@) == match document(file_view(*contents)) {
            Ok(doc) => highways_in(doc),
            Err(_) => Seq::empty(),
        },
{
    match read_document(contents) {
        Ok(doc) => read_highways(&doc),
        Err(_) => {
            let r: Vec<DeviceHighwayEntry> = Vec::new();
            assert(highway_views(r@) =~= Seq::<HighwayView>::empty());
            r
        },
    }
}

// ── Protected applications ──

/// A request to set the protected applications.
pub struct SetProtectedAppsBody {
    pub enabled: Vec<String>,
    pub custom_processes: Vec<String>,
}

/// Several texts as a TOML array.
pub open spec fn text_array(v: Seq<Seq<char>>) -> TomlView {
    TomlView::Array(v.map_values(|s: Seq<char>| TomlView::Text(s)))
}

/// A document with other protected applications.
pub open spec fn with_apps(
    doc: TableView,
    enabled: Seq<Seq<char>>,
    custom: Seq<Seq<char>>,
) -> TableView {
    with_key(
        with_key(doc, "safety"@, "protected_apps"@, text_array(enabled)),
        "safety"@,
        "custom_processes"@,
        text_array(custom),
    )
}

/// The text of the configuration with other protected applications, or the error.
pub open spec fn apps_config(
    contents: Result<Seq<char>, Seq<char>>,
    enabled: Seq<Seq<char>>,
    custom: Seq<Seq<char>>,
) -> Result<Seq<char>, Seq<char>> {
    match document(contents) {
        Err(e) => Err(e),
        Ok(doc) => document_text(with_apps(doc, enabled, custom)),
    }
}

fn texts_value(v: &Vec<String>) -> (r: toml::Value)
    ensures
        value_contents(r) == text_array(texts(v@)),
{
    let ghost all = texts(v@).map_values(|s: Seq<char>| TomlView::Text(s));
    let mut a: Vec<toml::Value> = Vec::new();
    let mut i: usize = 0;
    while i < v.len()
        invariant
            i <= v@.len(),
            all == texts(v@).map_values(|s: Seq<char>| TomlView::Text(s)),
            values_contents(a@) =~= all.take(i as int),
        decreases v@.len() - i,
    {
        let x = text_value(v[i].clone());
        let ghost before = values_contents(a@);
        a.push(x);
        assert(values_contents(a@) =~= before.push(value_contents(x)));
        i += 1;
    }
    assert(all.take(i as int) =~= all);
    array_value(a)
}

/// Works out the configuration with other protected applications. Every id has
/// to be in the catalog.
pub fn set_protected_apps(
    body: &SetProtectedAppsBody,
    contents: &Result<String, String>,
) -> (r: Result<String, String>)
    ensures
        ({
            let unknown = unknown_ids(texts(body.enabled@));
            if unknown.len() > 0 {
                r matches Err(e) && e@ == "Unknown app IDs: "@ + joined(unknown, ", "@)
            } else {
                file_view(r) == apps_config(
                    file_view(*contents),
                    texts(body.enabled@),
                    texts(body.custom_processes@),
                )
            }
        }),
{
    let unknown = unknown_ids_in(&body.enabled);
    assert(texts(unknown@).len() == unknown@.len());
    if unknown.len() > 0 {
        let list = str_join(&unknown, ", ");
        return Err(cat("Unknown app IDs: ", list.as_str()));
    }
    let mut doc = match read_document(contents) {
        Ok(d) => d,
        Err(e) => {
            return Err(e);
        },
    };
    set_key(&mut doc, "safety", "protected_apps", texts_value(&body.enabled));
    set_key(&mut doc, "safety", "custom_processes", texts_value(&body.custom_processes));
    write_document(&doc)
}

// ── Reading at the start ──

/// The texts among the first `k` values of an array.
pub open spec fn texts_of(a: Seq<TomlView>, k: int) -> Seq<Seq<char>>
    decreases k,
{
    if k <= 0 || k > a.len() {
        Seq::empty()
    } else {
        match a[k - 1] {
            TomlView::Text(s) => texts_of(a, k - 1).push(s),
            _ => texts_of(a, k - 1),
        }
    }
}

/// The texts in an array at `section.key`.
pub open spec fn texts_at(doc: TableView, section: Seq<char>, key: Seq<char>) -> Seq<Seq<char>> {
    match key_value(doc, section, key) {
        Some(TomlView::Array(a)) => texts_of(a, a.len() as int),
        _ => Seq::empty(),
    }
}

/// The names among the first `k` values of an array: the texts at `name` of
/// those that are tables and have one.
pub open spec fn names_of(a: Seq<TomlView>, k: int) -> Seq<Seq<char>>
    decreases k,
{
    if k <= 0 || k > a.len() {
        Seq::empty()
    } else {
        match a[k - 1] {
            TomlView::Table(t) => if t.dom().contains("name"@) && t["name"@] is Text {
                names_of(a, k - 1).push(t["name"@]->Text_0)
            } else {
                names_of(a, k - 1)
            },
            _ => names_of(a, k - 1),
        }
    }
}

/// The names of the configured devices: those of the highways, or else the
/// single device.
pub open spec fn device_names_in(doc: TableView) -> Seq<Seq<char>> {
    let names = match key_value(doc, "midi"@, "devices"@) {
        Some(TomlView::Array(a)) => names_of(a, a.len() as int),
        _ => Seq::empty(),
    };
    if names.len() > 0 {
        names
    } else {
        match key_value(doc, "midi"@, "device"@) {
            Some(TomlView::Text(s)) => seq![s],
            _ => Seq::empty(),
        }
    }
}

/// A list, or another one where it is empty.
pub open spec fn list_or(v: Seq<Seq<char>>, other: Seq<Seq<char>>) -> Seq<Seq<char>> {
    if v.len() > 0 {
        v
    } else {
        other
    }
}

/// The state with what a document says.
pub open spec fn loaded(s: HostConfigView, doc: TableView) -> HostConfigView {
    HostConfigView {
        configured_mode: match key_value(doc, "host"@, "mode"@) {
            Some(TomlView::Text(m)) => m,
            _ => s.configured_mode,
        },
        host_redundancy_enabled: match key_value(doc, "host"@, "host_redundancy"@) {
            Some(TomlView::Boolean(b)) => b,
            _ => s.host_redundancy_enabled,
        },
        configured_devices: list_or(device_names_in(doc), s.configured_devices),
        protected_apps: list_or(texts_at(doc, "safety"@, "protected_apps"@), s.protected_apps),
        custom_processes: list_or(
            texts_at(doc, "safety"@, "custom_processes"@),
            s.custom_processes,
        ),
        ..s
    }
}

fn read_texts(doc: &toml::Table, section: &str, key: &str) -> (r: Vec<String>)
    ensures
        texts(r@) == texts_at(table_contents(*doc), section@, key@),
{
    let mut r: Vec<String> = Vec::new();
    assert(texts(r@) =~= Seq::<Seq<char>>::empty());
    if let Some(v) = get_key(doc, section, key) {
        if let Some(a) = value_as_array(v) {
            let mut k: usize = 0;
            while k < a.len()
                invariant
                    k <= a@.len(),
                    texts(r@) == texts_of(values_contents(a@), k as int),
                decreases a@.len() - k,
            {
                assert(values_contents(a@)[k as int] == value_contents(a@[k as int]));
                if let Some(s) = value_as_str(&a[k]) {
                    let ghost before = texts(r@);
                    r.push(s.to_owned());
                    assert(texts(r@) =~= before.push(s@));
                }
                k += 1;
            }
            assert(values_contents(a@).len() == a@.len());
        }
    }
    r
}

fn read_names(doc: &toml::Table) -> (r: Vec<String>)
    ensures
        texts(r@) == device_names_in(table_contents(*doc)),
{
    let mut r: Vec<String> = Vec::new();
    assert(texts(r@) =~= Seq::<Seq<char>>::empty());
    if let Some(v) = get_key(doc, "midi", "devices") {
        if let Some(a) = value_as_array(v) {
            let mut k: usize = 0;
            while k < a.len()
                invariant
                    k <= a@.len(),
                    texts(r@) == names_of(values_contents(a@), k as int),
                decreases a@.len() - k,
            {
                assert(values_contents(a@)[k as int] == value_contents(a@[k as int]));
                if let Some(t) = value_as_table(&a[k]) {
                    if let Some(n) = table_get(t, "name") {
                        if let Some(s) = value_as_str(n) {
                            let ghost before = texts(r@);
                            r.push(s.to_owned());
                            assert(texts(r@) =~= before.push(s@));
                        }
                    }
                }
                k += 1;
            }
            assert(values_contents(a@).len() == a@.len());
        }
    }
    assert(texts(r@).len() == r@.len());
    if r.len() == 0 {
        if let Some(v) = get_key(doc, "midi", "device") {
            if let Some(s) = value_as_str(v) {
                r.push(s.to_owned());
                assert(texts(r@) =~= seq![s@]);
            }
        }
    }
    r
}

impl HostConfig {
    /// The state before any file was read.
    pub fn new() -> (r: Self)
        ensures
            r@ == (HostConfigView {
                configured_mode: "single"@,
                host_redundancy_enabled: false,
                configured_devices: Seq::empty(),
                protected_apps: Seq::empty(),
                custom_processes: Seq::empty(),
                pending_restarts: Seq::empty(),
            }),
    {
        let r = HostConfig {
            configured_mode: "single".to_owned(),
            host_redundancy_enabled: false,
            configured_devices: Vec::new(),
            protected_apps: Vec::new(),
            custom_processes: Vec::new(),
            pending_restarts: Vec::new(),
        };
        assert(texts(r.configured_devices@) =~= Seq::<Seq<char>>::empty());
        assert(texts(r.protected_apps@) =~= Seq::<Seq<char>>::empty());
        assert(texts(r.custom_processes@) =~= Seq::<Seq<char>>::empty());
        r
    }

    /// Takes over what a document says; what it does not say stays as it is.
    pub fn load_document(&mut self, doc: &toml::Table)
        ensures
            final(self)@ == loaded(old(self)@, table_contents(*doc)),
    {
        if let Some(v) = get_key(doc, "host", "mode") {
            if let Some(s) = value_as_str(v) {
                self.configured_mode = s.to_owned();
            }
        }
        if let Some(v) = get_key(doc, "host", "host_redundancy") {
            if let Some(b) = value_as_bool(v) {
                self.host_redundancy_enabled = b;
            }
        }
        let names = read_names(doc);
        assert(texts(names@).len() == names@.len());
        if names.len() > 0 {
            self.configured_devices = names;
        }
        let apps = read_texts(doc, "safety", "protected_apps");
        assert(texts(apps@).len() == apps@.len());
        if apps.len() > 0 {
            self.protected_apps = apps;
        }
        let custom = read_texts(doc, "safety", "custom_processes");
        assert(texts(custom@).len() == custom@.len());
        if custom.len() > 0 {
            self.custom_processes = custom;
        }
    }

    /// Takes over what a configuration file says. A text that is no TOML
    /// document says nothing.
    pub fn load(&mut self, text: &str)
        ensures
            final(self)@ == match toml_parsed(text@) {
                Ok(doc) => loaded(old(self)@, doc),
                Err(_) => old(self)@,
            },
    {
        if let Ok(doc) = parse_table(text) {
            self.load_document(&doc);
        }
    }
}

// ── Laws ──

/// A client is told to restart once after a change, however often it asks.
pub proof fn law_restart_once(pending: Seq<u32>, id: u32)
    ensures
        !pending.filter(|p: u32| p != id).contains(id),
        forall|other: u32|
            other != id ==> pending.filter(|p: u32| p != id).contains(other) == pending.contains(
                other,
            ),
{
    let keep = |p: u32| p != id;
    assert forall|x: u32| #[trigger] pending.filter(keep).contains(x) == (pending.contains(x)
        && keep(x)) by {
        lemma_filter_contains(pending, keep, x);
    }
}

/// A document in which a mode was set is read back with that mode, and without
/// another change of the state; unless `host` is there and no table.
pub proof fn law_mode_reads_back(s: HostConfigView, doc: TableView, mode: Seq<char>)
    requires
        doc.dom().contains("host"@) ==> doc["host"@] is Table,
    ensures
        loaded(s, with_key(doc, "host"@, "mode"@, TomlView::Text(mode))) == (HostConfigView {
            configured_mode: mode,
            ..loaded(s, doc)
        }),
{
    lemma_section_names();
    let d = with_key(doc, "host"@, "mode"@, TomlView::Text(mode));
    assert(key_value(d, "midi"@, "devices"@) == key_value(doc, "midi"@, "devices"@));
    assert(key_value(d, "midi"@, "device"@) == key_value(doc, "midi"@, "device"@));
    assert(key_value(d, "safety"@, "protected_apps"@) == key_value(
        doc,
        "safety"@,
        "protected_apps"@,
    ));
    assert(key_value(d, "safety"@, "custom_processes"@) == key_value(
        doc,
        "safety"@,
        "custom_processes"@,
    ));
    assert(key_value(d, "host"@, "host_redundancy"@) == key_value(
        doc,
        "host"@,
        "host_redundancy"@,
    ));
}

/// A document in which host redundancy was set is read back with it, and
/// without another change of the state; unless `host` is there and no table.
pub proof fn law_redundancy_reads_back(s: HostConfigView, doc: TableView, enabled: bool)
    requires
        doc.dom().contains("host"@) ==> doc["host"@] is Table,
    ensures
        loaded(
            s,
            with_key(doc, "host"@, "host_redundancy"@, TomlView::Boolean(enabled)),
        ) == (HostConfigView { host_redundancy_enabled: enabled, ..loaded(s, doc) }),
{
    lemma_section_names();
    let d = with_key(doc, "host"@, "host_redundancy"@, TomlView::Boolean(enabled));
    assert(key_value(d, "midi"@, "devices"@) == key_value(doc, "midi"@, "devices"@));
    assert(key_value(d, "midi"@, "device"@) == key_value(doc, "midi"@, "device"@));
    assert(key_value(d, "safety"@, "protected_apps"@) == key_value(
        doc,
        "safety"@,
        "protected_apps"@,
    ));
    assert(key_value(d, "safety"@, "custom_processes"@) == key_value(
        doc,
        "safety"@,
        "custom_processes"@,
    ));
    assert(key_value(d, "host"@, "mode"@) == key_value(doc, "host"@, "mode"@));
}

proof fn lemma_section_names()
    ensures
        "host"@ != "midi"@,
        "host"@ != "safety"@,
        "midi"@ != "safety"@,
        "mode"@ != "host_redundancy"@,
        "name"@ != "device"@,
        "devices"@ != "device"@,
        "protected_apps"@ != "custom_processes"@,
{
    reveal_strlit("host");
    reveal_strlit("midi");
    reveal_strlit("safety");
    reveal_strlit("mode");
    reveal_strlit("host_redundancy");
    reveal_strlit("name");
    reveal_strlit("device");
    reveal_strlit("devices");
    reveal_strlit("protected_apps");
    reveal_strlit("custom_processes");
    assert("host"@[0] != "midi"@[0]);
    assert("host"@.len() != "safety"@.len());
    assert("midi"@.len() != "safety"@.len());
    assert("mode"@.len() != "host_redundancy"@.len());
    assert("name"@.len() != "device"@.len());
    assert("devices"@.len() != "device"@.len());
    assert("protected_apps"@.len() != "custom_processes"@.len());
}

proof fn lemma_entries_of(entries: Seq<HighwayView>, k: int)
    requires
        0 <= k <= entries.len(),
    ensures
        entries_of(entries.map_values(|e: HighwayView| highway_table(e)), k) == entries.take(k),
    decreases k,
{
    let a = entries.map_values(|e: HighwayView| highway_table(e));
    if k > 0 {
        lemma_entries_of(entries, k - 1);
        lemma_section_names();
        let e = entries[k - 1];
        assert(a[k - 1] == highway_table(e));
        assert(entries.take(k) =~= entries.take(k - 1).push(e));
    } else {
        assert(entries.take(0) =~= Seq::<HighwayView>::empty());
    }
}

/// The device highways that were set are read back, in order; unless `midi` is
/// there and no table.
pub proof fn law_highways_read_back(doc: TableView, entries: Seq<HighwayView>)
    requires
        doc.dom().contains("midi"@) ==> doc["midi"@] is Table,
    ensures
        highways_in(with_key(doc, "midi"@, "devices"@, highway_array(entries))) == entries,
{
    lemma_entries_of(entries, entries.len() as int);
    assert(entries.take(entries.len() as int) =~= entries);
}

proof fn lemma_texts_of(v: Seq<Seq<char>>, k: int)
    requires
        0 <= k <= v.len(),
    ensures
        texts_of(v.map_values(|s: Seq<char>| TomlView::Text(s)), k) == v.take(k),
    decreases k,
{
    let a = v.map_values(|s: Seq<char>| TomlView::Text(s));
    if k > 0 {
        lemma_texts_of(v, k - 1);
        assert(a[k - 1] == TomlView::Text(v[k - 1]));
        assert(v.take(k) =~= v.take(k - 1).push(v[k - 1]));
    } else {
        assert(v.take(0) =~= Seq::<Seq<char>>::empty());
    }
}

/// The protected applications that were set are read back; unless `safety` is
/// there and no table.
pub proof fn law_apps_read_back(doc: TableView, enabled: Seq<Seq<char>>, custom: Seq<Seq<char>>)
    requires
        doc.dom().contains("safety"@) ==> doc["safety"@] is Table,
    ensures
        texts_at(with_apps(doc, enabled, custom), "safety"@, "protected_apps"@) == enabled,
        texts_at(with_apps(doc, enabled, custom), "safety"@, "custom_processes"@) == custom,
{
    lemma_section_names();
    lemma_texts_of(enabled, enabled.len() as int);
    lemma_texts_of(custom, custom.len() as int);
    assert(enabled.take(enabled.len() as int) =~= enabled);
    assert(custom.take(custom.len() as int) =~= custom);
}

/// Whether a table has a value at `section.key`.
pub open spec fn says(doc: TableView, section: Seq<char>, key: Seq<char>, value: TomlView) -> bool {
    doc.dom().contains(section) && (doc[section] matches TomlView::Table(t) && t.dom().contains(key)
        && t[key] == value)
}

/// Whether a table says nothing at `section.key`.
pub open spec fn says_nothing(doc: TableView, section: Seq<char>, key: Seq<char>) -> bool {
    !(doc.dom().contains(section) && (doc[section] matches TomlView::Table(t) && t.dom().contains(
        key,
    )))
}

proof fn lemma_nobody_blocks(clients: Seq<ClientInfo>)
    ensures
        blocking(client_views(clients)).len() == 0 <==> forall|i: int|
            0 <= i < clients.len() ==> !(#[trigger] clients[i]).midi_apps_active,
{
    let v = client_views(clients);
    let p = |c: ClientView| c.midi_apps_active;
    if blocking(v).len() == 0 {
        assert forall|i: int| 0 <= i < clients.len() implies !(#[trigger] clients[i]).midi_apps_active by {
            lemma_filter_contains(v, p, v[i]);
            assert(v[i] == clients[i]@);
            assert(v.contains(v[i]));
        }
    } else {
        let c = blocking(v)[0];
        assert(blocking(v).contains(c));
        lemma_filter_contains(v, p, c);
        let i = v.index_of(c);
        assert(v[i] == clients[i]@);
        assert(clients[i].midi_apps_active);
    }
}

/// The clients that stand in the way are those on which a protected application runs.
pub proof fn law_who_blocks(
    clients: Vec<ClientInfo>,
    r: Vec<BlockingClient>,
    entry: (u32, Seq<char>, Seq<char>),
)
    requires
        call_ensures(blocking_clients, (&clients,), r),
    ensures
        blocking_views(r@).contains(entry) <==> exists|i: int|
            0 <= i < clients@.len() && (#[trigger] clients@[i]).midi_apps_active && entry == (
                clients@[i].id,
                clients@[i].hostname@,
                clients@[i].ip@,
            ),
        r@.len() <= clients@.len(),
{
    let v = client_views(clients@);
    let p = |c: ClientView| c.midi_apps_active;
    let b = blocking(v);
    let w = contact_views(b);
    lemma_filter_len(v, p);
    if w.contains(entry) {
        let k = w.index_of(entry);
        assert(w[k] == (b[k].id, b[k].hostname, b[k].ip));
        assert(b.contains(b[k]));
        lemma_filter_contains(v, p, b[k]);
        let i = v.index_of(b[k]);
        assert(v[i] == clients@[i]@);
        assert(clients@[i].midi_apps_active);
    }
    if exists|i: int|
        0 <= i < clients@.len() && (#[trigger] clients@[i]).midi_apps_active && entry == (
            clients@[i].id,
            clients@[i].hostname@,
            clients@[i].ip@,
        ) {
        let i = choose|i: int|
            0 <= i < clients@.len() && (#[trigger] clients@[i]).midi_apps_active && entry == (
                clients@[i].id,
                clients@[i].hostname@,
                clients@[i].ip@,
            );
        assert(v[i] == clients@[i]@);
        assert(v.contains(v[i]));
        lemma_filter_contains(v, p, v[i]);
        let k = b.index_of(v[i]);
        assert(w[k] == entry);
    }
}

proof fn lemma_filter_len(v: Seq<ClientView>, p: spec_fn(ClientView) -> bool)
    ensures
        v.filter(p).len() <= v.len(),
    decreases v.len(),
{
    reveal(Seq::filter);
    if v.len() > 0 {
        lemma_filter_len(v.drop_last(), p);
    }
}

/// When the mode is changed: there is such a mode, no client is in the way, and the file
/// can be read and written. The file then has the mode and is otherwise what it was.
pub proof fn law_mode_is_set(
    body: SetModeBody,
    clients: Vec<ClientInfo>,
    contents: Result<String, String>,
    r: Result<ModeChange, ChangeError>,
    before: TableView,
)
    requires
        call_ensures(set_mode, (&body, &clients, &contents), r),
        contents matches Ok(t) && toml_parsed(t@) == Ok::<TableView, Seq<char>>(before),
        before.dom().contains("host"@) ==> before["host"@] is Table,
    ensures
        ({
            let mode = lowercase(trimmed(body.mode@));
            let exists_mode = mode == "single"@ || mode == "redundant"@ || mode == "multi"@;
            let free = forall|i: int|
                0 <= i < clients@.len() ==> !(#[trigger] clients@[i]).midi_apps_active;
            &&& r is Ok ==> exists_mode && free
            &&& r matches Ok(c) ==> c.mode@ == mode && exists|after: TableView|
                key_is_set(before, after, "host"@, "mode"@, TomlView::Text(mode))
                    && #[trigger] toml_printed(after) == Ok::<Seq<char>, Seq<char>>(c.config@)
            &&& exists_mode && free && r is Err ==> exists|after: TableView|
                key_is_set(before, after, "host"@, "mode"@, TomlView::Text(mode))
                    && #[trigger] toml_printed(after) is Err
            &&& !exists_mode ==> (r matches Err(e) && e.error@ == "Invalid mode '"@ + mode
                + "'. Must be 'single', 'redundant', or 'multi'."@ && e.blocking@.len() == 0)
            &&& exists_mode && !free ==> (r matches Err(e) && e.blocking@.len() > 0 && e.error@
                == "Cannot change mode while MIDI applications are running on "@ + decimal(
                e.blocking@.len(),
            ) + " client(s). Close Resolume Arena first."@)
        }),
{
    let mode = lowercase(trimmed(body.mode@));
    let after = with_key(before, "host"@, "mode"@, TomlView::Text(mode));
    lemma_key_is_set(before, "host"@, "mode"@, TomlView::Text(mode));
    lemma_nobody_blocks(clients@);
    if let Err(e) = r {
        assert(blocking_views(e.blocking@).len() == e.blocking@.len());
        assert(contact_views(blocking(client_views(clients@))).len() == blocking(
            client_views(clients@),
        ).len());
        assert(contact_views(Seq::<ClientView>::empty()).len() == 0);
    }
    match toml_printed(after) {
        Ok(_) => {},
        Err(_) => {},
    }
}

/// Without a document nothing is changed: a file that cannot be read and one that is no
/// TOML are both named in the error.
pub proof fn law_no_document(
    body: SetHostRedundancyBody,
    contents: Result<String, String>,
    r: Result<String, String>,
)
    requires
        call_ensures(set_host_redundancy, (&body, &contents), r),
    ensures
        contents matches Err(reason) ==> (r matches Err(e) && e@ == "Cannot read config: "@
            + reason@),
        contents matches Ok(t) ==> (toml_parsed(t@) matches Err(reason) ==> (r matches Err(e) && e@
            == "Config parse error: "@ + reason)),
{
}

/// Host redundancy is on or off in the file as it was asked for, and the file is otherwise
/// what it was.
pub proof fn law_redundancy_is_set(
    body: SetHostRedundancyBody,
    contents: Result<String, String>,
    r: Result<String, String>,
    before: TableView,
)
    requires
        call_ensures(set_host_redundancy, (&body, &contents), r),
        contents matches Ok(t) && toml_parsed(t@) == Ok::<TableView, Seq<char>>(before),
        before.dom().contains("host"@) ==> before["host"@] is Table,
    ensures
        exists|after: TableView|
            {
                &&& key_is_set(
                    before,
                    after,
                    "host"@,
                    "host_redundancy"@,
                    TomlView::Boolean(body.enabled),
                )
                &&& match #[trigger] toml_printed(after) {
                    Ok(text) => r matches Ok(s) && s@ == text,
                    Err(reason) => r matches Err(e) && e@ == "Failed to serialize config: "@
                        + reason,
                }
            },
{
    let after = with_key(before, "host"@, "host_redundancy"@, TomlView::Boolean(body.enabled));
    lemma_key_is_set(before, "host"@, "host_redundancy"@, TomlView::Boolean(body.enabled));
    match toml_printed(after) {
        Ok(_) => {},
        Err(_) => {},
    }
}

/// Whether a value is a table with the name and the device of an entry, and nothing else.
pub open spec fn is_entry(v: TomlView, e: DeviceHighwayEntry) -> bool {
    v matches TomlView::Table(t) && (forall|k: Seq<char>| #[trigger]
        t.dom().contains(k) <==> k == "name"@ || k == "device"@) && t["name"@] == TomlView::Text(
        e.name@,
    ) && t["device"@] == TomlView::Text(e.device@)
}

/// When the highways are changed: there are 1 to 16 of them, no client is in the way, and
/// the file can be written. The file then has the entries in order and is otherwise what
/// it was.
pub proof fn law_highways_are_set(
    body: SetDeviceHighwaysBody,
    clients: Vec<ClientInfo>,
    contents: Result<String, String>,
    r: Result<String, ChangeError>,
    before: TableView,
)
    requires
        call_ensures(set_device_highways, (&body, &clients, &contents), r),
        contents matches Ok(t) && toml_parsed(t@) == Ok::<TableView, Seq<char>>(before),
        before.dom().contains("midi"@) ==> before["midi"@] is Table,
    ensures
        ({
            let n = body.devices@.len();
            let free = forall|i: int|
                0 <= i < clients@.len() ==> !(#[trigger] clients@[i]).midi_apps_active;
            &&& r is Ok ==> 1 <= n <= 16 && free
            &&& n == 0 ==> (r matches Err(e) && e.error@
                == "At least one device highway is required."@)
            &&& n > 16 ==> (r matches Err(e) && e.error@ == "Maximum 16 device highways supported."@)
            &&& 1 <= n <= 16 && !free ==> (r matches Err(e) && e.blocking@.len() > 0 && e.error@
                == "Cannot change device highways while MIDI applications are running on "@
                + decimal(e.blocking@.len()) + " client(s). Close Resolume Arena first."@)
            &&& 1 <= n <= 16 && free ==> exists|after: TableView, entries: Seq<TomlView>|
                {
                    &&& #[trigger] key_is_set(
                        before,
                        after,
                        "midi"@,
                        "devices"@,
                        TomlView::Array(entries),
                    )
                    &&& entries.len() == n
                    &&& forall|i: int|
                        0 <= i < n ==> is_entry(#[trigger] entries[i], body.devices@[i])
                    &&& match toml_printed(after) {
                        Ok(text) => r matches Ok(s) && s@ == text,
                        Err(_) => r is Err,
                    }
                }
        }),
{
    lemma_section_names();
    let v = highway_views(body.devices@);
    let entries = v.map_values(|e: HighwayView| highway_table(e));
    let after = with_key(before, "midi"@, "devices"@, TomlView::Array(entries));
    lemma_key_is_set(before, "midi"@, "devices"@, TomlView::Array(entries));
    lemma_nobody_blocks(clients@);
    assert forall|i: int| 0 <= i < v.len() implies is_entry(
        #[trigger] entries[i],
        body.devices@[i],
    ) by {
        assert(v[i] == body.devices@[i]@);
    }
    if let Err(e) = r {
        assert(blocking_views(e.blocking@).len() == e.blocking@.len());
        assert(contact_views(blocking(client_views(clients@))).len() == blocking(
            client_views(clients@),
        ).len());
    }
    assert(v.len() == body.devices@.len());
    match toml_printed(after) {
        Ok(_) => {},
        Err(_) => {},
    }
}

/// The names of the highways are those of the entries, in order.
pub proof fn law_highway_names(body: SetDeviceHighwaysBody, r: Vec<String>, i: int)
    requires
        call_ensures(highway_names, (&body,), r),
    ensures
        r@.len() == body.devices@.len(),
        0 <= i < r@.len() ==> r@[i]@ == body.devices@[i].name@,
{
    let v = highway_views(body.devices@);
    assert(texts(r@).len() == r@.len());
    assert(v.len() == body.devices@.len());
    if 0 <= i < r@.len() {
        assert(texts(r@)[i] == r@[i]@);
        assert(v[i] == body.devices@[i]@);
    }
}

proof fn lemma_entries_read(a: Seq<TomlView>, k: int, i: int)
    requires
        0 <= k <= a.len(),
        forall|j: int| 0 <= j < k ==> (#[trigger] a[j]) is Table,
    ensures
        entries_of(a, k).len() == k,
        0 <= i < k ==> entries_of(a, k)[i] == (HighwayView {
            name: text_at(a[i]->Table_0, "name"@),
            device: text_at(a[i]->Table_0, "device"@),
        }),
    decreases k,
{
    if k > 0 {
        assert(a[k - 1] is Table);
        lemma_entries_read(a, k - 1, i);
        lemma_entries_read(a, k - 1, 0);
    }
}

/// The highways of a file are the tables of its array, in order, each with its name and
/// device; a file that is no document, or has no such array, has none.
pub proof fn law_highways_are_read(
    contents: Result<String, String>,
    r: Vec<DeviceHighwayEntry>,
    doc: TableView,
    a: Seq<TomlView>,
    i: int,
)
    requires
        call_ensures(get_device_highways, (&contents,), r),
    ensures
        contents is Err ==> r@.len() == 0,
        contents matches Ok(t) ==> (toml_parsed(t@) is Err ==> r@.len() == 0),
        (contents matches Ok(t) && toml_parsed(t@) == Ok::<TableView, Seq<char>>(doc)) && says_nothing(
            doc,
            "midi"@,
            "devices"@,
        ) ==> r@.len() == 0,
        (contents matches Ok(t) && toml_parsed(t@) == Ok::<TableView, Seq<char>>(doc)) && says(
            doc,
            "midi"@,
            "devices"@,
            TomlView::Array(a),
        ) && (forall|j: int| 0 <= j < a.len() ==> (#[trigger] a[j]) is Table) ==> {
            &&& r@.len() == a.len()
            &&& 0 <= i < a.len() ==> {
                let t = a[i]->Table_0;
                &&& t.dom().contains("name"@) && t["name"@] is Text ==> r@[i].name@
                    == t["name"@]->Text_0
                &&& t.dom().contains("device"@) && t["device"@] is Text ==> r@[i].device@
                    == t["device"@]->Text_0
                &&& !t.dom().contains("name"@) ==> r@[i].name@.len() == 0
                &&& !t.dom().contains("device"@) ==> r@[i].device@.len() == 0
            }
        },
{
    let v = highway_views(r@);
    assert(v.len() == r@.len());
    if forall|j: int| 0 <= j < a.len() ==> (#[trigger] a[j]) is Table {
        lemma_entries_read(a, a.len() as int, i);
        if 0 <= i < r@.len() {
            assert(v[i] == r@[i]@);
        }
    }
}

/// A change of the mode is in force: the hosts are in it and otherwise as they were, and
/// every client is to restart, besides those that were to restart already.
pub proof fn law_mode_in_force(
    s: &mut HostConfig,
    mode: &str,
    hosts: &mut Vec<HostInfo>,
    clients: Vec<ClientInfo>,
    n: usize,
    i: int,
    id: u32,
)
    requires
        call_ensures(HostConfig::mode_changed, (s, mode, hosts, &clients), n),
    ensures
        final(s).configured_mode@ == mode@,
        final(hosts)@.len() == old(hosts)@.len(),
        0 <= i < old(hosts)@.len() ==> final(hosts)@[i].operational_mode@ == mode@
            && final(hosts)@[i]@ == (HostView { operational_mode: mode@, ..old(hosts)@[i]@ }),
        n == clients@.len(),
        final(s).pending_restarts@.contains(id) <==> old(s).pending_restarts@.contains(id)
            || exists|k: int| 0 <= k < clients@.len() && (#[trigger] clients@[k]).id == id,
        final(s)@.configured_devices == old(s)@.configured_devices,
        final(s)@.protected_apps == old(s)@.protected_apps,
        final(s)@.custom_processes == old(s)@.custom_processes,
        final(s).host_redundancy_enabled == old(s).host_redundancy_enabled,
{
    let v = host_views(old(hosts)@);
    let w = host_views(final(hosts)@);
    assert(v.len() == old(hosts)@.len() && w.len() == final(hosts)@.len());
    if 0 <= i < v.len() {
        assert(w[i] == final(hosts)@[i]@ && v[i] == old(hosts)@[i]@);
    }
    let c = client_views(clients@);
    let ids = client_ids(c);
    let b = old(s).pending_restarts@;
    let a = final(s).pending_restarts@;
    assert(final(s)@.pending_restarts == a && old(s)@.pending_restarts == b);
    assert(a == b + ids);
    assert(ids.len() == clients@.len());
    if a.contains(id) {
        let k = a.index_of(id);
        if k < b.len() {
            assert(b[k] == id);
        } else {
            assert(ids[k - b.len()] == id);
            assert(c[k - b.len()] == clients@[k - b.len()]@);
            assert(clients@[k - b.len()].id == id);
        }
    }
    if b.contains(id) {
        let k = b.index_of(id);
        assert(a[k] == id);
    }
    if exists|k: int| 0 <= k < clients@.len() && (#[trigger] clients@[k]).id == id {
        let k = choose|k: int| 0 <= k < clients@.len() && (#[trigger] clients@[k]).id == id;
        assert(c[k] == clients@[k]@);
        assert(ids[k] == id);
        assert(a[b.len() + k] == id);
    }
}

/// A client that is to restart is told so, once, as soon as no protected application runs
/// on it; who is not to restart is never told, and others still wait.
pub proof fn law_told_to_restart(
    s: &mut HostConfig,
    id: u32,
    apps_running: bool,
    first: bool,
    t: &mut HostConfig,
    again: bool,
    other: u32,
)
    requires
        call_ensures(HostConfig::restart_due, (s, id, apps_running), first),
        *old(t) == *final(s),
        call_ensures(HostConfig::restart_due, (t, id, false), again),
        other != id,
    ensures
        first <==> old(s).pending_restarts@.contains(id) && !apps_running,
        again <==> old(s).pending_restarts@.contains(id) && apps_running,
        final(s).pending_restarts@.contains(other) <==> old(s).pending_restarts@.contains(other),
        final(s).configured_mode@ == old(s).configured_mode@,
{
    law_restart_once(old(s).pending_restarts@, id);
    assert(final(s)@.pending_restarts == final(s).pending_restarts@);
    assert(old(s)@.pending_restarts == old(s).pending_restarts@);
    assert(final(s)@.configured_mode == final(s).configured_mode@);
}

/// Protected applications have to be in the catalog; the error names those that are not.
/// Otherwise the file has both lists and its other sections are what they were.
pub proof fn law_apps_are_set(
    body: SetProtectedAppsBody,
    contents: Result<String, String>,
    r: Result<String, String>,
    unknown: Vec<String>,
    before: TableView,
    enabled: Seq<TomlView>,
    custom: Seq<TomlView>,
)
    requires
        call_ensures(set_protected_apps, (&body, &contents), r),
        enabled.len() == body.enabled@.len(),
        forall|i: int|
            0 <= i < enabled.len() ==> #[trigger] enabled[i] == TomlView::Text(body.enabled@[i]@),
        custom.len() == body.custom_processes@.len(),
        forall|i: int|
            0 <= i < custom.len() ==> #[trigger] custom[i] == TomlView::Text(
                body.custom_processes@[i]@,
            ),
        call_ensures(unknown_ids_in, (&body.enabled,), unknown),
        contents matches Ok(t) && toml_parsed(t@) == Ok::<TableView, Seq<char>>(before),
        before.dom().contains("safety"@) ==> before["safety"@] is Table,
    ensures
        unknown@.len() > 0 ==> (r matches Err(e) && e@ == "Unknown app IDs: "@ + joined(
            texts(unknown@),
            ", "@,
        )),
        unknown@.len() == 0 ==> exists|between: TableView, after: TableView|
            {
                &&& #[trigger] key_is_set(
                    before,
                    between,
                    "safety"@,
                    "protected_apps"@,
                    TomlView::Array(enabled),
                )
                &&& #[trigger] key_is_set(
                    between,
                    after,
                    "safety"@,
                    "custom_processes"@,
                    TomlView::Array(custom),
                )
                &&& match toml_printed(after) {
                    Ok(text) => r matches Ok(s) && s@ == text,
                    Err(_) => r is Err,
                }
            },
{
    let one = TomlView::Array(enabled);
    let two = TomlView::Array(custom);
    assert(texts(body.enabled@).map_values(|s: Seq<char>| TomlView::Text(s)) =~= enabled);
    assert(texts(body.custom_processes@).map_values(|s: Seq<char>| TomlView::Text(s)) =~= custom);
    let between = with_key(before, "safety"@, "protected_apps"@, one);
    let after = with_key(between, "safety"@, "custom_processes"@, two);
    lemma_key_is_set(before, "safety"@, "protected_apps"@, one);
    lemma_key_is_set(between, "safety"@, "custom_processes"@, two);
    assert(texts(unknown@).len() == unknown@.len());
    match toml_printed(after) {
        Ok(_) => {},
        Err(_) => {},
    }
}

proof fn lemma_texts_read(a: Seq<TomlView>, k: int, i: int)
    requires
        0 <= k <= a.len(),
        forall|j: int| 0 <= j < k ==> (#[trigger] a[j]) is Text,
    ensures
        texts_of(a, k).len() == k,
        0 <= i < k ==> texts_of(a, k)[i] == a[i]->Text_0,
    decreases k,
{
    if k > 0 {
        assert(a[k - 1] is Text);
        lemma_texts_read(a, k - 1, i);
        lemma_texts_read(a, k - 1, 0);
    }
}

/// Whether a value is a table with a name.
pub open spec fn is_named(v: TomlView, name: Seq<char>) -> bool {
    v matches TomlView::Table(t) && t.dom().contains("name"@) && t["name"@] == TomlView::Text(name)
}

proof fn lemma_names_read(a: Seq<TomlView>, names: Seq<Seq<char>>, k: int)
    requires
        a.len() == names.len(),
        0 <= k <= a.len(),
        forall|j: int| 0 <= j < k ==> is_named(#[trigger] a[j], names[j]),
    ensures
        names_of(a, k) == names.take(k),
    decreases k,
{
    if k > 0 {
        assert(is_named(a[k - 1], names[k - 1]));
        lemma_names_read(a, names, k - 1);
        assert(names.take(k) =~= names.take(k - 1).push(names[k - 1]));
    } else {
        assert(names.take(0) =~= Seq::<Seq<char>>::empty());
    }
}

/// What a configuration file says is in force, and what it does not say stays as it was:
/// the mode, redundancy, the protected applications and processes, and the devices, which
/// are those of the highways, or else the single one. A text that is no document says
/// nothing at all.
pub proof fn law_file_in_force(
    s: &mut HostConfig,
    text: &str,
    doc: TableView,
    mode: Seq<char>,
    on: bool,
    apps: Seq<TomlView>,
    i: int,
)
    requires
        call_ensures(HostConfig::load, (s, text), ()),
        forall|j: int| 0 <= j < apps.len() ==> (#[trigger] apps[j]) is Text,
    ensures
        toml_parsed(text@) is Err ==> final(s)@ == old(s)@,
        toml_parsed(text@) == Ok::<TableView, Seq<char>>(doc) ==> {
            &&& final(s).pending_restarts@ == old(s).pending_restarts@
            &&& says(doc, "host"@, "mode"@, TomlView::Text(mode)) ==> final(s).configured_mode@ == mode
            &&& says_nothing(doc, "host"@, "mode"@) ==> final(s).configured_mode@ == old(s).configured_mode@
            &&& says(doc, "host"@, "host_redundancy"@, TomlView::Boolean(on)) ==> final(s).host_redundancy_enabled == on
            &&& says_nothing(doc, "host"@, "host_redundancy"@) ==> final(s).host_redundancy_enabled == old(s).host_redundancy_enabled
            &&& says(doc, "safety"@, "protected_apps"@, TomlView::Array(apps)) && 0 <= i
                < apps.len() ==> final(s).protected_apps@.len() == apps.len() && final(s).protected_apps@[i]@ == apps[i]->Text_0
            &&& says_nothing(doc, "safety"@, "protected_apps"@) ==> final(s)@.protected_apps
                == old(s)@.protected_apps
            &&& says(doc, "safety"@, "custom_processes"@, TomlView::Array(apps)) && 0 <= i
                < apps.len() ==> final(s).custom_processes@.len() == apps.len() && final(s).custom_processes@[i]@ == apps[i]->Text_0
            &&& says_nothing(doc, "safety"@, "custom_processes"@) ==> final(s)@.custom_processes
                == old(s)@.custom_processes
        },
{
    lemma_texts_read(apps, apps.len() as int, i);
    assert(old(s)@.configured_mode == old(s).configured_mode@);
    assert(final(s)@.configured_mode == final(s).configured_mode@);
    assert(final(s)@.protected_apps.len() == final(s).protected_apps@.len());
    assert(final(s)@.custom_processes.len() == final(s).custom_processes@.len());
    if 0 <= i < final(s).protected_apps@.len() {
        assert(final(s)@.protected_apps[i] == final(s).protected_apps@[i]@);
    }
    if 0 <= i < final(s).custom_processes@.len() {
        assert(final(s)@.custom_processes[i] == final(s).custom_processes@[i]@);
    }
}

/// The devices of a configuration file: those of the highways where there are any, or else
/// the single device; where it has neither, they stay as they were.
pub proof fn law_devices_in_force(
    s: &mut HostConfig,
    text: &str,
    doc: TableView,
    a: Seq<TomlView>,
    names: Seq<Seq<char>>,
    device: Seq<char>,
)
    requires
        call_ensures(HostConfig::load, (s, text), ()),
        toml_parsed(text@) == Ok::<TableView, Seq<char>>(doc),
        a.len() == names.len(),
        forall|j: int| 0 <= j < a.len() ==> is_named(#[trigger] a[j], names[j]),
    ensures
        names.len() > 0 && says(doc, "midi"@, "devices"@, TomlView::Array(a)) ==> texts(
            final(s).configured_devices@,
        ) == names,
        says_nothing(doc, "midi"@, "devices"@) && says(
            doc,
            "midi"@,
            "device"@,
            TomlView::Text(device),
        ) ==> final(s).configured_devices@.len() == 1 && final(s).configured_devices@[0]@ == device,
        says_nothing(doc, "midi"@, "devices"@) && says_nothing(doc, "midi"@, "device"@) ==> texts(
            final(s).configured_devices@,
        ) == texts(old(s).configured_devices@),
{
    lemma_names_read(a, names, a.len() as int);
    assert(names.take(a.len() as int) =~= names);
    let w = final(s)@.configured_devices;
    assert(w == texts(final(s).configured_devices@));
    assert(w.len() == final(s).configured_devices@.len());
    assert(seq![device].len() == 1 && seq![device][0] == device);
    if final(s).configured_devices@.len() > 0 {
        assert(w[0] == final(s).configured_devices@[0]@);
    }
}

/// Before any file was read there is a single host, without redundancy and without lists.
pub proof fn law_before_any_file(s: HostConfig)
    requires
        call_ensures(HostConfig::new, (), s),
    ensures
        s.configured_mode@ == "single"@,
        !s.host_redundancy_enabled,
        s.configured_devices@.len() == 0 && s.protected_apps@.len() == 0
            && s.custom_processes@.len() == 0 && s.pending_restarts@.len() == 0,
{
    assert(s@.configured_devices.len() == s.configured_devices@.len());
    assert(s@.protected_apps.len() == s.protected_apps@.len());
    assert(s@.custom_processes.len() == s.custom_processes@.len());
}

/// A document is in force as the file that holds it is, and its highways are those of the
/// file.
pub proof fn law_document_and_file(
    text: &str,
    contents: Result<String, String>,
    doc: &toml::Table,
    s: &mut HostConfig,
    t: &mut HostConfig,
    a: Vec<DeviceHighwayEntry>,
    b: Vec<DeviceHighwayEntry>,
)
    requires
        toml_parsed(text@) == Ok::<TableView, Seq<char>>(table_contents(*doc)),
        contents matches Ok(c) && c@ == text@,
        *old(s) == *old(t),
        call_ensures(HostConfig::load, (s, text), ()),
        call_ensures(HostConfig::load_document, (t, doc), ()),
        call_ensures(get_device_highways, (&contents,), a),
        call_ensures(read_highways, (doc,), b),
    ensures
        final(s)@ == final(t)@,
        highway_views(a@) == highway_views(b@),
{
}

} // verus!
