//! Show-critical applications that block changes while they are running.
use vstd::prelude::*;

use crate::fleet::{client_views, ClientInfo, ClientView};
use crate::seqs::{
    first, first_index, lemma_filter_contains, lemma_first_index, lemma_first_index_bounds,
};
use crate::text::{same, texts};

verus! {

/// An application of the catalog. An empty process name means that the
/// application does not exist on that system.
#[derive(Clone, Copy, Debug)]
pub struct CatalogApp {
    pub id: &'static str,
    pub name: &'static str,
    pub category: &'static str,
    pub win_process: &'static str,
    pub mac_process: &'static str,
    pub linux_process: &'static str,
    pub win_install_hint: &'static str,
    pub mac_install_hint: &'static str,
}

/// The catalog: media servers, audio workstations, lighting and playback.
pub open spec fn catalog() -> Seq<CatalogApp> {
    seq![
        CatalogApp {
            id: "resolume-arena",
            name: "Resolume Arena",
            category: "VJ / Media Server",
            win_process: "Arena.exe",
            mac_process: "Arena",
            linux_process: "",
            win_install_hint: "Resolume Arena",
            mac_install_hint: "Resolume Arena",
        },
        CatalogApp {
            id: "resolume-avenue",
            name: "Resolume Avenue",
            category: "VJ / Media Server",
            win_process: "Avenue.exe",
            mac_process: "Avenue",
            linux_process: "",
            win_install_hint: "Resolume Avenue",
            mac_install_hint: "Resolume Avenue",
        },
        CatalogApp {
            id: "touchdesigner",
            name: "TouchDesigner",
            category: "VJ / Media Server",
            win_process: "TouchDesigner.exe",
            mac_process: "TouchDesigner",
            linux_process: "",
            win_install_hint: "TouchDesigner",
            mac_install_hint: "TouchDesigner",
        },
        CatalogApp {
            id: "madmapper",
            name: "MadMapper",
            category: "VJ / Media Server",
            win_process: "MadMapper.exe",
            mac_process: "MadMapper",
            linux_process: "",
            win_install_hint: "MadMapper",
            mac_install_hint: "MadMapper",
        },
        CatalogApp {
            id: "vdmx",
            name: "VDMX",
            category: "VJ / Media Server",
            win_process: "",
            mac_process: "VDMX5",
            linux_process: "",
            win_install_hint: "",
            mac_install_hint: "VDMX5",
        },
        CatalogApp {
            id: "millumin",
            name: "Millumin",
            category: "VJ / Media Server",
            win_process: "",
            mac_process: "Millumin",
            linux_process: "",
            win_install_hint: "",
            mac_install_hint: "Millumin",
        },
        CatalogApp {
            id: "disguise",
            name: "Disguise (d3)",
            category: "VJ / Media Server",
            win_process: "d3designer.exe",
            mac_process: "",
            linux_process: "",
            win_install_hint: "d3 Designer",
            mac_install_hint: "",
        },
        CatalogApp {
            id: "notch",
            name: "Notch",
            category: "VJ / Media Server",
            win_process: "Notch.exe",
            mac_process: "",
            linux_process: "",
            win_install_hint: "Notch",
            mac_install_hint: "",
        },
        CatalogApp {
            id: "ableton-live",
            name: "Ableton Live",
            category: "DAW",
            win_process: "Ableton Live",
            mac_process: "Live",
            linux_process: "",
            win_install_hint: "Ableton",
            mac_install_hint: "Ableton Live",
        },
        CatalogApp {
            id: "logic-pro",
            name: "Logic Pro",
            category: "DAW",
            win_process: "",
            mac_process: "Logic Pro",
            linux_process: "",
            win_install_hint: "",
            mac_install_hint: "Logic Pro",
        },
        CatalogApp {
            id: "cubase",
            name: "Cubase",
            category: "DAW",
            win_process: "Cubase",
            mac_process: "Cubase",
            linux_process: "",
            win_install_hint: "Cubase",
            mac_install_hint: "Cubase",
        },
        CatalogApp {
            id: "fl-studio",
            name: "FL Studio",
            category: "DAW",
            win_process: "FL64.exe",
            mac_process: "FL Studio",
            linux_process: "",
            win_install_hint: "FL Studio",
            mac_install_hint: "FL Studio",
        },
        CatalogApp {
            id: "reaper",
            name: "Reaper",
            category: "DAW",
            win_process: "reaper.exe",
            mac_process: "REAPER",
            linux_process: "reaper",
            win_install_hint: "REAPER",
            mac_install_hint: "REAPER",
        },
        CatalogApp {
            id: "bitwig",
            name: "Bitwig Studio",
            category: "DAW",
            win_process: "BitwigStudio.exe",
            mac_process: "Bitwig Studio",
            linux_process: "bitwig-studio",
            win_install_hint: "Bitwig Studio",
            mac_install_hint: "Bitwig Studio",
        },
        CatalogApp {
            id: "pro-tools",
            name: "Pro Tools",
            category: "DAW",
            win_process: "ProTools.exe",
            mac_process: "Pro Tools",
            linux_process: "",
            win_install_hint: "Pro Tools",
            mac_install_hint: "Pro Tools",
        },
        CatalogApp {
            id: "grandma3",
            name: "grandMA3",
            category: "Lighting",
            win_process: "gma3.exe",
            mac_process: "gma3",
            linux_process: "gma3",
            win_install_hint: "MALightingTechnology",
            mac_install_hint: "grandMA3",
        },
        CatalogApp {
            id: "grandma2",
            name: "grandMA2",
            category: "Lighting",
            win_process: "gma2.exe",
            mac_process: "",
            linux_process: "",
            win_install_hint: "MALightingTechnology",
            mac_install_hint: "",
        },
        CatalogApp {
            id: "hog4",
            name: "Hog 4 PC",
            category: "Lighting",
            win_process: "Hog4PC.exe",
            mac_process: "",
            linux_process: "",
            win_install_hint: "Hog 4",
            mac_install_hint: "",
        },
        CatalogApp {
            id: "chamsys",
            name: "ChamSys MagicQ",
            category: "Lighting",
            win_process: "MagicQ.exe",
            mac_process: "MagicQ",
            linux_process: "MagicQ",
            win_install_hint: "ChamSys",
            mac_install_hint: "MagicQ",
        },
        CatalogApp {
            id: "eos",
            name: "ETC Eos Family",
            category: "Lighting",
            win_process: "Eos.exe",
            mac_process: "",
            linux_process: "",
            win_install_hint: "ETC",
            mac_install_hint: "",
        },
        CatalogApp {
            id: "capture",
            name: "Capture",
            category: "Lighting",
            win_process: "Capture.exe",
            mac_process: "Capture",
            linux_process: "",
            win_install_hint: "Capture",
            mac_install_hint: "Capture",
        },
        CatalogApp {
            id: "onyx",
            name: "ONYX (Obsidian)",
            category: "Lighting",
            win_process: "M-PC.exe",
            mac_process: "",
            linux_process: "",
            win_install_hint: "ONYX",
            mac_install_hint: "",
        },
        CatalogApp {
            id: "vista",
            name: "Chroma-Q Vista",
            category: "Lighting",
            win_process: "vista.exe",
            mac_process: "",
            linux_process: "",
            win_install_hint: "Vista",
            mac_install_hint: "",
        },
        CatalogApp {
            id: "lightkey",
            name: "Lightkey",
            category: "Lighting",
            win_process: "",
            mac_process: "Lightkey",
            linux_process: "",
            win_install_hint: "",
            mac_install_hint: "Lightkey",
        },
        CatalogApp {
            id: "qlcplus",
            name: "QLC+",
            category: "Lighting",
            win_process: "qlcplus.exe",
            mac_process: "qlcplus",
            linux_process: "qlcplus",
            win_install_hint: "QLC+",
            mac_install_hint: "QLC+",
        },
        CatalogApp {
            id: "qlab",
            name: "QLab",
            category: "Playback",
            win_process: "",
            mac_process: "QLab",
            linux_process: "",
            win_install_hint: "",
            mac_install_hint: "QLab",
        },
        CatalogApp {
            id: "playbackpro",
            name: "PlayBack Pro",
            category: "Playback",
            win_process: "PlayBackPro.exe",
            mac_process: "PlayBack Pro",
            linux_process: "",
            win_install_hint: "PlayBack Pro",
            mac_install_hint: "PlayBack Pro",
        },
    ]
}

/// The applications that can be protected.
pub fn protected_apps_catalog() -> (r: Vec<CatalogApp>)
    ensures
        r@ == catalog(),
{
    let r: Vec<CatalogApp> = vec![
        CatalogApp {
            id: "resolume-arena",
            name: "Resolume Arena",
            category: "VJ / Media Server",
            win_process: "Arena.exe",
            mac_process: "Arena",
            linux_process: "",
            win_install_hint: "Resolume Arena",
            mac_install_hint: "Resolume Arena",
        },
        CatalogApp {
            id: "resolume-avenue",
            name: "Resolume Avenue",
            category: "VJ / Media Server",
            win_process: "Avenue.exe",
            mac_process: "Avenue",
            linux_process: "",
            win_install_hint: "Resolume Avenue",
            mac_install_hint: "Resolume Avenue",
        },
        CatalogApp {
            id: "touchdesigner",
            name: "TouchDesigner",
            category: "VJ / Media Server",
            win_process: "TouchDesigner.exe",
            mac_process: "TouchDesigner",
            linux_process: "",
            win_install_hint: "TouchDesigner",
            mac_install_hint: "TouchDesigner",
        },
        CatalogApp {
            id: "madmapper",
            name: "MadMapper",
            category: "VJ / Media Server",
            win_process: "MadMapper.exe",
            mac_process: "MadMapper",
            linux_process: "",
            win_install_hint: "MadMapper",
            mac_install_hint: "MadMapper",
        },
        CatalogApp {
            id: "vdmx",
            name: "VDMX",
            category: "VJ / Media Server",
            win_process: "",
            mac_process: "VDMX5",
            linux_process: "",
            win_install_hint: "",
            mac_install_hint: "VDMX5",
        },
        CatalogApp {
            id: "millumin",
            name: "Millumin",
            category: "VJ / Media Server",
            win_process: "",
            mac_process: "Millumin",
            linux_process: "",
            win_install_hint: "",
            mac_install_hint: "Millumin",
        },
        CatalogApp {
            id: "disguise",
            name: "Disguise (d3)",
            category: "VJ / Media Server",
            win_process: "d3designer.exe",
            mac_process: "",
            linux_process: "",
            win_install_hint: "d3 Designer",
            mac_install_hint: "",
        },
        CatalogApp {
            id: "notch",
            name: "Notch",
            category: "VJ / Media Server",
            win_process: "Notch.exe",
            mac_process: "",
            linux_process: "",
            win_install_hint: "Notch",
            mac_install_hint: "",
        },
        CatalogApp {
            id: "ableton-live",
            name: "Ableton Live",
            category: "DAW",
            win_process: "Ableton Live",
            mac_process: "Live",
            linux_process: "",
            win_install_hint: "Ableton",
            mac_install_hint: "Ableton Live",
        },
        CatalogApp {
            id: "logic-pro",
            name: "Logic Pro",
            category: "DAW",
            win_process: "",
            mac_process: "Logic Pro",
            linux_process: "",
            win_install_hint: "",
            mac_install_hint: "Logic Pro",
        },
        CatalogApp {
            id: "cubase",
            name: "Cubase",
            category: "DAW",
            win_process: "Cubase",
            mac_process: "Cubase",
            linux_process: "",
            win_install_hint: "Cubase",
            mac_install_hint: "Cubase",
        },
        CatalogApp {
            id: "fl-studio",
            name: "FL Studio",
            category: "DAW",
            win_process: "FL64.exe",
            mac_process: "FL Studio",
            linux_process: "",
            win_install_hint: "FL Studio",
            mac_install_hint: "FL Studio",
        },
        CatalogApp {
            id: "reaper",
            name: "Reaper",
            category: "DAW",
            win_process: "reaper.exe",
            mac_process: "REAPER",
            linux_process: "reaper",
            win_install_hint: "REAPER",
            mac_install_hint: "REAPER",
        },
        CatalogApp {
            id: "bitwig",
            name: "Bitwig Studio",
            category: "DAW",
            win_process: "BitwigStudio.exe",
            mac_process: "Bitwig Studio",
            linux_process: "bitwig-studio",
            win_install_hint: "Bitwig Studio",
            mac_install_hint: "Bitwig Studio",
        },
        CatalogApp {
            id: "pro-tools",
            name: "Pro Tools",
            category: "DAW",
            win_process: "ProTools.exe",
            mac_process: "Pro Tools",
            linux_process: "",
            win_install_hint: "Pro Tools",
            mac_install_hint: "Pro Tools",
        },
        CatalogApp {
            id: "grandma3",
            name: "grandMA3",
            category: "Lighting",
            win_process: "gma3.exe",
            mac_process: "gma3",
            linux_process: "gma3",
            win_install_hint: "MALightingTechnology",
            mac_install_hint: "grandMA3",
        },
        CatalogApp {
            id: "grandma2",
            name: "grandMA2",
            category: "Lighting",
            win_process: "gma2.exe",
            mac_process: "",
            linux_process: "",
            win_install_hint: "MALightingTechnology",
            mac_install_hint: "",
        },
        CatalogApp {
            id: "hog4",
            name: "Hog 4 PC",
            category: "Lighting",
            win_process: "Hog4PC.exe",
            mac_process: "",
            linux_process: "",
            win_install_hint: "Hog 4",
            mac_install_hint: "",
        },
        CatalogApp {
            id: "chamsys",
            name: "ChamSys MagicQ",
            category: "Lighting",
            win_process: "MagicQ.exe",
            mac_process: "MagicQ",
            linux_process: "MagicQ",
            win_install_hint: "ChamSys",
            mac_install_hint: "MagicQ",
        },
        CatalogApp {
            id: "eos",
            name: "ETC Eos Family",
            category: "Lighting",
            win_process: "Eos.exe",
            mac_process: "",
            linux_process: "",
            win_install_hint: "ETC",
            mac_install_hint: "",
        },
        CatalogApp {
            id: "capture",
            name: "Capture",
            category: "Lighting",
            win_process: "Capture.exe",
            mac_process: "Capture",
            linux_process: "",
            win_install_hint: "Capture",
            mac_install_hint: "Capture",
        },
        CatalogApp {
            id: "onyx",
            name: "ONYX (Obsidian)",
            category: "Lighting",
            win_process: "M-PC.exe",
            mac_process: "",
            linux_process: "",
            win_install_hint: "ONYX",
            mac_install_hint: "",
        },
        CatalogApp {
            id: "vista",
            name: "Chroma-Q Vista",
            category: "Lighting",
            win_process: "vista.exe",
            mac_process: "",
            linux_process: "",
            win_install_hint: "Vista",
            mac_install_hint: "",
        },
        CatalogApp {
            id: "lightkey",
            name: "Lightkey",
            category: "Lighting",
            win_process: "",
            mac_process: "Lightkey",
            linux_process: "",
            win_install_hint: "",
            mac_install_hint: "Lightkey",
        },
        CatalogApp {
            id: "qlcplus",
            name: "QLC+",
            category: "Lighting",
            win_process: "qlcplus.exe",
            mac_process: "qlcplus",
            linux_process: "qlcplus",
            win_install_hint: "QLC+",
            mac_install_hint: "QLC+",
        },
        CatalogApp {
            id: "qlab",
            name: "QLab",
            category: "Playback",
            win_process: "",
            mac_process: "QLab",
            linux_process: "",
            win_install_hint: "",
            mac_install_hint: "QLab",
        },
        CatalogApp {
            id: "playbackpro",
            name: "PlayBack Pro",
            category: "Playback",
            win_process: "PlayBackPro.exe",
            mac_process: "PlayBack Pro",
            linux_process: "",
            win_install_hint: "PlayBack Pro",
            mac_install_hint: "PlayBack Pro",
        },
    ];
    assert(r@ =~= catalog());
    r
}

/// The application with an id.
pub open spec fn app_is(id: Seq<char>) -> spec_fn(CatalogApp) -> bool {
    |a: CatalogApp| a.id@ == id
}

/// The process of an application on an operating system. A system that is not
/// known is taken for Windows.
pub open spec fn process_on(a: CatalogApp, os: Seq<char>) -> Seq<char> {
    if os == "macos"@ || os == "darwin"@ {
        a.mac_process@
    } else if os == "linux"@ {
        a.linux_process@
    } else {
        a.win_process@
    }
}

/// The process of the application with an id, if there is one.
pub open spec fn process_name(id: Seq<char>, os: Seq<char>) -> Option<Seq<char>> {
    match first(catalog(), app_is(id)) {
        Some(a) => if process_on(a, os).len() == 0 {
            None
        } else {
            Some(process_on(a, os))
        },
        None => None,
    }
}

/// The application with an id.
fn find_app(id: &str) -> (r: Option<CatalogApp>)
    ensures
        r == first(catalog(), app_is(id@)),
{
    let apps = protected_apps_catalog();
    let mut i: usize = 0;
    while i < apps.len()
        invariant
            i <= apps@.len(),
            apps@ == catalog(),
            forall|j: int| 0 <= j < i ==> !app_is(id@)(#[trigger] catalog()[j]),
        decreases apps@.len() - i,
    {
        if same(apps[i].id, id) {
            proof {
                lemma_first_index(catalog(), app_is(id@), i as int);
            }
            return Some(apps[i]);
        }
        i += 1;
    }
    proof {
        lemma_first_index(catalog(), app_is(id@), i as int);
    }
    None
}

/// The process name of an application on an operating system.
pub fn resolve_process_name(app_id: &str, os: &str) -> (r: Option<String>)
    ensures
        match r {
            Some(p) => process_name(app_id@, os@) == Some(p@),
            None => process_name(app_id@, os@) is None,
        },
{
    match find_app(app_id) {
        Some(a) => {
            let name = if same(os, "macos") || same(os, "darwin") {
                a.mac_process
            } else if same(os, "linux") {
                a.linux_process
            } else {
                a.win_process
            };
            if name.is_empty() {
                None
            } else {
                Some(name.to_owned())
            }
        },
        None => None,
    }
}

/// The processes of the first `k` applications.
pub open spec fn processes_of(ids: Seq<Seq<char>>, os: Seq<char>, k: int) -> Seq<Seq<char>>
    decreases k,
{
    if k <= 0 || k > ids.len() {
        Seq::empty()
    } else {
        match process_name(ids[k - 1], os) {
            Some(p) => processes_of(ids, os, k - 1).push(p),
            None => processes_of(ids, os, k - 1),
        }
    }
}

/// The processes that a client watches for: those of the enabled applications
/// on its operating system, and then the custom ones.
pub fn resolve_protected_processes(
    enabled_ids: &Vec<String>,
    custom: &Vec<String>,
    os: &str,
) -> (procs: Vec<String>)
    ensures
        texts(procs@) == processes_of(
            texts(enabled_ids@),
            os@,
            enabled_ids@.len() as int,
        ) + texts(custom@),
{
    let mut procs: Vec<String> = Vec::new();
    let mut k: usize = 0;
    assert(texts(procs@) =~= Seq::<Seq<char>>::empty());
    while k < enabled_ids.len()
        invariant
            k <= enabled_ids@.len(),
            texts(procs@) == processes_of(texts(enabled_ids@), os@, k as int),
        decreases enabled_ids@.len() - k,
    {
        assert(texts(enabled_ids@)[k as int] == enabled_ids@[k as int]@);
        if let Some(p) = resolve_process_name(enabled_ids[k].as_str(), os) {
            let ghost before = texts(procs@);
            procs.push(p);
            assert(texts(procs@) =~= before.push(p@));
        }
        k += 1;
    }
    let ghost own = texts(procs@);
    let mut i: usize = 0;
    assert(own =~= own + texts(custom@).take(0));
    while i < custom.len()
        invariant
            i <= custom@.len(),
            texts(procs@) =~= own + texts(custom@).take(i as int),
        decreases custom@.len() - i,
    {
        let ghost before = texts(procs@);
        procs.push(custom[i].clone());
        assert(texts(procs@) =~= before.push(custom@[i as int]@));
        i += 1;
    }
    assert(texts(custom@).take(i as int) =~= texts(custom@));
    procs
}

/// Whether the catalog has an application with an id.
pub open spec fn in_catalog(id: Seq<char>) -> bool {
    first(catalog(), app_is(id)) is Some
}

/// The ids that are not in the catalog, in order.
pub open spec fn unknown_ids(ids: Seq<Seq<char>>) -> Seq<Seq<char>> {
    ids.filter(|id: Seq<char>| !in_catalog(id))
}

/// Lists the ids that are not in the catalog.
pub fn unknown_ids_in(ids: &Vec<String>) -> (r: Vec<String>)
    ensures
        texts(r@) == unknown_ids(texts(ids@)),
{
    let ghost all = texts(ids@);
    let ghost keep = |id: Seq<char>| !in_catalog(id);
    let mut r: Vec<String> = Vec::new();
    let mut i: usize = 0;
    assert(all.take(0).filter(keep) =~= Seq::<Seq<char>>::empty()) by {
        reveal(Seq::filter);
    }
    assert(texts(r@) =~= Seq::<Seq<char>>::empty());
    while i < ids.len()
        invariant
            i <= ids@.len(),
            all == texts(ids@),
            keep == (|id: Seq<char>| !in_catalog(id)),
            texts(r@) == all.take(i as int).filter(keep),
        decreases ids@.len() - i,
    {
        proof {
            let next = all.take(i + 1);
            assert(next.drop_last() =~= all.take(i as int));
            assert(next.last() == ids@[i as int]@);
            reveal(Seq::filter);
        }
        if find_app(ids[i].as_str()).is_none() {
            let ghost before = texts(r@);
            r.push(ids[i].clone());
            assert(texts(r@) =~= before.push(ids@[i as int]@));
        }
        i += 1;
    }
    assert(all.take(i as int) =~= all);
    r
}

// ── Where applications are installed ──

/// A client on which an application is installed.
pub struct InstalledOn {
    pub id: u32,
    pub hostname: String,
}

/// What is said of such clients.
pub open spec fn installed_views(v: Seq<InstalledOn>) -> Seq<(u32, Seq<char>)> {
    v.map_values(|c: InstalledOn| (c.id, c.hostname@))
}

/// The clients on which an application is installed, one entry for each time
/// that a client names it.
pub open spec fn clients_with(clients: Seq<ClientView>, app: Seq<char>) -> Seq<(u32, Seq<char>)>
    decreases clients.len(),
{
    if clients.len() == 0 {
        Seq::empty()
    } else {
        clients_with(clients.drop_last(), app) + own_entries(clients.last(), app)
    }
}

/// An entry for each time that a client names an application.
pub open spec fn own_entries(c: ClientView, app: Seq<char>) -> Seq<(u32, Seq<char>)> {
    c.installed_apps.filter(names(app)).map_values(|a: Seq<char>| (c.id, c.hostname))
}

/// Whether an entry names an application.
pub open spec fn names(app: Seq<char>) -> spec_fn(Seq<char>) -> bool {
    |a: Seq<char>| a == app
}

/// Lists the clients on which an application is installed.
pub fn installed_on(clients: &Vec<ClientInfo>, app: &str) -> (r: Vec<InstalledOn>)
    ensures
        installed_views(r@) == clients_with(client_views(clients@), app@),
{
    let ghost all = client_views(clients@);
    let mut r: Vec<InstalledOn> = Vec::new();
    let mut i: usize = 0;
    assert(installed_views(r@) =~= Seq::<(u32, Seq<char>)>::empty());
    assert(all.take(0) =~= Seq::<ClientView>::empty());
    while i < clients.len()
        invariant
            i <= clients@.len(),
            all == client_views(clients@),
            installed_views(r@) == clients_with(all.take(i as int), app@),
        decreases clients@.len() - i,
    {
        let c = &clients[i];
        let ghost start = installed_views(r@);
        let ghost is_app = names(app@);
        let ghost entry = |a: Seq<char>| (c.id, c.hostname@);
        let ghost apps = texts(c.installed_apps@);
        let mut k: usize = 0;
        assert(apps.take(0).filter(is_app) =~= Seq::<Seq<char>>::empty()) by {
            reveal(Seq::filter);
        }
        assert(start =~= start + apps.take(0).filter(is_app).map_values(entry));
        while k < c.installed_apps.len()
            invariant
                k <= c.installed_apps@.len(),
                apps == texts(c.installed_apps@),
                is_app == names(app@),
                entry == (|a: Seq<char>| (c.id, c.hostname@)),
                installed_views(r@) == start + apps.take(k as int).filter(is_app).map_values(entry),
            decreases c.installed_apps@.len() - k,
        {
            proof {
                let next = apps.take(k + 1);
                assert(next.drop_last() =~= apps.take(k as int));
                assert(next.last() == c.installed_apps@[k as int]@);
                reveal(Seq::filter);
            }
            if same(c.installed_apps[k].as_str(), app) {
                let ghost before = installed_views(r@);
                let e = InstalledOn { id: c.id, hostname: c.hostname.clone() };
                r.push(e);
                assert(installed_views(r@) =~= before.push((c.id, c.hostname@)));
                assert(apps.take(k + 1).filter(is_app).map_values(entry) =~= apps.take(
                    k as int,
                ).filter(is_app).map_values(entry).push((c.id, c.hostname@)));
                assert(installed_views(r@) =~= start + apps.take(k + 1).filter(
                    is_app,
                ).map_values(entry));
            }
            k += 1;
        }
        assert(apps.take(k as int) =~= apps);
        assert(all.take(i + 1).drop_last() =~= all.take(i as int));
        assert(all.take(i + 1).last() == c@);
        i += 1;
    }
    assert(all.take(i as int) =~= all);
    r
}

proof fn lemma_push_contains(s: Seq<Seq<char>>, a: Seq<char>, x: Seq<char>)
    ensures
        s.push(a).contains(x) <==> s.contains(x) || x == a,
{
    if s.contains(x) {
        let i = s.index_of(x);
        assert(s.push(a)[i] == x);
    }
    if x == a {
        assert(s.push(a)[s.len() as int] == x);
    }
    if s.push(a).contains(x) {
        let i = s.push(a).index_of(x);
        if i < s.len() {
            assert(s[i] == x);
        }
    }
}

/// The applications that the first `n` clients have installed.
pub open spec fn all_installed(clients: Seq<ClientView>, n: int) -> Seq<Seq<char>>
    decreases n,
{
    if n <= 0 || n > clients.len() {
        Seq::empty()
    } else {
        all_installed(clients, n - 1) + clients[n - 1].installed_apps
    }
}

/// The applications that some client has installed, each once.
pub fn installed_apps(clients: &Vec<ClientInfo>) -> (r: Vec<String>)
    ensures
        texts(r@).no_duplicates(),
        forall|app: Seq<char>| #[trigger]
            texts(r@).contains(app) <==> all_installed(
                client_views(clients@),
                clients@.len() as int,
            ).contains(app),
{
    let mut r: Vec<String> = Vec::new();
    let mut i: usize = 0;
    let ghost all = client_views(clients@);
    while i < clients.len()
        invariant
            i <= clients@.len(),
            all == client_views(clients@),
            texts(r@).no_duplicates(),
            forall|app: Seq<char>| #[trigger]
                texts(r@).contains(app) <==> all_installed(all, i as int).contains(app),
        decreases clients@.len() - i,
    {
        let apps = &clients[i].installed_apps;
        let ghost known = all_installed(all, i as int);
        let mut k: usize = 0;
        assert(known + texts(apps@).take(0) =~= known);
        while k < apps.len()
            invariant
                k <= apps@.len(),
                texts(r@).no_duplicates(),
                forall|app: Seq<char>| #[trigger]
                    texts(r@).contains(app) <==> (known + texts(apps@).take(k as int)).contains(
                        app,
                    ),
            decreases apps@.len() - k,
        {
            let ghost before = texts(r@);
            let ghost app = apps@[k as int]@;
            let ghost seen = known + texts(apps@).take(k as int);
            assert(known + texts(apps@).take(k + 1) =~= seen.push(app));
            if !crate::text::contains_text(&r, apps[k].as_str()) {
                r.push(apps[k].clone());
                assert(texts(r@) =~= before.push(app));
                assert forall|x: Seq<char>| #[trigger]
                    texts(r@).contains(x) <==> seen.push(app).contains(x) by {
                    lemma_push_contains(before, app, x);
                    lemma_push_contains(seen, app, x);
                    assert(before.contains(x) <==> seen.contains(x));
                }
            } else {
                assert forall|x: Seq<char>| #[trigger]
                    texts(r@).contains(x) <==> seen.push(app).contains(x) by {
                    lemma_push_contains(seen, app, x);
                }
            }
            k += 1;
        }
        assert(texts(apps@).take(k as int) =~= texts(apps@));
        assert(all[i as int].installed_apps == texts(apps@));
        i += 1;
    }
    r
}

/// The catalog has 27 applications.
pub proof fn law_catalog_size()
    ensures
        catalog().len() == 27,
{
}

/// A number that tells the ids of the catalog apart.
spec fn id_key(id: Seq<char>) -> int {
    id.len() * 0x100_0000 + id[0] as int * 0x1_0000 + id[2] as int * 0x100 + id.last() as int
}

/// Every application of the catalog has an id of its own.
pub proof fn law_catalog_ids_distinct(i: int, j: int)
    requires
        0 <= i < j < catalog().len(),
    ensures
        catalog()[i].id@ != catalog()[j].id@,
{
    reveal_strlit("resolume-arena");
    reveal_strlit("resolume-avenue");
    reveal_strlit("touchdesigner");
    reveal_strlit("madmapper");
    reveal_strlit("vdmx");
    reveal_strlit("millumin");
    reveal_strlit("disguise");
    reveal_strlit("notch");
    reveal_strlit("ableton-live");
    reveal_strlit("logic-pro");
    reveal_strlit("cubase");
    reveal_strlit("fl-studio");
    reveal_strlit("reaper");
    reveal_strlit("bitwig");
    reveal_strlit("pro-tools");
    reveal_strlit("grandma3");
    reveal_strlit("grandma2");
    reveal_strlit("hog4");
    reveal_strlit("chamsys");
    reveal_strlit("eos");
    reveal_strlit("capture");
    reveal_strlit("onyx");
    reveal_strlit("vista");
    reveal_strlit("lightkey");
    reveal_strlit("qlcplus");
    reveal_strlit("qlab");
    reveal_strlit("playbackpro");
    assert(id_key(catalog()[0].id@) == 242381665);
    assert(id_key(catalog()[1].id@) == 259158885);
    assert(id_key(catalog()[2].id@) == 225736050);
    assert(id_key(catalog()[3].id@) == 158164082);
    assert(id_key(catalog()[4].id@) == 74870136);
    assert(id_key(catalog()[5].id@) == 141388910);
    assert(id_key(catalog()[6].id@) == 140800869);
    assert(id_key(catalog()[7].id@) == 91124840);
    assert(id_key(catalog()[8].id@) == 207711333);
    assert(id_key(catalog()[9].id@) == 158099311);
    assert(id_key(catalog()[10].id@) == 107176549);
    assert(id_key(catalog()[11].id@) == 157691247);
    assert(id_key(catalog()[12].id@) == 108159346);
    assert(id_key(catalog()[13].id@) == 107115623);
    assert(id_key(catalog()[14].id@) == 158363507);
    assert(id_key(catalog()[15].id@) == 140992819);
    assert(id_key(catalog()[16].id@) == 140992818);
    assert(id_key(catalog()[17].id@) == 73951028);
    assert(id_key(catalog()[18].id@) == 123953523);
    assert(id_key(catalog()[19].id@) == 56980339);
    assert(id_key(catalog()[20].id@) == 123957349);
    assert(id_key(catalog()[21].id@) == 74414456);
    assert(id_key(catalog()[22].id@) == 91648865);
    assert(id_key(catalog()[23].id@) == 141322105);
    assert(id_key(catalog()[24].id@) == 124871539);
    assert(id_key(catalog()[25].id@) == 74539362);
    assert(id_key(catalog()[26].id@) == 191914351);
    assert(id_key(catalog()[i].id@) != id_key(catalog()[j].id@));
}

/// An application of the catalog is found by its id on every system on which
/// it exists.
pub proof fn law_catalog_resolves(i: int, os: Seq<char>)
    requires
        0 <= i < catalog().len(),
    ensures
        in_catalog(catalog()[i].id@),
        process_on(catalog()[i], os).len() > 0 ==> process_name(catalog()[i].id@, os) == Some(
            process_on(catalog()[i], os),
        ),
{
    assert forall|j: int| 0 <= j < i implies !app_is(catalog()[i].id@)(
        #[trigger] catalog()[j],
    ) by {
        law_catalog_ids_distinct(j, i);
    }
    lemma_first_index(catalog(), app_is(catalog()[i].id@), i);
}

/// A process name is that of an application of the catalog with this id, for the asked
/// operating system: the Mac's for `macos` and `darwin`, that of Linux for `linux`, and
/// otherwise that of Windows. There is none where the catalog has no such application, or
/// the application no process there.
pub proof fn law_process_name(app_id: &str, os: &str, r: Option<String>, i: int)
    requires
        call_ensures(resolve_process_name, (app_id, os), r),
    ensures
        0 <= i < 27 && catalog()[i].id@ == app_id@ ==> {
            let a = catalog()[i];
            let process = if os@ == "macos"@ || os@ == "darwin"@ {
                a.mac_process@
            } else if os@ == "linux"@ {
                a.linux_process@
            } else {
                a.win_process@
            };
            &&& process.len() > 0 ==> (r matches Some(p) && p@ == process)
            &&& process.len() == 0 ==> r is None
        },
        (forall|j: int| 0 <= j < 27 ==> (#[trigger] catalog()[j]).id@ != app_id@) ==> r is None,
{
    law_catalog_size();
    let p = app_is(app_id@);
    if 0 <= i < 27 && catalog()[i].id@ == app_id@ {
        assert forall|j: int| 0 <= j < i implies !p(#[trigger] catalog()[j]) by {
            law_catalog_ids_distinct(j, i);
        }
        lemma_first_index(catalog(), p, i);
    }
    if forall|j: int| 0 <= j < 27 ==> (#[trigger] catalog()[j]).id@ != app_id@ {
        lemma_first_index(catalog(), p, 27);
    }
}

proof fn lemma_processes_contain(ids: Seq<Seq<char>>, os: Seq<char>, k: int, p: Seq<char>)
    requires
        0 <= k <= ids.len(),
    ensures
        processes_of(ids, os, k).contains(p) <==> exists|i: int|
            0 <= i < k && process_name(#[trigger] ids[i], os) == Some(p),
    decreases k,
{
    if k > 0 {
        lemma_processes_contain(ids, os, k - 1, p);
        let front = processes_of(ids, os, k - 1);
        match process_name(ids[k - 1], os) {
            Some(q) => {
                lemma_push_contains(front, q, p);
                if p == q {
                    assert(process_name(ids[k - 1], os) == Some(p));
                }
            },
            None => {},
        }
        if front.contains(p) {
            let i = choose|i: int| 0 <= i < k - 1 && process_name(#[trigger] ids[i], os) == Some(p);
            assert(process_name(ids[i], os) == Some(p));
        }
    }
}

/// A client watches for a process if it is a custom one or that of an enabled application
/// on its operating system, and for no other. The custom ones come last, as they are.
pub proof fn law_watched_processes(
    enabled_ids: Vec<String>,
    custom: Vec<String>,
    os: &str,
    procs: Vec<String>,
    p: Seq<char>,
    i: int,
)
    requires
        call_ensures(resolve_protected_processes, (&enabled_ids, &custom, os), procs),
    ensures
        texts(procs@).contains(p) <==> texts(custom@).contains(p) || exists|k: int|
            0 <= k < enabled_ids@.len() && process_name(
                #[trigger] texts(enabled_ids@)[k],
                os@,
            ) == Some(p),
        procs@.len() >= custom@.len(),
        0 <= i < custom@.len() ==> procs@[procs@.len() - custom@.len() + i]@ == custom@[i]@,
{
    let ids = texts(enabled_ids@);
    let front = processes_of(ids, os@, ids.len() as int);
    let back = texts(custom@);
    let all = texts(procs@);
    assert(ids.len() == enabled_ids@.len());
    lemma_processes_contain(ids, os@, ids.len() as int, p);
    assert(all == front + back);
    assert(all.len() == procs@.len() && back.len() == custom@.len());
    if all.contains(p) {
        let k = all.index_of(p);
        if k < front.len() {
            assert(front[k] == p);
        } else {
            assert(back[k - front.len()] == p);
        }
    }
    if front.contains(p) {
        assert(all[front.index_of(p)] == p);
    }
    if back.contains(p) {
        assert(all[front.len() + back.index_of(p)] == p);
    }
    if 0 <= i < back.len() {
        assert(all[front.len() + i] == procs@[front.len() + i]@);
        assert(back[i] == custom@[i]@);
    }
}

/// The unknown ids are those among the given ones that no application of the catalog has.
pub proof fn law_unknown_ids(ids: Vec<String>, r: Vec<String>, id: Seq<char>)
    requires
        call_ensures(unknown_ids_in, (&ids,), r),
    ensures
        texts(r@).contains(id) <==> texts(ids@).contains(id) && forall|j: int|
            0 <= j < 27 ==> (#[trigger] catalog()[j]).id@ != id,
{
    law_catalog_size();
    lemma_filter_contains(texts(ids@), |id: Seq<char>| !in_catalog(id), id);
    let p = app_is(id);
    lemma_first_index_bounds(catalog(), p);
    let k = first_index(catalog(), p);
    if k < 27 {
        assert(catalog()[k].id@ == id);
    } else {
        assert forall|j: int| 0 <= j < 27 implies (#[trigger] catalog()[j]).id@ != id by {
            assert(!p(catalog()[j]));
        }
    }
}

proof fn lemma_clients_with(clients: Seq<ClientView>, app: Seq<char>, entry: (u32, Seq<char>))
    ensures
        clients_with(clients, app).contains(entry) <==> exists|i: int|
            0 <= i < clients.len() && (#[trigger] clients[i]).installed_apps.contains(app)
                && entry == (clients[i].id, clients[i].hostname),
    decreases clients.len(),
{
    if clients.len() > 0 {
        let rest = clients.drop_last();
        let n = clients.len() - 1;
        let c = clients.last();
        assert(c == clients[n]);
        lemma_clients_with(rest, app, entry);
        let front = clients_with(rest, app);
        let p = names(app);
        let own = c.installed_apps.filter(p);
        let back = own_entries(c, app);
        let all = clients_with(clients, app);
        lemma_filter_contains(c.installed_apps, p, app);
        if all.contains(entry) {
            let k = all.index_of(entry);
            if k < front.len() {
                assert(front[k] == entry);
                let i = choose|i: int|
                    0 <= i < rest.len() && (#[trigger] rest[i]).installed_apps.contains(app)
                        && entry == (rest[i].id, rest[i].hostname);
                assert(rest[i] == clients[i]);
            } else {
                assert(back[k - front.len()] == entry);
                let a = own[k - front.len()];
                assert(own.contains(a));
                lemma_filter_contains(c.installed_apps, p, a);
                assert(clients[n].installed_apps.contains(app));
            }
        }
        if exists|i: int|
            0 <= i < clients.len() && (#[trigger] clients[i]).installed_apps.contains(app)
                && entry == (clients[i].id, clients[i].hostname) {
            let i = choose|i: int|
                0 <= i < clients.len() && (#[trigger] clients[i]).installed_apps.contains(app)
                    && entry == (clients[i].id, clients[i].hostname);
            if i < n {
                assert(rest[i] == clients[i]);
                assert(front.contains(entry));
                assert(all[front.index_of(entry)] == entry);
            } else {
                let k = own.index_of(app);
                assert(back[k] == entry);
                assert(all[front.len() + k] == entry);
            }
        }
    }
}

/// An application is installed on the clients that name it.
pub proof fn law_installed_on(
    clients: Vec<ClientInfo>,
    app: &str,
    r: Vec<InstalledOn>,
    entry: (u32, Seq<char>),
)
    requires
        call_ensures(installed_on, (&clients, app), r),
    ensures
        installed_views(r@).contains(entry) <==> exists|i: int|
            0 <= i < clients@.len() && texts((#[trigger] clients@[i]).installed_apps@).contains(
                app@,
            ) && entry == (clients@[i].id, clients@[i].hostname@),
{
    let v = client_views(clients@);
    lemma_clients_with(v, app@, entry);
    if exists|i: int|
        0 <= i < v.len() && (#[trigger] v[i]).installed_apps.contains(app@) && entry == (
            v[i].id,
            v[i].hostname,
        ) {
        let i = choose|i: int|
            0 <= i < v.len() && (#[trigger] v[i]).installed_apps.contains(app@) && entry == (
                v[i].id,
                v[i].hostname,
            );
        assert(v[i] == clients@[i]@);
        assert(texts(clients@[i].installed_apps@).contains(app@));
    }
    if exists|i: int|
        0 <= i < clients@.len() && texts((#[trigger] clients@[i]).installed_apps@).contains(app@)
            && entry == (clients@[i].id, clients@[i].hostname@) {
        let i = choose|i: int|
            0 <= i < clients@.len() && texts((#[trigger] clients@[i]).installed_apps@).contains(
                app@,
            ) && entry == (clients@[i].id, clients@[i].hostname@);
        assert(v[i] == clients@[i]@);
        assert(v[i].installed_apps.contains(app@));
    }
}

proof fn lemma_all_installed(clients: Seq<ClientView>, n: int, app: Seq<char>)
    requires
        0 <= n <= clients.len(),
    ensures
        all_installed(clients, n).contains(app) <==> exists|i: int|
            0 <= i < n && (#[trigger] clients[i]).installed_apps.contains(app),
    decreases n,
{
    if n > 0 {
        lemma_all_installed(clients, n - 1, app);
        let front = all_installed(clients, n - 1);
        let back = clients[n - 1].installed_apps;
        let all = front + back;
        if all.contains(app) {
            let k = all.index_of(app);
            if k < front.len() {
                assert(front[k] == app);
            } else {
                assert(back[k - front.len()] == app);
            }
        }
        if front.contains(app) {
            assert(all[front.index_of(app)] == app);
        }
        if back.contains(app) {
            assert(all[front.len() + back.index_of(app)] == app);
        }
    }
}

/// The installed applications are those that some client names, each of them once.
pub proof fn law_installed_apps(clients: Vec<ClientInfo>, r: Vec<String>, app: Seq<char>)
    requires
        call_ensures(installed_apps, (&clients,), r),
    ensures
        texts(r@).no_duplicates(),
        texts(r@).contains(app) <==> exists|i: int|
            0 <= i < clients@.len() && texts((#[trigger] clients@[i]).installed_apps@).contains(app),
{
    let v = client_views(clients@);
    lemma_all_installed(v, v.len() as int, app);
    if exists|i: int| 0 <= i < v.len() && (#[trigger] v[i]).installed_apps.contains(app) {
        let i = choose|i: int| 0 <= i < v.len() && (#[trigger] v[i]).installed_apps.contains(app);
        assert(v[i] == clients@[i]@);
        assert(texts(clients@[i].installed_apps@).contains(app));
    }
    if exists|i: int|
        0 <= i < clients@.len() && texts((#[trigger] clients@[i]).installed_apps@).contains(app) {
        let i = choose|i: int|
            0 <= i < clients@.len() && texts((#[trigger] clients@[i]).installed_apps@).contains(app);
        assert(v[i] == clients@[i]@);
        assert(v[i].installed_apps.contains(app));
    }
}

/// Every application of the catalog has a name and one of four categories and runs
/// somewhere; where it has a process on Windows or on the Mac it can be told by its
/// installation there, and where it has none it cannot. What runs on Linux runs on Windows.
pub proof fn law_catalog_entries(i: int, r: Vec<CatalogApp>)
    requires
        call_ensures(protected_apps_catalog, (), r),
        0 <= i < r@.len(),
    ensures
        r@[i].name@.len() > 0,
        r@[i].category@ == "VJ / Media Server"@ || r@[i].category@ == "DAW"@ || r@[i].category@
            == "Lighting"@ || r@[i].category@ == "Playback"@,
        r@[i].win_process@.len() > 0 || r@[i].mac_process@.len() > 0,
        r@[i].win_process@.len() > 0 <==> r@[i].win_install_hint@.len() > 0,
        r@[i].mac_process@.len() > 0 <==> r@[i].mac_install_hint@.len() > 0,
        r@[i].linux_process@.len() > 0 ==> r@[i].win_process@.len() > 0,
{
    reveal_strlit("Resolume Arena");
    reveal_strlit("Resolume Avenue");
    reveal_strlit("TouchDesigner");
    reveal_strlit("MadMapper");
    reveal_strlit("VDMX");
    reveal_strlit("Millumin");
    reveal_strlit("Disguise (d3)");
    reveal_strlit("Notch");
    reveal_strlit("Ableton Live");
    reveal_strlit("Logic Pro");
    reveal_strlit("Cubase");
    reveal_strlit("FL Studio");
    reveal_strlit("Reaper");
    reveal_strlit("Bitwig Studio");
    reveal_strlit("Pro Tools");
    reveal_strlit("grandMA3");
    reveal_strlit("grandMA2");
    reveal_strlit("Hog 4 PC");
    reveal_strlit("ChamSys MagicQ");
    reveal_strlit("ETC Eos Family");
    reveal_strlit("Capture");
    reveal_strlit("ONYX (Obsidian)");
    reveal_strlit("Chroma-Q Vista");
    reveal_strlit("Lightkey");
    reveal_strlit("QLC+");
    reveal_strlit("QLab");
    reveal_strlit("PlayBack Pro");
    reveal_strlit("Arena.exe");
    reveal_strlit("Avenue.exe");
    reveal_strlit("TouchDesigner.exe");
    reveal_strlit("MadMapper.exe");
    reveal_strlit("");
    reveal_strlit("d3designer.exe");
    reveal_strlit("Notch.exe");
    reveal_strlit("FL64.exe");
    reveal_strlit("reaper.exe");
    reveal_strlit("BitwigStudio.exe");
    reveal_strlit("ProTools.exe");
    reveal_strlit("gma3.exe");
    reveal_strlit("gma2.exe");
    reveal_strlit("Hog4PC.exe");
    reveal_strlit("MagicQ.exe");
    reveal_strlit("Eos.exe");
    reveal_strlit("Capture.exe");
    reveal_strlit("M-PC.exe");
    reveal_strlit("vista.exe");
    reveal_strlit("qlcplus.exe");
    reveal_strlit("PlayBackPro.exe");
    reveal_strlit("Arena");
    reveal_strlit("Avenue");
    reveal_strlit("VDMX5");
    reveal_strlit("Live");
    reveal_strlit("REAPER");
    reveal_strlit("gma3");
    reveal_strlit("MagicQ");
    reveal_strlit("qlcplus");
    reveal_strlit("reaper");
    reveal_strlit("bitwig-studio");
    reveal_strlit("d3 Designer");
    reveal_strlit("Ableton");
    reveal_strlit("MALightingTechnology");
    reveal_strlit("Hog 4");
    reveal_strlit("ChamSys");
    reveal_strlit("ETC");
    reveal_strlit("ONYX");
    reveal_strlit("Vista");
    reveal_strlit("VJ / Media Server");
    reveal_strlit("DAW");
    reveal_strlit("Lighting");
    reveal_strlit("Playback");
}

} // verus!
