use vstd::prelude::*;
use crate::catalog::AppInfo;
use crate::processes::{AppProcess, ProcessTable};

verus! {

/// What the application found on disk for one app of the catalog: whether
/// its released binary exists, and the text of its `.version` file when
/// that file could be read.
pub struct InstallProbe {
    pub binary_exists: bool,
    pub version: Option<String>,
}

pub open spec fn probe_view(p: InstallProbe) -> (bool, Option<Seq<char>>) {
    (p.binary_exists, crate::catalog::opt_text_view(p.version))
}

/// The process recorded for `id` is gone from the process snapshot.
pub open spec fn is_stale(table: Map<Seq<char>, AppProcess>, alive: Seq<u32>, id: Seq<char>) -> bool {
    table.dom().contains(id) && !alive.contains(table[id].pid)
}

/// An app as the catalog shows it after looking at the disk and at the
/// running processes: a released app is installed when its binary exists,
/// and then shows the recorded version; a development app is always
/// installed; an app whose recorded process is alive is running, on the
/// recorded port.
pub open spec fn refreshed(
    a: crate::catalog::AppInfoView,
    probe: (bool, Option<Seq<char>>),
    table: Map<Seq<char>, AppProcess>,
    alive: Seq<u32>,
) -> crate::catalog::AppInfoView {
    let installed = if a.mode == "prod"@ {
        crate::catalog::AppInfoView {
            is_installed: probe.0,
            version: if probe.0 && probe.1 is Some {
                probe.1
            } else {
                a.version
            },
            ..a
        }
    } else {
        crate::catalog::AppInfoView { is_installed: true, ..a }
    };
    if table.dom().contains(a.id) && alive.contains(table[a.id].pid) {
        crate::catalog::AppInfoView {
            is_running: true,
            published_port: Some(table[a.id].port),
            ..installed
        }
    } else {
        installed
    }
}

/// The ids of the catalog whose recorded process is gone.
pub open spec fn stale_ids(
    apps: Seq<crate::catalog::AppInfoView>,
    table: Map<Seq<char>, AppProcess>,
    alive: Seq<u32>,
) -> Set<Seq<char>> {
    Set::new(
        |id: Seq<char>|
            exists|i: int| 0 <= i < apps.len() && apps[i].id == id && is_stale(table, alive, id),
    )
}

/// Whether `pid` is in the process snapshot.
pub fn pid_alive(alive: &Vec<u32>, pid: u32) -> (r: bool)
    ensures
        r == alive@.contains(pid),
{
    let mut i: usize = 0;
    while i < alive.len()
        invariant
            i <= alive.len(),
            forall|j: int| 0 <= j < i ==> alive@[j] != pid,
        decreases alive.len() - i,
    {
        if alive[i] == pid {
            return true;
        }
        i = i + 1;
    }
    false
}

/// One app of the catalog brought up to date, and whether its recorded
/// process is gone.
fn refresh_app(
    app: &AppInfo,
    probe: &InstallProbe,
    alive: &Vec<u32>,
    table: &ProcessTable,
) -> (r: (AppInfo, bool))
    requires
        table.wf(),
    ensures
        r.0@ == refreshed(app@, probe_view(*probe), table.view(), alive@),
        r.1 == is_stale(table.view(), alive@, app@.id),
{
    let mut a = app.duplicate();
    if a.is_prod() {
        a.is_installed = probe.binary_exists;
        if a.is_installed {
            match &probe.version {
                Some(v) => {
                    a.version = Some(v.clone());
                },
                None => {},
            }
        }
    } else {
        a.is_installed = true;
    }
    let mut stale = false;
    match table.get(a.id.as_str()) {
        Some(p) => {
            if pid_alive(alive, p.pid) {
                a.is_running = true;
                a.published_port = Some(p.port);
            } else {
                stale = true;
            }
        },
        None => {},
    }
    (a, stale)
}

/// The ids listed in `ids`, as a set.
pub open spec fn id_set(ids: Seq<String>) -> Set<Seq<char>> {
    Set::new(|id: Seq<char>| exists|m: int| 0 <= m < ids.len() && ids[m]@ == id)
}

/// Forgets the entries of every id in `ids`.
fn remove_all(table: &mut ProcessTable, ids: &Vec<String>)
    requires
        old(table).wf(),
    ensures
        final(table).wf(),
        final(table).view() == old(table).view().remove_keys(id_set(ids@)),
{
    let ghost t0 = table.view();
    let mut k: usize = 0;
    assert(t0.remove_keys(id_set(ids@.take(0))) =~= t0);
    while k < ids.len()
        invariant
            table.wf(),
            k <= ids.len(),
            table.view() == t0.remove_keys(id_set(ids@.take(k as int))),
        decreases ids.len() - k,
    {
        let _ = table.remove(ids[k].as_str());
        proof {
            let ghost pa = ids@.take(k as int);
            let ghost pb = ids@.take(k + 1);
            let ghost last = ids@[k as int]@;
            assert(pb.len() == k + 1 && pb[k as int] == ids@[k as int]);
            assert(forall|m: int| 0 <= m < k ==> pa[m] == #[trigger] pb[m]);
            assert forall|id: Seq<char>| id_set(pb).contains(id) implies id_set(pa).insert(last).contains(id) by {
                let m = choose|m: int| 0 <= m < pb.len() && #[trigger] pb[m]@ == id;
                if m < k {
                    assert(pa[m] == pb[m]);
                }
            }
            assert forall|id: Seq<char>| id_set(pa).insert(last).contains(id) implies id_set(pb).contains(id) by {
                if id == last {
                    assert(pb[k as int]@ == id);
                } else {
                    let m = choose|m: int| 0 <= m < pa.len() && #[trigger] pa[m]@ == id;
                    assert(pb[m] == pa[m]);
                }
            }
            assert(id_set(pb) =~= id_set(pa).insert(last));
            assert(table.view() =~= t0.remove_keys(id_set(pb)));
        }
        k = k + 1;
    }
    assert(ids@.take(ids.len() as int) =~= ids@);
}

/// Brings the catalog up to date: each app's installed state, version and
/// running state (from `probes[i]`, taken for `apps[i]`, and from the
/// process snapshot `alive`), and drops from the table every catalog app
/// whose recorded process is gone. Also tells whether anything was dropped,
/// that is, whether the table must be saved again.
pub fn get_catalog(
    apps: Vec<AppInfo>,
    probes: &Vec<InstallProbe>,
    alive: &Vec<u32>,
    table: &mut ProcessTable,
) -> (r: (Vec<AppInfo>, bool))
    requires
        apps.len() == probes.len(),
        old(table).wf(),
    ensures
        final(table).wf(),
        r.0.len() == apps.len(),
        forall|i: int|
            0 <= i < apps.len() ==> (#[trigger] r.0@[i])@ == refreshed(
                apps@[i]@,
                probe_view(probes@[i]),
                old(table).view(),
                alive@,
            ),
        final(table).view() == old(table).view().remove_keys(
            stale_ids(crate::catalog::apps_view(apps@), old(table).view(), alive@),
        ),
        r.1 == exists|i: int|
            0 <= i < apps.len() && is_stale(old(table).view(), alive@, #[trigger] apps@[i]@.id),
{
    let ghost t0 = table.view();
    let mut out: Vec<AppInfo> = Vec::new();
    let mut dead: Vec<String> = Vec::new();
    let mut i: usize = 0;
    while i < apps.len()
        invariant
            apps.len() == probes.len(),
            table.wf(),
            table.view() == t0,
            i <= apps.len(),
            out.len() == i,
            forall|j: int|
                0 <= j < i ==> (#[trigger] out@[j])@ == refreshed(
                    apps@[j]@,
                    probe_view(probes@[j]),
                    t0,
                    alive@,
                ),
            forall|id: Seq<char>|
                id_set(dead@).contains(id) <==> exists|j: int|
                    0 <= j < i && #[trigger] apps@[j]@.id == id && is_stale(t0, alive@, id),
        decreases apps.len() - i,
    {
        let (a, stale) = refresh_app(&apps[i], &probes[i], alive, table);
        let ghost before = dead@;
        if stale {
            dead.push(apps[i].id.clone());
        }
        proof {
            assert forall|id: Seq<char>|
                id_set(dead@).contains(id) <==> exists|j: int|
                    0 <= j < i + 1 && #[trigger] apps@[j]@.id == id && is_stale(t0, alive@, id) by {
                if id_set(dead@).contains(id) {
                    let m = choose|m: int| 0 <= m < dead@.len() && dead@[m]@ == id;
                    if m < before.len() {
                        assert(before[m] == dead@[m]);
                        assert(id_set(before).contains(id));
                    } else {
                        assert(apps@[i as int]@.id == id);
                    }
                }
                if exists|j: int| 0 <= j < i + 1 && #[trigger] apps@[j]@.id == id && is_stale(t0, alive@, id) {
                    let j = choose|j: int| 0 <= j < i + 1 && #[trigger] apps@[j]@.id == id && is_stale(t0, alive@, id);
                    if j < i {
                        assert(id_set(before).contains(id));
                        let m = choose|m: int| 0 <= m < before.len() && before[m]@ == id;
                        assert(dead@[m] == before[m]);
                    } else {
                        assert(dead@[dead@.len() - 1]@ == id);
                    }
                }
            }
        }
        out.push(a);
        i = i + 1;
    }
    let changed = dead.len() > 0;
    proof {
        if changed {
            assert(id_set(dead@).contains(dead@[0]@));
        }
        if exists|j: int| 0 <= j < apps.len() && is_stale(t0, alive@, #[trigger] apps@[j]@.id) {
            let j = choose|j: int| 0 <= j < apps.len() && is_stale(t0, alive@, #[trigger] apps@[j]@.id);
            assert(id_set(dead@).contains(apps@[j]@.id));
        }
    }
    remove_all(table, &dead);
    proof {
        let av = crate::catalog::apps_view(apps@);
        assert forall|id: Seq<char>| id_set(dead@).contains(id) <==> stale_ids(av, t0, alive@).contains(id) by {
            if id_set(dead@).contains(id) {
                let j = choose|j: int| 0 <= j < apps.len() && #[trigger] apps@[j]@.id == id && is_stale(t0, alive@, id);
                assert(av[j] == apps@[j]@);
            }
            if stale_ids(av, t0, alive@).contains(id) {
                let j = choose|j: int| 0 <= j < av.len() && av[j].id == id && is_stale(t0, alive@, id);
                assert(av[j] == apps@[j]@);
            }
        }
        assert(id_set(dead@) =~= stale_ids(av, t0, alive@));
    }
    (out, changed)
}


/// A refresh leaves no stale record behind: refreshing again against the
/// same process snapshot finds no catalog app whose process is gone, so it
/// drops nothing and needs no save.
pub proof fn lemma_refresh_settles(
    apps: Seq<crate::catalog::AppInfoView>,
    table: Map<Seq<char>, AppProcess>,
    alive: Seq<u32>,
)
    ensures
        forall|i: int|
            0 <= i < apps.len() ==> !is_stale(
                table.remove_keys(stale_ids(apps, table, alive)),
                alive,
                #[trigger] apps[i].id,
            ),
        stale_ids(apps, table.remove_keys(stale_ids(apps, table, alive)), alive) =~= Set::empty(),
{
    let after = table.remove_keys(stale_ids(apps, table, alive));
    assert forall|i: int| 0 <= i < apps.len() implies !is_stale(after, alive, #[trigger] apps[i].id) by {
        let id = apps[i].id;
        if is_stale(table, alive, id) {
            assert(stale_ids(apps, table, alive).contains(id));
        }
    }
}

/// An app shows as running exactly when the table records a process for it
/// that is still alive; a record that is kept after a refresh belongs to a
/// running app or to no app of the catalog.
pub proof fn lemma_running_iff_alive(
    a: crate::catalog::AppInfoView,
    probe: (bool, Option<Seq<char>>),
    table: Map<Seq<char>, AppProcess>,
    alive: Seq<u32>,
)
    ensures
        refreshed(a, probe, table, alive).is_running == (a.is_running || (table.dom().contains(a.id)
            && alive.contains(table[a.id].pid))),
        refreshed(a, probe, table, alive).id == a.id,
        refreshed(a, probe, table, alive).mode == a.mode,
{
}


/// Where the catalog looks for a released app's binary and version file,
/// given the library folder and the host's operating system: the files that
/// an installation plan, made for the app's folder, writes.
pub open spec fn probed_files(
    a: crate::catalog::AppInfoView,
    library: crate::paths::FsPathView,
    os: Seq<char>,
) -> (crate::paths::FsPathView, crate::paths::FsPathView) {
    let dir = crate::paths::app_dir_spec(a.mode, a.id, a.repo_url, library);
    (
        crate::paths::FsPathView {
            base: dir.base,
            segments: dir.segments.push(crate::paths::binary_name_spec(os, a.id)),
        },
        crate::paths::FsPathView { base: dir.base, segments: dir.segments.push(".version"@) },
    )
}

/// An installation shows in the catalog: the binary and version file that
/// an installation of a released app writes (into the folder
/// `install_app_start` gives) are the files the refresh probes, and once
/// they hold the binary and the release tag `tag`, the refresh shows the
/// app installed at version `tag`.
pub proof fn lemma_install_shows_in_catalog(
    a: crate::catalog::AppInfoView,
    library: crate::paths::FsPathView,
    os: Seq<char>,
    binary: crate::paths::FsPathView,
    version_file: crate::paths::FsPathView,
    tag: Seq<char>,
    table: Map<Seq<char>, AppProcess>,
    alive: Seq<u32>,
)
    requires
        a.mode == "prod"@,
        binary.base == crate::paths::app_dir_spec(a.mode, a.id, a.repo_url, library).base,
        binary.segments == crate::paths::app_dir_spec(a.mode, a.id, a.repo_url, library).segments.push(
            crate::paths::binary_name_spec(os, a.id),
        ),
        version_file.base == crate::paths::app_dir_spec(a.mode, a.id, a.repo_url, library).base,
        version_file.segments == crate::paths::app_dir_spec(
            a.mode,
            a.id,
            a.repo_url,
            library,
        ).segments.push(".version"@),
    ensures
        probed_files(a, library, os) == (binary, version_file),
        refreshed(a, (true, Some(tag)), table, alive).is_installed,
        refreshed(a, (true, Some(tag)), table, alive).version == Some(tag),
{
}


/// A released app shows as installed exactly when its binary exists, and
/// then with the recorded version when the version file could be read; a
/// development app always shows as installed with its version unchanged.
/// What describes the app (id, name, description, repository, port, mode)
/// is kept.
pub proof fn lemma_refresh_install_state(
    a: crate::catalog::AppInfoView,
    probe: (bool, Option<Seq<char>>),
    table: Map<Seq<char>, AppProcess>,
    alive: Seq<u32>,
)
    ensures
        a.mode == "prod"@ ==> refreshed(a, probe, table, alive).is_installed == probe.0,
        a.mode == "prod"@ && probe.0 && probe.1 is Some ==> refreshed(a, probe, table, alive).version
            == probe.1,
        a.mode == "prod"@ && !(probe.0 && probe.1 is Some) ==> refreshed(
            a,
            probe,
            table,
            alive,
        ).version == a.version,
        a.mode != "prod"@ ==> refreshed(a, probe, table, alive).is_installed,
        a.mode != "prod"@ ==> refreshed(a, probe, table, alive).version == a.version,
        refreshed(a, probe, table, alive).id == a.id,
        refreshed(a, probe, table, alive).name == a.name,
        refreshed(a, probe, table, alive).description == a.description,
        refreshed(a, probe, table, alive).repo_url == a.repo_url,
        refreshed(a, probe, table, alive).port == a.port,
        refreshed(a, probe, table, alive).mode == a.mode,
{
}

} // verus!
