use vstd::prelude::*;
use crate::catalog::{find_app, AppInfo};
use crate::paths::{app_dir_in, binary_path, data_dir, start_script_path, version_path, FsPath};
use crate::processes::{AppProcess, ProcessTable};
use crate::release::{release_tag, release_url_for, select_download_url, Release};
use crate::text::push_decimal;

verus! {

/// The error every command reports for an id the catalog does not know.
pub open spec fn not_found() -> Seq<char> {
    "App not found"@
}

fn app_not_found() -> (e: String)
    ensures
        e@ == not_found(),
{
    "App not found".to_owned()
}

/// How an installation begins.
pub enum InstallStart {
    /// A development app runs from its checkout: there is nothing to install.
    InPlace,
    /// Create `app_dir`, then ask `release_url` for the latest release of the
    /// app at position `index` of the catalog (an error when the app's
    /// repository URL names no owner and repository).
    Fetch { index: usize, app_dir: FsPath, release_url: Result<String, String> },
}

/// The first step of installing `app_id`.
pub fn install_app_start(apps: &Vec<AppInfo>, app_id: &str, library: &FsPath) -> (r: Result<
    InstallStart,
    String,
>)
    ensures
        !crate::catalog::has_app(crate::catalog::apps_view(apps@), app_id@) ==> (r is Err && r->Err_0@
            == not_found()),
        crate::catalog::has_app(crate::catalog::apps_view(apps@), app_id@) ==> {
            let i = crate::catalog::first_app(crate::catalog::apps_view(apps@), app_id@);
            let a = apps@[i]@;
            &&& r is Ok
            &&& a.mode == "dev"@ ==> r->Ok_0 is InPlace
            &&& a.mode != "dev"@ ==> match r->Ok_0 {
                InstallStart::Fetch { index, app_dir, release_url } => {
                    &&& index == i
                    &&& app_dir@ == crate::paths::app_dir_spec(a.mode, a.id, a.repo_url, library@)
                    &&& match crate::release::owner_and_repo(a.repo_url) {
                        Some((o, n)) => release_url is Ok && release_url->Ok_0@
                            == crate::release::latest_release_url_spec(o, n),
                        None => release_url is Err && release_url->Err_0@ == "Invalid repo url"@,
                    }
                },
                _ => false,
            }
        },
{
    match find_app(apps, app_id) {
        None => Err(app_not_found()),
        Some(i) => {
            let app = &apps[i];
            if app.is_dev() {
                return Ok(InstallStart::InPlace);
            }
            let app_dir = app_dir_in(app, library);
            let release_url = match release_url_for(app.repo_url.as_str()) {
                Some(u) => Ok(u),
                None => Err("Invalid repo url".to_owned()),
            };
            Ok(InstallStart::Fetch { index: i, app_dir, release_url })
        },
    }
}

/// What installing a release consists of: download `url` into `binary`
/// (made executable on Unix), write `tag` to `version_file`, and create
/// `data_dir`.
pub struct DownloadPlan {
    pub url: String,
    pub binary: FsPath,
    pub version_file: FsPath,
    pub tag: String,
    pub data_dir: FsPath,
}

/// The second step of installing `app`, once its latest release is known.
pub fn install_app_plan(
    app: &AppInfo,
    app_dir: &FsPath,
    release: &Release,
    os: &str,
    arch: &str,
) -> (r: Result<DownloadPlan, String>)
    ensures
        release.assets is None ==> r is Err && r->Err_0@ == "No release assets found"@,
        release.assets matches Some(assets) ==> match crate::release::chosen_url(
            os@,
            arch@,
            crate::release::assets_view(assets@),
        ) {
            None => r is Err && r->Err_0@
                == "No compatible binary found for this OS/Arch on GitHub Releases."@,
            Some(u) => r is Ok && {
                let p = r->Ok_0;
                &&& p.url@ == u
                &&& p.binary@.base == app_dir@.base
                &&& p.binary@.segments == app_dir@.segments.push(
                    crate::paths::binary_name_spec(os@, app@.id),
                )
                &&& p.version_file@.base == app_dir@.base
                &&& p.version_file@.segments == app_dir@.segments.push(".version"@)
                &&& p.tag@ == crate::release::recorded_tag(
                    crate::catalog::opt_text_view(release.tag_name),
                )
                &&& p.data_dir@.base == app_dir@.base
                &&& p.data_dir@.segments == app_dir@.segments.push("data"@)
            },
        },
{
    let tag = release_tag(release);
    match &release.assets {
        None => Err("No release assets found".to_owned()),
        Some(assets) => match select_download_url(os, arch, assets) {
            None => Err("No compatible binary found for this OS/Arch on GitHub Releases.".to_owned()),
            Some(url) => Ok(
                DownloadPlan {
                    url,
                    binary: binary_path(app_dir, os, app.id.as_str()),
                    version_file: version_path(app_dir),
                    tag,
                    data_dir: data_dir(app_dir),
                },
            ),
        },
    }
}

/// What launching an app needs checked on disk before it can run.
pub struct LaunchTarget {
    /// The app runs from its checkout through its start script.
    pub dev: bool,
    pub app_dir: FsPath,
    /// The start script of a development app, the binary of a released one.
    pub entry: FsPath,
}

/// The first step of launching `app_id`.
pub fn launch_app_target(apps: &Vec<AppInfo>, app_id: &str, os: &str, library: &FsPath) -> (r:
    Result<LaunchTarget, String>)
    ensures
        !crate::catalog::has_app(crate::catalog::apps_view(apps@), app_id@) ==> (r is Err && r->Err_0@
            == not_found()),
        crate::catalog::has_app(crate::catalog::apps_view(apps@), app_id@) ==> {
            let a = apps@[crate::catalog::first_app(crate::catalog::apps_view(apps@), app_id@)]@;
            let dir = crate::paths::app_dir_spec(a.mode, a.id, a.repo_url, library@);
            &&& r is Ok
            &&& r->Ok_0.dev == (a.mode == "dev"@)
            &&& r->Ok_0.app_dir@ == dir
            &&& r->Ok_0.entry@.base == dir.base
            &&& r->Ok_0.entry@.segments == dir.segments.push(
                if a.mode == "dev"@ {
                    "start.sh"@
                } else {
                    crate::paths::binary_name_spec(os@, a.id)
                },
            )
        },
{
    match find_app(apps, app_id) {
        None => Err(app_not_found()),
        Some(i) => {
            let app = &apps[i];
            let app_dir = app_dir_in(app, library);
            if app.is_dev() {
                let entry = start_script_path(&app_dir);
                Ok(LaunchTarget { dev: true, app_dir, entry })
            } else {
                let entry = binary_path(&app_dir, os, app.id.as_str());
                Ok(LaunchTarget { dev: false, app_dir, entry })
            }
        },
    }
}

/// A process to start: `program` with `args`, the environment variables
/// `env` added, in the folder `cwd`.
pub struct LaunchCommand {
    pub program: FsPath,
    pub args: Vec<String>,
    pub env: Vec<(String, String)>,
    pub cwd: FsPath,
}

pub open spec fn env_view(env: Seq<(String, String)>) -> Seq<(Seq<char>, Seq<char>)> {
    env.map_values(|e: (String, String)| (e.0@, e.1@))
}

fn decimal_string(n: u16) -> (s: String)
    ensures
        s@ == crate::text::decimal(n as nat),
{
    let mut s = String::new();
    push_decimal(&mut s, n as u64);
    assert(s@ =~= crate::text::decimal(n as nat));
    s
}

/// The second step of launching: with the port the app is to serve on (and,
/// for a development app, the port of its back end) and whether the entry
/// point exists, the process to start.
pub fn launch_app_command(
    target: &LaunchTarget,
    port: u16,
    backend_port: Option<u16>,
    entry_exists: bool,
) -> (r: Result<LaunchCommand, String>)
    requires
        target.dev ==> backend_port is Some,
    ensures
        !entry_exists ==> r is Err && r->Err_0@ == (if target.dev {
            "No start.sh found for dev app. Create one to run your dev server!"@
        } else {
            "Binary not found. Please install the app first."@
        }),
        entry_exists ==> r is Ok && {
            let c = r->Ok_0;
            &&& c.cwd@ == target.app_dir@
            &&& target.dev ==> {
                &&& c.program@.base == crate::paths::PathBaseView::Text("bash"@)
                &&& c.program@.segments.len() == 0
                &&& c.args@.map_values(|a: String| a@) == seq!["start.sh"@]
                &&& env_view(c.env@) == seq![
                    ("PORT"@, crate::text::decimal(port as nat)),
                    ("BACKEND_PORT"@, crate::text::decimal(backend_port->0 as nat)),
                ]
            }
            &&& !target.dev ==> {
                &&& c.program@ == target.entry@
                &&& c.args@.len() == 0
                &&& env_view(c.env@) == seq![("PORT"@, crate::text::decimal(port as nat))]
            }
        },
{
    if !entry_exists {
        if target.dev {
            return Err("No start.sh found for dev app. Create one to run your dev server!".to_owned());
        } else {
            return Err("Binary not found. Please install the app first.".to_owned());
        }
    }
    let mut env: Vec<(String, String)> = Vec::new();
    env.push(("PORT".to_owned(), decimal_string(port)));
    if target.dev {
        let backend = match backend_port {
            Some(b) => b,
            None => 0,
        };
        env.push(("BACKEND_PORT".to_owned(), decimal_string(backend)));
        let mut args: Vec<String> = Vec::new();
        args.push("start.sh".to_owned());
        assert(args@.map_values(|a: String| a@) =~= seq!["start.sh"@]);
        assert(env_view(env@) =~= seq![
            ("PORT"@, crate::text::decimal(port as nat)),
            ("BACKEND_PORT"@, crate::text::decimal(backend_port->0 as nat)),
        ]);
        Ok(
            LaunchCommand {
                program: FsPath::from_base("bash".to_owned()),
                args,
                env,
                cwd: target.app_dir.duplicate(),
            },
        )
    } else {
        assert(env_view(env@) =~= seq![("PORT"@, crate::text::decimal(port as nat))]);
        Ok(
            LaunchCommand {
                program: target.entry.duplicate(),
                args: Vec::new(),
                env,
                cwd: target.app_dir.duplicate(),
            },
        )
    }
}

/// Records the process started for `app_id` and answers the front end with
/// the port the app serves on.
pub fn record_launch(table: &mut ProcessTable, app_id: String, pid: u32, port: u16) -> (r: Option<
    u16,
>)
    requires
        old(table).wf(),
    ensures
        final(table).wf(),
        final(table).view() == old(table).view().insert(app_id@, AppProcess { pid, port }),
        r == Some(port),
{
    table.insert(app_id, AppProcess { pid, port });
    Some(port)
}

/// Stopping `app_id`: forgets its record and hands back the process to stop
/// together with the tree below it, or `None` when none was recorded (then
/// nothing is stopped and nothing needs saving).
pub fn stop_app(table: &mut ProcessTable, app_id: &str) -> (r: Option<u32>)
    requires
        old(table).wf(),
    ensures
        final(table).wf(),
        final(table).view() == old(table).view().remove(app_id@),
        r == match crate::processes::lookup(old(table).view(), app_id@) {
            Some(p) => Some(p.pid),
            None => None,
        },
{
    match table.remove(app_id) {
        Some(p) => Some(p.pid),
        None => None,
    }
}

/// What an update check needs: the installed-version file and the address
/// of the latest release, or nothing to check (`None`) for a development
/// app or a repository URL that names no owner and repository.
pub fn check_update_target(apps: &Vec<AppInfo>, app_id: &str, library: &FsPath) -> (r: Result<
    Option<(FsPath, String)>,
    String,
>)
    ensures
        !crate::catalog::has_app(crate::catalog::apps_view(apps@), app_id@) ==> (r is Err && r->Err_0@
            == not_found()),
        crate::catalog::has_app(crate::catalog::apps_view(apps@), app_id@) ==> {
            let a = apps@[crate::catalog::first_app(crate::catalog::apps_view(apps@), app_id@)]@;
            &&& r is Ok
            &&& (a.mode != "prod"@ || crate::release::owner_and_repo(a.repo_url) is None) ==> r->Ok_0
                is None
            &&& a.mode == "prod"@ ==> match crate::release::owner_and_repo(a.repo_url) {
                Some((o, n)) => r->Ok_0 matches Some((vf, url)) && url@
                    == crate::release::latest_release_url_spec(o, n) && vf@.base
                    == library@.base && vf@.segments == library@.segments.push(a.id).push(
                    ".version"@,
                ),
                None => true,
            }
        },
{
    match find_app(apps, app_id) {
        None => Err(app_not_found()),
        Some(i) => {
            let app = &apps[i];
            if !app.is_prod() {
                return Ok(None);
            }
            proof {
                reveal_strlit("prod");
                reveal_strlit("dev");
                assert("prod"@.len() != "dev"@.len());
            }
            let app_dir = app_dir_in(app, library);
            match release_url_for(app.repo_url.as_str()) {
                Some(url) => Ok(Some((version_path(&app_dir), url))),
                None => Ok(None),
            }
        },
    }
}

/// The data folder of `app_id` that a backup archives.
pub fn backup_data_dir(apps: &Vec<AppInfo>, app_id: &str, library: &FsPath) -> (r: Result<
    FsPath,
    String,
>)
    ensures
        !crate::catalog::has_app(crate::catalog::apps_view(apps@), app_id@) ==> (r is Err && r->Err_0@
            == not_found()),
        crate::catalog::has_app(crate::catalog::apps_view(apps@), app_id@) ==> {
            let a = apps@[crate::catalog::first_app(crate::catalog::apps_view(apps@), app_id@)]@;
            let dir = crate::paths::app_dir_spec(a.mode, a.id, a.repo_url, library@);
            &&& r is Ok
            &&& r->Ok_0@.base == dir.base
            &&& r->Ok_0@.segments == dir.segments.push("data"@)
        },
{
    match find_app(apps, app_id) {
        None => Err(app_not_found()),
        Some(i) => {
            let app_dir = app_dir_in(&apps[i], library);
            Ok(data_dir(&app_dir))
        },
    }
}

/// A backup to make: run `zip -r <archive> data` in `cwd`.
pub struct ZipCommand {
    pub archive: FsPath,
    pub cwd: FsPath,
}

/// The name of a backup archive: the app id, an underscore, the time in
/// seconds since the Unix epoch, and `.zip`.
pub open spec fn archive_name(app_id: Seq<char>, timestamp: u64) -> Seq<char> {
    app_id + "_"@ + crate::text::decimal(timestamp as nat) + ".zip"@
}

/// How to back up the data folder `data_dir` of `app_id` into `backup_dest`
/// at `timestamp`; an error when the data folder does not exist.
pub fn backup_zip_command(
    app_id: &str,
    data_dir: &FsPath,
    data_exists: bool,
    backup_dest: &FsPath,
    timestamp: u64,
) -> (r: Result<ZipCommand, String>)
    requires
        data_dir@.segments.len() > 0,
    ensures
        !data_exists ==> r is Err && r->Err_0@ == "No data folder found to backup"@,
        data_exists ==> r is Ok && {
            let z = r->Ok_0;
            &&& z.archive@.base == backup_dest@.base
            &&& z.archive@.segments == backup_dest@.segments.push(archive_name(app_id@, timestamp))
            &&& z.cwd@.base == data_dir@.base
            &&& z.cwd@.segments == data_dir@.segments.drop_last()
        },
{
    if !data_exists {
        return Err("No data folder found to backup".to_owned());
    }
    let mut name = app_id.to_owned();
    name.append("_");
    push_decimal(&mut name, timestamp);
    name.append(".zip");
    let archive = backup_dest.join(name.as_str());
    let cwd = data_dir.parent();
    assert(name@ =~= archive_name(app_id@, timestamp));
    Ok(ZipCommand { archive, cwd })
}

/// The answer to a backup, from whether `zip` succeeded.
pub fn backup_outcome(zip_succeeded: bool) -> (r: Result<(), String>)
    ensures
        zip_succeeded ==> r is Ok,
        !zip_succeeded ==> r is Err && r->Err_0@ == "Failed to create backup zip"@,
{
    if zip_succeeded {
        Ok(())
    } else {
        Err("Failed to create backup zip".to_owned())
    }
}

} // verus!
