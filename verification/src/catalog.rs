use vstd::prelude::*;
use crate::text::text_eq;

verus! {

/// One application the launcher knows of, as the front end shows it.
pub struct AppInfo {
    pub id: String,
    pub name: String,
    pub description: String,
    pub repo_url: String,
    pub port: u16,
    pub published_port: Option<u16>,
    pub mode: String,
    pub is_installed: bool,
    pub is_running: bool,
    pub version: Option<String>,
}

/// The mathematical value of an [`AppInfo`].
pub struct AppInfoView {
    pub id: Seq<char>,
    pub name: Seq<char>,
    pub description: Seq<char>,
    pub repo_url: Seq<char>,
    pub port: u16,
    pub published_port: Option<u16>,
    pub mode: Seq<char>,
    pub is_installed: bool,
    pub is_running: bool,
    pub version: Option<Seq<char>>,
}

pub open spec fn opt_text_view(o: Option<String>) -> Option<Seq<char>> {
    match o {
        Some(s) => Some(s@),
        None => None,
    }
}

impl View for AppInfo {
    type V = AppInfoView;

    open spec fn view(&self) -> AppInfoView {
        AppInfoView {
            id: self.id@,
            name: self.name@,
            description: self.description@,
            repo_url: self.repo_url@,
            port: self.port,
            published_port: self.published_port,
            mode: self.mode@,
            is_installed: self.is_installed,
            is_running: self.is_running,
            version: opt_text_view(self.version),
        }
    }
}

/// The values of a list of apps.
pub open spec fn apps_view(apps: Seq<AppInfo>) -> Seq<AppInfoView> {
    apps.map_values(|a: AppInfo| a@)
}

pub fn clone_opt_text(o: &Option<String>) -> (r: Option<String>)
    ensures
        opt_text_view(r) == opt_text_view(*o),
{
    match o {
        Some(s) => Some(s.clone()),
        None => None,
    }
}

impl AppInfo {
    /// A copy of this record.
    pub fn duplicate(&self) -> (r: AppInfo)
        ensures
            r@ == self@,
    {
        AppInfo {
            id: self.id.clone(),
            name: self.name.clone(),
            description: self.description.clone(),
            repo_url: self.repo_url.clone(),
            port: self.port,
            published_port: self.published_port,
            mode: self.mode.clone(),
            is_installed: self.is_installed,
            is_running: self.is_running,
            version: clone_opt_text(&self.version),
        }
    }

    /// The app runs from a checkout named by its repository field.
    pub fn is_dev(&self) -> (r: bool)
        ensures
            r == (self@.mode == "dev"@),
    {
        text_eq(self.mode.as_str(), "dev")
    }

    /// The app runs a released binary.
    pub fn is_prod(&self) -> (r: bool)
        ensures
            r == (self@.mode == "prod"@),
    {
        text_eq(self.mode.as_str(), "prod")
    }
}

/// The answer to the front end's dependency check.
pub struct DepsCheck {
    pub ok: bool,
    pub message: String,
}

/// The launcher needs nothing beyond itself: the check always passes.
pub fn check_dependencies() -> (r: DepsCheck)
    ensures
        r.ok,
        r.message@ == "All dependencies met."@,
{
    DepsCheck { ok: true, message: "All dependencies met.".to_owned() }
}

/// A released app of the built-in catalog, in its not-yet-observed state.
pub open spec fn released_app(
    id: Seq<char>,
    name: Seq<char>,
    description: Seq<char>,
    repo_url: Seq<char>,
    port: u16,
) -> AppInfoView {
    AppInfoView {
        id,
        name,
        description,
        repo_url,
        port,
        published_port: None,
        mode: "prod"@,
        is_installed: false,
        is_running: false,
        version: None,
    }
}

/// The apps the launcher ships with, in the order the front end lists them.
pub open spec fn builtin_catalog() -> Seq<AppInfoView> {
    seq![
        released_app(
            "application-tracker"@,
            "Job Application Tracker"@,
            "Track your job applications locally."@,
            "https://github.com/LucasFenaux/job-application-tracker"@,
            3000,
        ),
        released_app(
            "literature-review-graph"@,
            "Literature Map"@,
            "A tool for literature review and graphing."@,
            "https://github.com/LucasFenaux/literature-map"@,
            3000,
        ),
        released_app(
            "portfolio-stats"@,
            "Portfolio Analytics"@,
            "Analytics for your portfolio."@,
            "https://github.com/LucasFenaux/portfolio-analytics"@,
            5173,
        ),
        released_app(
            "productivity-app"@,
            "Core Planner"@,
            "All-in-one productivity suite."@,
            "https://github.com/LucasFenaux/core-planner"@,
            5173,
        ),
    ]
}

fn make_released_app(
    id: &str,
    name: &str,
    description: &str,
    repo_url: &str,
    port: u16,
) -> (a: AppInfo)
    ensures
        a@ == released_app(id@, name@, description@, repo_url@, port),
{
    AppInfo {
        id: id.to_owned(),
        name: name.to_owned(),
        description: description.to_owned(),
        repo_url: repo_url.to_owned(),
        port,
        published_port: None,
        mode: "prod".to_owned(),
        is_installed: false,
        is_running: false,
        version: None,
    }
}

/// The catalog: the built-in apps followed by the locally declared
/// development apps (in debug builds the application reads these from
/// `dev_apps.json` in the library directory; otherwise there are none).
pub fn get_catalog_base(dev_apps: Vec<AppInfo>) -> (apps: Vec<AppInfo>)
    ensures
        apps_view(apps@) == builtin_catalog() + apps_view(dev_apps@),
{
    let mut apps: Vec<AppInfo> = Vec::new();
    apps.push(make_released_app(
        "application-tracker",
        "Job Application Tracker",
        "Track your job applications locally.",
        "https://github.com/LucasFenaux/job-application-tracker",
        3000,
    ));
    apps.push(make_released_app(
        "literature-review-graph",
        "Literature Map",
        "A tool for literature review and graphing.",
        "https://github.com/LucasFenaux/literature-map",
        3000,
    ));
    apps.push(make_released_app(
        "portfolio-stats",
        "Portfolio Analytics",
        "Analytics for your portfolio.",
        "https://github.com/LucasFenaux/portfolio-analytics",
        5173,
    ));
    apps.push(make_released_app(
        "productivity-app",
        "Core Planner",
        "All-in-one productivity suite.",
        "https://github.com/LucasFenaux/core-planner",
        5173,
    ));
    assert(apps_view(apps@) =~= builtin_catalog());
    let mut dev = dev_apps;
    apps.append(&mut dev);
    assert(apps_view(apps@) =~= builtin_catalog() + apps_view(dev_apps@));
    apps
}

/// Some app of the catalog has the id `id`.
pub open spec fn has_app(apps: Seq<AppInfoView>, id: Seq<char>) -> bool {
    exists|i: int| 0 <= i < apps.len() && apps[i].id == id
}

/// The position of the first app whose id is `id`, as
/// `iter().find(|a| a.id == id)` picks it (meaningful when [`has_app`]).
pub open spec fn first_app(apps: Seq<AppInfoView>, id: Seq<char>) -> int {
    choose|i: int|
        0 <= i < apps.len() && apps[i].id == id && forall|j: int| 0 <= j < i ==> apps[j].id != id
}

/// Looks an app up by id: the position of the first app with that id, or
/// `None` when the catalog has no such app.
pub fn find_app(apps: &Vec<AppInfo>, app_id: &str) -> (r: Option<usize>)
    ensures
        match r {
            Some(i) => has_app(apps_view(apps@), app_id@) && i == first_app(apps_view(apps@), app_id@)
                && i < apps.len(),
            None => !has_app(apps_view(apps@), app_id@),
        },
{
    let ghost av = apps_view(apps@);
    let mut i: usize = 0;
    while i < apps.len()
        invariant
            av == apps_view(apps@),
            i <= apps.len(),
            forall|j: int| 0 <= j < i ==> av[j].id != app_id@,
        decreases apps.len() - i,
    {
        if text_eq(apps[i].id.as_str(), app_id) {
            proof {
                assert(av[i as int].id == app_id@);
                let k = first_app(av, app_id@);
                assert(0 <= k < av.len() && av[k].id == app_id@ && forall|j: int|
                    0 <= j < k ==> av[j].id != app_id@);
                if k < i {
                } else if k > i {
                    assert(av[i as int].id != app_id@);
                }
            }
            return Some(i);
        }
        i = i + 1;
    }
    None
}

} // verus!
