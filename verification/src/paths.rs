use vstd::prelude::*;
use crate::catalog::AppInfo;
use crate::text::text_eq;

verus! {

/// Where a path starts: a path written as text, or a path exactly as the
/// operating system handed it over (its bytes as
/// `OsString::into_encoded_bytes` gives them).
pub enum PathBase {
    Text(String),
    Native(Vec<u8>),
}

/// The mathematical value of a [`PathBase`].
pub enum PathBaseView {
    Text(Seq<char>),
    Native(Seq<u8>),
}

pub open spec fn base_view(b: PathBase) -> PathBaseView {
    match b {
        PathBase::Text(t) => PathBaseView::Text(t@),
        PathBase::Native(n) => PathBaseView::Native(n@),
    }
}

fn clone_base(b: &PathBase) -> (r: PathBase)
    ensures
        base_view(r) == base_view(*b),
{
    match b {
        PathBase::Text(t) => PathBase::Text(t.clone()),
        PathBase::Native(n) => {
            let c = n.clone();
            assert(c@ =~= n@);
            PathBase::Native(c)
        },
    }
}

/// A file-system path as the launcher builds it: a starting path, then the
/// components pushed onto it in order.
pub struct FsPath {
    pub base: PathBase,
    pub segments: Vec<String>,
}

/// The mathematical value of an [`FsPath`].
pub struct FsPathView {
    pub base: PathBaseView,
    pub segments: Seq<Seq<char>>,
}

pub open spec fn strings_view(v: Seq<String>) -> Seq<Seq<char>> {
    v.map_values(|s: String| s@)
}

impl View for FsPath {
    type V = FsPathView;

    open spec fn view(&self) -> FsPathView {
        FsPathView { base: base_view(self.base), segments: strings_view(self.segments@) }
    }
}

impl FsPath {
    /// The path written as the text `base`.
    pub fn from_base(base: String) -> (p: FsPath)
        ensures
            p@.base == PathBaseView::Text(base@),
            p@.segments == Seq::<Seq<char>>::empty(),
    {
        let p = FsPath { base: PathBase::Text(base), segments: Vec::new() };
        assert(p@.segments =~= Seq::<Seq<char>>::empty());
        p
    }

    /// The path the operating system handed over as `base`.
    pub fn from_native(base: Vec<u8>) -> (p: FsPath)
        ensures
            p@.base == PathBaseView::Native(base@),
            p@.segments == Seq::<Seq<char>>::empty(),
    {
        let p = FsPath { base: PathBase::Native(base), segments: Vec::new() };
        assert(p@.segments =~= Seq::<Seq<char>>::empty());
        p
    }

    /// Pushes one more component.
    pub fn push(&mut self, segment: &str)
        ensures
            final(self)@.base == old(self)@.base,
            final(self)@.segments == old(self)@.segments.push(segment@),
    {
        let s = segment.to_owned();
        self.segments.push(s);
        assert(final(self)@.segments =~= old(self)@.segments.push(segment@));
    }

    /// A copy of this path.
    pub fn duplicate(&self) -> (p: FsPath)
        ensures
            p@ == self@,
    {
        let segments = self.segments.clone();
        assert(segments@ =~= self.segments@);
        FsPath { base: clone_base(&self.base), segments }
    }

    /// This path without its last component.
    pub fn parent(&self) -> (p: FsPath)
        requires
            self@.segments.len() > 0,
        ensures
            p@.base == self@.base,
            p@.segments == self@.segments.drop_last(),
    {
        let mut segments = self.segments.clone();
        assert(segments@ =~= self.segments@);
        let _ = segments.pop();
        let p = FsPath { base: clone_base(&self.base), segments };
        assert(p@.segments =~= self@.segments.drop_last());
        p
    }

    /// This path with one more component.
    pub fn join(&self, segment: &str) -> (p: FsPath)
        ensures
            p@.base == self@.base,
            p@.segments == self@.segments.push(segment@),
    {
        let mut p = self.duplicate();
        p.push(segment);
        p
    }
}


/// Calls `dirs::home_dir` and hands back the path it returns as the bytes
/// `OsString::into_encoded_bytes` gives (one for one, nothing lost). The
/// result depends on the environment (`$HOME`, the user database, the
/// platform's known folders), so nothing is stated of it.
#[verifier::external_body]
pub(crate) fn home_dir() -> (home: Option<Vec<u8>>) {
    match dirs::home_dir() {
        Some(p) => Some(p.into_os_string().into_encoded_bytes()),
        None => None,
    }
}

/// `home` is an answer that [`home_dir`] (that is, `dirs::home_dir`) gives
/// in the environment it is called in: the home directory exactly as the
/// operating system hands it over, or none when it finds none.
pub closed spec fn home_dir_answer(home: Option<Seq<u8>>) -> bool {
    exists|v: Option<Vec<u8>>| call_ensures(home_dir, (), v) && opt_bytes_view(v) == home
}

/// Asks for the home directory, and tells that the answer is one
/// [`home_dir`] gave.
pub(crate) fn ask_home_dir() -> (home: Option<Vec<u8>>)
    ensures
        home_dir_answer(opt_bytes_view(home)),
{
    let home = home_dir();
    assert(call_ensures(home_dir, (), home));
    home
}

pub open spec fn opt_bytes_view(o: Option<Vec<u8>>) -> Option<Seq<u8>> {
    match o {
        Some(b) => Some(b@),
        None => None,
    }
}

/// The home directory as the launcher uses it: the one found, or `~`.
pub open spec fn home_or_tilde(home: Option<Seq<u8>>) -> PathBaseView {
    match home {
        Some(h) => PathBaseView::Native(h),
        None => PathBaseView::Text("~"@),
    }
}

/// Where installed apps and the launcher's own files live, below the home
/// directory.
pub open spec fn library_segments() -> Seq<Seq<char>> {
    seq!["Library"@, "Application Support"@, "WebAppLauncher"@, "Apps"@]
}

pub open spec fn library_dir_spec(home: Option<Seq<u8>>) -> FsPathView {
    FsPathView { base: home_or_tilde(home), segments: library_segments() }
}

/// The library directory below the given home directory (`~` when none).
pub fn library_dir_in(home: Option<Vec<u8>>) -> (p: FsPath)
    ensures
        p@ == library_dir_spec(opt_bytes_view(home)),
{
    let mut p = match home {
        Some(h) => FsPath::from_native(h),
        None => FsPath::from_base("~".to_owned()),
    };
    p.push("Library");
    p.push("Application Support");
    p.push("WebAppLauncher");
    p.push("Apps");
    assert(p@.segments =~= library_segments());
    p
}

/// The library directory below the current user's home directory.
pub fn get_library_dir() -> (p: FsPath)
    ensures
        p@.segments == library_segments(),
        exists|home: Option<Seq<u8>>| #[trigger] home_dir_answer(home) && p@ == library_dir_spec(home),
{
    let home = ask_home_dir();
    let ghost h = opt_bytes_view(home);
    let p = library_dir_in(home);
    assert(home_dir_answer(h) && p@ == library_dir_spec(h));
    p
}

/// The file that records the launched processes.
pub fn state_file_in(library: &FsPath) -> (p: FsPath)
    ensures
        p@.base == library@.base,
        p@.segments == library@.segments.push("processes.json"@),
{
    library.join("processes.json")
}

/// The process record file in the current user's library directory.
pub fn get_state_file() -> (p: FsPath)
    ensures
        p@.segments == library_segments().push("processes.json"@),
        exists|home: Option<Seq<u8>>| #[trigger] home_dir_answer(home) && p@.base == home_or_tilde(home),
{
    let lib = get_library_dir();
    let p = state_file_in(&lib);
    let ghost h = choose|home: Option<Seq<u8>>| #[trigger] home_dir_answer(home) && lib@ == library_dir_spec(home);
    assert(home_dir_answer(h) && p@.base == home_or_tilde(h));
    p
}

/// The launcher's settings file.
pub fn settings_path_in(library: &FsPath) -> (p: FsPath)
    ensures
        p@.base == library@.base,
        p@.segments == library@.segments.push("settings.json"@),
{
    library.join("settings.json")
}

/// The settings file in the current user's library directory.
pub fn get_settings_path() -> (p: FsPath)
    ensures
        p@.segments == library_segments().push("settings.json"@),
        exists|home: Option<Seq<u8>>| #[trigger] home_dir_answer(home) && p@.base == home_or_tilde(home),
{
    let lib = get_library_dir();
    let p = settings_path_in(&lib);
    let ghost h = choose|home: Option<Seq<u8>>| #[trigger] home_dir_answer(home) && lib@ == library_dir_spec(home);
    assert(home_dir_answer(h) && p@.base == home_or_tilde(h));
    p
}

/// The file listing the development apps (read in debug builds only).
pub fn dev_apps_path_in(library: &FsPath) -> (p: FsPath)
    ensures
        p@.base == library@.base,
        p@.segments == library@.segments.push("dev_apps.json"@),
{
    library.join("dev_apps.json")
}

/// Where an app lives: its checkout for a development app, otherwise its
/// own folder in the library directory.
pub open spec fn app_dir_spec(mode: Seq<char>, id: Seq<char>, repo_url: Seq<char>, library: FsPathView) -> FsPathView {
    if mode == "dev"@ {
        FsPathView { base: PathBaseView::Text(repo_url), segments: Seq::empty() }
    } else {
        FsPathView { base: library.base, segments: library.segments.push(id) }
    }
}

/// The folder of `app`, given the library directory.
pub fn app_dir_in(app: &AppInfo, library: &FsPath) -> (p: FsPath)
    ensures
        p@ == app_dir_spec(app@.mode, app@.id, app@.repo_url, library@),
{
    if app.is_dev() {
        FsPath::from_base(app.repo_url.clone())
    } else {
        library.join(app.id.as_str())
    }
}

/// The folder of `app`; only a released app's folder depends on the home
/// directory.
pub fn get_app_dir(app: &AppInfo) -> (p: FsPath)
    ensures
        app@.mode == "dev"@ ==> p@ == (FsPathView {
            base: PathBaseView::Text(app@.repo_url),
            segments: Seq::empty(),
        }),
        app@.mode != "dev"@ ==> p@.segments == library_segments().push(app@.id),
        app@.mode != "dev"@ ==> exists|home: Option<Seq<u8>>| #[trigger] home_dir_answer(home) && p@.base == home_or_tilde(home),
{
    if app.is_dev() {
        FsPath::from_base(app.repo_url.clone())
    } else {
        let lib = get_library_dir();
        let p = app_dir_in(app, &lib);
        let ghost h = choose|home: Option<Seq<u8>>| #[trigger] home_dir_answer(home) && lib@ == library_dir_spec(home);
        assert(home_dir_answer(h) && p@.base == home_or_tilde(h));
        p
    }
}

/// The file name of an app's released binary on the operating system
/// `os` (as `std::env::consts::OS` names it).
pub open spec fn binary_name_spec(os: Seq<char>, app_id: Seq<char>) -> Seq<char> {
    if os == "windows"@ {
        app_id + ".exe"@
    } else {
        "app-"@ + os
    }
}

/// The file name of the released binary of `app_id` on `os`.
pub fn binary_name(os: &str, app_id: &str) -> (r: String)
    ensures
        r@ == binary_name_spec(os@, app_id@),
{
    if text_eq(os, "windows") {
        let r = app_id.to_owned();
        r.concat(".exe")
    } else {
        let r = "app-".to_owned();
        r.concat(os)
    }
}

/// The released binary of `app` in its folder `app_dir`.
pub fn binary_path(app_dir: &FsPath, os: &str, app_id: &str) -> (p: FsPath)
    ensures
        p@.base == app_dir@.base,
        p@.segments == app_dir@.segments.push(binary_name_spec(os@, app_id@)),
{
    let name = binary_name(os, app_id);
    app_dir.join(name.as_str())
}

/// The file recording the installed release tag, in an app's folder.
pub fn version_path(app_dir: &FsPath) -> (p: FsPath)
    ensures
        p@.base == app_dir@.base,
        p@.segments == app_dir@.segments.push(".version"@),
{
    app_dir.join(".version")
}

/// The folder holding an app's own data, in its folder.
pub fn data_dir(app_dir: &FsPath) -> (p: FsPath)
    ensures
        p@.base == app_dir@.base,
        p@.segments == app_dir@.segments.push("data"@),
{
    app_dir.join("data")
}

/// The start script of a development app, in its checkout.
pub fn start_script_path(app_dir: &FsPath) -> (p: FsPath)
    ensures
        p@.base == app_dir@.base,
        p@.segments == app_dir@.segments.push("start.sh"@),
{
    app_dir.join("start.sh")
}

} // verus!
