use vstd::prelude::*;
use crate::catalog::AppInfo;
use crate::paths::{app_dir_in, ask_home_dir, FsPath};

verus! {

/// The launcher's settings.
pub struct Settings {
    /// The folder backups go to, when the user chose one.
    pub backup_dir: Option<String>,
}

impl Settings {
    /// Settings with nothing chosen.
    pub fn new() -> (s: Settings)
        ensures
            s.backup_dir is None,
    {
        Settings { backup_dir: None }
    }
}

/// The settings saved when the user chooses `dir` as backup folder.
pub fn settings_with_backup_dir(dir: String) -> (s: Settings)
    ensures
        crate::catalog::opt_text_view(s.backup_dir) == Some(dir@),
{
    let mut s = Settings::new();
    s.backup_dir = Some(dir);
    s
}

/// The backup folder: the one chosen in the settings (when they could be
/// read and name one), otherwise `WebAppBackups` in the home directory.
pub open spec fn backup_dir_spec(chosen: Option<Seq<char>>, home: Option<Seq<u8>>) -> crate::paths::FsPathView {
    match chosen {
        Some(d) => crate::paths::FsPathView {
            base: crate::paths::PathBaseView::Text(d),
            segments: Seq::empty(),
        },
        None => crate::paths::FsPathView {
            base: crate::paths::home_or_tilde(home),
            segments: seq!["WebAppBackups"@],
        },
    }
}

pub open spec fn chosen_dir(settings: Option<Settings>) -> Option<Seq<char>> {
    match settings {
        Some(s) => crate::catalog::opt_text_view(s.backup_dir),
        None => None,
    }
}

/// The backup folder given the settings read (`None` when there were none
/// to read) and the home directory.
pub fn backup_dir_in(settings: Option<&Settings>, home: Option<Vec<u8>>) -> (p: FsPath)
    ensures
        p@ == backup_dir_spec(
            chosen_dir(
                match settings {
                    Some(s) => Some(*s),
                    None => None,
                },
            ),
            crate::paths::opt_bytes_view(home),
        ),
{
    match settings {
        Some(s) => match &s.backup_dir {
            Some(d) => {
                return FsPath::from_base(d.clone());
            },
            None => {},
        },
        None => {},
    }
    let mut p = match home {
        Some(h) => FsPath::from_native(h),
        None => FsPath::from_base("~".to_owned()),
    };
    p.push("WebAppBackups");
    assert(p@.segments =~= seq!["WebAppBackups"@]);
    p
}

/// The backup folder given the settings read; the home directory is looked
/// up only when the settings choose no folder.
pub fn get_backup_dir(settings: Option<&Settings>) -> (p: FsPath)
    ensures
        chosen_dir(
            match settings {
                Some(s) => Some(*s),
                None => None,
            },
        ) matches Some(d) ==> p@ == (crate::paths::FsPathView {
            base: crate::paths::PathBaseView::Text(d),
            segments: Seq::empty(),
        }),
        chosen_dir(
            match settings {
                Some(s) => Some(*s),
                None => None,
            },
        ) is None ==> p@.segments == seq!["WebAppBackups"@],
        chosen_dir(
            match settings {
                Some(s) => Some(*s),
                None => None,
            },
        ) is None ==> exists|home: Option<Seq<u8>>| #[trigger] crate::paths::home_dir_answer(home)
            && p@ == backup_dir_spec(None, home),
{
    let chosen = match settings {
        Some(s) => s.backup_dir.is_some(),
        None => false,
    };
    if chosen {
        backup_dir_in(settings, None)
    } else {
        let home = ask_home_dir();
        let ghost h = crate::paths::opt_bytes_view(home);
        let p = backup_dir_in(settings, home);
        assert(crate::paths::home_dir_answer(h) && p@ == backup_dir_spec(None, h));
        p
    }
}

/// The folders the backup watcher keeps in step for `app`: the backups the
/// app itself writes (`data/backups` in its folder), and their copy
/// (a folder named after the app in the backup folder).
pub fn backup_watch_dirs(app: &AppInfo, library: &FsPath, backup_dir: &FsPath) -> (r: (
    FsPath,
    FsPath,
))
    ensures
        r.0@.base == crate::paths::app_dir_spec(app@.mode, app@.id, app@.repo_url, library@).base,
        r.0@.segments == crate::paths::app_dir_spec(
            app@.mode,
            app@.id,
            app@.repo_url,
            library@,
        ).segments.push("data"@).push("backups"@),
        r.1@.base == backup_dir@.base,
        r.1@.segments == backup_dir@.segments.push(app@.id),
{
    let app_dir = app_dir_in(app, library);
    let mut source = app_dir.join("data");
    source.push("backups");
    let dest = backup_dir.join(app.id.as_str());
    (source, dest)
}

/// File names, as byte strings.
pub open spec fn names_view(v: Seq<Vec<u8>>) -> Seq<Seq<u8>> {
    v.map_values(|n: Vec<u8>| n@)
}

/// Position `i` is among the positions `idx`.
pub open spec fn listed(idx: Seq<usize>, i: int) -> bool {
    exists|k: int| 0 <= k < idx.len() && idx[k] == i
}

/// `idx` lists, in increasing order, exactly the positions below `n` that
/// satisfy `p`.
pub open spec fn lists_exactly(idx: Seq<usize>, n: int, p: spec_fn(int) -> bool) -> bool {
    &&& forall|k: int| 0 <= k < idx.len() ==> 0 <= #[trigger] idx[k] < n && p(idx[k] as int)
    &&& forall|k1: int, k2: int| 0 <= k1 < k2 < idx.len() ==> idx[k1] < idx[k2]
    &&& forall|i: int| 0 <= i < n && #[trigger] p(i) ==> listed(idx, i)
}

/// What one pass of the backup watcher does for an app: copy every source
/// file that does not exist in the destination (`dest_has[i]` tells whether
/// a file named like source file `i` exists there), and delete every file
/// of the destination whose name is not that of a source file.
pub open spec fn is_sync_plan(
    src: Seq<Seq<u8>>,
    dest_has: Seq<bool>,
    dest: Seq<Seq<u8>>,
    copy: Seq<usize>,
    delete: Seq<usize>,
) -> bool {
    &&& lists_exactly(copy, src.len() as int, |i: int| !dest_has[i])
    &&& lists_exactly(delete, dest.len() as int, |j: int| !src.contains(dest[j]))
}

/// The work of one pass of the backup watcher over one app.
pub struct SyncPlan {
    /// Positions of the source files to copy.
    pub copy: Vec<usize>,
    /// Positions of the destination files to delete.
    pub delete: Vec<usize>,
}

fn bytes_eq(a: &Vec<u8>, b: &Vec<u8>) -> (r: bool)
    ensures
        r == (a@ == b@),
{
    if a.len() != b.len() {
        return false;
    }
    let mut i: usize = 0;
    while i < a.len()
        invariant
            a.len() == b.len(),
            i <= a.len(),
            forall|j: int| 0 <= j < i ==> a@[j] == b@[j],
        decreases a.len() - i,
    {
        if a[i] != b[i] {
            return false;
        }
        i = i + 1;
    }
    assert(a@ =~= b@);
    true
}

fn contains_name(names: &Vec<Vec<u8>>, name: &Vec<u8>) -> (r: bool)
    ensures
        r == names_view(names@).contains(name@),
{
    let ghost nv = names_view(names@);
    let mut i: usize = 0;
    while i < names.len()
        invariant
            nv == names_view(names@),
            i <= names.len(),
            forall|j: int| 0 <= j < i ==> nv[j] != name@,
        decreases names.len() - i,
    {
        if bytes_eq(&names[i], name) {
            assert(nv[i as int] == name@);
            return true;
        }
        i = i + 1;
    }
    false
}

/// Plans one pass of the backup watcher (see [`is_sync_plan`]).
pub fn sync_plan(src: &Vec<Vec<u8>>, dest_has: &Vec<bool>, dest: &Vec<Vec<u8>>) -> (r: SyncPlan)
    requires
        src.len() == dest_has.len(),
    ensures
        is_sync_plan(names_view(src@), dest_has@, names_view(dest@), r.copy@, r.delete@),
{
    let ghost sv = names_view(src@);
    let ghost dv = names_view(dest@);
    let ghost pc = |i: int| !dest_has@[i];
    let ghost pd = |j: int| !sv.contains(dv[j]);
    let mut copy: Vec<usize> = Vec::new();
    let mut i: usize = 0;
    while i < src.len()
        invariant
            src.len() == dest_has.len(),
            i <= src.len(),
            pc == (|i: int| !dest_has@[i]),
            forall|k: int| 0 <= k < copy.len() ==> 0 <= #[trigger] copy@[k] < i && pc(copy@[k] as int),
            forall|k1: int, k2: int| 0 <= k1 < k2 < copy.len() ==> copy@[k1] < copy@[k2],
            forall|j: int| 0 <= j < i && #[trigger] pc(j) ==> listed(copy@, j),
        decreases src.len() - i,
    {
        let ghost before = copy@;
        if !dest_has[i] {
            copy.push(i);
            assert(copy@[copy.len() - 1] == i);
        }
        proof {
            assert forall|j: int| 0 <= j < i + 1 && #[trigger] pc(j) implies listed(copy@, j) by {
                if j < i {
                    let k = choose|k: int| 0 <= k < before.len() && before[k] == j;
                    assert(copy@[k] == before[k]);
                } else {
                    assert(copy@[copy.len() - 1] == j);
                }
            }
        }
        i = i + 1;
    }
    let mut delete: Vec<usize> = Vec::new();
    let mut j: usize = 0;
    while j < dest.len()
        invariant
            sv == names_view(src@),
            dv == names_view(dest@),
            j <= dest.len(),
            pd == (|j: int| !sv.contains(dv[j])),
            forall|k: int| 0 <= k < delete.len() ==> 0 <= #[trigger] delete@[k] < j && pd(delete@[k] as int),
            forall|k1: int, k2: int| 0 <= k1 < k2 < delete.len() ==> delete@[k1] < delete@[k2],
            forall|m: int| 0 <= m < j && #[trigger] pd(m) ==> listed(delete@, m),
        decreases dest.len() - j,
    {
        let keep = contains_name(src, &dest[j]);
        assert(dv[j as int] == dest@[j as int]@);
        let ghost before = delete@;
        if !keep {
            delete.push(j);
            assert(delete@[delete.len() - 1] == j);
        }
        proof {
            assert forall|m: int| 0 <= m < j + 1 && #[trigger] pd(m) implies listed(delete@, m) by {
                if m < j {
                    let k = choose|k: int| 0 <= k < before.len() && before[k] == m;
                    assert(delete@[k] == before[k]);
                } else {
                    assert(delete@[delete.len() - 1] == m);
                }
            }
        }
        j = j + 1;
    }
    SyncPlan { copy, delete }
}

/// The file names the destination holds once a plan has been carried out:
/// the files not deleted, and the copies.
pub open spec fn after_sync(
    src: Seq<Seq<u8>>,
    dest: Seq<Seq<u8>>,
    copy: Seq<usize>,
    delete: Seq<usize>,
) -> Set<Seq<u8>> {
    Set::new(
        |n: Seq<u8>|
            (exists|j: int| 0 <= j < dest.len() && dest[j] == n && !listed(delete, j)) || (
            exists|k: int| 0 <= k < copy.len() && src[copy[k] as int] == n),
    )
}

/// The backup copy mirrors the app's backups: once a pass has been carried
/// out (every copy made, every deletion done), the destination holds
/// exactly the files of the source, provided a destination entry named like
/// a source file exists exactly when it is one of the destination's files.
pub proof fn lemma_sync_mirrors(
    src: Seq<Seq<u8>>,
    dest_has: Seq<bool>,
    dest: Seq<Seq<u8>>,
    copy: Seq<usize>,
    delete: Seq<usize>,
)
    requires
        src.len() == dest_has.len(),
        is_sync_plan(src, dest_has, dest, copy, delete),
        forall|i: int| 0 <= i < src.len() ==> dest_has[i] == dest.contains(#[trigger] src[i]),
    ensures
        after_sync(src, dest, copy, delete) == src.to_set(),
{
    let pc = |i: int| !dest_has[i];
    let pd = |j: int| !src.contains(dest[j]);
    assert forall|n: Seq<u8>| after_sync(src, dest, copy, delete).contains(n) <==> src.to_set().contains(n) by {
        if after_sync(src, dest, copy, delete).contains(n) {
            if exists|j: int| 0 <= j < dest.len() && dest[j] == n && !listed(delete, j) {
                let j = choose|j: int| 0 <= j < dest.len() && dest[j] == n && !listed(delete, j);
                if !src.contains(n) {
                    assert(pd(j));
                }
            } else {
                let k = choose|k: int| 0 <= k < copy.len() && src[copy[k] as int] == n;
                assert(0 <= copy[k] < src.len());
                assert(src.contains(n));
            }
        }
        if src.to_set().contains(n) {
            assert(src.contains(n));
            let i = choose|i: int| 0 <= i < src.len() && src[i] == n;
            if dest_has[i] {
                assert(dest.contains(src[i]));
                let j = choose|j: int| 0 <= j < dest.len() && dest[j] == src[i];
                if listed(delete, j) {
                    let k = choose|k: int| 0 <= k < delete.len() && delete[k] == j;
                    assert(pd(delete[k] as int));
                }
                assert(after_sync(src, dest, copy, delete).contains(n));
            } else {
                assert(pc(i));
                assert(listed(copy, i));
                let k = choose|k: int| 0 <= k < copy.len() && copy[k] == i;
                assert(src[copy[k] as int] == n);
                assert(after_sync(src, dest, copy, delete).contains(n));
            }
        }
    }
    assert(after_sync(src, dest, copy, delete) =~= src.to_set());
}


/// A pass leaves no stranger behind: once it has been carried out, every
/// file of the destination is named like a file of the source.
pub proof fn lemma_sync_keeps_only_source(
    src: Seq<Seq<u8>>,
    dest_has: Seq<bool>,
    dest: Seq<Seq<u8>>,
    copy: Seq<usize>,
    delete: Seq<usize>,
)
    requires
        is_sync_plan(src, dest_has, dest, copy, delete),
    ensures
        after_sync(src, dest, copy, delete).subset_of(src.to_set()),
{
    let pd = |j: int| !src.contains(dest[j]);
    assert forall|n: Seq<u8>| after_sync(src, dest, copy, delete).contains(n) implies src.to_set().contains(n) by {
        if exists|j: int| 0 <= j < dest.len() && dest[j] == n && !listed(delete, j) {
            let j = choose|j: int| 0 <= j < dest.len() && dest[j] == n && !listed(delete, j);
            if !src.contains(n) {
                assert(pd(j));
            }
        } else {
            let k = choose|k: int| 0 <= k < copy.len() && src[copy[k] as int] == n;
            assert(0 <= copy[k] < src.len());
            assert(src.contains(n));
        }
    }
}

/// A pass after a completed pass, over an unchanged source, does nothing:
/// it copies no file and deletes no file. This holds though the destination
/// may hold other entries (folders) named like source files: all it takes
/// is that a file counts as existing, and that what existed before the
/// first pass still exists.
pub proof fn lemma_second_sync_is_idle(
    src: Seq<Seq<u8>>,
    dest_has: Seq<bool>,
    dest: Seq<Seq<u8>>,
    copy: Seq<usize>,
    delete: Seq<usize>,
    next_dest_has: Seq<bool>,
    next_dest: Seq<Seq<u8>>,
    next_copy: Seq<usize>,
    next_delete: Seq<usize>,
)
    requires
        src.len() == dest_has.len(),
        src.len() == next_dest_has.len(),
        is_sync_plan(src, dest_has, dest, copy, delete),
        forall|i: int| 0 <= i < dest_has.len() && dest.contains(#[trigger] src[i]) ==> dest_has[i],
        next_dest.to_set() == after_sync(src, dest, copy, delete),
        forall|i: int|
            0 <= i < next_dest_has.len() && next_dest.contains(#[trigger] src[i]) ==> next_dest_has[i],
        forall|i: int| 0 <= i < dest_has.len() && #[trigger] dest_has[i] ==> next_dest_has[i],
        is_sync_plan(src, next_dest_has, next_dest, next_copy, next_delete),
    ensures
        next_copy.len() == 0,
        next_delete.len() == 0,
{
    let pc = |i: int| !dest_has[i];
    lemma_sync_keeps_only_source(src, dest_has, dest, copy, delete);
    if next_copy.len() > 0 {
        let i = next_copy[0] as int;
        assert(0 <= i < src.len());
        assert(!next_dest_has[i]);
        assert(!dest_has[i]);
        assert(pc(i));
        assert(listed(copy, i));
        let k = choose|k: int| 0 <= k < copy.len() && copy[k] == i;
        assert(src[copy[k] as int] == src[i]);
        assert(after_sync(src, dest, copy, delete).contains(src[i]));
        assert(next_dest.to_set().contains(src[i]));
        assert(next_dest.contains(src[i]));
    }
    if next_delete.len() > 0 {
        let j = next_delete[0] as int;
        assert(!src.contains(next_dest[j]));
        assert(next_dest.to_set().contains(next_dest[j]));
        assert(src.to_set().contains(next_dest[j]));
    }
}

} // verus!
