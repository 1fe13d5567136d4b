use vstd::prelude::*;
use crate::text::{contains_text, split_char, text_eq, to_lowercase, trim_start_char};

verus! {

/// One asset of a GitHub release, as the release JSON gives it: each field
/// is present only when the JSON holds a string there.
pub struct Asset {
    pub name: Option<String>,
    pub browser_download_url: Option<String>,
}

/// The fields of a GitHub "latest release" answer that the launcher reads:
/// the tag (when it is a string) and the assets (when they are an array).
pub struct Release {
    pub tag_name: Option<String>,
    pub assets: Option<Vec<Asset>>,
}

pub open spec fn asset_view(a: Asset) -> (Option<Seq<char>>, Option<Seq<char>>) {
    (crate::catalog::opt_text_view(a.name), crate::catalog::opt_text_view(a.browser_download_url))
}

pub open spec fn assets_view(v: Seq<Asset>) -> Seq<(Option<Seq<char>>, Option<Seq<char>>)> {
    v.map_values(|a: Asset| asset_view(a))
}

/// The owner and the name of a repository, from its URL: the last two
/// pieces between slashes. `None` when the URL holds no slash.
pub open spec fn owner_and_repo(url: Seq<char>) -> Option<(Seq<char>, Seq<char>)> {
    let parts = crate::text::split_by(url, '/');
    if parts.len() < 2 {
        None
    } else {
        Some((parts[parts.len() - 2], parts[parts.len() - 1]))
    }
}

/// Splits a repository URL into owner and repository name.
pub fn repo_owner_and_name(repo_url: &str) -> (r: Option<(String, String)>)
    ensures
        match r {
            Some((o, n)) => owner_and_repo(repo_url@) == Some((o@, n@)),
            None => owner_and_repo(repo_url@) is None,
        },
{
    let parts = split_char(repo_url, '/');
    let ghost pv = parts@.map_values(|p: String| p@);
    if parts.len() < 2 {
        return None;
    }
    let n = parts.len();
    let owner = parts[n - 2].clone();
    let repo = parts[n - 1].clone();
    assert(pv[n - 2] == owner@ && pv[n - 1] == repo@);
    Some((owner, repo))
}

/// The GitHub API address of the latest release of `owner/repo`.
pub open spec fn latest_release_url_spec(owner: Seq<char>, repo: Seq<char>) -> Seq<char> {
    "https://api.github.com/repos/"@ + owner + "/"@ + repo + "/releases/latest"@
}

/// The GitHub API address of the latest release of `owner/repo`.
pub fn latest_release_url(owner: &str, repo: &str) -> (r: String)
    ensures
        r@ == latest_release_url_spec(owner@, repo@),
{
    let r = "https://api.github.com/repos/".to_owned();
    let r = r.concat(owner);
    let r = r.concat("/");
    let r = r.concat(repo);
    r.concat("/releases/latest")
}

/// The GitHub API address of the launcher's own latest release.
pub fn launcher_release_url() -> (r: String)
    ensures
        r@ == latest_release_url_spec("LucasFenaux"@, "launcher"@),
{
    latest_release_url("LucasFenaux", "launcher")
}

/// The latest-release address for an app's repository URL, when the URL
/// names an owner and a repository.
pub fn release_url_for(repo_url: &str) -> (r: Option<String>)
    ensures
        match owner_and_repo(repo_url@) {
            Some((o, n)) => r is Some && r->0@ == latest_release_url_spec(o, n),
            None => r is None,
        },
{
    match repo_owner_and_name(repo_url) {
        Some((owner, repo)) => Some(latest_release_url(owner.as_str(), repo.as_str())),
        None => None,
    }
}

/// The tag an installation records for a release with tag `tag`.
pub open spec fn recorded_tag(tag: Option<Seq<char>>) -> Seq<char> {
    match tag {
        Some(t) => t,
        None => "unknown"@,
    }
}

/// The tag an installation records: the release's tag, or `unknown`.
pub fn release_tag(release: &Release) -> (r: String)
    ensures
        r@ == recorded_tag(crate::catalog::opt_text_view(release.tag_name)),
{
    match &release.tag_name {
        Some(t) => t.clone(),
        None => "unknown".to_owned(),
    }
}

/// Whether an asset whose lowercase name is `name` is the build for the
/// operating system `os` and architecture `arch` (as `std::env::consts`
/// names them): on macOS a `macos` build for the architecture, or one that
/// names no architecture; on Windows a `windows` or `win` build; elsewhere
/// a `linux` build.
pub open spec fn asset_fits(os: Seq<char>, arch: Seq<char>, name: Seq<char>) -> bool {
    if os == "macos"@ {
        crate::text::spec_contains(name, "macos"@) && ((arch == "aarch64"@ && crate::text::spec_contains(name, "arm64"@)) || (
        arch == "x86_64"@ && (crate::text::spec_contains(name, "x64"@) || crate::text::spec_contains(name, "x86_64"@))) || (
        !crate::text::spec_contains(name, "arm"@) && !crate::text::spec_contains(name, "x64"@) && !crate::text::spec_contains(
            name,
            "x86_64"@,
        ) && !crate::text::spec_contains(name, "arm64"@)))
    } else if os == "windows"@ {
        crate::text::spec_contains(name, "windows"@) || crate::text::spec_contains(name, "win"@)
    } else {
        crate::text::spec_contains(name, "linux"@)
    }
}

/// An asset's name as matched: lowercased, and empty when missing.
pub open spec fn matched_name(name: Option<Seq<char>>) -> Seq<char> {
    crate::text::lowercase(
        match name {
            Some(n) => n,
            None => Seq::<char>::empty(),
        },
    )
}

/// The download address the launcher takes from a release's assets: that
/// of the first asset that fits the host (which may lack one), or none when
/// no asset fits.
pub open spec fn chosen_url(
    os: Seq<char>,
    arch: Seq<char>,
    assets: Seq<(Option<Seq<char>>, Option<Seq<char>>)>,
) -> Option<Seq<char>>
    decreases assets.len(),
{
    if assets.len() == 0 {
        None
    } else if asset_fits(os, arch, matched_name(assets[0].0)) {
        assets[0].1
    } else {
        chosen_url(os, arch, assets.drop_first())
    }
}

/// Whether an asset's lowercase name fits the host.
pub fn asset_name_fits(os: &str, arch: &str, name: &str) -> (r: bool)
    ensures
        r == asset_fits(os@, arch@, name@),
{
    let macos = contains_text(name, "macos");
    if text_eq(os, "macos") {
        let arm64 = contains_text(name, "arm64");
        let x64 = contains_text(name, "x64");
        let x86_64 = contains_text(name, "x86_64");
        let arm = contains_text(name, "arm");
        let for_arch = (text_eq(arch, "aarch64") && arm64) || (text_eq(arch, "x86_64") && (x64
            || x86_64));
        let no_arch = !arm && !x64 && !x86_64 && !arm64;
        macos && (for_arch || no_arch)
    } else if text_eq(os, "windows") {
        contains_text(name, "windows") || contains_text(name, "win")
    } else {
        contains_text(name, "linux")
    }
}

/// The download address of the release binary for the host, as
/// [`chosen_url`] defines it.
pub fn select_download_url(os: &str, arch: &str, assets: &Vec<Asset>) -> (r: Option<String>)
    ensures
        crate::catalog::opt_text_view(r) == chosen_url(os@, arch@, assets_view(assets@)),
{
    let ghost all = assets_view(assets@);
    let mut i: usize = 0;
    assert(all.skip(0) =~= all);
    while i < assets.len()
        invariant
            all == assets_view(assets@),
            i <= assets.len(),
            chosen_url(os@, arch@, all) == chosen_url(os@, arch@, all.skip(i as int)),
        decreases assets.len() - i,
    {
        let name = match &assets[i].name {
            Some(n) => to_lowercase(n.as_str()),
            None => to_lowercase(""),
        };
        proof {
            reveal_strlit("");
            assert(""@ =~= Seq::<char>::empty());
        }
        assert(all.skip(i as int)[0] == asset_view(assets@[i as int]));
        assert(name@ == matched_name(all.skip(i as int)[0].0));
        if asset_name_fits(os, arch, name.as_str()) {
            return crate::catalog::clone_opt_text(&assets[i].browser_download_url);
        }
        assert(all.skip(i as int).drop_first() =~= all.skip(i + 1));
        i = i + 1;
    }
    None
}

/// Whether the latest release is newer than the installed one: its tag is
/// present, not empty, and differs from the recorded version. No answer
/// (`release` is `None`) means no update.
pub open spec fn update_available_spec(release_tag: Option<Option<Seq<char>>>, current: Seq<char>) -> bool {
    match release_tag {
        Some(Some(t)) => t.len() > 0 && t != current,
        _ => false,
    }
}

/// Compares the latest release of an app with its recorded version.
pub fn update_available(release: Option<&Release>, current: &str) -> (r: bool)
    ensures
        r == update_available_spec(
            match release {
                Some(rel) => Some(crate::catalog::opt_text_view(rel.tag_name)),
                None => None,
            },
            current@,
        ),
{
    match release {
        Some(rel) => match &rel.tag_name {
            Some(t) => !t.as_str().is_empty() && !text_eq(t.as_str(), current),
            None => false,
        },
        None => false,
    }
}

/// The launcher's own update: the latest tag, when, with its leading `v`s
/// removed, it is not empty and differs from the running version.
pub open spec fn launcher_update_spec(release_tag: Option<Option<Seq<char>>>, current: Seq<char>) -> Option<Seq<char>> {
    match release_tag {
        Some(Some(t)) => {
            let clean = crate::text::trim_leading(t, 'v');
            if clean.len() > 0 && clean != current {
                Some(t)
            } else {
                None
            }
        },
        _ => None,
    }
}

/// Compares the launcher's latest release with the running version.
pub fn check_launcher_update(current: &str, release: Option<&Release>) -> (r: Option<String>)
    ensures
        crate::catalog::opt_text_view(r) == launcher_update_spec(
            match release {
                Some(rel) => Some(crate::catalog::opt_text_view(rel.tag_name)),
                None => None,
            },
            current@,
        ),
{
    match release {
        Some(rel) => match &rel.tag_name {
            Some(t) => {
                let clean = trim_start_char(t.as_str(), 'v');
                if !clean.is_empty() && !text_eq(clean, current) {
                    Some(t.clone())
                } else {
                    None
                }
            },
            None => None,
        },
        None => None,
    }
}


/// Right after installing a release, checking for updates against that same
/// release reports none: the version file holds what the check compares the
/// release's tag with.
pub proof fn lemma_installed_release_is_current(tag: Option<Seq<char>>)
    ensures
        !update_available_spec(Some(tag), recorded_tag(tag)),
{
}

/// A launcher whose version is the release tag without its `v` prefix is
/// told of no update for that release.
pub proof fn lemma_launcher_tag_prefix(current: Seq<char>)
    requires
        current.len() > 0,
        current[0] != 'v',
    ensures
        launcher_update_spec(Some(Some(seq!['v'] + current)), current) is None,
{
    let t = seq!['v'] + current;
    assert(t.drop_first() =~= current);
    assert(crate::text::leading_count(current, 'v') == 0);
    assert(crate::text::leading_count(t, 'v') == 1);
    assert(t.skip(1) =~= current);
}


/// The repositories of the built-in apps, in catalog order.
pub open spec fn builtin_repositories() -> Seq<Seq<char>> {
    seq!["job-application-tracker"@, "literature-map"@, "portfolio-analytics"@, "core-planner"@]
}

proof fn lemma_github_url(repo: Seq<char>, url: Seq<char>)
    requires
        crate::text::free_of(repo, '/'),
        url == "https://github.com"@ + seq!['/'] + "LucasFenaux"@ + seq!['/'] + repo,
    ensures
        owner_and_repo(url) == Some(("LucasFenaux"@, repo)),
{
    reveal_strlit("LucasFenaux");
    reveal_with_fuel(crate::text::free_of, 12);
    assert(crate::text::free_of("LucasFenaux"@, '/'));
    let prefix = "https://github.com"@ + seq!['/'] + "LucasFenaux"@;
    crate::text::lemma_split_last_piece(prefix, '/', repo);
    crate::text::lemma_split_last_piece("https://github.com"@, '/', "LucasFenaux"@);
    let parts = crate::text::split_by(url, '/');
    assert(parts == crate::text::split_by("https://github.com"@, '/').push("LucasFenaux"@).push(repo));
}

/// The built-in catalog is sound: its ids are distinct and hold no slash
/// (each is one path component), and every repository address is
/// `https://github.com/LucasFenaux/<repository>`, so it names an owner and
/// a repository and an installation never meets an invalid address.
pub proof fn lemma_builtin_catalog_sound()
    ensures
        forall|i: int, j: int|
            0 <= i < j < 4 ==> crate::catalog::builtin_catalog()[i].id
                != crate::catalog::builtin_catalog()[j].id,
        forall|i: int, k: int|
            0 <= i < 4 && 0 <= k < crate::catalog::builtin_catalog()[i].id.len()
                ==> crate::catalog::builtin_catalog()[i].id[k] != '/',
        forall|i: int|
            0 <= i < 4 ==> owner_and_repo(#[trigger] crate::catalog::builtin_catalog()[i].repo_url)
                == Some(("LucasFenaux"@, builtin_repositories()[i])),
{
    let cat = crate::catalog::builtin_catalog();
    reveal_strlit("application-tracker");
    reveal_strlit("literature-review-graph");
    reveal_strlit("portfolio-stats");
    reveal_strlit("productivity-app");
    reveal_strlit("job-application-tracker");
    reveal_strlit("literature-map");
    reveal_strlit("portfolio-analytics");
    reveal_strlit("core-planner");
    reveal_strlit("https://github.com");
    reveal_strlit("LucasFenaux");
    reveal_strlit("https://github.com/LucasFenaux/job-application-tracker");
    reveal_strlit("https://github.com/LucasFenaux/literature-map");
    reveal_strlit("https://github.com/LucasFenaux/portfolio-analytics");
    reveal_strlit("https://github.com/LucasFenaux/core-planner");
    reveal_with_fuel(crate::text::free_of, 25);
    assert(crate::text::free_of("application-tracker"@, '/'));
    assert(crate::text::free_of("literature-review-graph"@, '/'));
    assert(crate::text::free_of("portfolio-stats"@, '/'));
    assert(crate::text::free_of("productivity-app"@, '/'));
    assert(crate::text::free_of("job-application-tracker"@, '/'));
    assert(crate::text::free_of("literature-map"@, '/'));
    assert(crate::text::free_of("portfolio-analytics"@, '/'));
    assert(crate::text::free_of("core-planner"@, '/'));
    assert forall|i: int| 0 <= i < 4 implies crate::text::free_of(#[trigger] cat[i].id, '/') by {}
    assert forall|i: int, k: int| 0 <= i < 4 && 0 <= k < cat[i].id.len() implies cat[i].id[k] != '/' by {
        crate::text::lemma_free_of(cat[i].id, '/');
    }
    let h = "https://github.com"@ + seq!['/'] + "LucasFenaux"@ + seq!['/'];
    assert(cat[0].repo_url =~= h + "job-application-tracker"@);
    assert(cat[1].repo_url =~= h + "literature-map"@);
    assert(cat[2].repo_url =~= h + "portfolio-analytics"@);
    assert(cat[3].repo_url =~= h + "core-planner"@);
    assert forall|i: int| 0 <= i < 4 implies owner_and_repo(#[trigger] cat[i].repo_url) == Some(
        ("LucasFenaux"@, builtin_repositories()[i]),
    ) by {
        lemma_github_url(builtin_repositories()[i], cat[i].repo_url);
    }
}


/// The download address chosen is that of the first asset that fits the
/// host, and comes from an asset that fits it.
pub proof fn lemma_chosen_is_first_fitting(
    os: Seq<char>,
    arch: Seq<char>,
    assets: Seq<(Option<Seq<char>>, Option<Seq<char>>)>,
)
    ensures
        forall|i: int|
            0 <= i < assets.len() && asset_fits(os, arch, matched_name(assets[i].0)) && (forall|j: int|
                0 <= j < i ==> !asset_fits(os, arch, #[trigger] matched_name(assets[j].0)))
                ==> chosen_url(os, arch, assets) == #[trigger] assets[i].1,
        chosen_url(os, arch, assets) is Some ==> exists|i: int|
            0 <= i < assets.len() && #[trigger] assets[i].1 == chosen_url(os, arch, assets)
                && asset_fits(os, arch, matched_name(assets[i].0)),
    decreases assets.len(),
{
    if assets.len() > 0 {
        let rest = assets.drop_first();
        lemma_chosen_is_first_fitting(os, arch, rest);
        assert forall|i: int|
            0 <= i < assets.len() && asset_fits(os, arch, matched_name(assets[i].0)) && (forall|j: int|
                0 <= j < i ==> !asset_fits(os, arch, #[trigger] matched_name(assets[j].0)))
                implies chosen_url(os, arch, assets) == #[trigger] assets[i].1 by {
            if i > 0 {
                assert(!asset_fits(os, arch, matched_name(assets[0].0)));
                assert(rest[i - 1] == assets[i]);
                assert forall|j: int| 0 <= j < i - 1 implies !asset_fits(
                    os,
                    arch,
                    #[trigger] matched_name(rest[j].0),
                ) by {
                    assert(rest[j] == assets[j + 1]);
                    assert(!asset_fits(os, arch, matched_name(assets[j + 1].0)));
                }
            }
        }
        if chosen_url(os, arch, assets) is Some && !asset_fits(os, arch, matched_name(assets[0].0)) {
            let i = choose|i: int|
                0 <= i < rest.len() && #[trigger] rest[i].1 == chosen_url(os, arch, rest) && asset_fits(
                    os,
                    arch,
                    matched_name(rest[i].0),
                );
            assert(assets[i + 1] == rest[i]);
        }
    }
}

/// On an Apple Silicon Mac the build downloaded is a macOS build that names
/// arm64, or one that names no architecture: a build that names x64 or
/// x86_64 but not arm64 (an Intel build) is never chosen.
pub proof fn lemma_apple_silicon_gets_arm_build(assets: Seq<(Option<Seq<char>>, Option<Seq<char>>)>)
    ensures
        chosen_url("macos"@, "aarch64"@, assets) is Some ==> exists|i: int|
            0 <= i < assets.len() && #[trigger] assets[i].1 == chosen_url("macos"@, "aarch64"@, assets)
                && crate::text::spec_contains(matched_name(assets[i].0), "macos"@) && (
            crate::text::spec_contains(matched_name(assets[i].0), "arm64"@) || (
            !crate::text::spec_contains(matched_name(assets[i].0), "x64"@)
                && !crate::text::spec_contains(matched_name(assets[i].0), "x86_64"@)
                && !crate::text::spec_contains(matched_name(assets[i].0), "arm"@))),
{
    reveal_strlit("aarch64");
    reveal_strlit("x86_64");
    assert("aarch64"@ != "x86_64"@) by {
        assert("aarch64"@.len() != "x86_64"@.len());
    }
    lemma_chosen_is_first_fitting("macos"@, "aarch64"@, assets);
}

/// On an Intel Mac the build downloaded is a macOS build that names x64 or
/// x86_64, or one that names no architecture: a build that names arm64 but
/// neither x64 nor x86_64 is never chosen.
pub proof fn lemma_intel_mac_gets_intel_build(assets: Seq<(Option<Seq<char>>, Option<Seq<char>>)>)
    ensures
        chosen_url("macos"@, "x86_64"@, assets) is Some ==> exists|i: int|
            0 <= i < assets.len() && #[trigger] assets[i].1 == chosen_url("macos"@, "x86_64"@, assets)
                && crate::text::spec_contains(matched_name(assets[i].0), "macos"@) && (
            crate::text::spec_contains(matched_name(assets[i].0), "x64"@)
                || crate::text::spec_contains(matched_name(assets[i].0), "x86_64"@) || (
            !crate::text::spec_contains(matched_name(assets[i].0), "arm64"@)
                && !crate::text::spec_contains(matched_name(assets[i].0), "arm"@))),
{
    reveal_strlit("aarch64");
    reveal_strlit("x86_64");
    assert("aarch64"@ != "x86_64"@) by {
        assert("aarch64"@.len() != "x86_64"@.len());
    }
    lemma_chosen_is_first_fitting("macos"@, "x86_64"@, assets);
}

/// On Windows the build downloaded names Windows ("win"); elsewhere but
/// macOS it names Linux.
pub proof fn lemma_other_hosts_get_their_build(
    os: Seq<char>,
    arch: Seq<char>,
    assets: Seq<(Option<Seq<char>>, Option<Seq<char>>)>,
)
    requires
        os != "macos"@,
    ensures
        chosen_url(os, arch, assets) is Some ==> exists|i: int|
            0 <= i < assets.len() && #[trigger] assets[i].1 == chosen_url(os, arch, assets) && (if os
                == "windows"@ {
                crate::text::spec_contains(matched_name(assets[i].0), "win"@)
            } else {
                crate::text::spec_contains(matched_name(assets[i].0), "linux"@)
            }),
{
    lemma_chosen_is_first_fitting(os, arch, assets);
    if chosen_url(os, arch, assets) is Some && os == "windows"@ {
        let i = choose|i: int|
            0 <= i < assets.len() && #[trigger] assets[i].1 == chosen_url(os, arch, assets)
                && asset_fits(os, arch, matched_name(assets[i].0));
        let n = matched_name(assets[i].0);
        if crate::text::spec_contains(n, "windows"@) {
            let k = choose|k: int| crate::text::occurs_at(n, "windows"@, k);
            reveal_strlit("windows");
            reveal_strlit("win");
            assert(n.subrange(k, k + 3) =~= "win"@) by {
                assert(n.subrange(k, k + 7) == "windows"@);
                assert forall|m: int| 0 <= m < 3 implies n.subrange(k, k + 3)[m] == "win"@[m] by {
                    assert(n.subrange(k, k + 7)[m] == n[k + m]);
                }
            }
            assert(crate::text::occurs_at(n, "win"@, k));
        }
    }
}

/// An update is reported exactly when the latest tag is present, not empty,
/// and differs as a whole from the recorded version; no answer reports none.
pub proof fn lemma_update_iff_tag_differs(tag: Option<Option<Seq<char>>>, current: Seq<char>)
    ensures
        update_available_spec(tag, current) <==> (tag matches Some(Some(t)) && t.len() > 0 && t
            != current),
{
}

/// The launcher is offered the latest tag exactly when that tag, without
/// its leading `v`s, is not empty and differs as a whole from the running
/// version; what is offered is the tag as published.
pub proof fn lemma_launcher_offer(tag: Option<Option<Seq<char>>>, current: Seq<char>)
    ensures
        launcher_update_spec(tag, current) is Some <==> (tag matches Some(Some(t))
            && crate::text::trim_leading(t, 'v').len() > 0 && crate::text::trim_leading(t, 'v')
            != current),
        tag matches Some(Some(t)) ==> (launcher_update_spec(tag, current) is Some
            ==> launcher_update_spec(tag, current) == Some(t)),
{
}

} // verus!
