use webapp_launcher::backup::{
    backup_dir_in, backup_watch_dirs, get_backup_dir, settings_with_backup_dir, sync_plan, Settings,
};
use webapp_launcher::catalog::{check_dependencies, find_app, get_catalog_base, AppInfo};
use webapp_launcher::commands::{
    backup_data_dir, backup_outcome, backup_zip_command, check_update_target, install_app_plan,
    install_app_start, launch_app_command, launch_app_target, record_launch, InstallStart,
};
use webapp_launcher::paths::{
    app_dir_in, binary_name, get_app_dir, get_library_dir, get_settings_path, get_state_file,
    library_dir_in, FsPath, PathBase,
};
use webapp_launcher::process_tree::{kill_order, process_tree};
use webapp_launcher::processes::{AppProcess, ProcessTable};
use webapp_launcher::release::{
    check_launcher_update, release_tag, release_url_for, repo_owner_and_name, select_download_url,
    update_available, Asset, Release,
};
use webapp_launcher::status::{get_catalog, InstallProbe};
use webapp_launcher::text::{contains_text, push_decimal, split_char, text_eq, trim_start_char};

fn segs(p: &FsPath) -> Vec<&str> {
    p.segments.iter().map(|s| s.as_str()).collect()
}

/// A path's start, as text (a native start is shown as its bytes).
fn base(p: &FsPath) -> String {
    match &p.base {
        PathBase::Text(t) => t.clone(),
        PathBase::Native(n) => String::from_utf8(n.clone()).unwrap(),
    }
}

fn is_native(p: &FsPath) -> bool {
    matches!(p.base, PathBase::Native(_))
}

fn library() -> FsPath {
    library_dir_in(Some(b"/home/ada".to_vec()))
}

fn dev_app(id: &str, dir: &str) -> AppInfo {
    AppInfo {
        id: id.to_string(),
        name: "Dev".to_string(),
        description: "A checkout".to_string(),
        repo_url: dir.to_string(),
        port: 8080,
        published_port: None,
        mode: "dev".to_string(),
        is_installed: false,
        is_running: false,
        version: None,
    }
}

fn asset(name: &str, url: &str) -> Asset {
    Asset { name: Some(name.to_string()), browser_download_url: Some(url.to_string()) }
}

#[test]
fn dependencies_are_always_met() {
    let d = check_dependencies();
    assert!(d.ok);
    assert_eq!(d.message, "All dependencies met.");
}

#[test]
fn builtin_catalog_lists_four_released_apps() {
    let apps = get_catalog_base(Vec::new());
    let ids: Vec<&str> = apps.iter().map(|a| a.id.as_str()).collect();
    assert_eq!(
        ids,
        vec!["application-tracker", "literature-review-graph", "portfolio-stats", "productivity-app"]
    );
    assert_eq!(apps[0].name, "Job Application Tracker");
    assert_eq!(apps[2].port, 5173);
    assert_eq!(apps[1].name, "Literature Map");
    assert_eq!(apps[1].repo_url, "https://github.com/LucasFenaux/literature-map");
    assert_eq!(apps[3].name, "Core Planner");
    assert_eq!(apps[3].repo_url, "https://github.com/LucasFenaux/core-planner");
    assert!(apps.iter().all(|a| a.mode == "prod" && !a.is_installed && !a.is_running));
}

#[test]
fn dev_apps_follow_the_builtin_ones() {
    let apps = get_catalog_base(vec![dev_app("my-tool", "/src/my-tool")]);
    assert_eq!(apps.len(), 5);
    assert_eq!(apps[4].id, "my-tool");
    assert_eq!(find_app(&apps, "my-tool"), Some(4));
    assert_eq!(find_app(&apps, "portfolio-stats"), Some(2));
    assert_eq!(find_app(&apps, "nope"), None);
}

#[test]
fn find_app_picks_the_first_match() {
    let apps = get_catalog_base(vec![dev_app("portfolio-stats", "/src/x")]);
    assert_eq!(find_app(&apps, "portfolio-stats"), Some(2));
}

#[test]
fn library_paths() {
    let lib = library();
    assert_eq!(base(&lib), "/home/ada");
    assert!(is_native(&lib));
    assert_eq!(segs(&lib), vec!["Library", "Application Support", "WebAppLauncher", "Apps"]);
    let no_home = library_dir_in(None);
    assert_eq!(base(&no_home), "~");
    assert!(!is_native(&no_home));
    assert_eq!(segs(&get_library_dir()), segs(&lib));
    assert_eq!(segs(&get_state_file())[4], "processes.json");
    assert_eq!(segs(&get_settings_path())[4], "settings.json");
}

#[test]
fn app_dirs() {
    let apps = get_catalog_base(vec![dev_app("my-tool", "/src/my-tool")]);
    let released = app_dir_in(&apps[0], &library());
    assert_eq!(base(&released), "/home/ada");
    assert_eq!(segs(&released)[4], "application-tracker");
    let dev = get_app_dir(&apps[4]);
    assert_eq!(base(&dev), "/src/my-tool");
    assert!(dev.segments.is_empty());
    assert_eq!(segs(&get_app_dir(&apps[1])).len(), 5);
}

#[test]
fn binary_names_per_os() {
    assert_eq!(binary_name("windows", "portfolio-stats"), "portfolio-stats.exe");
    assert_eq!(binary_name("macos", "portfolio-stats"), "app-macos");
    assert_eq!(binary_name("linux", "x"), "app-linux");
}

#[test]
fn text_helpers() {
    assert!(text_eq("dev", "dev"));
    assert!(!text_eq("dev", "prod"));
    assert!(contains_text("app-macos-arm64.dmg", "arm64"));
    assert!(contains_text("abc", ""));
    assert!(!contains_text("ab", "abc"));
    assert_eq!(split_char("a//b/", '/'), vec!["a", "", "b", ""]);
    assert_eq!(split_char("", '/'), vec![""]);
    assert_eq!(trim_start_char("vv1.2", 'v'), "1.2");
    assert_eq!(trim_start_char("1.2v", 'v'), "1.2v");
    let mut s = String::from("n=");
    push_decimal(&mut s, 0);
    push_decimal(&mut s, 1725029869);
    assert_eq!(s, "n=01725029869");
    let mut m = String::new();
    push_decimal(&mut m, u64::MAX);
    assert_eq!(m, u64::MAX.to_string());
}

#[test]
fn repository_urls() {
    assert_eq!(
        repo_owner_and_name("https://github.com/LucasFenaux/portfolio-analytics"),
        Some(("LucasFenaux".to_string(), "portfolio-analytics".to_string()))
    );
    assert_eq!(repo_owner_and_name("no-slash-here"), None);
    assert_eq!(
        release_url_for("https://github.com/LucasFenaux/job-application-tracker").unwrap(),
        "https://api.github.com/repos/LucasFenaux/job-application-tracker/releases/latest"
    );
    assert_eq!(
        release_url_for("a/b/").unwrap(),
        "https://api.github.com/repos/b//releases/latest"
    );
}

#[test]
fn asset_selection_per_host() {
    let assets = vec![
        asset("App-Linux.AppImage", "u-linux"),
        asset("App-Windows.exe", "u-win"),
        asset("App-MacOS-ARM64.dmg", "u-mac-arm"),
        asset("app-macos-x64.dmg", "u-mac-x64"),
    ];
    assert_eq!(select_download_url("linux", "x86_64", &assets).as_deref(), Some("u-linux"));
    assert_eq!(select_download_url("windows", "x86_64", &assets).as_deref(), Some("u-win"));
    assert_eq!(select_download_url("macos", "aarch64", &assets).as_deref(), Some("u-mac-arm"));
    assert_eq!(select_download_url("macos", "x86_64", &assets).as_deref(), Some("u-mac-x64"));
    let no_linux = vec![asset("App-Windows.exe", "u-win"), asset("app-macos-x64.dmg", "u")];
    assert_eq!(select_download_url("freebsd", "x86_64", &no_linux), None);
}

#[test]
fn universal_mac_build_and_missing_fields() {
    let assets = vec![
        Asset { name: None, browser_download_url: Some("nameless".to_string()) },
        Asset { name: Some("app-macos.dmg".to_string()), browser_download_url: None },
        asset("app-macos-universal.dmg", "later"),
    ];
    // the first fitting asset wins even when it has no address
    assert_eq!(select_download_url("macos", "aarch64", &assets), None);
    let assets = vec![asset("app-macos-universal.dmg", "u")];
    assert_eq!(select_download_url("macos", "x86_64", &assets).as_deref(), Some("u"));
    // a darwin build for another architecture does not fit
    let assets = vec![asset("app-macos-arm64.dmg", "u")];
    assert_eq!(select_download_url("macos", "x86_64", &assets), None);
}

#[test]
fn install_steps() {
    let apps = get_catalog_base(vec![dev_app("my-tool", "/src/my-tool")]);
    let lib = library();
    assert_eq!(install_app_start(&apps, "ghost", &lib).err().unwrap(), "App not found");
    assert!(matches!(install_app_start(&apps, "my-tool", &lib), Ok(InstallStart::InPlace)));
    match install_app_start(&apps, "portfolio-stats", &lib).unwrap() {
        InstallStart::Fetch { index, app_dir, release_url } => {
            assert_eq!(index, 2);
            assert_eq!(segs(&app_dir)[4], "portfolio-stats");
            assert_eq!(
                release_url.unwrap(),
                "https://api.github.com/repos/LucasFenaux/portfolio-analytics/releases/latest"
            );
        }
        InstallStart::InPlace => panic!("a released app is installed"),
    }
    let mut odd = dev_app("odd", "no-slash");
    odd.mode = "prod".to_string();
    match install_app_start(&vec![odd], "odd", &lib).unwrap() {
        InstallStart::Fetch { release_url, .. } => {
            assert_eq!(release_url.err().unwrap(), "Invalid repo url")
        }
        InstallStart::InPlace => panic!("a released app is installed"),
    }
}

#[test]
fn install_plan_outcomes() {
    let apps = get_catalog_base(Vec::new());
    let dir = app_dir_in(&apps[0], &library());
    let no_assets = Release { tag_name: Some("v1".to_string()), assets: None };
    assert_eq!(
        install_app_plan(&apps[0], &dir, &no_assets, "linux", "x86_64").err().unwrap(),
        "No release assets found"
    );
    let windows_only = Release {
        tag_name: Some("v1".to_string()),
        assets: Some(vec![asset("app-windows.exe", "w")]),
    };
    assert_eq!(
        install_app_plan(&apps[0], &dir, &windows_only, "linux", "x86_64").err().unwrap(),
        "No compatible binary found for this OS/Arch on GitHub Releases."
    );
    let untagged = Release { tag_name: None, assets: Some(vec![asset("app-linux", "l")]) };
    let plan = install_app_plan(&apps[0], &dir, &untagged, "linux", "x86_64").unwrap();
    assert_eq!(plan.url, "l");
    assert_eq!(plan.tag, "unknown");
    assert_eq!(segs(&plan.binary)[5], "app-linux");
    assert_eq!(segs(&plan.version_file)[5], ".version");
    assert_eq!(segs(&plan.data_dir)[5], "data");
    assert_eq!(release_tag(&windows_only), "v1");
}

#[test]
fn launch_steps() {
    let apps = get_catalog_base(vec![dev_app("my-tool", "/src/my-tool")]);
    let lib = library();
    assert_eq!(launch_app_target(&apps, "ghost", "linux", &lib).err().unwrap(), "App not found");
    let dev = launch_app_target(&apps, "my-tool", "linux", &lib).unwrap();
    assert!(dev.dev);
    assert_eq!(base(&dev.entry), "/src/my-tool");
    assert_eq!(segs(&dev.entry), vec!["start.sh"]);
    assert_eq!(
        launch_app_command(&dev, 41000, Some(41001), false).err().unwrap(),
        "No start.sh found for dev app. Create one to run your dev server!"
    );
    let cmd = launch_app_command(&dev, 41000, Some(41001), true).unwrap();
    assert_eq!(base(&cmd.program), "bash");
    assert_eq!(cmd.args, vec!["start.sh".to_string()]);
    assert_eq!(
        cmd.env,
        vec![
            ("PORT".to_string(), "41000".to_string()),
            ("BACKEND_PORT".to_string(), "41001".to_string())
        ]
    );
    assert_eq!(base(&cmd.cwd), "/src/my-tool");

    let released = launch_app_target(&apps, "productivity-app", "windows", &lib).unwrap();
    assert!(!released.dev);
    assert_eq!(segs(&released.entry)[5], "productivity-app.exe");
    assert_eq!(
        launch_app_command(&released, 5000, None, false).err().unwrap(),
        "Binary not found. Please install the app first."
    );
    let cmd = launch_app_command(&released, 5000, None, true).unwrap();
    assert_eq!(segs(&cmd.program), segs(&released.entry));
    assert!(cmd.args.is_empty());
    assert_eq!(cmd.env, vec![("PORT".to_string(), "5000".to_string())]);
}

#[test]
fn process_table_gives_back_what_was_recorded() {
    let mut t = ProcessTable::new();
    assert_eq!(record_launch(&mut t, "a".to_string(), 10, 3000), Some(3000));
    t.insert("b".to_string(), AppProcess { pid: 11, port: 3001 });
    assert_eq!(t.get("a"), Some(AppProcess { pid: 10, port: 3000 }));
    t.insert("a".to_string(), AppProcess { pid: 12, port: 3002 });
    assert_eq!(t.len(), 2);
    assert_eq!(t.get("a"), Some(AppProcess { pid: 12, port: 3002 }));
    assert_eq!(t.remove("a"), Some(AppProcess { pid: 12, port: 3002 }));
    assert_eq!(t.remove("a"), None);
    assert_eq!(t.get("b"), Some(AppProcess { pid: 11, port: 3001 }));
    assert_eq!(webapp_launcher::commands::stop_app(&mut t, "b"), Some(11));
    assert_eq!(webapp_launcher::commands::stop_app(&mut t, "b"), None);
    t.insert("b".to_string(), AppProcess { pid: 11, port: 3001 });
    let (id, p) = t.entry(0);
    assert_eq!((id.as_str(), p.pid), ("b", 11));
}

#[test]
fn process_tree_is_breadth_first_and_killed_children_first() {
    // 1 -> 2, 3 ; 2 -> 4 ; 5 unrelated
    let table = vec![(3, Some(1)), (4, Some(2)), (2, Some(1)), (5, None), (1, Some(0))];
    let tree = process_tree(1, &table).unwrap();
    assert_eq!(tree, vec![1, 3, 2, 4]);
    assert_eq!(kill_order(&tree), vec![4, 2, 3, 1]);
    assert_eq!(process_tree(5, &table).unwrap(), vec![5]);
    assert_eq!(process_tree(99, &table).unwrap(), vec![99]);
}

#[test]
fn process_tree_refuses_a_parent_cycle() {
    let table = vec![(1, Some(2)), (2, Some(1))];
    assert_eq!(process_tree(1, &table), None);
    let selfish = vec![(7, Some(7))];
    assert_eq!(process_tree(7, &selfish), None);
    // a cycle below the root that does not come back to it is never reached
    let table = vec![(2, Some(3)), (3, Some(2)), (4, Some(1))];
    assert_eq!(process_tree(1, &table).unwrap(), vec![1, 4]);
}

#[test]
fn catalog_refresh_drops_stale_records() {
    let apps = get_catalog_base(vec![dev_app("my-tool", "/src/my-tool")]);
    let mut probes: Vec<InstallProbe> =
        apps.iter().map(|_| InstallProbe { binary_exists: false, version: None }).collect();
    probes[0] = InstallProbe { binary_exists: true, version: Some("v1.0.0\n".to_string()) };
    probes[1] = InstallProbe { binary_exists: false, version: Some("ignored".to_string()) };
    let mut t = ProcessTable::new();
    t.insert("application-tracker".to_string(), AppProcess { pid: 100, port: 4000 });
    t.insert("portfolio-stats".to_string(), AppProcess { pid: 200, port: 4001 });
    t.insert("elsewhere".to_string(), AppProcess { pid: 300, port: 4002 });
    let (out, changed) = get_catalog(apps, &probes, &vec![100, 300], &mut t);
    assert!(changed);
    assert!(out[0].is_installed && out[0].is_running);
    assert_eq!(out[0].version.as_deref(), Some("v1.0.0\n"));
    assert_eq!(out[0].published_port, Some(4000));
    assert!(!out[1].is_installed);
    assert_eq!(out[1].version, None);
    assert!(!out[2].is_running);
    assert!(out[4].is_installed);
    assert_eq!(t.get("portfolio-stats"), None);
    assert!(t.get("elsewhere").is_some());
    assert!(t.get("application-tracker").is_some());
    // a second refresh against the same snapshot drops nothing
    let apps = get_catalog_base(vec![dev_app("my-tool", "/src/my-tool")]);
    let (_, changed) = get_catalog(apps, &probes, &vec![100, 300], &mut t);
    assert!(!changed);
}

#[test]
fn update_checks() {
    let apps = get_catalog_base(vec![dev_app("my-tool", "/src/my-tool")]);
    let lib = library();
    assert_eq!(check_update_target(&apps, "ghost", &lib).err().unwrap(), "App not found");
    assert!(check_update_target(&apps, "my-tool", &lib).unwrap().is_none());
    let (vf, url) = check_update_target(&apps, "portfolio-stats", &lib).unwrap().unwrap();
    assert_eq!(segs(&vf)[4..].to_vec(), vec!["portfolio-stats", ".version"]);
    assert_eq!(url, "https://api.github.com/repos/LucasFenaux/portfolio-analytics/releases/latest");

    let r = |t: Option<&str>| Release { tag_name: t.map(|s| s.to_string()), assets: None };
    assert!(update_available(Some(&r(Some("v2"))), "v1"));
    assert!(!update_available(Some(&r(Some("v1"))), "v1"));
    assert!(!update_available(Some(&r(Some(""))), "v1"));
    assert!(!update_available(Some(&r(None)), "v1"));
    assert!(!update_available(None, "v1"));
    // what an installation records is current for the release it came from
    assert!(!update_available(Some(&r(None)), &release_tag(&r(None))));
}

#[test]
fn launcher_update_checks() {
    let r = |t: Option<&str>| Release { tag_name: t.map(|s| s.to_string()), assets: None };
    assert_eq!(check_launcher_update("1.0.0", Some(&r(Some("v1.1.0")))).as_deref(), Some("v1.1.0"));
    assert_eq!(check_launcher_update("1.1.0", Some(&r(Some("v1.1.0")))), None);
    assert_eq!(check_launcher_update("1.1.0", Some(&r(Some("vvv")))), None);
    assert_eq!(check_launcher_update("1.1.0", Some(&r(None))), None);
    assert_eq!(check_launcher_update("1.1.0", None), None);
}

#[test]
fn backup_folder_choice() {
    let chosen = settings_with_backup_dir("/mnt/dropbox/backups".to_string());
    let p = backup_dir_in(Some(&chosen), Some(b"/home/ada".to_vec()));
    assert_eq!(base(&p), "/mnt/dropbox/backups");
    assert!(!is_native(&p));
    assert!(p.segments.is_empty());
    let p = backup_dir_in(Some(&Settings::new()), Some(b"/home/ada".to_vec()));
    assert_eq!((base(&p).as_str(), segs(&p)), ("/home/ada", vec!["WebAppBackups"]));
    let p = backup_dir_in(None, None);
    assert_eq!(base(&p), "~");
    // a home folder that is not valid Unicode is kept as it is
    let odd = backup_dir_in(None, Some(vec![b'/', 0xff, b'x']));
    assert!(matches!(&odd.base, PathBase::Native(n) if n == &vec![b'/', 0xff, b'x']));
    assert_eq!(base(&get_backup_dir(Some(&chosen))), "/mnt/dropbox/backups");
    assert_eq!(segs(&get_backup_dir(None)), vec!["WebAppBackups"]);
}

#[test]
fn backup_steps() {
    let apps = get_catalog_base(Vec::new());
    let lib = library();
    assert_eq!(backup_data_dir(&apps, "ghost", &lib).err().unwrap(), "App not found");
    let data = backup_data_dir(&apps, "portfolio-stats", &lib).unwrap();
    assert_eq!(segs(&data)[4..].to_vec(), vec!["portfolio-stats", "data"]);
    let dest = FsPath::from_base("/backups".to_string());
    assert_eq!(
        backup_zip_command("portfolio-stats", &data, false, &dest, 7).err().unwrap(),
        "No data folder found to backup"
    );
    let zip = backup_zip_command("portfolio-stats", &data, true, &dest, 1725029869).unwrap();
    assert_eq!(base(&zip.archive), "/backups");
    assert_eq!(segs(&zip.archive), vec!["portfolio-stats_1725029869.zip"]);
    assert_eq!(segs(&zip.cwd)[4..].to_vec(), vec!["portfolio-stats"]);
    assert!(backup_outcome(true).is_ok());
    assert_eq!(backup_outcome(false).err().unwrap(), "Failed to create backup zip");
}

#[test]
fn backup_watcher_mirrors_the_source() {
    let apps = get_catalog_base(Vec::new());
    let (src, dest) =
        backup_watch_dirs(&apps[0], &library(), &FsPath::from_base("/b".to_string()));
    assert_eq!(segs(&src)[4..].to_vec(), vec!["application-tracker", "data", "backups"]);
    assert_eq!((base(&dest).as_str(), segs(&dest)), ("/b", vec!["application-tracker"]));

    let n = |s: &str| s.as_bytes().to_vec();
    let src = vec![n("a.bak"), n("b.bak"), n("c.bak")];
    let dest = vec![n("b.bak"), n("old.bak"), n("z.bak")];
    let dest_has = vec![false, true, false];
    let plan = sync_plan(&src, &dest_has, &dest);
    assert_eq!(plan.copy, vec![0, 2]);
    assert_eq!(plan.delete, vec![1, 2]);
    // after the pass the destination holds exactly the source files
    let mut after: Vec<Vec<u8>> =
        dest.iter().enumerate().filter(|(j, _)| !plan.delete.contains(j)).map(|(_, d)| d.clone()).collect();
    after.extend(plan.copy.iter().map(|&i| src[i].clone()));
    after.sort();
    let mut expected = src.clone();
    expected.sort();
    assert_eq!(after, expected);
    // an unreadable source empties the destination
    let plan = sync_plan(&Vec::new(), &Vec::new(), &dest);
    assert_eq!(plan.delete, vec![0, 1, 2]);
}

#[test]
fn builtin_catalog_is_sound() {
    let apps = get_catalog_base(Vec::new());
    let repos = ["job-application-tracker", "literature-map", "portfolio-analytics", "core-planner"];
    for (i, app) in apps.iter().enumerate() {
        assert!(!app.id.contains('/'));
        for other in &apps[i + 1..] {
            assert_ne!(app.id, other.id);
        }
        assert_eq!(
            repo_owner_and_name(&app.repo_url),
            Some(("LucasFenaux".to_string(), repos[i].to_string()))
        );
        match install_app_start(&apps, &app.id, &library()).unwrap() {
            InstallStart::Fetch { release_url, .. } => assert!(release_url.is_ok()),
            InstallStart::InPlace => panic!("a released app is installed"),
        }
    }
}

#[test]
fn second_backup_pass_is_idle() {
    let n = |s: &str| s.as_bytes().to_vec();
    let src = vec![n("a.bak"), n("b.bak")];
    let dest = vec![n("b.bak"), n("old.bak")];
    let first = sync_plan(&src, &vec![false, true], &dest);
    assert_eq!((first.copy.clone(), first.delete.clone()), (vec![0], vec![1]));
    let after = vec![n("b.bak"), n("a.bak")];
    let second = sync_plan(&src, &vec![true, true], &after);
    assert!(second.copy.is_empty() && second.delete.is_empty());
    // a folder named like a source file is neither replaced nor mirrored,
    // and the next pass is idle all the same
    let first = sync_plan(&src, &vec![false, true], &Vec::new());
    assert_eq!((first.copy.clone(), first.delete.clone()), (vec![0], vec![]));
    let second = sync_plan(&src, &vec![true, true], &vec![n("a.bak")]);
    assert!(second.copy.is_empty() && second.delete.is_empty());
}

#[test]
fn installed_release_shows_in_catalog() {
    let apps = get_catalog_base(Vec::new());
    let lib = library();
    let (index, app_dir) = match install_app_start(&apps, "literature-review-graph", &lib).unwrap() {
        InstallStart::Fetch { index, app_dir, .. } => (index, app_dir),
        InstallStart::InPlace => panic!("a released app is installed"),
    };
    let release = Release { tag_name: Some("v2.0.0".to_string()), assets: Some(vec![asset("app-linux", "l")]) };
    let plan = install_app_plan(&apps[index], &app_dir, &release, "linux", "x86_64").unwrap();
    let probe_dir = app_dir_in(&apps[index], &lib);
    assert_eq!(segs(&plan.binary), segs(&webapp_launcher::paths::binary_path(&probe_dir, "linux", &apps[index].id)));
    assert_eq!(segs(&plan.version_file), segs(&webapp_launcher::paths::version_path(&probe_dir)));
    let probes: Vec<InstallProbe> = apps
        .iter()
        .enumerate()
        .map(|(i, _)| InstallProbe {
            binary_exists: i == index,
            version: if i == index { Some(plan.tag.clone()) } else { None },
        })
        .collect();
    let mut t = ProcessTable::new();
    let (out, _) = get_catalog(apps, &probes, &Vec::new(), &mut t);
    assert!(out[index].is_installed);
    assert_eq!(out[index].version.as_deref(), Some("v2.0.0"));
}
