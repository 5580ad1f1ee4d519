use taj::conflicts::check_install_conflicts;
use taj::error::TajError;
use taj::install::{
    binary_destination, cleanup_stale_files, collect_stage_destinations, install_from_git,
    install_meta_package, prepare_destination, previous_record, record_install, uninstall,
    upgrade_all, upgrade_from_git, upgrade_package, InstallMode, PathStep, UpgradeAll, UpgradeSource,
    UpgradeStep,
};
use taj::state::{record_file_list, InstallRecord, State};

fn strings(v: &[&str]) -> Vec<String> {
    v.iter().map(|s| s.to_string()).collect()
}

fn record(name: &str, bin_path: &str, files: &[&str], source: &str) -> InstallRecord {
    InstallRecord {
        name: name.to_string(),
        bin_name: name.to_string(),
        bin_path: bin_path.to_string(),
        repo: format!("https://github.com/o/{}", name),
        source: source.to_string(),
        installed_at: 1,
        files: strings(files),
        install_root: None,
        source_name: None,
        is_meta: false,
    }
}

fn state_with(records: Vec<InstallRecord>) -> State {
    let mut s = State::new();
    for r in records {
        s.insert(r.name.clone(), r);
    }
    s
}

#[test]
fn state_insert_get_remove() {
    let mut s = State::new();
    assert!(s.is_empty());
    s.insert("fd".to_string(), record("fd", "/b/fd", &[], "github"));
    s.insert("rg".to_string(), record("rg", "/b/rg", &[], "mirror"));
    assert_eq!(s.len(), 2);
    assert!(s.contains_key("fd"));
    assert_eq!(s.get("rg").unwrap().bin_path, "/b/rg");
    s.insert("rg".to_string(), record("rg", "/b/rg2", &[], "mirror"));
    assert_eq!(s.len(), 2);
    assert_eq!(s.get("rg").unwrap().bin_path, "/b/rg2");
    let removed = s.remove("fd").unwrap();
    assert_eq!(removed.bin_path, "/b/fd");
    assert!(s.remove("fd").is_none());
    assert!(!s.contains_key("fd"));
    assert_eq!(s.len(), 1);
}

#[test]
fn file_list_of_a_record() {
    assert_eq!(record_file_list(&record("a", "/b/a", &[], "mirror")), strings(&["/b/a"]));
    assert_eq!(record_file_list(&record("a", "/b/a", &["/x", "/y"], "mirror")), strings(&["/x", "/y"]));
    let mut meta = record("m", "", &[], "mirror");
    meta.is_meta = true;
    assert!(record_file_list(&meta).is_empty());
}

#[test]
fn list_lines_empty_and_sorted() {
    assert_eq!(State::new().list_lines(), strings(&["no packages installed"]));
    let s = state_with(vec![record("zed", "/b/zed", &[], "mirror"), record("ack", "/b/ack", &[], "mirror")]);
    assert_eq!(s.list_lines(), strings(&["ack -> /b/ack", "zed -> /b/zed"]));
    assert_eq!(s.sorted_names(), strings(&["ack", "zed"]));
}

#[test]
fn find_owner_honours_exclusion() {
    let s = state_with(vec![record("a", "/b/a", &["/share/x", "/b/a"], "mirror")]);
    assert_eq!(s.find_owner("/share/x", None), Some("a".to_string()));
    assert_eq!(s.find_owner("/share/x", Some("a")), None);
    assert_eq!(s.find_owner("/share/y", None), None);
    let idx = s.build_ownership_index();
    assert_eq!(idx.len(), 2);
    assert!(idx.iter().all(|(_, o)| o == "a"));
}

#[test]
fn install_then_uninstall_restores_the_state() {
    let mut s = state_with(vec![record("keep", "/b/keep", &[], "mirror")]);
    let before = s.sorted_names();
    let rec = record_install(
        &mut s,
        "new",
        "https://github.com/o/new",
        "github",
        None,
        "new".to_string(),
        "/b/new".to_string(),
        strings(&["/b/new"]),
        None,
    );
    assert_eq!(rec.name, "new");
    assert_eq!(rec.source, "github");
    assert!(!rec.is_meta);
    assert!(rec.installed_at > 0);
    assert_eq!(s.get("new").unwrap().bin_path, "/b/new");
    let plan = uninstall(&mut s, "new").unwrap();
    assert_eq!(plan.steps, vec![PathStep::Remove { path: "/b/new".to_string() }]);
    assert_eq!(s.sorted_names(), before);
    assert_eq!(s.get("keep").unwrap().bin_path, "/b/keep");
}

#[test]
fn uninstall_missing_package() {
    let mut s = State::new();
    let e = uninstall(&mut s, "ghost").unwrap_err();
    assert_eq!(e, TajError::NotInstalled { name: "ghost".to_string() });
    assert_eq!(e.message(), "package 'ghost' is not installed");
}

#[test]
fn uninstall_keeps_files_owned_by_others() {
    let mut a = record("a", "/b/a", &["/share/z", "/b/a", "/share/z", "/lib/common"], "mirror");
    a.install_root = Some("/usr/local".to_string());
    let b = record("b", "/b/b", &["/lib/common"], "mirror");
    let mut s = state_with(vec![a, b]);
    let plan = uninstall(&mut s, "a").unwrap();
    assert_eq!(
        plan.steps,
        vec![
            PathStep::Remove { path: "/b/a".to_string() },
            PathStep::Skip { path: "/lib/common".to_string(), owner: "b".to_string() },
            PathStep::Remove { path: "/share/z".to_string() },
        ]
    );
    assert_eq!(plan.install_root, Some("/usr/local".to_string()));
    assert!(!s.contains_key("a"));
    assert!(s.contains_key("b"));
}

#[test]
fn meta_package_record() {
    let mut s = State::new();
    let r = install_meta_package(&mut s, "desk", "https://x/desk", Some("desktop".to_string()), "mirror").unwrap();
    assert!(r.is_meta);
    assert_eq!(r.bin_name, "desk");
    assert_eq!(r.bin_path, "");
    assert!(r.files.is_empty());
    assert_eq!(r.source_name, Some("desktop".to_string()));
    assert!(record_file_list(s.get("desk").unwrap()).is_empty());
}

#[test]
fn git_install_refuses_an_installed_name() {
    let s = state_with(vec![record("repo", "/b/repo", &[], "github")]);
    let e = install_from_git(&s, "https://github.com/org/repo.git").unwrap_err();
    assert_eq!(e, TajError::AlreadyInstalled { name: "repo".to_string() });
    assert_eq!(e.message(), "package 'repo' is already installed");
    assert_eq!(install_from_git(&s, "https://github.com/org/other").unwrap(), "other");
    assert_eq!(upgrade_from_git(&s, "https://github.com/org/repo.git").unwrap(), "repo");
}

#[test]
fn upgrade_sources() {
    let mut m = record("rg", "/b/rg", &[], "mirror");
    m.source_name = Some("ripgrep".to_string());
    let plain = record("fd", "/b/fd", &[], "mirror");
    let lab = record("tool", "/b/tool", &[], "gitlab");
    let odd = record("odd", "/b/odd", &[], "tarball");
    let s = state_with(vec![m, plain, lab, odd]);
    assert_eq!(upgrade_package(&s, "rg").unwrap(), UpgradeSource::Mirror { name: "ripgrep".to_string() });
    assert_eq!(upgrade_package(&s, "fd").unwrap(), UpgradeSource::Mirror { name: "fd".to_string() });
    assert_eq!(
        upgrade_package(&s, "tool").unwrap(),
        UpgradeSource::Git { url: "https://github.com/o/tool".to_string(), provider: "gitlab".to_string() }
    );
    let e = upgrade_package(&s, "odd").unwrap_err();
    assert_eq!(e.message(), "unknown source 'tarball' for package 'odd'");
    assert_eq!(upgrade_package(&s, "none").unwrap_err(), TajError::NotInstalled { name: "none".to_string() });
    assert_eq!(upgrade_all(&s), strings(&["fd", "odd", "rg", "tool"]));
}

#[test]
fn previous_record_only_when_upgrading() {
    let s = state_with(vec![record("fd", "/b/fd", &[], "github")]);
    assert_eq!(previous_record(&s, "fd", InstallMode::Upgrade).unwrap().bin_path, "/b/fd");
    assert!(previous_record(&s, "fd", InstallMode::Install).is_none());
    assert!(previous_record(&s, "zz", InstallMode::Upgrade).is_none());
}

#[test]
fn stale_files_after_upgrade() {
    let prev = record("a", "/b/a", &["/s/old", "/s/keep", "/s/shared", "/s/old"], "mirror");
    let cur = record("a", "/b/a", &["/s/keep", "/s/new"], "mirror");
    let other = record("o", "/b/o", &["/s/shared"], "mirror");
    let s = state_with(vec![prev.clone(), other]);
    assert_eq!(cleanup_stale_files(&s, &prev, &cur), strings(&["/s/old"]));
}

#[test]
fn binary_destination_uses_bin_name() {
    assert_eq!(
        binary_destination("/home/u/.local/bin", &Some("rg".to_string()), "ripgrep"),
        ("rg".to_string(), "/home/u/.local/bin/rg".to_string())
    );
    assert_eq!(
        binary_destination("/opt/bin/", &None, "fd"),
        ("fd".to_string(), "/opt/bin/fd".to_string())
    );
}

#[test]
fn destination_preparation() {
    assert_eq!(prepare_destination("/d", false, false, false), Ok(false));
    assert_eq!(prepare_destination("/d", true, false, true), Ok(true));
    let e = prepare_destination("/d", true, false, false).unwrap_err();
    assert_eq!(e.message(), "destination already exists: /d");
    let e = prepare_destination("/d", true, true, true).unwrap_err();
    assert_eq!(e.message(), "destination is a directory: /d");
}

#[test]
fn stage_destinations() {
    assert_eq!(
        collect_stage_destinations(&strings(&["bin/x", "share/man/x.1"]), "/usr/local", "/t/stage").unwrap(),
        strings(&["/usr/local/bin/x", "/usr/local/share/man/x.1"])
    );
    let e = collect_stage_destinations(&strings(&[]), "/usr/local", "/t/stage").unwrap_err();
    assert_eq!(e.message(), "install produced no files in /t/stage");
    let e = collect_stage_destinations(&strings(&["a", "b", "a"]), "/p", "/t/stage").unwrap_err();
    assert_eq!(e, TajError::DuplicateStagedPath { path: "/p/a".to_string() });
}

#[test]
fn conflicts_with_other_owners_and_disk() {
    let s = state_with(vec![
        record("mine", "/b/mine", &["/b/mine", "/s/shared-mine"], "mirror"),
        record("other", "/b/other", &["/b/other"], "mirror"),
    ]);
    let targets = strings(&["/b/mine", "/b/other", "/b/fresh", "/b/ondisk"]);
    let e = check_install_conflicts(&s, "mine", &targets, &vec![true, true, false, true]).unwrap_err();
    assert_eq!(
        e,
        TajError::FileConflicts {
            conflicts: strings(&["/b/other (owned by other)", "/b/ondisk (exists on disk)"])
        }
    );
    assert_eq!(
        e.message(),
        "file conflict(s) detected:\n- /b/other (owned by other)\n- /b/ondisk (exists on disk)"
    );
    let ok = check_install_conflicts(&s, "mine", &strings(&["/b/mine", "/b/fresh"]), &vec![true, false]);
    assert_eq!(ok, Ok(()));
}

#[test]
fn upgrading_all_goes_by_name_and_stops_at_a_failure() {
    let s = state_with(vec![record("zed", "/b/zed", &[], "mirror"), record("ack", "/b/ack", &[], "mirror")]);
    let (mut run, step) = UpgradeAll::start(&s);
    assert!(matches!(step, UpgradeStep::Upgrade(ref n) if n == "ack"));
    let step = run.record(Ok(record("ack", "/b/ack2", &[], "mirror")));
    assert!(matches!(step, UpgradeStep::Upgrade(ref n) if n == "zed"));
    match run.record(Ok(record("zed", "/b/zed2", &[], "mirror"))) {
        UpgradeStep::Finished(v) => {
            assert_eq!(v.len(), 2);
            assert_eq!(v[0].bin_path, "/b/ack2");
            assert_eq!(v[1].bin_path, "/b/zed2");
        }
        other => panic!("unexpected {:?}", other),
    }
    let (mut run, _) = UpgradeAll::start(&s);
    let e = TajError::NotInstalled { name: "ack".to_string() };
    match run.record(Err(e.clone())) {
        UpgradeStep::Stopped(got) => assert_eq!(got, e),
        other => panic!("unexpected {:?}", other),
    }
    let (_, step) = UpgradeAll::start(&State::new());
    assert!(matches!(step, UpgradeStep::Finished(ref v) if v.is_empty()));
}

#[test]
fn upgrading_all_stops_at_the_first_failure_in_name_order() {
    let s = state_with(vec![
        record("c", "/b/c", &[], "mirror"),
        record("a", "/b/a", &[], "mirror"),
        record("b", "/b/b", &[], "mirror"),
    ]);
    let (mut run, step) = UpgradeAll::start(&s);
    assert!(matches!(step, UpgradeStep::Upgrade(ref n) if n == "a"));
    let step = run.record(Ok(record("a", "/b/a2", &[], "mirror")));
    assert!(matches!(step, UpgradeStep::Upgrade(ref n) if n == "b"));
    let e = TajError::UnknownSource { source: "svn".to_string(), name: "b".to_string() };
    match run.record(Err(e.clone())) {
        UpgradeStep::Stopped(got) => assert_eq!(got, e),
        other => panic!("unexpected {:?}", other),
    }
}
