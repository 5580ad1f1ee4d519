use taj::builder::{ExecutableInfo, SourceProbe};
use taj::buildspec::{BuildMethod, BuildSpec};
use taj::cloned::{checkout_build_dir, install_step_for, start, ClonedInstall, Report, Task};
use taj::config::Config;
use taj::envmap::EnvMap;
use taj::error::TajError;
use taj::install::InstallMode;
use taj::state::{InstallRecord, State};
use taj::tajfile::InstallSpec;

fn strings(v: &[&str]) -> Vec<String> {
    v.iter().map(|s| s.to_string()).collect()
}

fn config(install_dir: &str) -> Config {
    Config {
        mirror_repo: "https://github.com/taj-pm/packages".to_string(),
        mirror_branch: "main".to_string(),
        mirror_packages_dir: "packages".to_string(),
        mirror_mode: None,
        install_dir: install_dir.to_string(),
        cache_dir: "/c".to_string(),
        state_file: "/s.json".to_string(),
    }
}

fn spec(method: BuildMethod, bin: Option<&str>) -> BuildSpec {
    BuildSpec { method, args: Vec::new(), bin: bin.map(|b| b.to_string()), subdir: None, build_dir: None, env: EnvMap::new() }
}

fn sources() -> SourceProbe {
    SourceProbe { c_sources: Vec::new(), cpp_sources: Vec::new(), src_main_rs: false, main_rs: false }
}

fn dir(in_path: bool, bin_exists: bool, bin_in_path: bool) -> Report {
    Report::Dir { in_path, bin_exists, bin_in_path }
}

fn exe(path: &str, size: u64) -> ExecutableInfo {
    ExecutableInfo {
        path: path.to_string(),
        file_name: path.rsplit('/').next().map(|s| s.to_string()),
        size,
        modified: None,
    }
}

fn record(name: &str, bin_path: &str, files: &[&str]) -> InstallRecord {
    InstallRecord {
        name: name.to_string(),
        bin_name: name.to_string(),
        bin_path: bin_path.to_string(),
        repo: "https://x/old".to_string(),
        source: "github".to_string(),
        installed_at: 1,
        files: strings(files),
        install_root: None,
        source_name: None,
        is_meta: false,
    }
}

fn begin(state: &State, install_dir: &str, s: BuildSpec, install: Option<InstallSpec>, mode: InstallMode, root: bool) -> (ClonedInstall, Task) {
    start(
        &config(install_dir),
        state,
        "ripgrep".to_string(),
        "https://github.com/o/ripgrep".to_string(),
        s,
        install,
        Some("rg-src".to_string()),
        "mirror".to_string(),
        mode,
        "/t".to_string(),
        "/t/repo".to_string(),
        root,
    )
}

fn expect_paths(task: &Task, expected: &[&str]) {
    match task {
        Task::CheckPaths { paths } => assert_eq!(paths, &strings(expected)),
        other => panic!("unexpected {:?}", other),
    }
}

#[test]
fn cargo_binary_install() {
    let mut state = State::new();
    let (mut run, task) = begin(&state, "/home/u/.local/bin", spec(BuildMethod::Cargo, Some("rg")), None, InstallMode::Install, false);
    assert!(matches!(task, Task::PrepareDir { ref dir, notice: None } if dir == "/home/u/.local/bin"));
    let task = run.step(&mut state, dir(false, false, false));
    match task {
        Task::PrepareDir { dir, notice } => {
            assert_eq!(dir, "/t/out");
            assert_eq!(notice, Some("warning: install dir /home/u/.local/bin is not in PATH".to_string()));
        }
        other => panic!("unexpected {:?}", other),
    }
    let task = run.step(&mut state, dir(true, false, false));
    assert!(matches!(task, Task::ProbeSources { ref dir, notice: None } if dir == "/t/repo"));
    let task = run.step(&mut state, Report::Sources(sources()));
    match &task {
        Task::Run { tools, dirs, commands } => {
            assert_eq!(tools, &strings(&["cargo"]));
            assert!(dirs.is_empty());
            assert_eq!(commands[0].args, strings(&["build", "--release"]));
            assert_eq!(commands[0].cwd, Some("/t/repo".to_string()));
        }
        other => panic!("unexpected {:?}", other),
    }
    let task = run.step(&mut state, Report::Ran);
    expect_paths(&task, &["/t/repo/target/release/rg"]);
    let task = run.step(&mut state, Report::Exists(vec![true]));
    expect_paths(&task, &["/home/u/.local/bin/rg"]);
    let task = run.step(&mut state, Report::Exists(vec![false]));
    match task {
        Task::InstallBinary { source, install_dir, dest, overwrite } => {
            assert_eq!(source, "/t/repo/target/release/rg");
            assert_eq!(install_dir, "/home/u/.local/bin");
            assert_eq!(dest, "/home/u/.local/bin/rg");
            assert!(!overwrite);
        }
        other => panic!("unexpected {:?}", other),
    }
    let task = run.step(&mut state, Report::Copied);
    match task {
        Task::Done(r) => {
            assert_eq!(r.name, "ripgrep");
            assert_eq!(r.bin_name, "rg");
            assert_eq!(r.bin_path, "/home/u/.local/bin/rg");
            assert_eq!(r.files, strings(&["/home/u/.local/bin/rg"]));
            assert_eq!(r.source, "mirror");
            assert_eq!(r.source_name, Some("rg-src".to_string()));
            assert_eq!(r.install_root, None);
        }
        other => panic!("unexpected {:?}", other),
    }
    assert_eq!(state.get("ripgrep").unwrap().bin_path, "/home/u/.local/bin/rg");
}

#[test]
fn cargo_binary_named_by_manifest_and_missing() {
    let mut state = State::new();
    let (mut run, _) = begin(&state, "/home/u/bin", spec(BuildMethod::Cargo, None), None, InstallMode::Install, false);
    run.step(&mut state, dir(true, false, false));
    run.step(&mut state, dir(true, false, false));
    run.step(&mut state, Report::Sources(sources()));
    let task = run.step(&mut state, Report::Ran);
    assert!(matches!(task, Task::ReadFile { ref path } if path == "/t/repo/Cargo.toml"));
    let task = run.step(&mut state, Report::Text("[package]\nname = \"rgx\"\n".to_string()));
    expect_paths(&task, &["/t/repo/target/release/rgx"]);
    let task = run.step(&mut state, Report::Exists(vec![false]));
    match task {
        Task::Failed(e) => assert_eq!(e.message(), "cargo build did not produce /t/repo/target/release/rgx"),
        other => panic!("unexpected {:?}", other),
    }
    assert!(state.is_empty());
}

#[test]
fn system_install_dir_needs_root() {
    let mut state = State::new();
    let (mut run, _) = begin(&state, "/usr/local/bin", spec(BuildMethod::Go, None), None, InstallMode::Install, false);
    match run.step(&mut state, dir(true, false, false)) {
        Task::Failed(e) => assert_eq!(
            e.message(),
            "install dir /usr/local/bin requires root; run with sudo or set install_dir in config"
        ),
        other => panic!("unexpected {:?}", other),
    }
    let (mut run, _) = begin(&state, "/usr/local/bin", spec(BuildMethod::Go, None), None, InstallMode::Install, true);
    assert!(matches!(run.step(&mut state, dir(true, false, false)), Task::PrepareDir { .. }));
}

#[test]
fn conflicting_destination_stops_the_install() {
    let mut state = State::new();
    state.insert("other".to_string(), record("other", "/home/u/bin/rg", &[]));
    let (mut run, _) = begin(&state, "/home/u/bin", spec(BuildMethod::Go, Some("rg")), None, InstallMode::Install, false);
    run.step(&mut state, dir(true, false, false));
    run.step(&mut state, dir(true, false, false));
    let task = run.step(&mut state, Report::Sources(sources()));
    match &task {
        Task::Run { commands, .. } => assert_eq!(commands[0].args, strings(&["build", "-o", "/t/out/rg"])),
        other => panic!("unexpected {:?}", other),
    }
    let task = run.step(&mut state, Report::Ran);
    expect_paths(&task, &["/t/out/rg"]);
    let task = run.step(&mut state, Report::Exists(vec![true]));
    expect_paths(&task, &["/home/u/bin/rg"]);
    match run.step(&mut state, Report::Exists(vec![true])) {
        Task::Failed(e) => assert_eq!(e.message(), "file conflict(s) detected:\n- /home/u/bin/rg (owned by other)"),
        other => panic!("unexpected {:?}", other),
    }
}

#[test]
fn make_build_picks_the_changed_executable() {
    let mut state = State::new();
    let (mut run, _) = begin(&state, "/home/u/bin", spec(BuildMethod::Make, None), None, InstallMode::Install, false);
    run.step(&mut state, dir(true, false, false));
    run.step(&mut state, dir(true, false, false));
    let task = run.step(&mut state, Report::Sources(sources()));
    assert!(matches!(task, Task::ListExecutables { ref dir } if dir == "/t/repo"));
    let task = run.step(&mut state, Report::Executables(vec![exe("/t/repo/configure", 10)]));
    assert!(matches!(task, Task::Run { .. }));
    let task = run.step(&mut state, Report::Ran);
    assert!(matches!(task, Task::ListExecutables { ref dir } if dir == "/t/repo"));
    let task = run.step(
        &mut state,
        Report::Executables(vec![exe("/t/repo/configure", 10), exe("/t/repo/ripgrep", 99)]),
    );
    expect_paths(&task, &["/home/u/bin/ripgrep"]);
    match run.step(&mut state, Report::Exists(vec![false])) {
        Task::InstallBinary { source, .. } => assert_eq!(source, "/t/repo/ripgrep"),
        other => panic!("unexpected {:?}", other),
    }
}

#[test]
fn upgrade_removes_what_the_old_record_left() {
    let mut state = State::new();
    state.insert("ripgrep".to_string(), record("ripgrep", "/home/u/bin/old-rg", &[]));
    let (mut run, _) = begin(&state, "/home/u/bin", spec(BuildMethod::Cargo, Some("rg")), None, InstallMode::Upgrade, false);
    run.step(&mut state, dir(true, false, false));
    run.step(&mut state, dir(true, false, false));
    run.step(&mut state, Report::Sources(sources()));
    run.step(&mut state, Report::Ran);
    run.step(&mut state, Report::Exists(vec![true]));
    match run.step(&mut state, Report::Exists(vec![false])) {
        Task::InstallBinary { overwrite, .. } => assert!(overwrite),
        other => panic!("unexpected {:?}", other),
    }
    match run.step(&mut state, Report::Copied) {
        Task::RemoveStale { paths, root } => {
            assert_eq!(paths, strings(&["/home/u/bin/old-rg"]));
            assert_eq!(root, None);
        }
        other => panic!("unexpected {:?}", other),
    }
    assert_eq!(state.get("ripgrep").unwrap().bin_path, "/home/u/bin/rg");
    match run.step(&mut state, Report::Removed) {
        Task::Done(r) => assert_eq!(r.bin_path, "/home/u/bin/rg"),
        other => panic!("unexpected {:?}", other),
    }
}

#[test]
fn staged_install_through_make() {
    let mut state = State::new();
    let install = InstallSpec { method: "make".to_string(), args: None, env: None, prefix: None, destdir: None };
    let (mut run, _) = begin(&state, "/home/u/.local/bin", spec(BuildMethod::Make, Some("tool")), Some(install), InstallMode::Install, false);
    run.step(&mut state, dir(true, false, false));
    let task = run.step(&mut state, dir(true, false, false));
    assert!(matches!(task, Task::PrepareDir { ref dir, notice: None } if dir == "/home/u/.local"));
    let task = run.step(&mut state, dir(false, true, false));
    match task {
        Task::ProbeSources { dir, notice } => {
            assert_eq!(dir, "/t/repo");
            assert_eq!(notice, Some("warning: /home/u/.local/bin is not in PATH".to_string()));
        }
        other => panic!("unexpected {:?}", other),
    }
    let task = run.step(&mut state, Report::Sources(sources()));
    assert!(matches!(task, Task::Run { ref tools, .. } if tools == &strings(&["make"])));
    let task = run.step(&mut state, Report::Ran);
    assert!(matches!(task, Task::InspectWorkDir { ref dir, create: false } if dir == "/t/repo"));
    let task = run.step(&mut state, Report::WorkDir { exists: true, configured: false });
    match &task {
        Task::Run { tools, dirs, commands } => {
            assert_eq!(tools, &strings(&["make"]));
            assert_eq!(dirs, &strings(&["/t/stage"]));
            assert_eq!(
                commands[0].args,
                strings(&["install", "DESTDIR=/t/stage", "prefix=/home/u/.local", "PREFIX=/home/u/.local"])
            );
        }
        other => panic!("unexpected {:?}", other),
    }
    let task = run.step(&mut state, Report::Ran);
    expect_paths(&task, &["/t/stage/home/u/.local"]);
    let task = run.step(&mut state, Report::Exists(vec![true]));
    assert!(matches!(task, Task::ListStaged { ref root } if root == "/t/stage/home/u/.local"));
    let task = run.step(&mut state, Report::Staged(strings(&["bin/tool", "share/doc/tool/README"])));
    expect_paths(&task, &["/home/u/.local/bin/tool", "/home/u/.local/share/doc/tool/README"]);
    match run.step(&mut state, Report::Exists(vec![false, false])) {
        Task::CopyStaged { payload_root, rel_paths, targets, overwrite } => {
            assert_eq!(payload_root, "/t/stage/home/u/.local");
            assert_eq!(rel_paths, strings(&["bin/tool", "share/doc/tool/README"]));
            assert_eq!(targets, strings(&["/home/u/.local/bin/tool", "/home/u/.local/share/doc/tool/README"]));
            assert!(!overwrite);
        }
        other => panic!("unexpected {:?}", other),
    }
    let task = run.step(&mut state, Report::Copied);
    expect_paths(&task, &["/home/u/.local/bin/tool"]);
    match run.step(&mut state, Report::Exists(vec![true])) {
        Task::Done(r) => {
            assert_eq!(r.bin_name, "tool");
            assert_eq!(r.bin_path, "/home/u/.local/bin/tool");
            assert_eq!(r.install_root, Some("/home/u/.local".to_string()));
            assert_eq!(r.files.len(), 2);
        }
        other => panic!("unexpected {:?}", other),
    }
}

#[test]
fn staged_install_with_nothing_staged() {
    let mut state = State::new();
    let install = InstallSpec { method: "meson".to_string(), args: None, env: None, prefix: Some("/opt/t".to_string()), destdir: None };
    let (mut run, _) = begin(&state, "/home/u/bin", spec(BuildMethod::Meson, None), Some(install), InstallMode::Install, false);
    run.step(&mut state, dir(true, false, false));
    let task = run.step(&mut state, dir(true, false, false));
    assert!(matches!(task, Task::PrepareDir { ref dir, .. } if dir == "/opt/t"));
    run.step(&mut state, dir(true, false, false));
    let task = run.step(&mut state, Report::Sources(sources()));
    assert!(matches!(task, Task::InspectWorkDir { ref dir, create: true } if dir == "/t/repo/build"));
    let task = run.step(&mut state, Report::WorkDir { exists: true, configured: true });
    assert!(matches!(task, Task::Run { ref tools, .. } if tools == &strings(&["meson", "ninja"])));
    run.step(&mut state, Report::Ran);
    let task = run.step(&mut state, Report::Exists(vec![false]));
    assert!(matches!(task, Task::ListStaged { ref root } if root == "/t/stage"));
    match run.step(&mut state, Report::Staged(Vec::new())) {
        Task::Failed(e) => assert_eq!(e, TajError::NothingStaged { dir: "/t/stage".to_string() }),
        other => panic!("unexpected {:?}", other),
    }
}

#[test]
fn meson_without_install_section_uses_the_meson_step() {
    let step = install_step_for(&spec(BuildMethod::Meson, None), None).unwrap();
    assert_eq!(step.method, "meson");
    assert!(step.args.is_none() && step.prefix.is_none() && step.destdir.is_none());
    assert!(install_step_for(&spec(BuildMethod::Cargo, None), None).is_none());
    let given = InstallSpec { method: "make".to_string(), args: None, env: None, prefix: None, destdir: None };
    assert_eq!(install_step_for(&spec(BuildMethod::Meson, None), Some(given)).unwrap().method, "make");
    let mut state = State::new();
    let (mut run, _) = begin(&state, "/home/u/.local/bin", spec(BuildMethod::Meson, None), None, InstallMode::Install, false);
    run.step(&mut state, dir(true, false, false));
    let task = run.step(&mut state, dir(true, false, false));
    assert!(matches!(task, Task::PrepareDir { ref dir, .. } if dir == "/home/u/.local"));
}

#[test]
fn builds_run_in_the_subdirectory() {
    let mut s = spec(BuildMethod::Make, None);
    assert_eq!(checkout_build_dir("/t/c", &s), "/t/c");
    s.subdir = Some("tool".to_string());
    assert_eq!(checkout_build_dir("/t/c", &s), "/t/c/tool");
}
