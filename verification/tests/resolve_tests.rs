use taj::error::TajError;
use taj::install::InstallMode;
use taj::preflight::{preflight_deps, DepProbe};
use taj::resolve::{install_from_mirror, upgrade_from_mirror, Action, Event};
use taj::state::{InstallRecord, State};
use taj::tajfile::{is_meta_build, TajDeps, TajFile};

fn strings(v: &[&str]) -> Vec<String> {
    v.iter().map(|s| s.to_string()).collect()
}

fn taj(name: Option<&str>, build: &str, depends: &[&str]) -> TajFile {
    TajFile {
        name: name.map(|n| n.to_string()),
        category: None,
        repo: "https://github.com/o/pkg".to_string(),
        git_ref: Some("v1".to_string()),
        build: build.to_string(),
        build_args: strings(&["--locked"]),
        build_dir: None,
        bin: None,
        subdir: None,
        env: None,
        deps: None,
        depends: if depends.is_empty() { None } else { Some(strings(depends)) },
        install: None,
    }
}

fn record(name: &str) -> InstallRecord {
    InstallRecord {
        name: name.to_string(),
        bin_name: name.to_string(),
        bin_path: format!("/b/{}", name),
        repo: "https://github.com/o/pkg".to_string(),
        source: "mirror".to_string(),
        installed_at: 7,
        files: Vec::new(),
        install_root: None,
        source_name: Some(name.to_string()),
        is_meta: false,
    }
}

fn no_probe() -> DepProbe {
    DepProbe { tools_found: Vec::new(), pkg_config_found: true, libraries_found: Vec::new() }
}

fn deps() -> TajDeps {
    TajDeps {
        tools: Some(strings(&["cmake", "ninja", "nasm"])),
        pkg_config: Some(strings(&["zlib", "openssl"])),
        packages: Some(vec![
            ("dnf".to_string(), strings(&["zlib-devel", "openssl-devel"])),
            ("apt".to_string(), strings(&["zlib1g-dev", "libssl-dev"])),
        ]),
        message: Some("see the docs".to_string()),
    }
}

#[test]
fn preflight_without_deps_passes() {
    assert_eq!(preflight_deps(&taj(None, "cargo", &[]), &no_probe()), Ok(()));
    let mut t = taj(None, "cargo", &[]);
    t.deps = Some(deps());
    let all = DepProbe { tools_found: vec![true; 3], pkg_config_found: true, libraries_found: vec![true; 2] };
    assert_eq!(preflight_deps(&t, &all), Ok(()));
}

#[test]
fn preflight_report_lists_what_is_missing() {
    let mut t = taj(None, "cargo", &[]);
    t.deps = Some(deps());
    let probe = DepProbe { tools_found: vec![true, false, false], pkg_config_found: true, libraries_found: vec![false, true] };
    let e = preflight_deps(&t, &probe).unwrap_err();
    assert_eq!(
        e.message(),
        "missing build dependencies: tools [ninja, nasm]; pkg-config [zlib]\ninstall hints:\n- apt: zlib1g-dev libssl-dev\n- dnf: zlib-devel openssl-devel\nsee the docs"
    );
}

#[test]
fn preflight_without_pkg_config_tool() {
    let mut t = taj(None, "cargo", &[]);
    let mut d = deps();
    d.packages = None;
    d.message = None;
    t.deps = Some(d);
    let probe = DepProbe { tools_found: vec![true; 3], pkg_config_found: false, libraries_found: Vec::new() };
    let e = preflight_deps(&t, &probe).unwrap_err();
    assert_eq!(e.message(), "missing build dependencies: tools [pkg-config]");
    let probe = DepProbe { tools_found: vec![true; 3], pkg_config_found: true, libraries_found: vec![true, false] };
    let e = preflight_deps(&t, &probe).unwrap_err();
    assert_eq!(e.message(), "missing build dependencies: pkg-config [openssl]");
}

#[test]
fn meta_builds() {
    assert!(is_meta_build(&taj(None, "META", &[])));
    assert!(!is_meta_build(&taj(None, "metal", &[])));
}

#[test]
fn mirror_install_of_a_single_package() {
    let mut state = State::new();
    let (mut run, first) = install_from_mirror("fd");
    assert!(matches!(first, Action::LoadTaj { ref name } if name == "fd"));
    let a = run.step(&mut state, Event::TajLoaded(taj(Some("fd-find"), "Cargo", &[])));
    match a {
        Action::ProbeDeps { tools, libraries } => {
            assert!(tools.is_none());
            assert!(libraries.is_none());
        }
        other => panic!("unexpected {:?}", other),
    }
    let a = run.step(&mut state, Event::Probed(no_probe()));
    let req = match a {
        Action::Build(req) => req,
        other => panic!("unexpected {:?}", other),
    };
    assert_eq!(req.package, "fd-find");
    assert_eq!(req.source_name, "fd");
    assert_eq!(req.repo, "https://github.com/o/pkg");
    assert_eq!(req.git_ref, Some("v1".to_string()));
    assert_eq!(req.mode, InstallMode::Install);
    assert_eq!(req.spec.args, strings(&["--locked"]));
    let mut built = record("fd-find");
    built.source_name = Some("fd".to_string());
    state.insert("fd-find".to_string(), built.clone());
    let a = run.step(&mut state, Event::Built(built));
    match a {
        Action::Done(r) => assert_eq!(r.name, "fd-find"),
        other => panic!("unexpected {:?}", other),
    }
}

#[test]
fn mirror_install_refuses_installed_package() {
    let mut state = State::new();
    state.insert("fd".to_string(), record("fd"));
    let (mut run, _) = install_from_mirror("fd");
    let a = run.step(&mut state, Event::TajLoaded(taj(None, "cargo", &[])));
    match a {
        Action::Failed(e) => {
            assert_eq!(e, TajError::AlreadyInstalled { name: "fd".to_string() });
        }
        other => panic!("unexpected {:?}", other),
    }
}

#[test]
fn mirror_upgrade_rebuilds_installed_package() {
    let mut state = State::new();
    state.insert("fd".to_string(), record("fd"));
    let (mut run, _) = upgrade_from_mirror("fd");
    let a = run.step(&mut state, Event::TajLoaded(taj(None, "cargo", &[])));
    assert!(matches!(a, Action::ProbeDeps { .. }));
    let a = run.step(&mut state, Event::Probed(no_probe()));
    match a {
        Action::Build(req) => assert_eq!(req.mode, InstallMode::Upgrade),
        other => panic!("unexpected {:?}", other),
    }
}

#[test]
fn mirror_install_with_dependencies() {
    let mut state = State::new();
    state.insert("libz".to_string(), record("libz"));
    let (mut run, _) = install_from_mirror("app");
    let a = run.step(&mut state, Event::TajLoaded(taj(None, "cargo", &["libz", "core"])));
    assert!(matches!(a, Action::LoadTaj { ref name } if name == "libz"));
    let a = run.step(&mut state, Event::TajLoaded(taj(None, "make", &[])));
    assert!(matches!(a, Action::LoadTaj { ref name } if name == "core"));
    let a = run.step(&mut state, Event::TajLoaded(taj(None, "meta", &[])));
    assert!(matches!(a, Action::ProbeDeps { .. }));
    let a = run.step(&mut state, Event::Probed(no_probe()));
    assert!(matches!(a, Action::ProbeDeps { .. }));
    let core = state.get("core").unwrap();
    assert!(core.is_meta);
    assert_eq!(core.source, "mirror");
    assert_eq!(core.source_name, Some("core".to_string()));
    let a = run.step(&mut state, Event::Probed(no_probe()));
    assert!(matches!(a, Action::Build(ref req) if req.package == "app"));
    state.insert("app".to_string(), record("app"));
    let a = run.step(&mut state, Event::Built(record("app")));
    assert!(matches!(a, Action::Done(ref r) if r.name == "app"));
}

#[test]
fn mirror_dependency_cycle() {
    let mut state = State::new();
    let (mut run, _) = install_from_mirror("a");
    let a = run.step(&mut state, Event::TajLoaded(taj(None, "cargo", &["b"])));
    assert!(matches!(a, Action::LoadTaj { ref name } if name == "b"));
    let a = run.step(&mut state, Event::TajLoaded(taj(None, "cargo", &["a"])));
    match a {
        Action::Failed(e) => assert_eq!(e.message(), "dependency cycle detected at 'a'"),
        other => panic!("unexpected {:?}", other),
    }
}

#[test]
fn mirror_unknown_build_method() {
    let mut state = State::new();
    let (mut run, _) = install_from_mirror("x");
    let a = run.step(&mut state, Event::TajLoaded(taj(None, "scons", &[])));
    assert!(matches!(a, Action::ProbeDeps { .. }));
    let a = run.step(&mut state, Event::Probed(no_probe()));
    match a {
        Action::Failed(e) => assert_eq!(e, TajError::UnknownBuildMethod { value: "scons".to_string() }),
        other => panic!("unexpected {:?}", other),
    }
}

#[test]
fn mirror_preflight_failure_stops_the_install() {
    let mut state = State::new();
    let (mut run, _) = install_from_mirror("x");
    let mut t = taj(None, "cargo", &[]);
    t.deps = Some(TajDeps { tools: Some(strings(&["nasm"])), pkg_config: None, packages: None, message: None });
    let a = run.step(&mut state, Event::TajLoaded(t));
    match a {
        Action::ProbeDeps { tools, libraries } => {
            assert_eq!(tools, Some(strings(&["nasm"])));
            assert!(libraries.is_none());
        }
        other => panic!("unexpected {:?}", other),
    }
    let probe = DepProbe { tools_found: vec![false], pkg_config_found: true, libraries_found: Vec::new() };
    match run.step(&mut state, Event::Probed(probe)) {
        Action::Failed(e) => assert_eq!(e.message(), "missing build dependencies: tools [nasm]"),
        other => panic!("unexpected {:?}", other),
    }
}

#[test]
fn build_request_carries_the_loaded_description() {
    let mut state = State::new();
    let (mut run, _) = install_from_mirror("tool");
    let mut t = taj(None, "cmake", &[]);
    t.repo = "https://gitlab.com/g/tool".to_string();
    t.git_ref = Some("0123abc".to_string());
    run.step(&mut state, Event::TajLoaded(t));
    match run.step(&mut state, Event::Probed(no_probe())) {
        Action::Build(req) => {
            assert_eq!(req.repo, "https://gitlab.com/g/tool");
            assert_eq!(req.git_ref, Some("0123abc".to_string()));
        }
        other => panic!("unexpected {:?}", other),
    }
}

#[test]
fn finished_dependency_hands_back_to_its_caller() {
    let mut state = State::new();
    let (mut run, _) = install_from_mirror("app");
    let a = run.step(&mut state, Event::TajLoaded(taj(None, "cargo", &["lib", "util"])));
    assert!(matches!(a, Action::LoadTaj { ref name } if name == "lib"));
    let a = run.step(&mut state, Event::TajLoaded(taj(None, "cargo", &["core"])));
    assert!(matches!(a, Action::LoadTaj { ref name } if name == "core"));
    let a = run.step(&mut state, Event::TajLoaded(taj(None, "cargo", &[])));
    assert!(matches!(a, Action::ProbeDeps { .. }));
    let a = run.step(&mut state, Event::Probed(no_probe()));
    assert!(matches!(a, Action::Build(ref req) if req.package == "core" && req.source_name == "core"));
    state.insert("core".to_string(), record("core"));
    let a = run.step(&mut state, Event::Built(record("core")));
    assert!(matches!(a, Action::ProbeDeps { .. }));
    let a = run.step(&mut state, Event::Probed(no_probe()));
    assert!(matches!(a, Action::Build(ref req) if req.package == "lib"));
    state.insert("lib".to_string(), record("lib"));
    let a = run.step(&mut state, Event::Built(record("lib")));
    assert!(matches!(a, Action::LoadTaj { ref name } if name == "util"));
    let a = run.step(&mut state, Event::TajLoaded(taj(None, "cargo", &["core"])));
    assert!(matches!(a, Action::LoadTaj { ref name } if name == "core"));
    let a = run.step(&mut state, Event::TajLoaded(taj(None, "cargo", &[])));
    assert!(matches!(a, Action::ProbeDeps { .. }));
}

#[test]
fn cycle_after_a_finished_meta_dependency_keeps_its_record() {
    let mut state = State::new();
    let (mut run, _) = install_from_mirror("app");
    let a = run.step(&mut state, Event::TajLoaded(taj(None, "cargo", &["bundle", "app"])));
    assert!(matches!(a, Action::LoadTaj { ref name } if name == "bundle"));
    let a = run.step(&mut state, Event::TajLoaded(taj(None, "meta", &[])));
    assert!(matches!(a, Action::ProbeDeps { .. }));
    let a = run.step(&mut state, Event::Probed(no_probe()));
    match a {
        Action::Failed(e) => assert_eq!(e, TajError::DependencyCycle { name: "app".to_string() }),
        other => panic!("unexpected {:?}", other),
    }
    assert!(state.get("bundle").unwrap().is_meta);
    assert!(state.get("app").is_none());
}
