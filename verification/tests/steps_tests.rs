use taj::buildspec::{BuildMethod, BuildSpec};
use taj::envmap::EnvMap;
use taj::error::TajError;
use taj::prefix::{
    build_spec_with_prefix, check_root_allowed, has_cmake_prefix_arg, has_flag_with_value,
    install_prefix, is_system_dir, primary_bin_path, resolve_install_prefix, stage_payload_candidate,
    stage_payload_root, staged_binary,
};
use taj::steps::{install_work_dir, merge_env, run_cmake_install, run_install, run_make_install, run_meson_install};
use taj::tajfile::InstallSpec;

fn strings(v: &[&str]) -> Vec<String> {
    v.iter().map(|s| s.to_string()).collect()
}

fn env(pairs: &[(&str, &str)]) -> EnvMap {
    let mut e = EnvMap::new();
    for (k, v) in pairs {
        e.insert(k.to_string(), v.to_string());
    }
    e
}

fn spec(method: BuildMethod, args: &[&str]) -> BuildSpec {
    BuildSpec { method, args: strings(args), bin: None, subdir: None, build_dir: None, env: env(&[("CC", "cc")]) }
}

fn install(method: &str, args: Option<&[&str]>) -> InstallSpec {
    InstallSpec { method: method.to_string(), args: args.map(strings), env: None, prefix: None, destdir: None }
}

fn sorted_pairs(e: &EnvMap) -> Vec<(String, String)> {
    let mut p = e.to_pairs();
    p.sort();
    p
}

#[test]
fn install_prefix_is_parent_of_install_dir() {
    assert_eq!(install_prefix("/usr/local/bin"), "/usr/local");
    assert_eq!(install_prefix("/"), "/");
    let mut s = install("make", None);
    assert_eq!(resolve_install_prefix("/home/u/.local/bin", &s), "/home/u/.local");
    s.prefix = Some("/opt/x".to_string());
    assert_eq!(resolve_install_prefix("/home/u/.local/bin", &s), "/opt/x");
}

#[test]
fn prefix_flags() {
    assert!(has_flag_with_value(&strings(&["--prefix"]), "--prefix"));
    assert!(has_flag_with_value(&strings(&["-v", "--prefix=/x"]), "--prefix"));
    assert!(!has_flag_with_value(&strings(&["--prefixes"]), "--prefix"));
    assert!(has_cmake_prefix_arg(&strings(&["-DCMAKE_INSTALL_PREFIX=/x"])));
    assert!(!has_cmake_prefix_arg(&strings(&["-DCMAKE_BUILD_TYPE=Release"])));
}

#[test]
fn build_spec_gets_prefix_once() {
    let s = build_spec_with_prefix(&spec(BuildMethod::Autotools, &["--enable-x"]), "/usr/local");
    assert_eq!(s.args, strings(&["--enable-x", "--prefix=/usr/local"]));
    let again = build_spec_with_prefix(&s, "/usr/local");
    assert_eq!(again.args, s.args);
    let s = build_spec_with_prefix(&spec(BuildMethod::Meson, &["--prefix=/keep"]), "/usr/local");
    assert_eq!(s.args, strings(&["--prefix=/keep"]));
    let s = build_spec_with_prefix(&spec(BuildMethod::Cmake, &[]), "/p");
    assert_eq!(s.args, strings(&["-DCMAKE_INSTALL_PREFIX=/p"]));
    let s = build_spec_with_prefix(&spec(BuildMethod::Cargo, &["--locked"]), "/p");
    assert_eq!(s.args, strings(&["--locked"]));
    assert_eq!(s.env.get("CC"), Some(&"cc".to_string()));
}

#[test]
fn system_directories_need_root() {
    assert!(is_system_dir("/usr"));
    assert!(is_system_dir("/usr/local/bin"));
    assert!(is_system_dir("/bin"));
    assert!(is_system_dir("/sbin"));
    assert!(!is_system_dir("/usrx"));
    assert!(!is_system_dir("/home/u/.local/bin"));
    assert_eq!(check_root_allowed("install dir", "/usr/local/bin", true), Ok(()));
    assert_eq!(check_root_allowed("install dir", "/home/u/bin", false), Ok(()));
    let e = check_root_allowed("install prefix", "/usr/local", false).unwrap_err();
    assert_eq!(
        e.message(),
        "install prefix /usr/local requires root; run with sudo or set install_dir in config"
    );
}

#[test]
fn binaries_under_prefix() {
    assert_eq!(primary_bin_path("/usr/local", Some("rg"), "ripgrep"), "/usr/local/bin/rg");
    assert_eq!(primary_bin_path("/usr/local", None, "fd"), "/usr/local/bin/fd");
    assert_eq!(
        staged_binary("/opt/p", &Some("rg".to_string()), "ripgrep", true),
        ("rg".to_string(), "/opt/p/bin/rg".to_string())
    );
    assert_eq!(staged_binary("/opt/p", &None, "fd", false), ("fd".to_string(), "/opt/p".to_string()));
}

#[test]
fn staged_payload_location() {
    assert_eq!(stage_payload_candidate("/t/stage", "/usr/local"), Some("/t/stage/usr/local".to_string()));
    assert_eq!(stage_payload_candidate("/t/stage", "relative/p"), None);
    assert_eq!(stage_payload_root("/t/stage", "/usr/local", true), "/t/stage/usr/local");
    assert_eq!(stage_payload_root("/t/stage", "/usr/local", false), "/t/stage");
    assert_eq!(stage_payload_root("/t/stage", "rel", true), "/t/stage");
}

#[test]
fn work_directory_of_install_step() {
    assert_eq!(install_work_dir("/r", &spec(BuildMethod::Make, &[])), ("/r".to_string(), false));
    assert_eq!(install_work_dir("/r", &spec(BuildMethod::Meson, &[])), ("/r/build".to_string(), true));
    let mut s = spec(BuildMethod::Make, &[]);
    s.build_dir = Some("out".to_string());
    assert_eq!(install_work_dir("/r", &s), ("/r/out".to_string(), true));
}

#[test]
fn merged_environment_prefers_install_step() {
    let m = merge_env(&env(&[("A", "1"), ("B", "2")]), &Some(env(&[("B", "3"), ("C", "4")])));
    assert_eq!(
        sorted_pairs(&m),
        vec![
            ("A".to_string(), "1".to_string()),
            ("B".to_string(), "3".to_string()),
            ("C".to_string(), "4".to_string())
        ]
    );
}

#[test]
fn make_install_command() {
    let c = run_make_install(&install("make", None), "/r", "/t/stage", "/usr/local", &env(&[]));
    assert_eq!(c.program, "make");
    assert_eq!(c.args, strings(&["install", "DESTDIR=/t/stage", "prefix=/usr/local", "PREFIX=/usr/local"]));
    assert_eq!(c.cwd, Some("/r".to_string()));
    let e = c.env.unwrap();
    assert_eq!(e.get("DESTDIR"), Some(&"/t/stage".to_string()));
    assert_eq!(e.get("PREFIX"), Some(&"/usr/local".to_string()));
    assert_eq!(e.get("prefix"), Some(&"/usr/local".to_string()));
    let mut s = install("make", Some(&["V=1", "install-strip", "install", "PREFIX=/x"]));
    s.env = Some(env(&[("DESTDIR", "/mine")]));
    let c = run_make_install(&s, "/r", "/t/stage", "/usr/local", &env(&[]));
    assert_eq!(c.args, strings(&["V=1", "install-strip", "install", "PREFIX=/x", "DESTDIR=/t/stage", "prefix=/usr/local"]));
    assert_eq!(c.env.unwrap().get("DESTDIR"), Some(&"/mine".to_string()));
}

#[test]
fn cmake_install_command() {
    let c = run_cmake_install(&install("cmake", Some(&["--strip"])), "/r", "/r/build", true, "/t/s", "/p", &env(&[]));
    assert_eq!(c.program, "cmake");
    assert_eq!(c.args, strings(&["--install", "/r/build", "--prefix", "/p", "--strip"]));
    assert_eq!(c.cwd, Some("/r".to_string()));
    assert_eq!(c.env.unwrap().get("DESTDIR"), Some(&"/t/s".to_string()));
    let c = run_cmake_install(&install("cmake", None), "/r", "/r/build", false, "/t/s", "/p", &env(&[]));
    assert_eq!(c.args, strings(&["--install", "/r", "--prefix", "/p"]));
}

#[test]
fn meson_install_commands() {
    let cs = run_meson_install(&install("meson", Some(&["-Dx=y"])), "/r", "/r/build", false, "/t/s", "/p", &env(&[]));
    assert_eq!(cs.len(), 3);
    assert_eq!(cs[0].args, strings(&["setup", "/r/build", "--prefix=/p", "-Dx=y"]));
    assert_eq!(cs[1].args, strings(&["compile", "-C", "/r/build"]));
    assert_eq!(cs[2].args, strings(&["install", "-C", "/r/build", "--destdir", "/t/s"]));
    assert!(cs.iter().all(|c| c.program == "meson" && c.cwd == Some("/r".to_string())));
    let cs = run_meson_install(&install("meson", None), "/r", "/r/build", true, "/t/s", "/p", &env(&[]));
    assert_eq!(cs[0].args, strings(&["setup", "--reconfigure", "/r/build", "--prefix=/p"]));
}

#[test]
fn install_step_plans() {
    let plan = run_install(&install("MAKE", None), "/r", "/t", "/usr/local", &spec(BuildMethod::Make, &[]), false, false).unwrap();
    assert_eq!(plan.stage_root, "/t/stage");
    assert_eq!(plan.tools, strings(&["make"]));
    assert_eq!(plan.dirs, strings(&["/t/stage"]));
    assert_eq!(plan.commands[0].args, strings(&["install", "DESTDIR=/t/stage", "prefix=/usr/local", "PREFIX=/usr/local"]));
    let mut s = install("meson", None);
    s.destdir = Some("/d".to_string());
    s.prefix = Some("/q".to_string());
    let plan = run_install(&s, "/r", "/t", "/usr/local", &spec(BuildMethod::Meson, &[]), true, true).unwrap();
    assert_eq!(plan.stage_root, "/d");
    assert_eq!(plan.tools, strings(&["meson", "ninja"]));
    assert_eq!(plan.dirs, strings(&["/t/stage", "/r/build"]));
    assert_eq!(plan.commands[0].args, strings(&["setup", "--reconfigure", "/r/build", "--prefix=/q"]));
    let e = run_install(&install("scons", None), "/r", "/t", "/p", &spec(BuildMethod::Make, &[]), false, false).unwrap_err();
    assert_eq!(e, TajError::UnsupportedInstallMethod { method: "scons".to_string() });
    assert_eq!(e.message(), "unsupported install method: scons");
}
