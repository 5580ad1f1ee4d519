use taj::builder::{
    build, build_no_output, cargo_binary_path, output_missing, collect_sources, diff_executables, pick_executable, BuildOutput,
    ExecutableInfo, SourceProbe,
};
use taj::buildspec::{cargo_bin_name, BuildMethod, BuildSpec};
use taj::detect::{detect_build_spec, has_extension, RepoProbe};
use taj::envmap::EnvMap;
use taj::error::TajError;

fn strings(v: &[&str]) -> Vec<String> {
    v.iter().map(|s| s.to_string()).collect()
}

fn spec(method: BuildMethod, args: &[&str], bin: Option<&str>) -> BuildSpec {
    let mut env = EnvMap::new();
    env.insert("CC".to_string(), "clang".to_string());
    BuildSpec {
        method,
        args: strings(args),
        bin: bin.map(|b| b.to_string()),
        subdir: None,
        build_dir: None,
        env,
    }
}

fn probe() -> RepoProbe {
    RepoProbe {
        cargo_manifest: None,
        go_mod: false,
        meson_build: false,
        cmake_lists: false,
        makefile: false,
        file_extensions: Vec::new(),
        main_rs: false,
    }
}

fn no_sources() -> SourceProbe {
    SourceProbe { c_sources: Vec::new(), cpp_sources: Vec::new(), src_main_rs: false, main_rs: false }
}

fn exe(path: &str, size: u64, modified: Option<u128>) -> ExecutableInfo {
    ExecutableInfo {
        path: path.to_string(),
        file_name: path.rsplit('/').next().map(|s| s.to_string()),
        size,
        modified,
    }
}

#[test]
fn build_method_names() {
    let cases = [
        ("cargo", BuildMethod::Cargo),
        ("GO", BuildMethod::Go),
        ("Make", BuildMethod::Make),
        ("cmake", BuildMethod::Cmake),
        ("autotools", BuildMethod::Autotools),
        ("meson", BuildMethod::Meson),
        ("gcc", BuildMethod::Gcc),
        ("c", BuildMethod::Gcc),
        ("g++", BuildMethod::Gpp),
        ("gpp", BuildMethod::Gpp),
        ("CPP", BuildMethod::Gpp),
        ("rustc", BuildMethod::Rustc),
    ];
    for (name, method) in cases {
        assert_eq!(BuildMethod::parse(name), Ok(method));
    }
    let e = BuildMethod::parse("Scons").unwrap_err();
    assert_eq!(e, TajError::UnknownBuildMethod { value: "Scons".to_string() });
    assert_eq!(e.message(), "unknown build method: Scons");
    assert_eq!(BuildMethod::from_lowercase("cargo"), Some(BuildMethod::Cargo));
    assert_eq!(BuildMethod::from_lowercase("CARGO"), None);
    assert_eq!(BuildMethod::parse("MeSoN"), Ok(BuildMethod::Meson));
}

#[test]
fn cargo_manifest_binary_name() {
    let bins = "[package]\nname = \"ripgrep\"\n\n[[bin]]\npath = \"x.rs\"\n\n[[bin]]\nname = \"rg\"\n";
    assert_eq!(cargo_bin_name(bins), Ok(Some("rg".to_string())));
    let pkg = "[package]\nname = \"fd-find\"\nversion = \"1.0.0\"\n";
    assert_eq!(cargo_bin_name(pkg), Ok(Some("fd-find".to_string())));
    assert_eq!(cargo_bin_name("[workspace]\nmembers = []\n"), Ok(None));
    match cargo_bin_name("[package\nname = ") {
        Err(TajError::InvalidManifest { detail }) => assert!(!detail.is_empty()),
        other => panic!("unexpected {:?}", other),
    }
}

#[test]
fn detection_order() {
    let mut p = probe();
    p.main_rs = true;
    p.file_extensions = strings(&["c", "md"]);
    assert_eq!(detect_build_spec(&p, "tool", "/r").unwrap().method, BuildMethod::Gcc);
    p.file_extensions = strings(&["C", "CXX"]);
    let s = detect_build_spec(&p, "tool", "/r").unwrap();
    assert_eq!(s.method, BuildMethod::Gpp);
    assert_eq!(s.bin, Some("tool".to_string()));
    p.makefile = true;
    let s = detect_build_spec(&p, "tool", "/r").unwrap();
    assert_eq!(s.method, BuildMethod::Make);
    assert_eq!(s.bin, None);
    p.cmake_lists = true;
    assert_eq!(detect_build_spec(&p, "tool", "/r").unwrap().method, BuildMethod::Cmake);
    p.meson_build = true;
    assert_eq!(detect_build_spec(&p, "tool", "/r").unwrap().method, BuildMethod::Meson);
    p.go_mod = true;
    let s = detect_build_spec(&p, "tool", "/r").unwrap();
    assert_eq!(s.method, BuildMethod::Go);
    assert_eq!(s.bin, Some("tool".to_string()));
    p.cargo_manifest = Some("[package]\nname = \"crate-name\"\n".to_string());
    let s = detect_build_spec(&p, "tool", "/r").unwrap();
    assert_eq!(s.method, BuildMethod::Cargo);
    assert_eq!(s.bin, Some("crate-name".to_string()));
    assert!(s.args.is_empty());
}

#[test]
fn detection_fallbacks_and_errors() {
    let mut p = probe();
    p.cargo_manifest = Some("[workspace]\n".to_string());
    assert_eq!(detect_build_spec(&p, "hint", "/r").unwrap().bin, Some("hint".to_string()));
    p.cargo_manifest = Some("not toml [".to_string());
    assert!(matches!(detect_build_spec(&p, "hint", "/r"), Err(TajError::InvalidManifest { .. })));
    let mut p = probe();
    p.main_rs = true;
    assert_eq!(detect_build_spec(&p, "hint", "/r").unwrap().method, BuildMethod::Rustc);
    let e = detect_build_spec(&probe(), "hint", "/tmp/repo").unwrap_err();
    assert_eq!(e.message(), "could not detect a build system in /tmp/repo");
}

#[test]
fn extension_match_ignores_case() {
    assert!(has_extension(&strings(&["rs", "CPP"]), &strings(&["cpp", "cc"])));
    assert!(!has_extension(&strings(&["rs", "h"]), &strings(&["c"])));
}

#[test]
fn cargo_build_plan() {
    let p = build("/r", &spec(BuildMethod::Cargo, &["--features", "x"], None), "n", "/o", &no_sources()).unwrap();
    assert_eq!(p.tool, "cargo");
    assert_eq!(p.output, BuildOutput::CargoBinary);
    assert_eq!(p.commands.len(), 1);
    let c = &p.commands[0];
    assert_eq!(c.program, "cargo");
    assert_eq!(c.args, strings(&["build", "--release", "--features", "x"]));
    assert_eq!(c.cwd, Some("/r".to_string()));
    assert_eq!(c.env.as_ref().unwrap().get("CC"), Some(&"clang".to_string()));
}

#[test]
fn go_make_and_cmake_plans() {
    let p = build("/r", &spec(BuildMethod::Go, &["./cmd/x"], Some("x")), "n", "/o", &no_sources()).unwrap();
    assert_eq!(p.commands[0].args, strings(&["build", "-o", "/o/x", "./cmd/x"]));
    assert_eq!(p.output, BuildOutput::File { path: "/o/x".to_string() });
    let p = build("/r", &spec(BuildMethod::Make, &["all"], None), "n", "/o", &no_sources()).unwrap();
    assert_eq!(p.commands[0].args, strings(&["all"]));
    assert_eq!(p.output, BuildOutput::ChangedExecutables);
    let p = build("/r", &spec(BuildMethod::Cmake, &["-DX=1"], None), "n", "/o", &no_sources()).unwrap();
    assert_eq!(p.commands.len(), 2);
    assert_eq!(
        p.commands[0].args,
        strings(&["-S", ".", "-B", "/r/build", "-DCMAKE_BUILD_TYPE=Release", "-DCMAKE_RUNTIME_OUTPUT_DIRECTORY=/o", "-DX=1"])
    );
    assert_eq!(p.commands[1].args, strings(&["--build", "/r/build", "--config", "Release"]));
    assert_eq!(p.output, BuildOutput::ExecutablesIn { dir: "/o".to_string() });
}

#[test]
fn compiler_plans_need_sources() {
    let e = build("/r", &spec(BuildMethod::Gcc, &[], None), "n", "/o", &no_sources()).unwrap_err();
    assert_eq!(e.message(), "no .c sources found for gcc build");
    let e = build("/r", &spec(BuildMethod::Gpp, &[], None), "n", "/o", &no_sources()).unwrap_err();
    assert_eq!(e.message(), "no C++ sources found for g++ build");
    let e = build("/r", &spec(BuildMethod::Rustc, &[], None), "n", "/o", &no_sources()).unwrap_err();
    assert_eq!(e, TajError::NoMainRs);
    let mut s = no_sources();
    s.c_sources = strings(&["/r/a.c", "/r/b.c"]);
    s.main_rs = true;
    let p = build("/r", &spec(BuildMethod::Gcc, &["-lm"], None), "n", "/o", &s).unwrap();
    assert_eq!(p.tool, "gcc");
    assert_eq!(p.commands[0].args, strings(&["-O2", "-o", "/o/n", "/r/a.c", "/r/b.c", "-lm"]));
    let p = build("/r", &spec(BuildMethod::Rustc, &[], Some("b")), "n", "/o", &s).unwrap();
    assert_eq!(p.commands[0].args, strings(&["-O", "/r/main.rs", "-o", "/o/b"]));
    s.src_main_rs = true;
    let p = build("/r", &spec(BuildMethod::Rustc, &[], Some("b")), "n", "/o", &s).unwrap();
    assert_eq!(p.commands[0].args, strings(&["-O", "/r/src/main.rs", "-o", "/o/b"]));
}

#[test]
fn methods_without_build_procedure() {
    let e = build("/r", &spec(BuildMethod::Meson, &[], None), "n", "/o", &no_sources()).unwrap_err();
    assert_eq!(e, TajError::UnsupportedBuildMethod { method: "meson".to_string() });
    let e = build("/r", &spec(BuildMethod::Autotools, &[], None), "n", "/o", &no_sources()).unwrap_err();
    assert_eq!(e.message(), "no build procedure for method autotools");
}

#[test]
fn cargo_binary_location() {
    let manifest = "[package]\nname = \"pkg\"\n";
    assert_eq!(
        cargo_binary_path("/r", &spec(BuildMethod::Cargo, &[], Some("b")), manifest, "n").unwrap(),
        "/r/target/release/b"
    );
    assert_eq!(
        cargo_binary_path("/r", &spec(BuildMethod::Cargo, &[], None), manifest, "n").unwrap(),
        "/r/target/release/pkg"
    );
    assert_eq!(
        cargo_binary_path("/r", &spec(BuildMethod::Cargo, &[], None), "[workspace]\n", "n").unwrap(),
        "/r/target/release/n"
    );
}

#[test]
fn changed_executables() {
    let before = vec![exe("/r/a", 10, Some(5)), exe("/r/b", 10, Some(5)), exe("/r/c", 10, None)];
    let after = vec![
        exe("/r/a", 10, Some(5)),
        exe("/r/b", 10, Some(6)),
        exe("/r/c", 11, None),
        exe("/r/d", 1, None),
    ];
    let d = diff_executables(&before, &after);
    let paths: Vec<&str> = d.iter().map(|e| e.path.as_str()).collect();
    assert_eq!(paths, vec!["/r/b", "/r/c", "/r/d"]);
}

#[test]
fn picking_the_executable() {
    assert_eq!(pick_executable(&vec![], Some("x")), Err(TajError::NoExecutable));
    let c = vec![exe("/o/a", 5, None), exe("/o/x", 1, None), exe("/o/b", 9, None), exe("/o/c", 9, None)];
    assert_eq!(pick_executable(&c, Some("x")).unwrap(), "/o/x");
    assert_eq!(pick_executable(&c, Some("zz")).unwrap(), "/o/c");
    assert_eq!(pick_executable(&c, None).unwrap(), "/o/c");
    assert_eq!(pick_executable(&vec![exe("/o/only", 1, None)], Some("zz")).unwrap(), "/o/only");
}

#[test]
fn collecting_sources_by_extension() {
    let files = vec![
        ("/r/a.c".to_string(), Some("c".to_string())),
        ("/r/b.C".to_string(), Some("C".to_string())),
        ("/r/c.h".to_string(), Some("h".to_string())),
        ("/r/Makefile".to_string(), None),
    ];
    assert_eq!(collect_sources(&files, &strings(&["c"])), strings(&["/r/a.c", "/r/b.C"]));
}

#[test]
fn build_before_install_step() {
    assert!(build_no_output("/r", &spec(BuildMethod::Meson, &[], None), "n", "/o", &no_sources()).unwrap().is_none());
    assert!(build_no_output("/r", &spec(BuildMethod::Autotools, &[], None), "n", "/o", &no_sources()).unwrap().is_none());
    let p = build_no_output("/r", &spec(BuildMethod::Make, &["all"], None), "n", "/o", &no_sources()).unwrap().unwrap();
    assert_eq!(p.commands[0].args, strings(&["all"]));
    let e = build_no_output("/r", &spec(BuildMethod::Gcc, &[], None), "n", "/o", &no_sources()).unwrap_err();
    assert_eq!(e, TajError::NoSources { language: ".c".to_string(), tool: "gcc".to_string() });
}

#[test]
fn missing_output_names_the_producer() {
    assert_eq!(output_missing("cargo", "/r/target/release/x").message(), "cargo build did not produce /r/target/release/x");
    assert_eq!(output_missing("go", "/o/x").message(), "go build did not produce /o/x");
    assert_eq!(output_missing("g++", "/o/x").message(), "g++ did not produce /o/x");
}
