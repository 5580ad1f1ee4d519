//! Building a package: the commands of each build method, where its output
//! is expected, and picking the executable a build produced.
use vstd::prelude::*;
use crate::buildspec::{BuildMethod, BuildSpec, cargo_bin_name, cargo_bin_of, cargo_manifest_of};
use crate::command::{CommandPlan, CommandView, command_views};
use crate::envmap::EnvMap;
use crate::error::TajError;
use crate::order::views;
use crate::path::{join, path_join};
use crate::state::opt_view;
use crate::text::{chars_eq, chars_of, clone_strings, concat, eq_ignore_ascii_case, owned, str_eq,
    str_eq_ignore_ascii_case};

verus! {

/// A file found by walking a tree: its path, its file name (when UTF-8),
/// size, and modification time (nanoseconds since the epoch, when known).
#[derive(Debug, Clone)]
pub struct ExecutableInfo {
    pub path: String,
    pub file_name: Option<String>,
    pub size: u64,
    pub modified: Option<u128>,
}

/// `base` followed by the arguments of `v`.
fn append_all(base: &mut Vec<String>, v: &Vec<String>)
    ensures
        views(final(base)@) == views(old(base)@) + views(v@),
{
    let ghost head = views(base@);
    let mut i: usize = 0;
    while i < v.len()
        invariant
            i <= v.len(),
            views(base@) == head + views(v@).subrange(0, i as int),
        decreases v.len() - i,
    {
        let ghost before = base@;
        base.push(v[i].clone());
        assert(views(base@) =~= views(before).push(v@[i as int]@));
        i = i + 1;
        assert(views(base@) =~= head + views(v@).subrange(0, i as int));
    }
    assert(views(v@).subrange(0, v.len() as int) =~= views(v@));
}

/// A command of the build: `program` with `args`, run in the repository with
/// the build's environment.
pub open spec fn build_command(program: Seq<char>, args: Seq<Seq<char>>, repo_dir: Seq<char>, spec: BuildSpec) -> CommandView {
    CommandView { program, args, cwd: Some(repo_dir), env: Some(spec.env@) }
}

fn command(program: &str, args: Vec<String>, repo_dir: &str, spec: &BuildSpec) -> (r: CommandPlan)
    requires
        spec.wf(),
    ensures
        r.wf(),
        r@ == build_command(program@, views(args@), repo_dir@, *spec),
{
    CommandPlan {
        program: owned(program),
        args,
        cwd: Some(owned(repo_dir)),
        env: Some(spec.env.duplicate()),
    }
}

/// What a build runs, and where its result is to be found.
#[derive(Debug)]
pub struct BuildPlan {
    /// The tool that must be on `PATH`.
    pub tool: String,
    /// The commands, in order.
    pub commands: Vec<CommandPlan>,
    /// Where the result is to be found.
    pub output: BuildOutput,
}

/// Where a build's result is to be found.
#[derive(Debug, PartialEq, Eq)]
pub enum BuildOutput {
    /// At this path, which the build must have produced.
    File { path: String },
    /// In `target/release` of the repository, under the Cargo binary name.
    CargoBinary,
    /// Among the executables in the repository that the build created or
    /// changed.
    ChangedExecutables,
    /// Among the executables in this directory.
    ExecutablesIn { dir: String },
}

/// The sources and entry points found in the repository, for the methods
/// that compile files directly.
#[derive(Debug)]
pub struct SourceProbe {
    /// The paths of the top-level files with a `.c` extension (any case).
    pub c_sources: Vec<String>,
    /// The paths of the top-level files with a `.cpp`, `.cc` or `.cxx`
    /// extension (any case).
    pub cpp_sources: Vec<String>,
    /// `src/main.rs` exists.
    pub src_main_rs: bool,
    /// `main.rs` exists.
    pub main_rs: bool,
}

/// The file a direct build writes: the binary's name, else the package's,
/// in the output directory.
pub open spec fn out_path_of(spec: BuildSpec, name_hint: Seq<char>, out_dir: Seq<char>) -> Seq<char> {
    path_join(
        out_dir,
        match spec.bin {
            Some(b) => b@,
            None => name_hint,
        },
    )
}

/// The build of each method:
/// - cargo: `cargo build --release ARGS`, the binary in `target/release`;
/// - go: `go build -o OUT ARGS`;
/// - make: `make ARGS`, the result among the executables it created or changed;
/// - cmake: configure (`-S . -B build -DCMAKE_BUILD_TYPE=Release
///   -DCMAKE_RUNTIME_OUTPUT_DIRECTORY=OUTDIR ARGS`) then build
///   (`--build build --config Release`), the result among the executables in
///   the output directory;
/// - gcc and g++: `-O2 -o OUT SOURCES ARGS`, an error without sources;
/// - rustc: `-O MAIN -o OUT ARGS` with `src/main.rs`, else `main.rs`, an
///   error without either.
/// Autotools and meson have no build procedure of their own here.
pub open spec fn build_plan_ok(
    r: Result<BuildPlan, TajError>,
    repo_dir: Seq<char>,
    spec: BuildSpec,
    name_hint: Seq<char>,
    out_dir: Seq<char>,
    sources: SourceProbe,
) -> bool {
    let out = out_path_of(spec, name_hint, out_dir);
    let a = spec@.args;
    match spec.method {
        BuildMethod::Cargo => r matches Ok(p) && p.tool@ == "cargo"@ && p.output
            == BuildOutput::CargoBinary && command_views(p.commands@) == seq![
            build_command("cargo"@, seq!["build"@, "--release"@] + a, repo_dir, spec),
        ],
        BuildMethod::Go => r matches Ok(p) && p.tool@ == "go"@ && (p.output matches BuildOutput::File {
            path,
        } && path@ == out) && command_views(p.commands@) == seq![
            build_command("go"@, seq!["build"@, "-o"@, out] + a, repo_dir, spec),
        ],
        BuildMethod::Make => r matches Ok(p) && p.tool@ == "make"@ && p.output
            == BuildOutput::ChangedExecutables && command_views(p.commands@) == seq![
            build_command("make"@, a, repo_dir, spec),
        ],
        BuildMethod::Cmake => r matches Ok(p) && p.tool@ == "cmake"@ && (
        p.output matches BuildOutput::ExecutablesIn { dir } && dir@ == out_dir) && command_views(
            p.commands@,
        ) == seq![
            build_command(
                "cmake"@,
                seq![
                    "-S"@,
                    "."@,
                    "-B"@,
                    path_join(repo_dir, "build"@),
                    "-DCMAKE_BUILD_TYPE=Release"@,
                    "-DCMAKE_RUNTIME_OUTPUT_DIRECTORY="@ + out_dir,
                ] + a,
                repo_dir,
                spec,
            ),
            build_command(
                "cmake"@,
                seq!["--build"@, path_join(repo_dir, "build"@), "--config"@, "Release"@],
                repo_dir,
                spec,
            ),
        ],
        BuildMethod::Gcc => if sources.c_sources@.len() == 0 {
            r matches Err(TajError::NoSources { language, tool }) && language@ == ".c"@ && tool@
                == "gcc"@
        } else {
            r matches Ok(p) && p.tool@ == "gcc"@ && (p.output matches BuildOutput::File { path }
                && path@ == out) && command_views(p.commands@) == seq![
                build_command(
                    "gcc"@,
                    seq!["-O2"@, "-o"@, out] + views(sources.c_sources@) + a,
                    repo_dir,
                    spec,
                ),
            ]
        },
        BuildMethod::Gpp => if sources.cpp_sources@.len() == 0 {
            r matches Err(TajError::NoSources { language, tool }) && language@ == "C++"@ && tool@
                == "g++"@
        } else {
            r matches Ok(p) && p.tool@ == "g++"@ && (p.output matches BuildOutput::File { path }
                && path@ == out) && command_views(p.commands@) == seq![
                build_command(
                    "g++"@,
                    seq!["-O2"@, "-o"@, out] + views(sources.cpp_sources@) + a,
                    repo_dir,
                    spec,
                ),
            ]
        },
        BuildMethod::Rustc => if !sources.src_main_rs && !sources.main_rs {
            r matches Err(TajError::NoMainRs)
        } else {
            let main = if sources.src_main_rs {
                path_join(path_join(repo_dir, "src"@), "main.rs"@)
            } else {
                path_join(repo_dir, "main.rs"@)
            };
            r matches Ok(p) && p.tool@ == "rustc"@ && (p.output matches BuildOutput::File { path }
                && path@ == out) && command_views(p.commands@) == seq![
                build_command("rustc"@, seq!["-O"@, main, "-o"@, out] + a, repo_dir, spec),
            ]
        },
        BuildMethod::Autotools | BuildMethod::Meson => r matches Err(
            TajError::UnsupportedBuildMethod { .. },
        ),
    }
}

/// The build of a package (see [`build_plan_ok`]).
pub fn build(
    repo_dir: &str,
    spec: &BuildSpec,
    name_hint: &str,
    out_dir: &str,
    sources: &SourceProbe,
) -> (r: Result<BuildPlan, TajError>)
    requires
        spec.wf(),
    ensures
        build_plan_ok(r, repo_dir@, *spec, name_hint@, out_dir@, *sources),
        r matches Ok(p) ==> forall|i: int| 0 <= i < p.commands@.len() ==> (#[trigger] p.commands@[i]).wf(),
{
    let out_path = match &spec.bin {
        Some(b) => join(out_dir, b.as_str()),
        None => join(out_dir, name_hint),
    };
    let mut commands: Vec<CommandPlan> = Vec::new();
    match spec.method {
        BuildMethod::Cargo => {
            let mut args: Vec<String> = Vec::new();
            args.push(owned("build"));
            args.push(owned("--release"));
            assert(views(args@) =~= seq!["build"@, "--release"@]);
            append_all(&mut args, &spec.args);
            commands.push(command("cargo", args, repo_dir, spec));
            assert(command_views(commands@) =~= seq![commands@[0]@]);
            Ok(BuildPlan { tool: owned("cargo"), commands, output: BuildOutput::CargoBinary })
        },
        BuildMethod::Go => {
            let mut args: Vec<String> = Vec::new();
            args.push(owned("build"));
            args.push(owned("-o"));
            args.push(out_path.clone());
            assert(views(args@) =~= seq!["build"@, "-o"@, out_path@]);
            append_all(&mut args, &spec.args);
            commands.push(command("go", args, repo_dir, spec));
            assert(command_views(commands@) =~= seq![commands@[0]@]);
            Ok(BuildPlan { tool: owned("go"), commands, output: BuildOutput::File { path: out_path } })
        },
        BuildMethod::Make => {
            let args = clone_strings(&spec.args);
            commands.push(command("make", args, repo_dir, spec));
            assert(command_views(commands@) =~= seq![commands@[0]@]);
            Ok(BuildPlan { tool: owned("make"), commands, output: BuildOutput::ChangedExecutables })
        },
        BuildMethod::Cmake => {
            let build_dir = join(repo_dir, "build");
            let mut config: Vec<String> = Vec::new();
            config.push(owned("-S"));
            config.push(owned("."));
            config.push(owned("-B"));
            config.push(build_dir.clone());
            config.push(owned("-DCMAKE_BUILD_TYPE=Release"));
            config.push(concat("-DCMAKE_RUNTIME_OUTPUT_DIRECTORY=", out_dir));
            assert(views(config@) =~= seq![
                "-S"@,
                "."@,
                "-B"@,
                path_join(repo_dir@, "build"@),
                "-DCMAKE_BUILD_TYPE=Release"@,
                "-DCMAKE_RUNTIME_OUTPUT_DIRECTORY="@ + out_dir@,
            ]);
            append_all(&mut config, &spec.args);
            let mut b: Vec<String> = Vec::new();
            b.push(owned("--build"));
            b.push(build_dir);
            b.push(owned("--config"));
            b.push(owned("Release"));
            commands.push(command("cmake", config, repo_dir, spec));
            commands.push(command("cmake", b, repo_dir, spec));
            proof {
                assert(commands@[1]@.args =~= seq![
                    "--build"@,
                    path_join(repo_dir@, "build"@),
                    "--config"@,
                    "Release"@,
                ]);
                assert(command_views(commands@) =~= seq![commands@[0]@, commands@[1]@]);
            }
            Ok(
                BuildPlan {
                    tool: owned("cmake"),
                    commands,
                    output: BuildOutput::ExecutablesIn { dir: owned(out_dir) },
                },
            )
        },
        BuildMethod::Gcc | BuildMethod::Gpp => {
            let gcc = spec.method == BuildMethod::Gcc;
            let sources_v = if gcc {
                &sources.c_sources
            } else {
                &sources.cpp_sources
            };
            if sources_v.len() == 0 {
                if gcc {
                    return Err(TajError::NoSources { language: owned(".c"), tool: owned("gcc") });
                } else {
                    return Err(TajError::NoSources { language: owned("C++"), tool: owned("g++") });
                }
            }
            let mut args: Vec<String> = Vec::new();
            args.push(owned("-O2"));
            args.push(owned("-o"));
            args.push(out_path.clone());
            assert(views(args@) =~= seq!["-O2"@, "-o"@, out_path@]);
            append_all(&mut args, sources_v);
            append_all(&mut args, &spec.args);
            let tool = if gcc {
                owned("gcc")
            } else {
                owned("g++")
            };
            commands.push(command(tool.as_str(), args, repo_dir, spec));
            assert(command_views(commands@) =~= seq![commands@[0]@]);
            Ok(BuildPlan { tool, commands, output: BuildOutput::File { path: out_path } })
        },
        BuildMethod::Rustc => {
            let main = if sources.src_main_rs {
                let src = join(repo_dir, "src");
                join(src.as_str(), "main.rs")
            } else if sources.main_rs {
                join(repo_dir, "main.rs")
            } else {
                return Err(TajError::NoMainRs);
            };
            let mut args: Vec<String> = Vec::new();
            let ghost mv = main@;
            args.push(owned("-O"));
            args.push(main);
            args.push(owned("-o"));
            args.push(out_path.clone());
            assert(views(args@) =~= seq!["-O"@, mv, "-o"@, out_path@]);
            append_all(&mut args, &spec.args);
            commands.push(command("rustc", args, repo_dir, spec));
            assert(command_views(commands@) =~= seq![commands@[0]@]);
            Ok(BuildPlan { tool: owned("rustc"), commands, output: BuildOutput::File { path: out_path } })
        },
        BuildMethod::Autotools => Err(TajError::UnsupportedBuildMethod { method: owned("autotools") }),
        BuildMethod::Meson => Err(TajError::UnsupportedBuildMethod { method: owned("meson") }),
    }
}

/// A build outcome with "no build" read as an error (for stating what
/// [`build_no_output`] gives).
pub open spec fn unwrap_plan(r: Result<Option<BuildPlan>, TajError>) -> Result<BuildPlan, TajError> {
    match r {
        Ok(Some(p)) => Ok(p),
        Ok(None) => Err(TajError::NoExecutable),
        Err(e) => Err(e),
    }
}

/// The build that runs before an install step: none for autotools and
/// meson, whose install step configures and builds; otherwise that of
/// [`build`] (whose output the install step does not use).
pub fn build_no_output(
    repo_dir: &str,
    spec: &BuildSpec,
    name_hint: &str,
    out_dir: &str,
    sources: &SourceProbe,
) -> (r: Result<Option<BuildPlan>, TajError>)
    requires
        spec.wf(),
    ensures
        (spec.method == BuildMethod::Autotools || spec.method == BuildMethod::Meson) ==> r
            == Ok::<Option<BuildPlan>, TajError>(None),
        !(spec.method == BuildMethod::Autotools || spec.method == BuildMethod::Meson) ==> (!(r
            matches Ok(None)) && build_plan_ok(
            unwrap_plan(r),
            repo_dir@,
            *spec,
            name_hint@,
            out_dir@,
            *sources,
        )),
        r matches Ok(Some(p)) ==> forall|i: int|
            0 <= i < p.commands@.len() ==> (#[trigger] p.commands@[i]).wf(),
{
    match spec.method {
        BuildMethod::Autotools | BuildMethod::Meson => Ok(None),
        _ => match build(repo_dir, spec, name_hint, out_dir, sources) {
            Ok(p) => Ok(Some(p)),
            Err(e) => Err(e),
        },
    }
}

/// How a build tool is named when its output is missing: `cargo build` and
/// `go build`, the others by their own name.
pub open spec fn producer_name(tool: Seq<char>) -> Seq<char> {
    if tool == "cargo"@ {
        "cargo build"@
    } else if tool == "go"@ {
        "go build"@
    } else {
        tool
    }
}

/// The error for a build of `tool` that left out `path`.
pub fn output_missing(tool: &str, path: &str) -> (r: TajError)
    ensures
        r matches TajError::BuildOutputMissing { tool: t, path: p } && t@ == producer_name(tool@)
            && p@ == path@,
{
    let name = if str_eq(tool, "cargo") {
        owned("cargo build")
    } else if str_eq(tool, "go") {
        owned("go build")
    } else {
        owned(tool)
    };
    TajError::BuildOutputMissing { tool: name, path: owned(path) }
}

/// Where `cargo build --release` leaves the binary: `target/release/NAME`
/// in the repository, NAME being the build's binary, else the one the
/// manifest text names, else the package's.
pub fn cargo_binary_path(repo_dir: &str, spec: &BuildSpec, manifest: &str, name_hint: &str) -> (r: Result<
    String,
    TajError,
>)
    ensures
        spec.bin matches Some(b) ==> (r matches Ok(p) && p@ == path_join(
            path_join(path_join(repo_dir@, "target"@), "release"@),
            b@,
        )),
        spec.bin is None ==> match cargo_manifest_of(manifest@) {
            Some(m) => r matches Ok(p) && p@ == path_join(
                path_join(path_join(repo_dir@, "target"@), "release"@),
                match cargo_bin_of(m) {
                    Some(n) => n,
                    None => name_hint@,
                },
            ),
            None => r matches Err(TajError::InvalidManifest { .. }),
        },
{
    let bin_name = match &spec.bin {
        Some(b) => b.clone(),
        None => match cargo_bin_name(manifest)? {
            Some(n) => n,
            None => owned(name_hint),
        },
    };
    let target = join(repo_dir, "target");
    let release = join(target.as_str(), "release");
    Ok(join(release.as_str(), bin_name.as_str()))
}

/// The record with this path that comes last in `s`, if any.
pub open spec fn last_with_path(s: Seq<ExecutableInfo>, path: Seq<char>) -> Option<ExecutableInfo>
    decreases s.len(),
{
    if s.len() == 0 {
        None
    } else if s.last().path@ == path {
        Some(s.last())
    } else {
        last_with_path(s.drop_last(), path)
    }
}

/// A file counts as made by the build when it is new, or newer, or of
/// another size than before.
pub open spec fn is_changed(item: ExecutableInfo, before: Option<ExecutableInfo>) -> bool {
    match before {
        None => true,
        Some(p) => (item.modified matches Some(m) && p.modified matches Some(q) && m > q)
            || item.size != p.size,
    }
}

/// The files of `after` that a build created or changed, in order.
pub open spec fn changed_of(before: Seq<ExecutableInfo>, after: Seq<ExecutableInfo>) -> Seq<ExecutableInfo>
    decreases after.len(),
{
    if after.len() == 0 {
        Seq::empty()
    } else {
        let rest = changed_of(before, after.drop_last());
        if is_changed(after.last(), last_with_path(before, after.last().path@)) {
            rest.push(after.last())
        } else {
            rest
        }
    }
}

fn find_last_with_path(before: &Vec<ExecutableInfo>, path: &String) -> (r: Option<usize>)
    ensures
        match last_with_path(before@, path@) {
            Some(e) => r matches Some(i) && i < before@.len() && before@[i as int] == e,
            None => r is None,
        },
{
    let target = chars_of(path.as_str());
    let mut i: usize = before.len();
    assert(before@.subrange(0, before@.len() as int) =~= before@);
    while i > 0
        invariant
            i <= before@.len(),
            target@ == path@,
            last_with_path(before@, path@) == last_with_path(before@.subrange(0, i as int), path@),
        decreases i,
    {
        let c = chars_of(before[i - 1].path.as_str());
        let ghost pre = before@.subrange(0, i as int);
        assert(pre.last() == before@[i - 1]);
        if chars_eq(&c, &target) {
            return Some(i - 1);
        }
        assert(pre.drop_last() =~= before@.subrange(0, i - 1));
        i = i - 1;
    }
    None
}

/// The files that a build created or changed (see [`changed_of`]).
pub fn diff_executables(before: &Vec<ExecutableInfo>, after: &Vec<ExecutableInfo>) -> (r: Vec<ExecutableInfo>)
    ensures
        r@ == changed_of(before@, after@),
{
    let mut diff: Vec<ExecutableInfo> = Vec::new();
    let mut i: usize = 0;
    while i < after.len()
        invariant
            i <= after.len(),
            diff@ == changed_of(before@, after@.subrange(0, i as int)),
        decreases after.len() - i,
    {
        let item = &after[i];
        let changed = match find_last_with_path(before, &item.path) {
            None => true,
            Some(j) => {
                let prev = &before[j];
                let newer = match (item.modified, prev.modified) {
                    (Some(m), Some(q)) => m > q,
                    _ => false,
                };
                newer || item.size != prev.size
            },
        };
        let ghost cur = after@.subrange(0, i + 1);
        assert(cur.drop_last() =~= after@.subrange(0, i as int));
        assert(cur.last() == after@[i as int]);
        if changed {
            diff.push(ExecutableInfo {
                path: item.path.clone(),
                file_name: crate::text::clone_opt(&item.file_name),
                size: item.size,
                modified: item.modified,
            });
        }
        i = i + 1;
    }
    assert(after@.subrange(0, after.len() as int) =~= after@);
    diff
}

/// `k` is the executable a pick falls on when no name decides: a largest
/// one, the last of those in order.
pub open spec fn is_largest_last(c: Seq<ExecutableInfo>, k: int) -> bool {
    &&& 0 <= k < c.len()
    &&& forall|j: int| 0 <= j < c.len() ==> #[trigger] c[j].size <= c[k].size
    &&& forall|j: int| k < j < c.len() ==> #[trigger] c[j].size < c[k].size
}

/// The outcome of [`pick_executable`] among `candidates`, with `desired`
/// the wanted file name.
pub open spec fn pick_ok(
    r: Result<String, TajError>,
    candidates: Seq<ExecutableInfo>,
    desired: Option<Seq<char>>,
) -> bool {
    &&& candidates.len() == 0 ==> (r matches Err(TajError::NoExecutable))
    &&& candidates.len() > 0 ==> (r matches Ok(p) && exists|k: int|
        0 <= k < candidates.len() && #[trigger] candidates[k].path@ == p@ && {
            ||| (desired matches Some(d) && opt_view(candidates[k].file_name) == Some(d) && forall|
                j: int,
            | 0 <= j < k ==> opt_view(#[trigger] candidates[j].file_name) != Some(d))
            ||| ((desired matches Some(d) ==> forall|j: int|
                0 <= j < candidates.len() ==> opt_view(#[trigger] candidates[j].file_name) != Some(
                    d,
                )) && (candidates.len() == 1 || is_largest_last(candidates, k)))
        })
}

/// The executable a build produced: the first one named as desired, else the
/// only one, else a largest one (the last of those). No executable is an
/// error.
pub fn pick_executable(candidates: &Vec<ExecutableInfo>, desired: Option<&str>) -> (r: Result<
    String,
    TajError,
>)
    ensures
        pick_ok(r, candidates@, match desired {
            Some(d) => Some(d@),
            None => None,
        }),
{
    if candidates.len() == 0 {
        return Err(TajError::NoExecutable);
    }
    if let Some(name) = desired {
        let target = chars_of(name);
        let mut i: usize = 0;
        while i < candidates.len()
            invariant
                i <= candidates.len(),
                target@ == name@,
                desired == Some(name),
                forall|j: int| 0 <= j < i ==> opt_view(#[trigger] candidates@[j].file_name) != Some(name@),
            decreases candidates.len() - i,
        {
            if let Some(f) = &candidates[i].file_name {
                let fc = chars_of(f.as_str());
                if chars_eq(&fc, &target) {
                    let p = candidates[i].path.clone();
                    assert(opt_view(candidates@[i as int].file_name) == Some(name@));
                    assert(candidates@[i as int].path@ == p@);
                    assert(desired matches Some(d) && opt_view(candidates@[i as int].file_name)
                        == Some(d@) && forall|j: int|
                        0 <= j < i ==> opt_view(#[trigger] candidates@[j].file_name) != Some(d@));
                    return Ok(p);
                }
            }
            i = i + 1;
        }
    }
    if candidates.len() == 1 {
        let p = candidates[0].path.clone();
        assert(candidates@[0].path@ == p@);
        return Ok(p);
    }
    let mut k: usize = 0;
    let mut i: usize = 1;
    while i < candidates.len()
        invariant
            1 <= i <= candidates.len(),
            k < i,
            forall|j: int| 0 <= j < i ==> #[trigger] candidates@[j].size <= candidates@[k as int].size,
            forall|j: int| k < j < i ==> #[trigger] candidates@[j].size < candidates@[k as int].size,
        decreases candidates.len() - i,
    {
        if candidates[i].size >= candidates[k].size {
            k = i;
        }
        i = i + 1;
    }
    let p = candidates[k].path.clone();
    assert(is_largest_last(candidates@, k as int));
    assert(candidates@[k as int].path@ == p@);
    Ok(p)
}

/// Whether a file with this extension is a source of the language.
pub open spec fn is_source(ext: Option<Seq<char>>, extensions: Seq<Seq<char>>) -> bool {
    ext matches Some(e) && exists|j: int| 0 <= j < extensions.len() && eq_ignore_ascii_case(
        e,
        #[trigger] extensions[j],
    )
}

/// The paths of the files (path, extension) whose extension is one of
/// `extensions` up to ASCII case, in order.
pub fn collect_sources(files: &Vec<(String, Option<String>)>, extensions: &Vec<String>) -> (r: Vec<String>)
    ensures
        views(r@) == files@.filter(|f: (String, Option<String>)| is_source(opt_view(f.1), views(extensions@))).map_values(
            |f: (String, Option<String>)| f.0@,
        ),
{
    let ghost pred = |f: (String, Option<String>)| is_source(opt_view(f.1), views(extensions@));
    let mut r: Vec<String> = Vec::new();
    let mut i: usize = 0;
    while i < files.len()
        invariant
            i <= files.len(),
            pred == |f: (String, Option<String>)| is_source(opt_view(f.1), views(extensions@)),
            views(r@) == files@.subrange(0, i as int).filter(pred).map_values(
                |f: (String, Option<String>)| f.0@,
            ),
        decreases files.len() - i,
    {
        let mut hit = false;
        if let Some(e) = &files[i].1 {
            let mut j: usize = 0;
            while j < extensions.len()
                invariant_except_break
                    !hit,
                invariant
                    j <= extensions.len(),
                    forall|m: int| 0 <= m < j ==> !eq_ignore_ascii_case(e@, #[trigger] views(extensions@)[m]),
                ensures
                    hit ==> exists|m: int| 0 <= m < extensions@.len() && eq_ignore_ascii_case(e@, #[trigger] views(extensions@)[m]),
                    !hit ==> forall|m: int| 0 <= m < extensions@.len() ==> !eq_ignore_ascii_case(e@, #[trigger] views(extensions@)[m]),
                decreases extensions.len() - j,
            {
                if str_eq_ignore_ascii_case(e.as_str(), extensions[j].as_str()) {
                    assert(eq_ignore_ascii_case(e@, views(extensions@)[j as int]));
                    hit = true;
                    break;
                }
                j = j + 1;
            }
        }
        assert(hit == pred(files@[i as int]));
        let ghost before = r@;
        let ghost cur = files@.subrange(0, i + 1);
        assert(cur.drop_last() =~= files@.subrange(0, i as int));
        reveal_with_fuel(Seq::filter, 1);
        if hit {
            r.push(files[i].0.clone());
            assert(views(r@) =~= views(before).push(files@[i as int].0@));
        }
        i = i + 1;
        assert(views(r@) =~= files@.subrange(0, i as int).filter(pred).map_values(
            |f: (String, Option<String>)| f.0@,
        ));
    }
    assert(files@.subrange(0, files.len() as int) =~= files@);
    r
}

} // verus!
