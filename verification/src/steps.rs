//! The install step of a package that has an `[install]` section: which
//! commands stage its files, with which arguments and environment.
use vstd::prelude::*;
use crate::assoc::{assoc_map, has_key, keys_distinct, lemma_assoc_empty, lemma_assoc_push};
use crate::buildspec::{BuildMethod, BuildSpec, lowercase_of, to_lowercase};
use crate::command::{CommandPlan, CommandView, command_views};
use crate::envmap::EnvMap;
use crate::error::TajError;
use crate::order::views;
use crate::path::{join, path_join};
use crate::state::{opt_view, pair_views};
use crate::tajfile::InstallSpec;
use crate::text::{any_starts_with, clone_strings, concat, contains_str, owned, starts_with, str_eq};

verus! {

/// Everything an install step needs: the tools that must be on `PATH`, the
/// directories to create, the commands to run in order, and the directory
/// the files are staged under.
#[derive(Debug)]
pub struct InstallPlan {
    pub tools: Vec<String>,
    pub dirs: Vec<String>,
    pub commands: Vec<CommandPlan>,
    pub stage_root: String,
}

/// `base` with the variables of `over` set on top (`over` wins).
pub open spec fn merged_env(base: Map<Seq<char>, Seq<char>>, over: Option<EnvMap>) -> Map<
    Seq<char>,
    Seq<char>,
> {
    match over {
        Some(o) => base.union_prefer_right(o@),
        None => base,
    }
}

/// `m` with `k` set to `v` unless it is set already.
pub open spec fn or_insert(m: Map<Seq<char>, Seq<char>>, k: Seq<char>, v: Seq<char>) -> Map<
    Seq<char>,
    Seq<char>,
> {
    if m.contains_key(k) {
        m
    } else {
        m.insert(k, v)
    }
}

/// The build environment with the install step's own variables set on top.
pub fn merge_env(base: &EnvMap, over: &Option<EnvMap>) -> (r: EnvMap)
    requires
        base.wf(),
        over matches Some(o) ==> o.wf(),
    ensures
        r.wf(),
        r@ == merged_env(base@, *over),
{
    let mut r = base.duplicate();
    match over {
        None => r,
        Some(o) => {
            let pairs = o.to_pairs();
            let mut i: usize = 0;
            let n = pairs.len();
            proof {
                lemma_assoc_empty(pair_views(pairs@).subrange(0, 0));
                assert(base@.union_prefer_right(Map::<Seq<char>, Seq<char>>::empty()) =~= base@);
            }
            while i < n
                invariant
                    n == pairs@.len(),
                    i <= n,
                    r.wf(),
                    keys_distinct(pair_views(pairs@)),
                    assoc_map(pair_views(pairs@)) == o@,
                    r@ == base@.union_prefer_right(
                        assoc_map(pair_views(pairs@).subrange(0, i as int)),
                    ),
                decreases n - i,
            {
                let ghost pre = pair_views(pairs@).subrange(0, i as int);
                let ghost kv = pair_views(pairs@)[i as int];
                proof {
                    assert forall|a: int, b: int|
                        0 <= a < pre.len() && 0 <= b < pre.len() && a != b implies #[trigger] pre[a].0
                        != #[trigger] pre[b].0 by {
                        assert(pre[a] == pair_views(pairs@)[a]);
                        assert(pre[b] == pair_views(pairs@)[b]);
                    }
                    if has_key(pre, kv.0) {
                        let j = choose|j: int| 0 <= j < pre.len() && #[trigger] pre[j].0 == kv.0;
                        assert(pair_views(pairs@)[j].0 == kv.0);
                    }
                    lemma_assoc_push(pre, kv.0, kv.1);
                    assert(pair_views(pairs@).subrange(0, i + 1) =~= pre.push(kv));
                }
                r.insert(pairs[i].0.clone(), pairs[i].1.clone());
                proof {
                    assert(r@ =~= base@.union_prefer_right(
                        assoc_map(pair_views(pairs@).subrange(0, i + 1)),
                    ));
                }
                i = i + 1;
            }
            assert(pair_views(pairs@).subrange(0, n as int) =~= pair_views(pairs@));
            r
        },
    }
}

/// Where the install step runs: the build's own build directory under the
/// repository if it names one, `build` for CMake and meson, the repository
/// otherwise.
pub open spec fn work_dir_of(repo_dir: Seq<char>, spec: crate::buildspec::BuildSpecView) -> Seq<char> {
    match spec.build_dir {
        Some(d) => path_join(repo_dir, d),
        None => match spec.method {
            BuildMethod::Cmake | BuildMethod::Meson => path_join(repo_dir, "build"@),
            _ => repo_dir,
        },
    }
}

/// The directory the install step runs in (see [`work_dir_of`]); it is to be
/// created when it is not the repository itself.
pub fn install_work_dir(repo_dir: &str, build_spec: &BuildSpec) -> (r: (String, bool))
    ensures
        r.0@ == work_dir_of(repo_dir@, build_spec@),
        r.1 == (build_spec.build_dir is Some || build_spec.method == BuildMethod::Cmake
            || build_spec.method == BuildMethod::Meson),
{
    if let Some(d) = &build_spec.build_dir {
        return (join(repo_dir, d.as_str()), true);
    }
    match build_spec.method {
        BuildMethod::Cmake | BuildMethod::Meson => (join(repo_dir, "build"), true),
        _ => (owned(repo_dir), false),
    }
}

/// Some argument starts with `p`.
pub open spec fn any_starts(args: Seq<Seq<char>>, p: Seq<char>) -> bool {
    exists|i: int| 0 <= i < args.len() && starts_with(#[trigger] args[i], p)
}

/// `args` with `a` appended unless some argument starts with `p`.
pub open spec fn push_unless(args: Seq<Seq<char>>, p: Seq<char>, a: Seq<char>) -> Seq<Seq<char>> {
    if any_starts(args, p) {
        args
    } else {
        args.push(a)
    }
}

/// The arguments of `make` for an install step: `install` first unless it
/// is given, then `DESTDIR=`, `prefix=` and `PREFIX=` unless given.
pub open spec fn make_install_args(given: Seq<Seq<char>>, destdir: Seq<char>, prefix: Seq<char>) -> Seq<
    Seq<char>,
> {
    let a0 = if given.contains("install"@) {
        given
    } else {
        seq!["install"@] + given
    };
    let a1 = push_unless(a0, "DESTDIR="@, "DESTDIR="@ + destdir);
    let a2 = push_unless(a1, "prefix="@, "prefix="@ + prefix);
    push_unless(a2, "PREFIX="@, "PREFIX="@ + prefix)
}

/// The arguments an install section gives.
pub open spec fn given_args(spec: InstallSpec) -> Seq<Seq<char>> {
    match spec.args {
        Some(a) => views(a@),
        None => Seq::empty(),
    }
}

fn given_args_vec(spec: &InstallSpec) -> (r: Vec<String>)
    ensures
        views(r@) == given_args(*spec),
{
    match &spec.args {
        Some(a) => clone_strings(a),
        None => {
            let v: Vec<String> = Vec::new();
            assert(views(v@) =~= Seq::<Seq<char>>::empty());
            v
        },
    }
}

fn push_unless_exec(args: &mut Vec<String>, p: &str, a: String)
    ensures
        views(final(args)@) == push_unless(views(old(args)@), p@, a@),
{
    if any_starts_with(args, p) {
        proof {
            let i = choose|i: int| 0 <= i < args@.len() && starts_with(#[trigger] args@[i]@, p@);
            assert(views(args@)[i] == args@[i]@);
        }
    } else {
        proof {
            if any_starts(views(args@), p@) {
                let i = choose|i: int| 0 <= i < views(args@).len() && starts_with(
                    #[trigger] views(args@)[i],
                    p@,
                );
                assert(views(args@)[i] == args@[i]@);
            }
        }
        let ghost before = args@;
        args.push(a);
        assert(views(args@) =~= views(before).push(a@));
    }
}

/// The environment of `make install`: the merged environment with
/// `DESTDIR`, `PREFIX` and `prefix` set unless set already.
pub open spec fn make_install_env(
    build_env: Map<Seq<char>, Seq<char>>,
    over: Option<EnvMap>,
    destdir: Seq<char>,
    prefix: Seq<char>,
) -> Map<Seq<char>, Seq<char>> {
    or_insert(
        or_insert(or_insert(merged_env(build_env, over), "DESTDIR"@, destdir), "PREFIX"@, prefix),
        "prefix"@,
        prefix,
    )
}

/// The `make install` command of an install step, run in `work_dir`.
pub fn run_make_install(
    spec: &InstallSpec,
    work_dir: &str,
    destdir: &str,
    prefix: &str,
    build_env: &EnvMap,
) -> (r: CommandPlan)
    requires
        spec.wf(),
        build_env.wf(),
    ensures
        r.wf(),
        r@ == (CommandView {
            program: "make"@,
            args: make_install_args(given_args(*spec), destdir@, prefix@),
            cwd: Some(work_dir@),
            env: Some(make_install_env(build_env@, spec.env, destdir@, prefix@)),
        }),
{
    let mut args = given_args_vec(spec);
    if !contains_str(&args, "install") {
        proof {
            if views(args@).contains("install"@) {
                let i = choose|i: int| 0 <= i < views(args@).len() && views(args@)[i] == "install"@;
                assert(args@[i]@ == "install"@);
            }
        }
        let ghost before = args@;
        args.insert(0, owned("install"));
        assert(views(args@) =~= seq!["install"@] + views(before));
    } else {
        proof {
            let i = choose|i: int| 0 <= i < args@.len() && #[trigger] args@[i]@ == "install"@;
            assert(views(args@)[i] == "install"@);
        }
    }
    push_unless_exec(&mut args, "DESTDIR=", concat("DESTDIR=", destdir));
    push_unless_exec(&mut args, "prefix=", concat("prefix=", prefix));
    push_unless_exec(&mut args, "PREFIX=", concat("PREFIX=", prefix));
    let mut env = merge_env(build_env, &spec.env);
    env.insert_if_absent(owned("DESTDIR"), owned(destdir));
    env.insert_if_absent(owned("PREFIX"), owned(prefix));
    env.insert_if_absent(owned("prefix"), owned(prefix));
    CommandPlan { program: owned("make"), args, cwd: Some(owned(work_dir)), env: Some(env) }
}

/// The `cmake --install` command of an install step, run in the repository.
pub fn run_cmake_install(
    spec: &InstallSpec,
    repo_dir: &str,
    build_dir: &str,
    build_dir_exists: bool,
    destdir: &str,
    prefix: &str,
    build_env: &EnvMap,
) -> (r: CommandPlan)
    requires
        spec.wf(),
        build_env.wf(),
    ensures
        r.wf(),
        r@ == (CommandView {
            program: "cmake"@,
            args: seq![
                "--install"@,
                if build_dir_exists {
                    build_dir@
                } else {
                    repo_dir@
                },
                "--prefix"@,
                prefix@,
            ] + given_args(*spec),
            cwd: Some(repo_dir@),
            env: Some(or_insert(merged_env(build_env@, spec.env), "DESTDIR"@, destdir@)),
        }),
{
    let install_dir = if build_dir_exists {
        owned(build_dir)
    } else {
        owned(repo_dir)
    };
    let mut args: Vec<String> = Vec::new();
    args.push(owned("--install"));
    args.push(install_dir);
    args.push(owned("--prefix"));
    args.push(owned(prefix));
    let given = given_args_vec(spec);
    let mut i: usize = 0;
    let ghost head = views(args@);
    while i < given.len()
        invariant
            i <= given.len(),
            views(args@) == head + views(given@).subrange(0, i as int),
        decreases given.len() - i,
    {
        let ghost before = args@;
        args.push(given[i].clone());
        assert(views(args@) =~= views(before).push(given@[i as int]@));
        i = i + 1;
        assert(views(args@) =~= head + views(given@).subrange(0, i as int));
    }
    assert(views(given@).subrange(0, given.len() as int) =~= views(given@));
    let mut env = merge_env(build_env, &spec.env);
    env.insert_if_absent(owned("DESTDIR"), owned(destdir));
    let r = CommandPlan { program: owned("cmake"), args, cwd: Some(owned(repo_dir)), env: Some(env) };
    assert(r@.args =~= seq![
        "--install"@,
        if build_dir_exists {
            build_dir@
        } else {
            repo_dir@
        },
        "--prefix"@,
        prefix@,
    ] + given_args(*spec));
    r
}

/// The three meson commands of an install step (`setup`, `compile`,
/// `install`), run in the repository; `setup` reconfigures when the build
/// directory is configured already.
pub open spec fn meson_commands(
    given: Seq<Seq<char>>,
    repo_dir: Seq<char>,
    build_dir: Seq<char>,
    configured: bool,
    destdir: Seq<char>,
    prefix: Seq<char>,
    env: Map<Seq<char>, Seq<char>>,
) -> Seq<CommandView> {
    let setup = (if configured {
        seq!["setup"@, "--reconfigure"@]
    } else {
        seq!["setup"@]
    }) + seq![build_dir, "--prefix="@ + prefix] + given;
    seq![
        CommandView { program: "meson"@, args: setup, cwd: Some(repo_dir), env: Some(env) },
        CommandView {
            program: "meson"@,
            args: seq!["compile"@, "-C"@, build_dir],
            cwd: Some(repo_dir),
            env: Some(env),
        },
        CommandView {
            program: "meson"@,
            args: seq!["install"@, "-C"@, build_dir, "--destdir"@, destdir],
            cwd: Some(repo_dir),
            env: Some(env),
        },
    ]
}

/// The meson commands of an install step (see [`meson_commands`]).
pub fn run_meson_install(
    spec: &InstallSpec,
    repo_dir: &str,
    build_dir: &str,
    configured: bool,
    destdir: &str,
    prefix: &str,
    build_env: &EnvMap,
) -> (r: Vec<CommandPlan>)
    requires
        spec.wf(),
        build_env.wf(),
    ensures
        forall|i: int| 0 <= i < r@.len() ==> (#[trigger] r@[i]).wf(),
        command_views(r@) == meson_commands(
            given_args(*spec),
            repo_dir@,
            build_dir@,
            configured,
            destdir@,
            prefix@,
            or_insert(merged_env(build_env@, spec.env), "DESTDIR"@, destdir@),
        ),
{
    let mut env = merge_env(build_env, &spec.env);
    env.insert_if_absent(owned("DESTDIR"), owned(destdir));
    let mut setup: Vec<String> = Vec::new();
    setup.push(owned("setup"));
    if configured {
        setup.push(owned("--reconfigure"));
    }
    setup.push(owned(build_dir));
    setup.push(concat("--prefix=", prefix));
    let given = given_args_vec(spec);
    let ghost head = views(setup@);
    let mut i: usize = 0;
    while i < given.len()
        invariant
            i <= given.len(),
            views(setup@) == head + views(given@).subrange(0, i as int),
        decreases given.len() - i,
    {
        let ghost before = setup@;
        setup.push(given[i].clone());
        assert(views(setup@) =~= views(before).push(given@[i as int]@));
        i = i + 1;
        assert(views(setup@) =~= head + views(given@).subrange(0, i as int));
    }
    assert(views(given@).subrange(0, given.len() as int) =~= views(given@));
    let mut compile: Vec<String> = Vec::new();
    compile.push(owned("compile"));
    compile.push(owned("-C"));
    compile.push(owned(build_dir));
    let mut install: Vec<String> = Vec::new();
    install.push(owned("install"));
    install.push(owned("-C"));
    install.push(owned(build_dir));
    install.push(owned("--destdir"));
    install.push(owned(destdir));
    let mut r: Vec<CommandPlan> = Vec::new();
    r.push(
        CommandPlan {
            program: owned("meson"),
            args: setup,
            cwd: Some(owned(repo_dir)),
            env: Some(env.duplicate()),
        },
    );
    r.push(
        CommandPlan {
            program: owned("meson"),
            args: compile,
            cwd: Some(owned(repo_dir)),
            env: Some(env.duplicate()),
        },
    );
    r.push(CommandPlan { program: owned("meson"), args: install, cwd: Some(owned(repo_dir)), env: Some(env) });
    proof {
        let want = meson_commands(
            given_args(*spec),
            repo_dir@,
            build_dir@,
            configured,
            destdir@,
            prefix@,
            or_insert(merged_env(build_env@, spec.env), "DESTDIR"@, destdir@),
        );
        assert(r@[0]@.args =~= want[0].args);
        assert(r@[1]@.args =~= want[1].args);
        assert(r@[2]@.args =~= want[2].args);
        assert(command_views(r@) =~= want);
    }
    r
}

/// The install methods: `make`, `cmake` and `meson`, by lowercase name.
pub open spec fn install_method_known(m: Seq<char>) -> bool {
    m == "make"@ || m == "cmake"@ || m == "meson"@
}

/// The outcome of [`run_install`]: the install step of `spec` for a build
/// `build_spec` of the checkout `repo_dir`, staged under `build_root`, for
/// the install `prefix`; `build_dir_exists` and `configured` tell whether the
/// work directory exists and holds a configured meson build.
pub open spec fn install_plan_ok(
    r: Result<InstallPlan, TajError>,
    spec: InstallSpec,
    repo_dir: Seq<char>,
    build_root: Seq<char>,
    prefix: Seq<char>,
    build_spec: BuildSpec,
    build_dir_exists: bool,
    configured: bool,
) -> bool {
    &&& !install_method_known(lowercase_of(spec.method@)) ==> (r matches Err(
        TajError::UnsupportedInstallMethod { method },
    ) && method@ == spec.method@)
    &&& install_method_known(lowercase_of(spec.method@)) ==> (r matches Ok(plan) && {
            let destdir = match spec.destdir {
                Some(d) => d@,
                None => path_join(build_root, "stage"@),
            };
            let pfx = match spec.prefix {
                Some(p) => p@,
                None => prefix,
            };
            let work = work_dir_of(repo_dir, build_spec@);
            let m = lowercase_of(spec.method@);
            &&& plan.stage_root@ == destdir
            &&& views(plan.dirs@) == (if build_spec.build_dir is Some || build_spec.method
                == BuildMethod::Cmake || build_spec.method == BuildMethod::Meson {
                seq![path_join(build_root, "stage"@), work]
            } else {
                seq![path_join(build_root, "stage"@)]
            })
            &&& forall|i: int| 0 <= i < plan.commands@.len() ==> (#[trigger] plan.commands@[i]).wf()
            &&& m == "make"@ ==> views(plan.tools@) == seq!["make"@] && command_views(
                plan.commands@,
            ) == seq![
                CommandView {
                    program: "make"@,
                    args: make_install_args(given_args(spec), destdir, pfx),
                    cwd: Some(work),
                    env: Some(make_install_env(build_spec@.env, spec.env, destdir, pfx)),
                },
            ]
            &&& m == "cmake"@ ==> views(plan.tools@) == seq!["cmake"@] && command_views(
                plan.commands@,
            ) == seq![
                CommandView {
                    program: "cmake"@,
                    args: seq![
                        "--install"@,
                        if build_dir_exists {
                            work
                        } else {
                            repo_dir
                        },
                        "--prefix"@,
                        pfx,
                    ] + given_args(spec),
                    cwd: Some(repo_dir),
                    env: Some(or_insert(merged_env(build_spec@.env, spec.env), "DESTDIR"@, destdir)),
                },
            ]
            &&& m == "meson"@ ==> views(plan.tools@) == seq!["meson"@, "ninja"@] && command_views(
                plan.commands@,
            ) == meson_commands(
                given_args(spec),
                repo_dir,
                work,
                configured,
                destdir,
                pfx,
                or_insert(merged_env(build_spec@.env, spec.env), "DESTDIR"@, destdir),
            )
        })
}

/// The install step of a package with an `[install]` section. Files are
/// staged under the section's `destdir`, else `stage` under the build root;
/// the prefix is the section's, else `prefix`. `build_dir_exists` and
/// `configured` tell whether the work directory exists and holds a
/// configured meson build. A method other than make, cmake or meson (in any
/// letter case) is an error.
pub fn run_install(
    spec: &InstallSpec,
    repo_dir: &str,
    build_root: &str,
    prefix: &str,
    build_spec: &BuildSpec,
    build_dir_exists: bool,
    configured: bool,
) -> (r: Result<InstallPlan, TajError>)
    requires
        spec.wf(),
        build_spec.wf(),
    ensures
        install_plan_ok(r, *spec, repo_dir@, build_root@, prefix@, *build_spec, build_dir_exists, configured),
{
    proof {
        reveal_strlit("make");
        reveal_strlit("cmake");
        reveal_strlit("meson");
        assert("make"@.len() != "cmake"@.len());
        assert("make"@.len() != "meson"@.len());
        assert("cmake"@[0] != "meson"@[0]);
    }
    let stage_dir = join(build_root, "stage");
    let destdir = match &spec.destdir {
        Some(d) => d.clone(),
        None => stage_dir.clone(),
    };
    let prefix_value = match &spec.prefix {
        Some(p) => p.clone(),
        None => owned(prefix),
    };
    let (work_dir, make_dir) = install_work_dir(repo_dir, build_spec);
    let mut dirs: Vec<String> = Vec::new();
    dirs.push(stage_dir);
    if make_dir {
        dirs.push(work_dir.clone());
    }
    let method = to_lowercase(spec.method.as_str());
    let mut tools: Vec<String> = Vec::new();
    let mut commands: Vec<CommandPlan> = Vec::new();
    if str_eq(method.as_str(), "make") {
        tools.push(owned("make"));
        commands.push(
            run_make_install(
                spec,
                work_dir.as_str(),
                destdir.as_str(),
                prefix_value.as_str(),
                &build_spec.env,
            ),
        );
        assert(command_views(commands@) =~= seq![commands@[0]@]);
    } else if str_eq(method.as_str(), "cmake") {
        tools.push(owned("cmake"));
        commands.push(
            run_cmake_install(
                spec,
                repo_dir,
                work_dir.as_str(),
                build_dir_exists,
                destdir.as_str(),
                prefix_value.as_str(),
                &build_spec.env,
            ),
        );
        assert(command_views(commands@) =~= seq![commands@[0]@]);
    } else if str_eq(method.as_str(), "meson") {
        tools.push(owned("meson"));
        tools.push(owned("ninja"));
        commands = run_meson_install(
            spec,
            repo_dir,
            work_dir.as_str(),
            configured,
            destdir.as_str(),
            prefix_value.as_str(),
            &build_spec.env,
        );
    } else {
        return Err(TajError::UnsupportedInstallMethod { method: spec.method.clone() });
    }
    let plan = InstallPlan { tools, dirs, commands, stage_root: destdir };
    assert(views(plan.dirs@) =~= (if build_spec.build_dir is Some || build_spec.method
        == BuildMethod::Cmake || build_spec.method == BuildMethod::Meson {
        seq![path_join(build_root@, "stage"@), work_dir_of(repo_dir@, build_spec@)]
    } else {
        seq![path_join(build_root@, "stage"@)]
    }));
    assert(views(plan.tools@) =~= (if method@ == "make"@ {
        seq!["make"@]
    } else if method@ == "cmake"@ {
        seq!["cmake"@]
    } else {
        seq!["meson"@, "ninja"@]
    }));
    Ok(plan)
}

} // verus!
