//! Installing a package from a checked-out repository: the decisions of the
//! install, step by step. The caller carries out each [`Task`] (directories,
//! commands, copies, looking at the disk) and reports back with a [`Report`].
use vstd::prelude::*;
use crate::builder::{
    build, build_no_output, build_plan_ok, cargo_binary_path, changed_of, diff_executables,
    is_largest_last, output_missing, pick_executable, producer_name, unwrap_plan, BuildOutput,
    BuildPlan, ExecutableInfo, SourceProbe,
};
use crate::buildspec::{cargo_bin_of, cargo_manifest_of, BuildMethod, BuildSpec};
use crate::command::{command_views, CommandPlan};
use crate::config::Config;
use crate::conflicts::{check_install_conflicts, conflicts_of, is_ownership_index};
use crate::error::TajError;
use crate::install::{
    binary_destination, cleanup_stale_files, collect_stage_destinations, no_other_owner,
    previous_record, record_install, repeats_at, InstallMode,
};
use crate::order::{strictly_sorted, views};
use crate::path::{is_absolute, join, path_join};
use crate::prefix::{
    build_spec_with_prefix, check_root_allowed, install_prefix_of, is_system_dir_spec,
    prefixed_args, primary_bin_path, resolve_install_prefix, stage_payload_candidate,
    stage_payload_root, staged_binary, strip_root_of,
};
use crate::state::{opt_view, record_files, InstallRecord, InstallRecordView, State};
use crate::steps::{install_work_dir, run_install, work_dir_of, InstallPlan};
use crate::tajfile::InstallSpec;
use crate::text::{clone_strings, concat3, owned};

verus! {

/// Where an install of a checked-out repository stands.
#[derive(Debug)]
pub enum Phase {
    /// The install directory is being prepared.
    InstallDir,
    /// The build's output directory is being prepared.
    OutDir,
    /// The install prefix is being prepared.
    Prefix,
    /// The sources are being probed, for the build before the install step.
    StagedSources,
    /// The build before the install step is running.
    StagedBuild,
    /// The install step's directory is being looked at.
    WorkDir,
    /// The install step is running into `stage_root`.
    Staging { stage_root: String },
    /// Whether the re-rooted prefix exists under `stage_root` is being
    /// looked at.
    Payload { stage_root: String },
    /// The files under `payload_root` are being listed.
    Listing { stage_root: String, payload_root: String },
    /// Whether the destinations exist is being looked at.
    StagedConflicts { payload_root: String, rel_paths: Vec<String>, targets: Vec<String> },
    /// The staged files are being copied to `targets`.
    Copying { targets: Vec<String> },
    /// Whether the expected binary exists under the prefix is being looked at.
    BinCheck { targets: Vec<String> },
    /// The sources are being probed, for building the binary.
    BinarySources,
    /// The executables of the repository are listed before a make build.
    Before { tool: String, commands: Vec<CommandPlan>, output: BuildOutput },
    /// The build of `tool` is running; `before` lists the executables from
    /// before it.
    Building { tool: String, output: BuildOutput, before: Vec<ExecutableInfo> },
    /// `Cargo.toml` is being read, to name the binary that `tool` built.
    Manifest { tool: String },
    /// Whether the build of `tool` produced `path` is being looked at.
    Output { tool: String, path: String },
    /// The executables of the repository are listed after the build.
    After { before: Vec<ExecutableInfo> },
    /// The executables of the output directory are being listed.
    InDir,
    /// Whether the destination of the binary `built` exists is being looked at.
    DestCheck { built: String, install_name: String, dest: String },
    /// The binary is being copied to `dest`.
    Installing { install_name: String, dest: String },
    /// The files that the upgrade left behind are being removed.
    Cleanup { record: InstallRecord },
    /// The install has ended.
    Finished,
}

/// What the caller is to do next.
#[derive(Debug)]
pub enum Task {
    /// Print `notice` if there is one; create `dir` unless it exists; report
    /// whether `dir` is on `PATH`, and whether `dir/bin` exists and is.
    PrepareDir { dir: String, notice: Option<String> },
    /// Print `notice` if there is one; report the sources in `dir`.
    ProbeSources { dir: String, notice: Option<String> },
    /// Create `dirs`, make sure `tools` are on `PATH`, and run `commands` in
    /// order.
    Run { tools: Vec<String>, dirs: Vec<String>, commands: Vec<CommandPlan> },
    /// Create `dir` when `create`; report whether it exists and whether it
    /// holds `build.ninja`.
    InspectWorkDir { dir: String, create: bool },
    /// Report whether each path exists.
    CheckPaths { paths: Vec<String> },
    /// Report the files under `root` (nothing when it does not exist), as
    /// paths relative to it.
    ListStaged { root: String },
    /// Copy each `rel_paths[i]` under `payload_root` to `targets[i]`.
    CopyStaged {
        payload_root: String,
        rel_paths: Vec<String>,
        targets: Vec<String>,
        overwrite: bool,
    },
    /// Report the text of the file at `path`.
    ReadFile { path: String },
    /// Report the executables under `dir`.
    ListExecutables { dir: String },
    /// Copy the binary `source` to `dest` in `install_dir` and make it
    /// executable.
    InstallBinary { source: String, install_dir: String, dest: String, overwrite: bool },
    /// Remove each path that exists, then the directories under `root` that
    /// this leaves empty.
    RemoveStale { paths: Vec<String>, root: Option<String> },
    /// The package is installed with this record.
    Done(InstallRecord),
    /// The install failed.
    Failed(TajError),
}

/// What the caller found or did.
#[derive(Debug)]
pub enum Report {
    Dir { in_path: bool, bin_exists: bool, bin_in_path: bool },
    Sources(SourceProbe),
    Ran,
    WorkDir { exists: bool, configured: bool },
    Exists(Vec<bool>),
    Staged(Vec<String>),
    Copied,
    Text(String),
    Executables(Vec<ExecutableInfo>),
    Removed,
}

/// An install of the package `name` from the checkout `repo_dir` (under the
/// temporary `build_root`), built as `spec` and, with an `[install]`
/// section, installed through its install step.
#[derive(Debug)]
pub struct ClonedInstall {
    pub name: String,
    pub repo_url: String,
    pub spec: BuildSpec,
    pub install: Option<InstallSpec>,
    pub source_name: Option<String>,
    pub source: String,
    pub mode: InstallMode,
    pub build_root: String,
    pub repo_dir: String,
    pub install_dir: String,
    pub is_root: bool,
    pub out_dir: String,
    /// The record an upgrade replaces.
    pub previous: Option<InstallRecord>,
    /// The install prefix (set once it is known).
    pub prefix: String,
    /// The build specification, adjusted for the prefix once it is known.
    pub build_spec: BuildSpec,
    pub phase: Phase,
}

/// A phase of the install through an install step.
pub open spec fn staged_phase(p: Phase) -> bool {
    ||| p is Prefix
    ||| p is StagedSources
    ||| p is StagedBuild
    ||| p is WorkDir
    ||| p is Staging
    ||| p is Payload
    ||| p is Listing
    ||| p is StagedConflicts
    ||| p is Copying
    ||| p is BinCheck
}

/// The warning that the install directory is not on `PATH`.
pub open spec fn install_dir_notice(dir: Seq<char>) -> Seq<char> {
    "warning: install dir "@ + dir + " is not in PATH"@
}

/// The warning that the prefix's `bin` directory is not on `PATH`.
pub open spec fn bin_dir_notice(prefix: Seq<char>) -> Seq<char> {
    "warning: "@ + path_join(prefix, "bin"@) + " is not in PATH"@
}

impl ClonedInstall {
    /// The maps inside are well formed.
    pub open spec fn wf(&self) -> bool {
        &&& self.spec.wf()
        &&& self.build_spec.wf()
        &&& (self.install matches Some(i) ==> i.wf())
        &&& staged_phase(self.phase) ==> self.install is Some
        &&& self.phase is Manifest ==> self.spec.bin is None
    }

    /// The report is the one the install waits for.
    pub open spec fn awaits(&self, report: Report) -> bool {
        match self.phase {
            Phase::InstallDir | Phase::OutDir | Phase::Prefix => report is Dir,
            Phase::StagedSources | Phase::BinarySources => report is Sources,
            Phase::StagedBuild | Phase::Staging { .. } | Phase::Building { .. } => report is Ran,
            Phase::WorkDir => report is WorkDir,
            Phase::Payload { .. } | Phase::Output { .. } => report matches Report::Exists(v)
                && v@.len() == 1,
            Phase::BinCheck { .. } | Phase::DestCheck { .. } => report matches Report::Exists(v)
                && v@.len() == 1,
            Phase::Listing { .. } => report is Staged,
            Phase::StagedConflicts { targets, .. } => report matches Report::Exists(v) && v@.len()
                == targets@.len(),
            Phase::Copying { .. } | Phase::Installing { .. } => report is Copied,
            Phase::Manifest { .. } => report is Text,
            Phase::Before { .. } | Phase::After { .. } | Phase::InDir => report is Executables,
            Phase::Cleanup { .. } => report is Removed,
            Phase::Finished => false,
        }
    }

    /// The request (what is installed, how, and from where) is kept.
    pub open spec fn same_request(&self, other: ClonedInstall) -> bool {
        &&& other.name == self.name
        &&& other.repo_url == self.repo_url
        &&& other.spec == self.spec
        &&& other.install == self.install
        &&& other.source_name == self.source_name
        &&& other.source == self.source
        &&& other.mode == self.mode
        &&& other.build_root == self.build_root
        &&& other.repo_dir == self.repo_dir
        &&& other.install_dir == self.install_dir
        &&& other.is_root == self.is_root
        &&& other.out_dir == self.out_dir
        &&& other.previous == self.previous
    }

    /// The request, the prefix and the build specification are kept.
    pub open spec fn same_setup(&self, other: ClonedInstall) -> bool {
        &&& self.same_request(other)
        &&& other.prefix == self.prefix
        &&& other.build_spec == self.build_spec
    }
}

/// The install step a meson build gets when its description has none:
/// `meson` with no arguments, environment, prefix or staging directory of
/// its own (meson has no build procedure apart from its install step).
pub open spec fn is_default_meson_step(o: Option<InstallSpec>) -> bool {
    o matches Some(i) && i.method@ == "meson"@ && i.args is None && i.env is None && i.prefix is None
        && i.destdir is None
}

/// The install step of a build: the given one, else for meson the default
/// meson step (see [`is_default_meson_step`]), else none.
pub fn install_step_for(spec: &BuildSpec, install: Option<InstallSpec>) -> (r: Option<InstallSpec>)
    ensures
        install is Some ==> r == install,
        install is None && spec.method == BuildMethod::Meson ==> is_default_meson_step(r),
        install is None && spec.method != BuildMethod::Meson ==> r is None,
        r matches Some(i) ==> (install matches Some(j) ==> j.wf()) ==> i.wf(),
{
    match install {
        Some(i) => Some(i),
        None => {
            if spec.method == BuildMethod::Meson {
                Some(
                    InstallSpec {
                        method: owned("meson"),
                        args: None,
                        env: None,
                        prefix: None,
                        destdir: None,
                    },
                )
            } else {
                None
            }
        },
    }
}

/// The directory a checkout is built in: its `subdir` when the build names
/// one, else the checkout itself.
pub fn checkout_build_dir(checkout: &str, spec: &BuildSpec) -> (r: String)
    ensures
        r@ == match spec.subdir {
            Some(s) => path_join(checkout@, s@),
            None => checkout@,
        },
{
    match &spec.subdir {
        Some(s) => join(checkout, s.as_str()),
        None => owned(checkout),
    }
}

/// Starts installing `name` from the checkout `repo_dir`: the install
/// directory of `config` is prepared first. A meson build without an
/// install step goes through the default meson step. In upgrade mode the
/// installed record is kept, to clean up after it.
pub fn start(
    config: &Config,
    state: &State,
    name: String,
    repo_url: String,
    spec: BuildSpec,
    install: Option<InstallSpec>,
    source_name: Option<String>,
    source: String,
    mode: InstallMode,
    build_root: String,
    repo_dir: String,
    is_root: bool,
) -> (r: (ClonedInstall, Task))
    requires
        state.wf(),
        spec.wf(),
        install matches Some(i) ==> i.wf(),
    ensures
        r.0.wf(),
        r.0.name == name,
        r.0.repo_url == repo_url,
        r.0.spec == spec,
        install is Some ==> r.0.install == install,
        install is None && spec.method == BuildMethod::Meson ==> is_default_meson_step(
            r.0.install,
        ),
        install is None && spec.method != BuildMethod::Meson ==> r.0.install is None,
        r.0.source_name == source_name,
        r.0.source == source,
        r.0.mode == mode,
        r.0.build_root == build_root,
        r.0.repo_dir == repo_dir,
        r.0.install_dir@ == config.install_dir@,
        r.0.is_root == is_root,
        r.0.out_dir@ == path_join(build_root@, "out"@),
        mode == InstallMode::Upgrade && state@.contains_key(name@) ==> (r.0.previous matches Some(
            p,
        ) && p@ == state@[name@]),
        !(mode == InstallMode::Upgrade && state@.contains_key(name@)) ==> r.0.previous is None,
        r.0.build_spec@ == spec@,
        r.0.phase is InstallDir,
        r.1 matches Task::PrepareDir { dir, notice } && dir@ == config.install_dir@ && notice is None,
{
    let install_dir = match crate::config::install_dir(config) {
        Ok(d) => d,
        Err(_) => owned(config.install_dir.as_str()),
    };
    let out_dir = join(build_root.as_str(), "out");
    let previous = previous_record(state, name.as_str(), mode);
    let build_spec = spec.duplicate();
    let install = install_step_for(&spec, install);
    let dir = install_dir.clone();
    let m = ClonedInstall {
        name,
        repo_url,
        spec,
        install,
        source_name,
        source,
        mode,
        build_root,
        repo_dir,
        install_dir,
        is_root,
        out_dir,
        previous,
        prefix: String::new(),
        build_spec,
        phase: Phase::InstallDir,
    };
    (m, Task::PrepareDir { dir, notice: None })
}

/// The install fails with `e`, leaving the state as it was.
pub open spec fn fails(m1: ClonedInstall, st0: Map<Seq<char>, InstallRecordView>, st1: Map<
    Seq<char>,
    InstallRecordView,
>, task: Task, e: TajError) -> bool {
    &&& task == Task::Failed(e)
    &&& m1.phase is Finished
    &&& st1 == st0
}

/// A step that only moves on: the prefix and build specification are kept,
/// and the state is unchanged.
pub open spec fn moves_on(
    m0: ClonedInstall,
    m1: ClonedInstall,
    st0: Map<Seq<char>, InstallRecordView>,
    st1: Map<Seq<char>, InstallRecordView>,
) -> bool {
    &&& m0.same_setup(m1)
    &&& st1 == st0
}

/// The install directory was prepared (`in_path`: it is on `PATH`): a
/// system directory needs root; otherwise the output directory is prepared
/// next, with a warning when the install directory is not on `PATH`.
pub open spec fn at_install_dir(
    m0: ClonedInstall,
    m1: ClonedInstall,
    st0: Map<Seq<char>, InstallRecordView>,
    st1: Map<Seq<char>, InstallRecordView>,
    in_path: bool,
    task: Task,
) -> bool {
    &&& moves_on(m0, m1, st0, st1)
    &&& if is_system_dir_spec(m0.install_dir@) && !m0.is_root {
        &&& task matches Task::Failed(TajError::RequiresRoot { what, path })
        &&& what@ == "install dir"@ && path@ == m0.install_dir@
        &&& m1.phase is Finished
    } else {
        &&& task matches Task::PrepareDir { dir, notice }
        &&& dir@ == m0.out_dir@
        &&& opt_view(notice) == if in_path {
            None
        } else {
            Some(install_dir_notice(m0.install_dir@))
        }
        &&& m1.phase is OutDir
    }
}

/// The output directory was prepared: with an install step the prefix (the
/// section's own, else the parent of the install directory) is prepared
/// next; otherwise the sources are probed for the build.
pub open spec fn at_out_dir(
    m0: ClonedInstall,
    m1: ClonedInstall,
    st0: Map<Seq<char>, InstallRecordView>,
    st1: Map<Seq<char>, InstallRecordView>,
    task: Task,
) -> bool {
    &&& m0.same_request(m1)
    &&& st1 == st0
    &&& m1.build_spec == m0.build_spec
    &&& match m0.install {
        Some(i) => {
            &&& m1.prefix@ == match i.prefix {
                Some(p) => p@,
                None => install_prefix_of(m0.install_dir@),
            }
            &&& task matches Task::PrepareDir { dir, notice } && dir@ == m1.prefix@ && notice is None
            &&& m1.phase is Prefix
        },
        None => {
            &&& m1.prefix == m0.prefix
            &&& task matches Task::ProbeSources { dir, notice } && dir@ == m0.repo_dir@
                && notice is None
            &&& m1.phase is BinarySources
        },
    }
}

/// The prefix was prepared (`bin_exists`, `bin_in_path`: its `bin`
/// directory exists, is on `PATH`): a system prefix needs root; otherwise the
/// build is configured for the prefix and the sources are probed, with a
/// warning when the `bin` directory exists off `PATH`.
pub open spec fn at_prefix(
    m0: ClonedInstall,
    m1: ClonedInstall,
    st0: Map<Seq<char>, InstallRecordView>,
    st1: Map<Seq<char>, InstallRecordView>,
    bin_exists: bool,
    bin_in_path: bool,
    task: Task,
) -> bool {
    &&& m0.same_request(m1)
    &&& st1 == st0
    &&& m1.prefix == m0.prefix
    &&& if is_system_dir_spec(m0.prefix@) && !m0.is_root {
        &&& m1.build_spec == m0.build_spec
        &&& task matches Task::Failed(TajError::RequiresRoot { what, path })
        &&& what@ == "install prefix"@ && path@ == m0.prefix@
        &&& m1.phase is Finished
    } else {
        &&& m1.build_spec@ == (crate::buildspec::BuildSpecView {
            args: prefixed_args(m0.spec.method, m0.spec@.args, m0.prefix@),
            ..m0.spec@
        })
        &&& m1.build_spec.method == m0.spec.method
        &&& task matches Task::ProbeSources { dir, notice }
        &&& dir@ == m0.repo_dir@
        &&& opt_view(notice) == if bin_exists && !bin_in_path {
            Some(bin_dir_notice(m0.prefix@))
        } else {
            None
        }
        &&& m1.phase is StagedSources
    }
}

/// The install step's directory is looked at next.
pub open spec fn to_work_dir(
    m0: ClonedInstall,
    m1: ClonedInstall,
    st0: Map<Seq<char>, InstallRecordView>,
    st1: Map<Seq<char>, InstallRecordView>,
    task: Task,
) -> bool {
    &&& moves_on(m0, m1, st0, st1)
    &&& task matches Task::InspectWorkDir { dir, create }
    &&& dir@ == work_dir_of(m0.repo_dir@, m0.build_spec@)
    &&& create == (m0.build_spec.build_dir is Some || m0.build_spec.method == BuildMethod::Cmake
        || m0.build_spec.method == BuildMethod::Meson)
    &&& m1.phase is WorkDir
}

/// The task runs the build `tool` with `commands`.
pub open spec fn runs_build(task: Task, tool: Seq<char>, commands: Seq<CommandPlan>) -> bool {
    task matches Task::Run { tools, dirs, commands: c } && views(tools@) == seq![tool] && dirs@.len()
        == 0 && c@ == commands
}

/// The sources were probed for the build before the install step: autotools
/// and meson need none; other methods build (see [`build_plan_ok`]) first.
pub open spec fn at_staged_sources(
    m0: ClonedInstall,
    m1: ClonedInstall,
    st0: Map<Seq<char>, InstallRecordView>,
    st1: Map<Seq<char>, InstallRecordView>,
    sources: SourceProbe,
    task: Task,
) -> bool {
    let b = m0.build_spec;
    if b.method == BuildMethod::Autotools || b.method == BuildMethod::Meson {
        to_work_dir(m0, m1, st0, st1, task)
    } else {
        ||| (task matches Task::Failed(e) && build_plan_ok(
            Err(e),
            m0.repo_dir@,
            b,
            m0.name@,
            m0.out_dir@,
            sources,
        ) && fails(m1, st0, st1, task, e) && m0.same_setup(m1))
        ||| (task matches Task::Run { tools, commands, .. } && exists|o: BuildOutput|
            build_plan_ok(
                Ok(BuildPlan { tool: tools@[0], commands, output: o }),
                m0.repo_dir@,
                b,
                m0.name@,
                m0.out_dir@,
                sources,
            ) && runs_build(task, tools@[0]@, commands@) && moves_on(m0, m1, st0, st1)
            && m1.phase is StagedBuild)
    }
}

/// The install step was planned (see [`install_plan_ok`]) with what is
/// known of its directory: it runs next, staging into its stage root.
pub open spec fn at_work_dir(
    m0: ClonedInstall,
    m1: ClonedInstall,
    st0: Map<Seq<char>, InstallRecordView>,
    st1: Map<Seq<char>, InstallRecordView>,
    exists: bool,
    configured: bool,
    task: Task,
) -> bool {
    let i = m0.install->0;
    ||| (task matches Task::Failed(e) && crate::steps::install_plan_ok(
        Err(e),
        i,
        m0.repo_dir@,
        m0.build_root@,
        m0.prefix@,
        m0.build_spec,
        exists,
        configured,
    ) && fails(m1, st0, st1, task, e) && m0.same_setup(m1))
    ||| (task matches Task::Run { tools, dirs, commands } && m1.phase matches Phase::Staging {
        stage_root,
    } && crate::steps::install_plan_ok(
        Ok(InstallPlan { tools, dirs, commands, stage_root }),
        i,
        m0.repo_dir@,
        m0.build_root@,
        m0.prefix@,
        m0.build_spec,
        exists,
        configured,
    ) && moves_on(m0, m1, st0, st1))
}

impl ClonedInstall {
    fn on_install_dir(&mut self, in_path: bool) -> (task: Task)
        requires
            old(self).wf(),
        ensures
            final(self).wf(),
            at_install_dir(*old(self), *final(self), Map::empty(), Map::empty(), in_path, task),
    {
        if let Err(e) = check_root_allowed("install dir", self.install_dir.as_str(), self.is_root) {
            proof {
                reveal_strlit("install dir");
            }
            self.phase = Phase::Finished;
            return Task::Failed(e);
        }
        let notice = if in_path {
            None
        } else {
            Some(concat3("warning: install dir ", self.install_dir.as_str(), " is not in PATH"))
        };
        self.phase = Phase::OutDir;
        Task::PrepareDir { dir: self.out_dir.clone(), notice }
    }

    fn on_out_dir(&mut self) -> (task: Task)
        requires
            old(self).wf(),
        ensures
            final(self).wf(),
            at_out_dir(*old(self), *final(self), Map::empty(), Map::empty(), task),
    {
        match &self.install {
            Some(i) => {
                let prefix = resolve_install_prefix(self.install_dir.as_str(), i);
                let dir = prefix.clone();
                self.prefix = prefix;
                self.phase = Phase::Prefix;
                Task::PrepareDir { dir, notice: None }
            },
            None => {
                self.phase = Phase::BinarySources;
                Task::ProbeSources { dir: self.repo_dir.clone(), notice: None }
            },
        }
    }

    fn on_prefix(&mut self, bin_exists: bool, bin_in_path: bool) -> (task: Task)
        requires
            old(self).wf(),
            old(self).install is Some,
        ensures
            final(self).wf(),
            at_prefix(*old(self), *final(self), Map::empty(), Map::empty(), bin_exists, bin_in_path, task),
    {
        if let Err(e) = check_root_allowed("install prefix", self.prefix.as_str(), self.is_root) {
            proof {
                reveal_strlit("install prefix");
            }
            self.phase = Phase::Finished;
            return Task::Failed(e);
        }
        self.build_spec = build_spec_with_prefix(&self.spec, self.prefix.as_str());
        let notice = if bin_exists && !bin_in_path {
            let bin_dir = join(self.prefix.as_str(), "bin");
            Some(concat3("warning: ", bin_dir.as_str(), " is not in PATH"))
        } else {
            None
        };
        self.phase = Phase::StagedSources;
        Task::ProbeSources { dir: self.repo_dir.clone(), notice }
    }

    fn work_dir_task(&mut self) -> (task: Task)
        requires
            old(self).wf(),
            old(self).install is Some,
        ensures
            final(self).wf(),
            to_work_dir(*old(self), *final(self), Map::empty(), Map::empty(), task),
    {
        let (dir, create) = install_work_dir(self.repo_dir.as_str(), &self.build_spec);
        self.phase = Phase::WorkDir;
        Task::InspectWorkDir { dir, create }
    }

    fn on_staged_sources(&mut self, sources: SourceProbe) -> (task: Task)
        requires
            old(self).wf(),
            old(self).install is Some,
        ensures
            final(self).wf(),
            at_staged_sources(*old(self), *final(self), Map::empty(), Map::empty(), sources, task),
    {
        match build_no_output(
            self.repo_dir.as_str(),
            &self.build_spec,
            self.name.as_str(),
            self.out_dir.as_str(),
            &sources,
        ) {
            Err(e) => {
                self.phase = Phase::Finished;
                Task::Failed(e)
            },
            Ok(None) => self.work_dir_task(),
            Ok(Some(plan)) => {
                let BuildPlan { tool, commands, output } = plan;
                let mut tools: Vec<String> = Vec::new();
                tools.push(tool);
                self.phase = Phase::StagedBuild;
                let task = Task::Run { tools, dirs: Vec::new(), commands };
                proof {
                    assert(build_plan_ok(
                        Ok(BuildPlan { tool: tools@[0], commands, output }),
                        self.repo_dir@,
                        self.build_spec,
                        self.name@,
                        self.out_dir@,
                        sources,
                    ));
                    assert(views(tools@) =~= seq![tools@[0]@]);
                }
                task
            },
        }
    }

    fn on_work_dir(&mut self, exists: bool, configured: bool) -> (task: Task)
        requires
            old(self).wf(),
            old(self).install is Some,
        ensures
            final(self).wf(),
            at_work_dir(*old(self), *final(self), Map::empty(), Map::empty(), exists, configured, task),
    {
        let install = self.install.as_ref().unwrap();
        match run_install(
            install,
            self.repo_dir.as_str(),
            self.build_root.as_str(),
            self.prefix.as_str(),
            &self.build_spec,
            exists,
            configured,
        ) {
            Err(e) => {
                self.phase = Phase::Finished;
                Task::Failed(e)
            },
            Ok(plan) => {
                let InstallPlan { tools, dirs, commands, stage_root } = plan;
                self.phase = Phase::Staging { stage_root };
                Task::Run { tools, dirs, commands }
            },
        }
    }
}

/// The install step ran: with an absolute prefix, whether the prefix
/// re-rooted under the stage root exists is looked at; otherwise the stage
/// root's files are listed.
pub open spec fn at_staging(
    m0: ClonedInstall,
    m1: ClonedInstall,
    st0: Map<Seq<char>, InstallRecordView>,
    st1: Map<Seq<char>, InstallRecordView>,
    stage_root: Seq<char>,
    task: Task,
) -> bool {
    &&& moves_on(m0, m1, st0, st1)
    &&& if is_absolute(m0.prefix@) {
        &&& task matches Task::CheckPaths { paths } && views(paths@) == seq![
            path_join(stage_root, strip_root_of(m0.prefix@)),
        ]
        &&& m1.phase matches Phase::Payload { stage_root: r } && r@ == stage_root
    } else {
        &&& task matches Task::ListStaged { root } && root@ == stage_root
        &&& m1.phase matches Phase::Listing { stage_root: r, payload_root } && r@ == stage_root
            && payload_root@ == stage_root
    }
}

/// Whether the re-rooted prefix exists is known: the files of the payload
/// root (it, when it exists, else the stage root) are listed.
pub open spec fn at_payload(
    m0: ClonedInstall,
    m1: ClonedInstall,
    st0: Map<Seq<char>, InstallRecordView>,
    st1: Map<Seq<char>, InstallRecordView>,
    stage_root: Seq<char>,
    exists: bool,
    task: Task,
) -> bool {
    let payload = if is_absolute(m0.prefix@) && exists {
        path_join(stage_root, strip_root_of(m0.prefix@))
    } else {
        stage_root
    };
    &&& moves_on(m0, m1, st0, st1)
    &&& task matches Task::ListStaged { root } && root@ == payload
    &&& m1.phase matches Phase::Listing { stage_root: r, payload_root } && r@ == stage_root
        && payload_root@ == payload
}

/// The staged files are known: their destinations (see
/// [`stage_destinations_ok`]) are looked at next.
pub open spec fn at_listing(
    m0: ClonedInstall,
    m1: ClonedInstall,
    st0: Map<Seq<char>, InstallRecordView>,
    st1: Map<Seq<char>, InstallRecordView>,
    stage_root: Seq<char>,
    payload_root: Seq<char>,
    rel_paths: Seq<Seq<char>>,
    task: Task,
) -> bool {
    ||| (task matches Task::Failed(e) && crate::install::stage_destinations_ok(
        Err(e),
        rel_paths,
        m0.prefix@,
        stage_root,
    ) && fails(m1, st0, st1, task, e) && m0.same_setup(m1))
    ||| (task matches Task::CheckPaths { paths } && crate::install::stage_destinations_ok(
        Ok(paths),
        rel_paths,
        m0.prefix@,
        stage_root,
    ) && (m1.phase matches Phase::StagedConflicts { payload_root: pr, rel_paths: rp, targets }
        && pr@ == payload_root && views(rp@) == rel_paths && views(targets@) == views(paths@)
        && moves_on(m0, m1, st0, st1)))
}

/// Whether the destinations exist is known: conflicts (see
/// [`conflict_check_ok`]) stop the install; otherwise the staged files are
/// copied, replacing what is there only in upgrade mode.
pub open spec fn at_staged_conflicts(
    m0: ClonedInstall,
    m1: ClonedInstall,
    st0: Map<Seq<char>, InstallRecordView>,
    st1: Map<Seq<char>, InstallRecordView>,
    payload_root: Seq<char>,
    rel_paths: Seq<Seq<char>>,
    targets: Seq<Seq<char>>,
    on_disk: Seq<bool>,
    task: Task,
) -> bool {
    ||| (task matches Task::Failed(e) && crate::conflicts::conflict_check_ok(
        Err(e),
        st0,
        m0.name@,
        targets,
        on_disk,
    ) && fails(m1, st0, st1, task, e) && m0.same_setup(m1))
    ||| (task matches Task::CopyStaged { payload_root: pr, rel_paths: rp, targets: t, overwrite }
        && crate::conflicts::conflict_check_ok(Ok(()), st0, m0.name@, targets, on_disk) && pr@
        == payload_root && views(rp@) == rel_paths && views(t@) == targets && overwrite == (m0.mode
        == InstallMode::Upgrade) && (m1.phase matches Phase::Copying { targets: t2 } && views(t2@)
        == targets && moves_on(m0, m1, st0, st1)))
}

/// The staged files were copied: whether the expected binary exists under
/// the prefix is looked at.
pub open spec fn at_copying(
    m0: ClonedInstall,
    m1: ClonedInstall,
    st0: Map<Seq<char>, InstallRecordView>,
    st1: Map<Seq<char>, InstallRecordView>,
    targets: Seq<Seq<char>>,
    task: Task,
) -> bool {
    &&& moves_on(m0, m1, st0, st1)
    &&& task matches Task::CheckPaths { paths } && views(paths@) == seq![
        path_join(
            path_join(m0.prefix@, "bin"@),
            match m0.build_spec.bin {
                Some(b) => b@,
                None => m0.name@,
            },
        ),
    ]
    &&& m1.phase matches Phase::BinCheck { targets: t } && views(t@) == targets
}

/// The record an install of `m` ends with, installed now.
pub open spec fn record_ok(
    r: InstallRecordView,
    m: ClonedInstall,
    bin_name: Seq<char>,
    bin_path: Seq<char>,
    files: Seq<Seq<char>>,
    install_root: Option<Seq<char>>,
) -> bool {
    &&& r.name == m.name@
    &&& r.bin_name == bin_name
    &&& r.bin_path == bin_path
    &&& r.repo == m.repo_url@
    &&& r.source == m.source@
    &&& r.files == files
    &&& r.install_root == install_root
    &&& r.source_name == opt_view(m.source_name)
    &&& !r.is_meta
}

/// The install ends with a record, entered in the state; after an upgrade,
/// the files the previous record leaves behind (see [`stale_files_ok`]) are
/// removed first.
pub open spec fn finish_ok(
    m0: ClonedInstall,
    m1: ClonedInstall,
    st0: Map<Seq<char>, InstallRecordView>,
    st1: Map<Seq<char>, InstallRecordView>,
    bin_name: Seq<char>,
    bin_path: Seq<char>,
    files: Seq<Seq<char>>,
    install_root: Option<Seq<char>>,
    task: Task,
) -> bool {
    &&& m0.same_setup(m1)
    &&& match m0.previous {
        Some(p) => {
            &&& task matches Task::RemoveStale { paths, root }
            &&& m1.phase matches Phase::Cleanup { record }
            &&& record_ok(record@, m0, bin_name, bin_path, files, install_root)
            &&& st1 == st0.insert(m0.name@, record@)
            &&& opt_view(root) == p@.install_root
            &&& crate::install::stale_files_ok(views(paths@), st1, p@, record@)
        },
        None => {
            &&& task matches Task::Done(record)
            &&& record_ok(record@, m0, bin_name, bin_path, files, install_root)
            &&& st1 == st0.insert(m0.name@, record@)
            &&& m1.phase is Finished
        },
    }
}

/// Whether the expected binary exists is known: the install ends with the
/// build's binary name (else the package's), the binary's path when it
/// exists (else the prefix), the copied files and the prefix as root.
pub open spec fn at_bin_check(
    m0: ClonedInstall,
    m1: ClonedInstall,
    st0: Map<Seq<char>, InstallRecordView>,
    st1: Map<Seq<char>, InstallRecordView>,
    targets: Seq<Seq<char>>,
    exists: bool,
    task: Task,
) -> bool {
    let bin_name = match m0.build_spec.bin {
        Some(b) => b@,
        None => m0.name@,
    };
    let bin_path = if exists {
        path_join(path_join(m0.prefix@, "bin"@), bin_name)
    } else {
        m0.prefix@
    };
    finish_ok(m0, m1, st0, st1, bin_name, bin_path, targets, Some(m0.prefix@), task)
}

/// The stale files were removed: the install is done.
pub open spec fn at_cleanup(
    m0: ClonedInstall,
    m1: ClonedInstall,
    st0: Map<Seq<char>, InstallRecordView>,
    st1: Map<Seq<char>, InstallRecordView>,
    record: InstallRecord,
    task: Task,
) -> bool {
    &&& moves_on(m0, m1, st0, st1)
    &&& task matches Task::Done(r) && r == record
    &&& m1.phase is Finished
}

impl ClonedInstall {
    fn on_staging(&mut self, stage_root: String) -> (task: Task)
        requires
            old(self).wf(),
            old(self).install is Some,
        ensures
            final(self).wf(),
            at_staging(*old(self), *final(self), Map::empty(), Map::empty(), stage_root@, task),
    {
        match stage_payload_candidate(stage_root.as_str(), self.prefix.as_str()) {
            Some(c) => {
                let mut paths: Vec<String> = Vec::new();
                paths.push(c);
                assert(views(paths@) =~= seq![paths@[0]@]);
                self.phase = Phase::Payload { stage_root };
                Task::CheckPaths { paths }
            },
            None => {
                let root = stage_root.clone();
                self.phase = Phase::Listing { payload_root: stage_root.clone(), stage_root };
                Task::ListStaged { root }
            },
        }
    }

    fn on_payload(&mut self, stage_root: String, exists: bool) -> (task: Task)
        requires
            old(self).wf(),
            old(self).install is Some,
        ensures
            final(self).wf(),
            at_payload(*old(self), *final(self), Map::empty(), Map::empty(), stage_root@, exists, task),
    {
        let payload_root = stage_payload_root(stage_root.as_str(), self.prefix.as_str(), exists);
        let root = payload_root.clone();
        self.phase = Phase::Listing { stage_root, payload_root };
        Task::ListStaged { root }
    }

    fn on_listing(&mut self, stage_root: String, payload_root: String, rel_paths: Vec<String>) -> (task: Task)
        requires
            old(self).wf(),
            old(self).install is Some,
        ensures
            final(self).wf(),
            at_listing(
                *old(self),
                *final(self),
                Map::empty(),
                Map::empty(),
                stage_root@,
                payload_root@,
                views(rel_paths@),
                task,
            ),
    {
        match collect_stage_destinations(&rel_paths, self.prefix.as_str(), stage_root.as_str()) {
            Err(e) => {
                self.phase = Phase::Finished;
                Task::Failed(e)
            },
            Ok(paths) => {
                let targets = clone_strings(&paths);
                self.phase = Phase::StagedConflicts { payload_root, rel_paths, targets };
                Task::CheckPaths { paths }
            },
        }
    }

    fn on_staged_conflicts(
        &mut self,
        state: &State,
        payload_root: String,
        rel_paths: Vec<String>,
        targets: Vec<String>,
        on_disk: Vec<bool>,
    ) -> (task: Task)
        requires
            old(self).wf(),
            old(self).install is Some,
            state.wf(),
            on_disk@.len() == targets@.len(),
        ensures
            final(self).wf(),
            at_staged_conflicts(
                *old(self),
                *final(self),
                state@,
                state@,
                payload_root@,
                views(rel_paths@),
                views(targets@),
                on_disk@,
                task,
            ),
    {
        match check_install_conflicts(state, self.name.as_str(), &targets, &on_disk) {
            Err(e) => {
                self.phase = Phase::Finished;
                Task::Failed(e)
            },
            Ok(()) => {
                let kept = clone_strings(&targets);
                self.phase = Phase::Copying { targets: kept };
                Task::CopyStaged {
                    payload_root,
                    rel_paths,
                    targets,
                    overwrite: self.mode == InstallMode::Upgrade,
                }
            },
        }
    }

    fn on_copying(&mut self, targets: Vec<String>) -> (task: Task)
        requires
            old(self).wf(),
            old(self).install is Some,
        ensures
            final(self).wf(),
            at_copying(*old(self), *final(self), Map::empty(), Map::empty(), views(targets@), task),
    {
        let expected = match &self.build_spec.bin {
            Some(b) => primary_bin_path(self.prefix.as_str(), Some(b.as_str()), self.name.as_str()),
            None => primary_bin_path(self.prefix.as_str(), None, self.name.as_str()),
        };
        let mut paths: Vec<String> = Vec::new();
        paths.push(expected);
        assert(views(paths@) =~= seq![paths@[0]@]);
        self.phase = Phase::BinCheck { targets };
        Task::CheckPaths { paths }
    }

    /// Enters the record and moves on to the cleanup of an upgrade, or ends.
    fn finish(
        &mut self,
        state: &mut State,
        bin_name: String,
        bin_path: String,
        files: Vec<String>,
        install_root: Option<String>,
    ) -> (task: Task)
        requires
            old(self).wf(),
            old(state).wf(),
        ensures
            final(self).wf(),
            final(state).wf(),
            finish_ok(
                *old(self),
                *final(self),
                old(state)@,
                final(state)@,
                bin_name@,
                bin_path@,
                views(files@),
                opt_view(install_root),
                task,
            ),
    {
        let record = record_install(
            state,
            self.name.as_str(),
            self.repo_url.as_str(),
            self.source.as_str(),
            crate::text::clone_opt(&self.source_name),
            bin_name,
            bin_path,
            files,
            install_root,
        );
        match &self.previous {
            Some(p) => {
                let paths = cleanup_stale_files(state, p, &record);
                let root = crate::text::clone_opt(&p.install_root);
                self.phase = Phase::Cleanup { record };
                Task::RemoveStale { paths, root }
            },
            None => {
                self.phase = Phase::Finished;
                Task::Done(record)
            },
        }
    }

    fn on_bin_check(&mut self, state: &mut State, targets: Vec<String>, exists: bool) -> (task: Task)
        requires
            old(self).wf(),
            old(self).install is Some,
            old(state).wf(),
        ensures
            final(self).wf(),
            final(state).wf(),
            at_bin_check(
                *old(self),
                *final(self),
                old(state)@,
                final(state)@,
                views(targets@),
                exists,
                task,
            ),
    {
        let (bin_name, bin_path) = staged_binary(
            self.prefix.as_str(),
            &self.build_spec.bin,
            self.name.as_str(),
            exists,
        );
        let root = self.prefix.clone();
        self.finish(state, bin_name, bin_path, targets, Some(root))
    }
}

/// The sources were probed for building the binary (see
/// [`build_plan_ok`]): a make build lists the repository's executables
/// first; other builds run at once.
pub open spec fn at_binary_sources(
    m0: ClonedInstall,
    m1: ClonedInstall,
    st0: Map<Seq<char>, InstallRecordView>,
    st1: Map<Seq<char>, InstallRecordView>,
    sources: SourceProbe,
    task: Task,
) -> bool {
    let spec = m0.spec;
    ||| (task matches Task::Failed(e) && build_plan_ok(
        Err(e),
        m0.repo_dir@,
        spec,
        m0.name@,
        m0.out_dir@,
        sources,
    ) && fails(m1, st0, st1, task, e) && m0.same_setup(m1))
    ||| (task matches Task::ListExecutables { dir } && dir@ == m0.repo_dir@ && (
    m1.phase matches Phase::Before { tool, commands, output } && output
        == BuildOutput::ChangedExecutables && build_plan_ok(
        Ok(BuildPlan { tool, commands, output }),
        m0.repo_dir@,
        spec,
        m0.name@,
        m0.out_dir@,
        sources,
    ) && moves_on(m0, m1, st0, st1)))
    ||| (task matches Task::Run { commands, .. } && (m1.phase matches Phase::Building {
        tool,
        output,
        before,
    } && output != BuildOutput::ChangedExecutables && before@.len() == 0 && build_plan_ok(
        Ok(BuildPlan { tool, commands, output }),
        m0.repo_dir@,
        spec,
        m0.name@,
        m0.out_dir@,
        sources,
    ) && runs_build(task, tool@, commands@) && moves_on(m0, m1, st0, st1)))
}

/// The executables from before a make build are known: the build runs.
pub open spec fn at_before(
    m0: ClonedInstall,
    m1: ClonedInstall,
    st0: Map<Seq<char>, InstallRecordView>,
    st1: Map<Seq<char>, InstallRecordView>,
    tool: String,
    commands: Seq<CommandPlan>,
    output: BuildOutput,
    before: Seq<ExecutableInfo>,
    task: Task,
) -> bool {
    &&& moves_on(m0, m1, st0, st1)
    &&& runs_build(task, tool@, commands)
    &&& m1.phase matches Phase::Building { tool: t, output: o, before: b } && t == tool && o
        == output && b@ == before
}

/// Where cargo leaves release builds in the repository.
pub open spec fn release_dir(repo_dir: Seq<char>) -> Seq<char> {
    path_join(path_join(repo_dir, "target"@), "release"@)
}

/// The build ran: its output is looked for — a cargo binary named by the
/// build (else by `Cargo.toml`, which is read first), the file it writes,
/// the executables it created or changed, or those in its output directory.
pub open spec fn at_building(
    m0: ClonedInstall,
    m1: ClonedInstall,
    st0: Map<Seq<char>, InstallRecordView>,
    st1: Map<Seq<char>, InstallRecordView>,
    tool: String,
    output: BuildOutput,
    before: Seq<ExecutableInfo>,
    task: Task,
) -> bool {
    &&& moves_on(m0, m1, st0, st1)
    &&& match output {
        BuildOutput::CargoBinary => match m0.spec.bin {
            Some(b) => {
                &&& task matches Task::CheckPaths { paths } && views(paths@) == seq![
                    path_join(release_dir(m0.repo_dir@), b@),
                ]
                &&& m1.phase matches Phase::Output { tool: t, path } && t == tool && path@
                    == path_join(release_dir(m0.repo_dir@), b@)
            },
            None => {
                &&& task matches Task::ReadFile { path } && path@ == path_join(
                    m0.repo_dir@,
                    "Cargo.toml"@,
                )
                &&& m1.phase matches Phase::Manifest { tool: t } && t == tool
            },
        },
        BuildOutput::File { path } => {
            &&& task matches Task::CheckPaths { paths } && views(paths@) == seq![path@]
            &&& m1.phase matches Phase::Output { tool: t, path: p } && t == tool && p == path
        },
        BuildOutput::ChangedExecutables => {
            &&& task matches Task::ListExecutables { dir } && dir@ == m0.repo_dir@
            &&& m1.phase matches Phase::After { before: b } && b@ == before
        },
        BuildOutput::ExecutablesIn { dir } => {
            &&& task matches Task::ListExecutables { dir: d } && d@ == dir@
            &&& m1.phase is InDir
        },
    }
}

/// The binary `built` is to be installed as the build's binary name (else
/// the package's) in the install directory: whether that exists is looked
/// at.
pub open spec fn built_ok(
    m0: ClonedInstall,
    m1: ClonedInstall,
    st0: Map<Seq<char>, InstallRecordView>,
    st1: Map<Seq<char>, InstallRecordView>,
    built: Seq<char>,
    task: Task,
) -> bool {
    let install_name = match m0.spec.bin {
        Some(b) => b@,
        None => m0.name@,
    };
    let dest = path_join(m0.install_dir@, install_name);
    &&& moves_on(m0, m1, st0, st1)
    &&& task matches Task::CheckPaths { paths } && views(paths@) == seq![dest]
    &&& m1.phase matches Phase::DestCheck { built: b, install_name: n, dest: d } && b@ == built
        && n@ == install_name && d@ == dest
}

/// `Cargo.toml` was read (`content`): the binary it names (else the
/// package's) under the release directory is looked for; text that is not
/// TOML stops the install.
pub open spec fn at_manifest(
    m0: ClonedInstall,
    m1: ClonedInstall,
    st0: Map<Seq<char>, InstallRecordView>,
    st1: Map<Seq<char>, InstallRecordView>,
    tool: String,
    content: Seq<char>,
    task: Task,
) -> bool {
    match cargo_manifest_of(content) {
        Some(m) => {
            let p = path_join(
                release_dir(m0.repo_dir@),
                match cargo_bin_of(m) {
                    Some(n) => n,
                    None => m0.name@,
                },
            );
            &&& moves_on(m0, m1, st0, st1)
            &&& task matches Task::CheckPaths { paths } && views(paths@) == seq![p]
            &&& m1.phase matches Phase::Output { tool: t, path } && t == tool && path@ == p
        },
        None => task matches Task::Failed(e) && e is InvalidManifest && fails(m1, st0, st1, task, e)
            && m0.same_setup(m1),
    }
}

/// Whether the build's file exists is known: a missing one stops the
/// install; otherwise it is the binary to install.
pub open spec fn at_output(
    m0: ClonedInstall,
    m1: ClonedInstall,
    st0: Map<Seq<char>, InstallRecordView>,
    st1: Map<Seq<char>, InstallRecordView>,
    tool: Seq<char>,
    path: Seq<char>,
    exists: bool,
    task: Task,
) -> bool {
    if exists {
        built_ok(m0, m1, st0, st1, path, task)
    } else {
        &&& task matches Task::Failed(TajError::BuildOutputMissing { tool: t, path: p })
        &&& t@ == producer_name(tool) && p@ == path
        &&& m1.phase is Finished && st1 == st0 && m0.same_setup(m1)
    }
}

/// The binary is picked among `candidates` (see [`pick_ok`]).
pub open spec fn picked(
    m0: ClonedInstall,
    m1: ClonedInstall,
    st0: Map<Seq<char>, InstallRecordView>,
    st1: Map<Seq<char>, InstallRecordView>,
    candidates: Seq<ExecutableInfo>,
    task: Task,
) -> bool {
    let desired = opt_view(m0.spec.bin);
    ||| (task matches Task::Failed(e) && crate::builder::pick_ok(Err(e), candidates, desired)
        && fails(m1, st0, st1, task, e) && m0.same_setup(m1))
    ||| (m1.phase matches Phase::DestCheck { built, .. } && crate::builder::pick_ok(
        Ok(built),
        candidates,
        desired,
    ) && built_ok(m0, m1, st0, st1, built@, task))
}

/// Whether the destination exists is known: a conflict (see
/// [`conflict_check_ok`]) stops the install; otherwise the binary is copied
/// there, replacing what is there only in upgrade mode.
pub open spec fn at_dest_check(
    m0: ClonedInstall,
    m1: ClonedInstall,
    st0: Map<Seq<char>, InstallRecordView>,
    st1: Map<Seq<char>, InstallRecordView>,
    built: Seq<char>,
    install_name: Seq<char>,
    dest: Seq<char>,
    exists: bool,
    task: Task,
) -> bool {
    ||| (task matches Task::Failed(e) && crate::conflicts::conflict_check_ok(
        Err(e),
        st0,
        m0.name@,
        seq![dest],
        seq![exists],
    ) && fails(m1, st0, st1, task, e) && m0.same_setup(m1))
    ||| (task matches Task::InstallBinary { source, install_dir, dest: d, overwrite }
        && crate::conflicts::conflict_check_ok(Ok(()), st0, m0.name@, seq![dest], seq![exists])
        && source@ == built && install_dir == m0.install_dir && d@ == dest && overwrite == (m0.mode
        == InstallMode::Upgrade) && (m1.phase matches Phase::Installing { install_name: n, dest: d2 }
        && n@ == install_name && d2@ == dest && moves_on(m0, m1, st0, st1)))
}

/// The binary was copied: the install ends with it as the only file.
pub open spec fn at_installing(
    m0: ClonedInstall,
    m1: ClonedInstall,
    st0: Map<Seq<char>, InstallRecordView>,
    st1: Map<Seq<char>, InstallRecordView>,
    install_name: Seq<char>,
    dest: Seq<char>,
    task: Task,
) -> bool {
    finish_ok(m0, m1, st0, st1, install_name, dest, seq![dest], None, task)
}

impl ClonedInstall {
    fn on_binary_sources(&mut self, sources: SourceProbe) -> (task: Task)
        requires
            old(self).wf(),
        ensures
            final(self).wf(),
            at_binary_sources(*old(self), *final(self), Map::empty(), Map::empty(), sources, task),
    {
        match build(
            self.repo_dir.as_str(),
            &self.spec,
            self.name.as_str(),
            self.out_dir.as_str(),
            &sources,
        ) {
            Err(e) => {
                self.phase = Phase::Finished;
                Task::Failed(e)
            },
            Ok(plan) => {
                let BuildPlan { tool, commands, output } = plan;
                match output {
                    BuildOutput::ChangedExecutables => {
                        self.phase = Phase::Before { tool, commands, output };
                        Task::ListExecutables { dir: self.repo_dir.clone() }
                    },
                    _ => {
                        let mut tools: Vec<String> = Vec::new();
                        tools.push(tool.clone());
                        assert(views(tools@) =~= seq![tool@]);
                        self.phase = Phase::Building { tool, output, before: Vec::new() };
                        Task::Run { tools, dirs: Vec::new(), commands }
                    },
                }
            },
        }
    }

    fn on_before(
        &mut self,
        tool: String,
        commands: Vec<CommandPlan>,
        output: BuildOutput,
        before: Vec<ExecutableInfo>,
    ) -> (task: Task)
        requires
            old(self).wf(),
        ensures
            final(self).wf(),
            at_before(
                *old(self),
                *final(self),
                Map::empty(),
                Map::empty(),
                tool,
                commands@,
                output,
                before@,
                task,
            ),
    {
        let mut tools: Vec<String> = Vec::new();
        tools.push(tool.clone());
        assert(views(tools@) =~= seq![tool@]);
        self.phase = Phase::Building { tool, output, before };
        Task::Run { tools, dirs: Vec::new(), commands }
    }

    fn on_building(&mut self, tool: String, output: BuildOutput, before: Vec<ExecutableInfo>) -> (task: Task)
        requires
            old(self).wf(),
        ensures
            final(self).wf(),
            at_building(
                *old(self),
                *final(self),
                Map::empty(),
                Map::empty(),
                tool,
                output,
                before@,
                task,
            ),
    {
        match output {
            BuildOutput::CargoBinary => match &self.spec.bin {
                Some(b) => {
                    let target = join(self.repo_dir.as_str(), "target");
                    let release = join(target.as_str(), "release");
                    let path = join(release.as_str(), b.as_str());
                    let mut paths: Vec<String> = Vec::new();
                    paths.push(path.clone());
                    assert(views(paths@) =~= seq![path@]);
                    self.phase = Phase::Output { tool, path };
                    Task::CheckPaths { paths }
                },
                None => {
                    self.phase = Phase::Manifest { tool };
                    Task::ReadFile { path: join(self.repo_dir.as_str(), "Cargo.toml") }
                },
            },
            BuildOutput::File { path } => {
                let mut paths: Vec<String> = Vec::new();
                paths.push(path.clone());
                assert(views(paths@) =~= seq![path@]);
                self.phase = Phase::Output { tool, path };
                Task::CheckPaths { paths }
            },
            BuildOutput::ChangedExecutables => {
                self.phase = Phase::After { before };
                Task::ListExecutables { dir: self.repo_dir.clone() }
            },
            BuildOutput::ExecutablesIn { dir } => {
                self.phase = Phase::InDir;
                Task::ListExecutables { dir }
            },
        }
    }

    fn to_built(&mut self, built: String) -> (task: Task)
        requires
            old(self).wf(),
        ensures
            final(self).wf(),
            built_ok(*old(self), *final(self), Map::empty(), Map::empty(), built@, task),
            final(self).phase matches Phase::DestCheck { built: b, .. } && b == built,
    {
        let (install_name, dest) = binary_destination(
            self.install_dir.as_str(),
            &self.spec.bin,
            self.name.as_str(),
        );
        let mut paths: Vec<String> = Vec::new();
        paths.push(dest.clone());
        assert(views(paths@) =~= seq![dest@]);
        self.phase = Phase::DestCheck { built, install_name, dest };
        Task::CheckPaths { paths }
    }

    fn on_manifest(&mut self, tool: String, content: String) -> (task: Task)
        requires
            old(self).wf(),
            old(self).spec.bin is None,
        ensures
            final(self).wf(),
            at_manifest(*old(self), *final(self), Map::empty(), Map::empty(), tool, content@, task),
    {
        match cargo_binary_path(
            self.repo_dir.as_str(),
            &self.spec,
            content.as_str(),
            self.name.as_str(),
        ) {
            Err(e) => {
                self.phase = Phase::Finished;
                Task::Failed(e)
            },
            Ok(path) => {
                let mut paths: Vec<String> = Vec::new();
                paths.push(path.clone());
                assert(views(paths@) =~= seq![path@]);
                self.phase = Phase::Output { tool, path };
                Task::CheckPaths { paths }
            },
        }
    }

    fn on_output(&mut self, tool: String, path: String, exists: bool) -> (task: Task)
        requires
            old(self).wf(),
        ensures
            final(self).wf(),
            at_output(*old(self), *final(self), Map::empty(), Map::empty(), tool@, path@, exists, task),
    {
        if exists {
            self.to_built(path)
        } else {
            self.phase = Phase::Finished;
            Task::Failed(output_missing(tool.as_str(), path.as_str()))
        }
    }

    fn pick(&mut self, candidates: Vec<ExecutableInfo>) -> (task: Task)
        requires
            old(self).wf(),
        ensures
            final(self).wf(),
            picked(*old(self), *final(self), Map::empty(), Map::empty(), candidates@, task),
    {
        let r = match &self.spec.bin {
            Some(b) => pick_executable(&candidates, Some(b.as_str())),
            None => pick_executable(&candidates, None),
        };
        match r {
            Err(e) => {
                self.phase = Phase::Finished;
                Task::Failed(e)
            },
            Ok(built) => self.to_built(built),
        }
    }

    fn on_dest_check(
        &mut self,
        state: &State,
        built: String,
        install_name: String,
        dest: String,
        exists: bool,
    ) -> (task: Task)
        requires
            old(self).wf(),
            state.wf(),
        ensures
            final(self).wf(),
            at_dest_check(
                *old(self),
                *final(self),
                state@,
                state@,
                built@,
                install_name@,
                dest@,
                exists,
                task,
            ),
    {
        let mut targets: Vec<String> = Vec::new();
        targets.push(dest.clone());
        let mut on_disk: Vec<bool> = Vec::new();
        on_disk.push(exists);
        assert(views(targets@) =~= seq![dest@]);
        assert(on_disk@ =~= seq![exists]);
        match check_install_conflicts(state, self.name.as_str(), &targets, &on_disk) {
            Err(e) => {
                self.phase = Phase::Finished;
                Task::Failed(e)
            },
            Ok(()) => {
                let d = dest.clone();
                self.phase = Phase::Installing { install_name, dest };
                Task::InstallBinary {
                    source: built,
                    install_dir: self.install_dir.clone(),
                    dest: d,
                    overwrite: self.mode == InstallMode::Upgrade,
                }
            },
        }
    }

    fn on_installing(&mut self, state: &mut State, install_name: String, dest: String) -> (task: Task)
        requires
            old(self).wf(),
            old(state).wf(),
        ensures
            final(self).wf(),
            final(state).wf(),
            at_installing(*old(self), *final(self), old(state)@, final(state)@, install_name@, dest@, task),
    {
        let mut files: Vec<String> = Vec::new();
        files.push(dest.clone());
        assert(views(files@) =~= seq![dest@]);
        self.finish(state, install_name, dest, files, None)
    }
}

/// A step of the install does what the phase it was in says, for the
/// report it was given.
pub open spec fn step_ok(
    m0: ClonedInstall,
    m1: ClonedInstall,
    st0: Map<Seq<char>, InstallRecordView>,
    st1: Map<Seq<char>, InstallRecordView>,
    report: Report,
    task: Task,
) -> bool {
    match m0.phase {
        Phase::InstallDir => report matches Report::Dir { in_path, .. } && at_install_dir(
            m0,
            m1,
            st0,
            st1,
            in_path,
            task,
        ),
        Phase::OutDir => at_out_dir(m0, m1, st0, st1, task),
        Phase::Prefix => report matches Report::Dir { bin_exists, bin_in_path, .. } && at_prefix(
            m0,
            m1,
            st0,
            st1,
            bin_exists,
            bin_in_path,
            task,
        ),
        Phase::StagedSources => report matches Report::Sources(p) && at_staged_sources(
            m0,
            m1,
            st0,
            st1,
            p,
            task,
        ),
        Phase::StagedBuild => to_work_dir(m0, m1, st0, st1, task),
        Phase::WorkDir => report matches Report::WorkDir { exists, configured } && at_work_dir(
            m0,
            m1,
            st0,
            st1,
            exists,
            configured,
            task,
        ),
        Phase::Staging { stage_root } => at_staging(m0, m1, st0, st1, stage_root@, task),
        Phase::Payload { stage_root } => report matches Report::Exists(v) && at_payload(
            m0,
            m1,
            st0,
            st1,
            stage_root@,
            v@[0],
            task,
        ),
        Phase::Listing { stage_root, payload_root } => report matches Report::Staged(rel)
            && at_listing(m0, m1, st0, st1, stage_root@, payload_root@, views(rel@), task),
        Phase::StagedConflicts { payload_root, rel_paths, targets } => report matches Report::Exists(
            v,
        ) && at_staged_conflicts(
            m0,
            m1,
            st0,
            st1,
            payload_root@,
            views(rel_paths@),
            views(targets@),
            v@,
            task,
        ),
        Phase::Copying { targets } => at_copying(m0, m1, st0, st1, views(targets@), task),
        Phase::BinCheck { targets } => report matches Report::Exists(v) && at_bin_check(
            m0,
            m1,
            st0,
            st1,
            views(targets@),
            v@[0],
            task,
        ),
        Phase::BinarySources => report matches Report::Sources(p) && at_binary_sources(
            m0,
            m1,
            st0,
            st1,
            p,
            task,
        ),
        Phase::Before { tool, commands, output } => report matches Report::Executables(b)
            && at_before(m0, m1, st0, st1, tool, commands@, output, b@, task),
        Phase::Building { tool, output, before } => at_building(
            m0,
            m1,
            st0,
            st1,
            tool,
            output,
            before@,
            task,
        ),
        Phase::Manifest { tool } => report matches Report::Text(c) && at_manifest(
            m0,
            m1,
            st0,
            st1,
            tool,
            c@,
            task,
        ),
        Phase::Output { tool, path } => report matches Report::Exists(v) && at_output(
            m0,
            m1,
            st0,
            st1,
            tool@,
            path@,
            v@[0],
            task,
        ),
        Phase::After { before } => report matches Report::Executables(after) && picked(
            m0,
            m1,
            st0,
            st1,
            changed_of(before@, after@),
            task,
        ),
        Phase::InDir => report matches Report::Executables(list) && picked(
            m0,
            m1,
            st0,
            st1,
            list@,
            task,
        ),
        Phase::DestCheck { built, install_name, dest } => report matches Report::Exists(v)
            && at_dest_check(m0, m1, st0, st1, built@, install_name@, dest@, v@[0], task),
        Phase::Installing { install_name, dest } => at_installing(
            m0,
            m1,
            st0,
            st1,
            install_name@,
            dest@,
            task,
        ),
        Phase::Cleanup { record } => at_cleanup(m0, m1, st0, st1, record, task),
        Phase::Finished => false,
    }
}

impl ClonedInstall {
    /// Takes the next step: the caller reports what the last task found or
    /// did, and gets the next task (see [`step_ok`]).
    pub fn step(&mut self, state: &mut State, report: Report) -> (task: Task)
        requires
            old(self).wf(),
            old(state).wf(),
            old(self).awaits(report),
        ensures
            final(self).wf(),
            final(state).wf(),
            step_ok(*old(self), *final(self), old(state)@, final(state)@, report, task),
    {
        let mut phase = Phase::Finished;
        std::mem::swap(&mut phase, &mut self.phase);
        match phase {
            Phase::InstallDir => match report {
                Report::Dir { in_path, .. } => self.on_install_dir(in_path),
                _ => {
                    proof {
                        assert(false);
                    }
                    Task::Failed(TajError::NoExecutable)
                },
            },
            Phase::OutDir => self.on_out_dir(),
            Phase::Prefix => match report {
                Report::Dir { bin_exists, bin_in_path, .. } => self.on_prefix(bin_exists, bin_in_path),
                _ => {
                    proof {
                        assert(false);
                    }
                    Task::Failed(TajError::NoExecutable)
                },
            },
            Phase::StagedSources => match report {
                Report::Sources(p) => self.on_staged_sources(p),
                _ => {
                    proof {
                        assert(false);
                    }
                    Task::Failed(TajError::NoExecutable)
                },
            },
            Phase::StagedBuild => self.work_dir_task(),
            Phase::WorkDir => match report {
                Report::WorkDir { exists, configured } => self.on_work_dir(exists, configured),
                _ => {
                    proof {
                        assert(false);
                    }
                    Task::Failed(TajError::NoExecutable)
                },
            },
            Phase::Staging { stage_root } => self.on_staging(stage_root),
            Phase::Payload { stage_root } => match report {
                Report::Exists(v) => self.on_payload(stage_root, v[0]),
                _ => {
                    proof {
                        assert(false);
                    }
                    Task::Failed(TajError::NoExecutable)
                },
            },
            Phase::Listing { stage_root, payload_root } => match report {
                Report::Staged(rel) => self.on_listing(stage_root, payload_root, rel),
                _ => {
                    proof {
                        assert(false);
                    }
                    Task::Failed(TajError::NoExecutable)
                },
            },
            Phase::StagedConflicts { payload_root, rel_paths, targets } => match report {
                Report::Exists(v) => self.on_staged_conflicts(
                    state,
                    payload_root,
                    rel_paths,
                    targets,
                    v,
                ),
                _ => {
                    proof {
                        assert(false);
                    }
                    Task::Failed(TajError::NoExecutable)
                },
            },
            Phase::Copying { targets } => self.on_copying(targets),
            Phase::BinCheck { targets } => match report {
                Report::Exists(v) => self.on_bin_check(state, targets, v[0]),
                _ => {
                    proof {
                        assert(false);
                    }
                    Task::Failed(TajError::NoExecutable)
                },
            },
            Phase::BinarySources => match report {
                Report::Sources(p) => self.on_binary_sources(p),
                _ => {
                    proof {
                        assert(false);
                    }
                    Task::Failed(TajError::NoExecutable)
                },
            },
            Phase::Before { tool, commands, output } => match report {
                Report::Executables(b) => self.on_before(tool, commands, output, b),
                _ => {
                    proof {
                        assert(false);
                    }
                    Task::Failed(TajError::NoExecutable)
                },
            },
            Phase::Building { tool, output, before } => self.on_building(tool, output, before),
            Phase::Manifest { tool } => match report {
                Report::Text(c) => self.on_manifest(tool, c),
                _ => {
                    proof {
                        assert(false);
                    }
                    Task::Failed(TajError::NoExecutable)
                },
            },
            Phase::Output { tool, path } => match report {
                Report::Exists(v) => self.on_output(tool, path, v[0]),
                _ => {
                    proof {
                        assert(false);
                    }
                    Task::Failed(TajError::NoExecutable)
                },
            },
            Phase::After { before } => match report {
                Report::Executables(after) => {
                    let candidates = diff_executables(&before, &after);
                    self.pick(candidates)
                },
                _ => {
                    proof {
                        assert(false);
                    }
                    Task::Failed(TajError::NoExecutable)
                },
            },
            Phase::InDir => match report {
                Report::Executables(list) => self.pick(list),
                _ => {
                    proof {
                        assert(false);
                    }
                    Task::Failed(TajError::NoExecutable)
                },
            },
            Phase::DestCheck { built, install_name, dest } => match report {
                Report::Exists(v) => self.on_dest_check(state, built, install_name, dest, v[0]),
                _ => {
                    proof {
                        assert(false);
                    }
                    Task::Failed(TajError::NoExecutable)
                },
            },
            Phase::Installing { install_name, dest } => self.on_installing(state, install_name, dest),
            Phase::Cleanup { record } => {
                self.phase = Phase::Finished;
                Task::Done(record)
            },
            Phase::Finished => {
                proof {
                    assert(false);
                }
                Task::Failed(TajError::NoExecutable)
            },
        }
    }
}

} // verus!
