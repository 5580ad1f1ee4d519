//! Installing a package from the mirror together with its mirror
//! dependencies, depth first, as a state machine.
//!
//! The machine decides; the caller does the outside work that each
//! [`Action`] asks for (loading a `.taj` file, probing build tools, building)
//! and hands the result back as an [`Event`]. The stack of frames is the
//! chain of packages being installed, each a dependency of the one below.
use vstd::prelude::*;
use crate::buildspec::{BuildSpec, lowercase_of, method_named};
use crate::error::TajError;
use crate::install::InstallMode;
use crate::order::views;
use crate::preflight::{DepProbe, missing_libraries_of, missing_tools_of, preflight_deps, probe_fits};
use crate::state::{InstallRecord, InstallRecordView, State};
use crate::tajfile::{InstallSpec, TajFile, is_meta_build};
use crate::text::{clone_strings, contains_str, eq_ignore_ascii_case, str_eq};

verus! {

/// Where a frame stands.
#[derive(Debug)]
pub enum Phase {
    /// Waiting for the package's `.taj` file.
    Loading,
    /// Installing the dependencies; `next` is the next one to visit.
    Deps { taj: TajFile, package: String, meta: bool, next: usize },
    /// Waiting for the probe of the build dependencies.
    Probing { taj: TajFile, package: String, meta: bool },
    /// Waiting for the build and install.
    Building { package: String, repo: String },
}

/// One package being installed: the name it was asked for by, how, and
/// where it stands.
#[derive(Debug)]
pub struct Frame {
    pub name: String,
    pub mode: InstallMode,
    pub strict: bool,
    pub phase: Phase,
}

/// What the caller hands back.
#[derive(Debug)]
pub enum Event {
    /// The `.taj` file asked for by [`Action::LoadTaj`].
    TajLoaded(TajFile),
    /// The probe asked for by [`Action::ProbeDeps`].
    Probed(DepProbe),
    /// The record of the package built for [`Action::Build`], already
    /// entered in the state.
    Built(InstallRecord),
}

/// A build that the caller is to carry out.
#[derive(Debug)]
pub struct BuildRequest {
    pub package: String,
    pub repo: String,
    pub git_ref: Option<String>,
    pub spec: BuildSpec,
    pub install: Option<InstallSpec>,
    pub source_name: String,
    pub mode: InstallMode,
}

/// What the caller is asked to do next.
#[derive(Debug)]
pub enum Action {
    /// Load the `.taj` file of the named mirror package.
    LoadTaj { name: String },
    /// Probe these tools and, when given, pkg-config with these libraries.
    ProbeDeps { tools: Option<Vec<String>>, libraries: Option<Vec<String>> },
    /// Build and install a package.
    Build(BuildRequest),
    /// The requested package is installed; its record.
    Done(InstallRecord),
    /// The install failed.
    Failed(TajError),
}

/// A mirror install in progress.
#[derive(Debug)]
pub struct MirrorInstall {
    frames: Vec<Frame>,
    installed: Vec<String>,
    finished: bool,
}

// ---------------------------------------------------------------------------
// The model
// ---------------------------------------------------------------------------

/// Where a frame stands, as values.
pub enum PhaseView {
    Loading,
    /// Visiting the dependencies of the description `taj` (its `depends`).
    Deps { taj: TajFile, package: Seq<char>, depends: Seq<Seq<char>>, meta: bool, next: int },
    /// Waiting for the probe of the build dependencies of `taj`.
    Probing { taj: TajFile, package: Seq<char>, meta: bool },
    /// Waiting for the build of `package` from the repository `repo`.
    Building { package: Seq<char>, repo: Seq<char> },
}

/// A frame, as values.
pub struct FrameView {
    pub name: Seq<char>,
    pub mode: InstallMode,
    pub strict: bool,
    pub phase: PhaseView,
}

/// The mirror dependencies a description lists.
pub open spec fn depends_of(taj: TajFile) -> Seq<Seq<char>> {
    match taj.depends {
        Some(d) => views(d@),
        None => Seq::empty(),
    }
}

/// The view of a frame.
pub open spec fn frame_view(f: Frame) -> FrameView {
    FrameView {
        name: f.name@,
        mode: f.mode,
        strict: f.strict,
        phase: match f.phase {
            Phase::Loading => PhaseView::Loading,
            Phase::Deps { taj, package, meta, next } => PhaseView::Deps {
                taj,
                package: package@,
                depends: depends_of(taj),
                meta,
                next: next as int,
            },
            Phase::Probing { taj, package, meta } => PhaseView::Probing {
                taj,
                package: package@,
                meta,
            },
            Phase::Building { package, repo } => PhaseView::Building {
                package: package@,
                repo: repo@,
            },
        },
    }
}

/// The names of a chain of frames.
pub open spec fn names_of(frames: Seq<FrameView>) -> Seq<Seq<char>> {
    frames.map_values(|f: FrameView| f.name)
}

/// Frame `i` is visiting the dependency that frame `i + 1` was asked for
/// by, and that frame installs in plain install mode.
pub open spec fn linked_at(frames: Seq<FrameView>, i: int) -> bool {
    &&& frames[i].phase matches PhaseView::Deps { depends, next, .. }
    &&& 1 <= next <= depends.len()
    &&& frames[i + 1].name == depends[next - 1]
    &&& frames[i + 1].mode == InstallMode::Install
    &&& !frames[i + 1].strict
}

/// A chain of frames as a depth-first visit makes it: no name twice; each
/// frame below the top is visiting the dependency that the frame above it
/// was asked for by (see [`linked_at`]).
pub open spec fn chain_ok(frames: Seq<FrameView>) -> bool {
    &&& names_of(frames).no_duplicates()
    &&& forall|i: int| 0 <= i < frames.len() - 1 ==> #[trigger] linked_at(frames, i)
    &&& (frames.len() > 0 ==> (frames.last().phase matches PhaseView::Deps { depends, next, .. }
        ==> 0 <= next <= depends.len()))
}

/// How a step ends, as values.
pub enum Outcome {
    Load(Seq<char>),
    Probe,
    Build(Seq<char>),
    Done(InstallRecordView),
    Cycle(Seq<char>),
    MissingState(Seq<char>),
    AlreadyInstalled(Seq<char>),
    PreflightFailed,
    UnknownMethod(Seq<char>),
}

/// The outcome continues the install (rather than ending it).
pub open spec fn continues(o: Outcome) -> bool {
    o is Load || o is Probe || o is Build
}

/// `a` is the action that stands for `o`.
pub open spec fn action_is(a: Action, o: Outcome) -> bool {
    match o {
        Outcome::Load(n) => a matches Action::LoadTaj { name } && name@ == n,
        Outcome::Probe => a is ProbeDeps,
        Outcome::Build(p) => a matches Action::Build(req) && req.package@ == p,
        Outcome::Done(r) => a matches Action::Done(rec) && rec@ == r,
        Outcome::Cycle(n) => a matches Action::Failed(TajError::DependencyCycle { name })
            && name@ == n,
        Outcome::MissingState(n) => a matches Action::Failed(TajError::MissingState { name })
            && name@ == n,
        Outcome::AlreadyInstalled(n) => a matches Action::Failed(
            TajError::AlreadyInstalled { name },
        ) && name@ == n,
        Outcome::PreflightFailed => a matches Action::Failed(
            TajError::MissingBuildDependencies { .. },
        ),
        Outcome::UnknownMethod(v) => a matches Action::Failed(
            TajError::UnknownBuildMethod { value },
        ) && value@ == v,
    }
}

/// Moving on in the top frame, which is visiting its dependencies: visit
/// the next one (unless it is on the chain already: a cycle), or, when all
/// are done, probe the build dependencies.
pub open spec fn advance(frames: Seq<FrameView>) -> (Seq<FrameView>, Outcome) {
    let top = frames.last();
    match top.phase {
        PhaseView::Deps { taj, package, depends, meta, next } => {
            if next < depends.len() {
                let dep = depends[next];
                let moved = frames.drop_last().push(
                    FrameView {
                        phase: PhaseView::Deps { taj, package, depends, meta, next: next + 1 },
                        ..top
                    },
                );
                if names_of(frames).contains(dep) {
                    (moved, Outcome::Cycle(dep))
                } else {
                    (
                        moved.push(
                            FrameView {
                                name: dep,
                                mode: InstallMode::Install,
                                strict: false,
                                phase: PhaseView::Loading,
                            },
                        ),
                        Outcome::Load(dep),
                    )
                }
            } else {
                (
                    frames.drop_last().push(
                        FrameView { phase: PhaseView::Probing { taj, package, meta }, ..top },
                    ),
                    Outcome::Probe,
                )
            }
        },
        _ => (frames, Outcome::Probe),
    }
}

/// The top frame is done with `record`: the install is done when it was the
/// requested package, else the frame below moves on.
pub open spec fn finish(frames: Seq<FrameView>, record: InstallRecordView) -> (
    Seq<FrameView>,
    Outcome,
) {
    let rest = frames.drop_last();
    if rest.len() == 0 {
        (rest, Outcome::Done(record))
    } else {
        advance(rest)
    }
}

/// The `.taj` file of the top frame has come: its package name (the name in
/// the file, else the name asked for) is settled first if it was installed
/// in this run or, in install mode, is installed already (an error for the
/// requested package, its record for a dependency); otherwise its
/// dependencies are visited.
pub open spec fn on_loaded(
    frames: Seq<FrameView>,
    installed: Seq<Seq<char>>,
    st: Map<Seq<char>, InstallRecordView>,
    t: TajFile,
) -> (Seq<FrameView>, Outcome) {
    let top = frames.last();
    let pkg = match t.name {
        Some(n) => n@,
        None => top.name,
    };
    if installed.contains(pkg) {
        if st.contains_key(pkg) {
            finish(frames, st[pkg])
        } else {
            (frames, Outcome::MissingState(pkg))
        }
    } else if top.mode == InstallMode::Install && top.strict && st.contains_key(pkg) {
        (frames, Outcome::AlreadyInstalled(pkg))
    } else if top.mode == InstallMode::Install && !top.strict && st.contains_key(pkg) {
        finish(frames, st[pkg])
    } else {
        advance(
            frames.drop_last().push(
                FrameView {
                    phase: PhaseView::Deps {
                        taj: t,
                        package: pkg,
                        depends: depends_of(t),
                        meta: eq_ignore_ascii_case(t.build@, "meta"@),
                        next: 0,
                    },
                    ..top
                },
            ),
        )
    }
}

/// The probe came back: a meta package is recorded (with `record`) and done;
/// another package is built when its build method is known.
pub open spec fn on_probed(
    frames: Seq<FrameView>,
    preflight_ok: bool,
    method_known: bool,
    build: Seq<char>,
    record: InstallRecordView,
) -> (Seq<FrameView>, Outcome) {
    let top = frames.last();
    match top.phase {
        PhaseView::Probing { taj, package, meta } => {
            if !preflight_ok {
                (frames, Outcome::PreflightFailed)
            } else if meta {
                finish(frames, record)
            } else if !method_known {
                (frames, Outcome::UnknownMethod(build))
            } else {
                (
                    frames.drop_last().push(
                        FrameView { phase: PhaseView::Building { package, repo: taj.repo@ }, ..top },
                    ),
                    Outcome::Build(package),
                )
            }
        },
        _ => (frames, Outcome::Probe),
    }
}

/// The package of a frame that is past loading.
pub open spec fn package_of(f: FrameView) -> Seq<char> {
    match f.phase {
        PhaseView::Deps { package, .. } => package,
        PhaseView::Probing { package, .. } => package,
        PhaseView::Building { package, .. } => package,
        PhaseView::Loading => f.name,
    }
}

/// The description's build dependencies are all present, by the probe.
pub open spec fn preflight_passes(taj: TajFile, probe: DepProbe) -> bool {
    match taj.deps {
        None => true,
        Some(d) => missing_tools_of(d, probe).len() == 0 && missing_libraries_of(d, probe).len()
            == 0,
    }
}

impl MirrorInstall {
    /// The chain of frames, as values.
    pub closed spec fn frames_view(&self) -> Seq<FrameView> {
        self.frames@.map_values(|f: Frame| frame_view(f))
    }

    /// The packages installed in this run, in order.
    pub closed spec fn installed_view(&self) -> Seq<Seq<char>> {
        views(self.installed@)
    }

    /// Whether the install has ended (done or failed).
    pub closed spec fn is_finished(&self) -> bool {
        self.finished
    }

    /// The descriptions held by the frames are well formed.
    pub closed spec fn tajs_ok(&self) -> bool {
        forall|i: int|
            #![trigger self.frames@[i]]
            0 <= i < self.frames@.len() ==> match self.frames@[i].phase {
                Phase::Deps { taj, meta, .. } => taj.wf() && (taj.deps matches Some(d) ==> d.wf())
                    && meta == eq_ignore_ascii_case(taj.build@, "meta"@),
                Phase::Probing { taj, meta, .. } => taj.wf() && (taj.deps matches Some(d)
                    ==> d.wf()) && meta == eq_ignore_ascii_case(taj.build@, "meta"@),
                _ => true,
            }
    }

    /// An unfinished install has a well-formed chain of frames.
    pub closed spec fn wf(&self) -> bool {
        !self.finished ==> {
            &&& self.frames@.len() > 0
            &&& chain_ok(self.frames_view())
            &&& self.tajs_ok()
        }
    }

    /// The top frame is waiting for a `.taj` file.
    pub open spec fn awaits_taj(&self) -> bool {
        &&& !self.is_finished()
        &&& self.frames_view().len() > 0
        &&& self.frames_view().last().phase is Loading
    }

    /// The top frame is waiting for a probe of its description's build
    /// dependencies, and `probe` has a result for each of them.
    pub open spec fn awaits_probe_for(&self, probe: DepProbe) -> bool {
        &&& !self.is_finished()
        &&& self.frames_view().len() > 0
        &&& self.frames_view().last().phase matches PhaseView::Probing { taj, .. }
        &&& (taj.deps matches Some(d) ==> probe_fits(d, probe))
    }

    /// The top frame is waiting for a build.
    pub open spec fn awaits_build(&self) -> bool {
        &&& !self.is_finished()
        &&& self.frames_view().len() > 0
        &&& self.frames_view().last().phase is Building
    }

    /// `a` asks for a probe of the build dependencies of the top frame's
    /// description, which is waiting for it.
    pub open spec fn awaits_probe_for_request(&self, a: Action) -> bool {
        &&& !self.is_finished()
        &&& self.frames_view().len() > 0
        &&& self.frames_view().last().phase matches PhaseView::Probing { taj, .. }
        &&& probe_request_ok(a, taj)
    }

    /// The description in the top frame, when it is waiting for a probe.
    pub open spec fn probing_taj(&self) -> TajFile {
        self.frames_view().last().phase->Probing_taj
    }
}

/// A probe with a result for each tool and (when pkg-config is there) each
/// library that a probe request names fits the install that made the
/// request.
pub proof fn lemma_probe_fits_request(m: MirrorInstall, a: Action, probe: DepProbe)
    requires
        m.awaits_probe_for_request(a),
        a matches Action::ProbeDeps { tools, libraries } && (tools matches Some(t)
            ==> probe.tools_found@.len() == t@.len()) && (libraries matches Some(l)
            ==> probe.pkg_config_found ==> probe.libraries_found@.len() == l@.len()),
    ensures
        m.awaits_probe_for(probe),
{
}

/// Starts installing the mirror package `name` in `mode`: the first action
/// loads its `.taj` file.
pub fn install_from_mirror_inner(name: &str, mode: InstallMode) -> (r: (MirrorInstall, Action))
    ensures
        r.0.wf(),
        !r.0.is_finished(),
        r.0.frames_view() == seq![
            FrameView {
                name: name@,
                mode,
                strict: true,
                phase: PhaseView::Loading,
            },
        ],
        r.0.installed_view() == Seq::<Seq<char>>::empty(),
        r.1 matches Action::LoadTaj { name: n } && n@ == name@,
        r.0.awaits_taj(),
{
    let mut frames: Vec<Frame> = Vec::new();
    frames.push(
        Frame { name: crate::text::owned(name), mode, strict: true, phase: Phase::Loading },
    );
    let m = MirrorInstall { frames, installed: Vec::new(), finished: false };
    assert(m.frames_view() =~= seq![
        FrameView { name: name@, mode, strict: true, phase: PhaseView::Loading },
    ]);
    assert(m.installed_view() =~= Seq::<Seq<char>>::empty());
    assert(names_of(m.frames_view()) =~= seq![name@]);
    (m, Action::LoadTaj { name: crate::text::owned(name) })
}

/// Starts a new install of the mirror package `name` (an error if it is
/// installed already).
pub fn install_from_mirror(name: &str) -> (r: (MirrorInstall, Action))
    ensures
        r.0.wf(),
        !r.0.is_finished(),
        r.0.frames_view() == seq![
            FrameView {
                name: name@,
                mode: InstallMode::Install,
                strict: true,
                phase: PhaseView::Loading,
            },
        ],
        r.0.installed_view() == Seq::<Seq<char>>::empty(),
        r.1 matches Action::LoadTaj { name: n } && n@ == name@,
        r.0.awaits_taj(),
{
    install_from_mirror_inner(name, InstallMode::Install)
}

/// Starts reinstalling the mirror package `name` over the installed one.
pub fn upgrade_from_mirror(name: &str) -> (r: (MirrorInstall, Action))
    ensures
        r.0.wf(),
        !r.0.is_finished(),
        r.0.frames_view() == seq![
            FrameView {
                name: name@,
                mode: InstallMode::Upgrade,
                strict: true,
                phase: PhaseView::Loading,
            },
        ],
        r.0.installed_view() == Seq::<Seq<char>>::empty(),
        r.1 matches Action::LoadTaj { name: n } && n@ == name@,
        r.0.awaits_taj(),
{
    install_from_mirror_inner(name, InstallMode::Upgrade)
}

/// The probe request names exactly the description's build dependencies.
pub open spec fn probe_request_ok(a: Action, taj: TajFile) -> bool {
    a matches Action::ProbeDeps { tools, libraries } && match taj.deps {
        Some(d) => {
            &&& (match d.tools {
                Some(t) => tools matches Some(x) && x@ == t@,
                None => tools is None,
            })
            &&& (match d.pkg_config {
                Some(p) => libraries matches Some(x) && x@ == p@,
                None => libraries is None,
            })
        },
        None => tools is None && libraries is None,
    }
}

/// Moving on keeps the chain well formed.
pub proof fn lemma_advance_chain(fv: Seq<FrameView>)
    requires
        fv.len() > 0,
        chain_ok(fv),
        fv.last().phase is Deps,
    ensures
        continues(advance(fv).1) ==> chain_ok(advance(fv).0),
        continues(advance(fv).1) ==> advance(fv).0.len() > 0,
{
    let top = fv.last();
    let (f2, o2) = advance(fv);
    if let PhaseView::Deps { taj, package, depends, meta, next } = top.phase {
        let moved = fv.drop_last().push(
            FrameView { phase: PhaseView::Deps { taj, package, depends, meta, next: next + 1 }, ..top },
        );
        assert(names_of(moved) =~= names_of(fv));
        if next < depends.len() {
            let dep = depends[next];
            if !names_of(fv).contains(dep) {
                assert(names_of(f2) =~= names_of(fv).push(dep));
                assert forall|i: int| 0 <= i < f2.len() - 1 implies #[trigger] linked_at(f2, i) by {
                    if i < fv.len() - 1 {
                        assert(linked_at(fv, i));
                        assert(f2[i] == fv[i]);
                        assert(f2[i + 1].name == fv[i + 1].name);
                    }
                }
            }
        } else {
            assert(names_of(f2) =~= names_of(fv));
            assert forall|i: int| 0 <= i < f2.len() - 1 implies #[trigger] linked_at(f2, i) by {
                assert(linked_at(fv, i));
                assert(f2[i] == fv[i]);
                assert(f2[i + 1].name == fv[i + 1].name);
            }
        }
    }
}

/// Dropping the top frame leaves a well-formed chain whose top, if any, is
/// visiting its dependencies.
pub proof fn lemma_drop_top_chain(fv: Seq<FrameView>)
    requires
        fv.len() > 0,
        chain_ok(fv),
    ensures
        chain_ok(fv.drop_last()),
        fv.len() > 1 ==> fv.drop_last().last().phase is Deps,
{
    let rest = fv.drop_last();
    assert(names_of(rest) =~= names_of(fv).drop_last());
    assert forall|i: int| 0 <= i < rest.len() - 1 implies #[trigger] linked_at(rest, i) by {
        assert(linked_at(fv, i));
    }
    if fv.len() > 1 {
        assert(linked_at(fv, fv.len() - 2));
    }
}

impl MirrorInstall {
    /// Whether `name` is the name of a frame on the chain.
    fn on_chain(&self, name: &str) -> (r: bool)
        ensures
            r == names_of(self.frames_view()).contains(name@),
    {
        let mut i: usize = 0;
        while i < self.frames.len()
            invariant
                i <= self.frames@.len(),
                forall|j: int| 0 <= j < i ==> #[trigger] self.frames@[j].name@ != name@,
            decreases self.frames.len() - i,
        {
            if str_eq(self.frames[i].name.as_str(), name) {
                assert(names_of(self.frames_view())[i as int] == name@);
                return true;
            }
            i = i + 1;
        }
        proof {
            if names_of(self.frames_view()).contains(name@) {
                let j = choose|j: int|
                    0 <= j < names_of(self.frames_view()).len() && names_of(self.frames_view())[j]
                        == name@;
                assert(self.frames@[j].name@ == name@);
            }
        }
        false
    }

    /// Moves the top frame on (see [`advance`]).
    fn advance_top(&mut self) -> (a: Action)
        requires
            !old(self).finished,
            old(self).frames@.len() > 0,
            chain_ok(old(self).frames_view()),
            old(self).tajs_ok(),
            old(self).frames@.last().phase is Deps,
        ensures
            final(self).wf(),
            final(self).installed == old(self).installed,
            action_is(a, advance(old(self).frames_view()).1),
            continues(advance(old(self).frames_view()).1) ==> !final(self).finished
                && final(self).frames_view() == advance(old(self).frames_view()).0,
            !continues(advance(old(self).frames_view()).1) ==> final(self).finished,
            advance(old(self).frames_view()).1 is Probe ==> final(self).awaits_probe_for_request(a),
    {
        let ghost fv = self.frames_view();
        let top = self.frames.pop().unwrap();
        let ghost rest = self.frames@;
        assert(fv.drop_last() =~= rest.map_values(|f: Frame| frame_view(f)));
        assert(fv.last() == frame_view(top));
        let Frame { name, mode, strict, phase } = top;
        match phase {
            Phase::Deps { taj, package, meta, next } => {
                let n: usize = match &taj.depends {
                    Some(d) => d.len(),
                    None => 0,
                };
                if next < n {
                    let dep = match &taj.depends {
                        Some(d) => d[next].clone(),
                        None => {
                            proof {
                                assert(false);
                            }
                            String::new()
                        },
                    };
                    assert(dep@ == depends_of(taj)[next as int]);
                    let cyc = str_eq(name.as_str(), dep.as_str()) || self.on_chain(dep.as_str());
                    proof {
                        assert(names_of(fv) =~= names_of(fv.drop_last()).push(name@));
                        if cyc {
                            if name@ == dep@ {
                                assert(names_of(fv)[fv.len() - 1] == dep@);
                            } else {
                                let j = choose|j: int|
                                    0 <= j < names_of(fv.drop_last()).len() && names_of(
                                        fv.drop_last(),
                                    )[j] == dep@;
                                assert(names_of(fv)[j] == dep@);
                            }
                        } else {
                            if names_of(fv).contains(dep@) {
                                let j = choose|j: int|
                                    0 <= j < names_of(fv).len() && names_of(fv)[j] == dep@;
                                if j < fv.len() - 1 {
                                    assert(names_of(fv.drop_last())[j] == dep@);
                                }
                            }
                        }
                    }
                    self.frames.push(
                        Frame {
                            name,
                            mode,
                            strict,
                            phase: Phase::Deps { taj, package, meta, next: next + 1 },
                        },
                    );
                    if cyc {
                        self.finished = true;
                        return Action::Failed(TajError::DependencyCycle { name: dep });
                    }
                    let ghost moved = self.frames_view();
                    self.frames.push(
                        Frame {
                            name: dep.clone(),
                            mode: InstallMode::Install,
                            strict: false,
                            phase: Phase::Loading,
                        },
                    );
                    proof {
                        lemma_advance_chain(fv);
                        assert(self.frames_view() =~= advance(fv).0);
                    }
                    Action::LoadTaj { name: dep }
                } else {
                    let tools = match &taj.deps {
                        Some(d) => match &d.tools {
                            Some(t) => Some(clone_strings(t)),
                            None => None,
                        },
                        None => None,
                    };
                    let libraries = match &taj.deps {
                        Some(d) => match &d.pkg_config {
                            Some(p) => Some(clone_strings(p)),
                            None => None,
                        },
                        None => None,
                    };
                    self.frames.push(
                        Frame { name, mode, strict, phase: Phase::Probing { taj, package, meta } },
                    );
                    proof {
                        lemma_advance_chain(fv);
                        assert(self.frames_view() =~= advance(fv).0);
                    }
                    Action::ProbeDeps { tools, libraries }
                }
            },
            _ => {
                proof {
                    assert(false);
                }
                Action::ProbeDeps { tools: None, libraries: None }
            },
        }
    }

    /// The top frame is done with `record` (see [`finish`]).
    fn finish_top(&mut self, record: InstallRecord) -> (a: Action)
        requires
            !old(self).finished,
            old(self).frames@.len() > 0,
            chain_ok(old(self).frames_view()),
            old(self).tajs_ok(),
        ensures
            final(self).wf(),
            final(self).installed == old(self).installed,
            action_is(a, finish(old(self).frames_view(), record@).1),
            continues(finish(old(self).frames_view(), record@).1) ==> !final(self).finished
                && final(self).frames_view() == finish(old(self).frames_view(), record@).0,
            !continues(finish(old(self).frames_view(), record@).1) ==> final(self).finished,
            finish(old(self).frames_view(), record@).1 is Probe
                ==> final(self).awaits_probe_for_request(a),
    {
        let ghost fv = self.frames_view();
        let _ = self.frames.pop();
        assert(self.frames_view() =~= fv.drop_last());
        if self.frames.len() == 0 {
            self.finished = true;
            return Action::Done(record);
        }
        proof {
            lemma_drop_top_chain(fv);
        }
        self.advance_top()
    }
}
/// Replacing the phase of the top frame keeps the chain well formed, as
/// long as a new `Deps` phase has its position in range.
pub proof fn lemma_replace_top_phase(fv: Seq<FrameView>, ph: PhaseView)
    requires
        fv.len() > 0,
        chain_ok(fv),
        ph matches PhaseView::Deps { depends, next, .. } ==> 0 <= next <= depends.len(),
    ensures
        chain_ok(fv.drop_last().push(FrameView { phase: ph, ..fv.last() })),
        fv.drop_last().push(FrameView { phase: ph, ..fv.last() }).drop_last() == fv.drop_last(),
{
    let f2 = fv.drop_last().push(FrameView { phase: ph, ..fv.last() });
    assert(names_of(f2) =~= names_of(fv));
    assert forall|i: int| 0 <= i < f2.len() - 1 implies #[trigger] linked_at(f2, i) by {
        assert(linked_at(fv, i));
        assert(f2[i] == fv[i]);
        assert(f2[i + 1].name == fv[i + 1].name);
    }
    assert(f2.drop_last() =~= fv.drop_last());
}

/// The event is the one the install waits for, with what the decisions
/// need of it.
pub open spec fn event_fits(m: MirrorInstall, e: Event) -> bool {
    match e {
        Event::TajLoaded(t) => m.awaits_taj() && t.wf() && (t.deps matches Some(d) ==> d.wf()),
        Event::Probed(p) => m.awaits_probe_for(p),
        Event::Built(r) => {
            let top = m.frames_view().last();
            &&& m.awaits_build()
            &&& r@.name == package_of(top)
            &&& r@.source == "mirror"@
            &&& r@.source_name == Some(top.name)
            &&& r@.repo == top.phase->Building_repo
        },
    }
}

/// A built package's record is the one entered in the state.
pub open spec fn built_recorded(st: Map<Seq<char>, InstallRecordView>, e: Event) -> bool {
    e matches Event::Built(r) ==> st.contains_key(r@.name) && st[r@.name] == r@
}

/// The install after a step continues as the model says, or has ended.
pub open spec fn moved_to(m: MirrorInstall, f: Seq<FrameView>, o: Outcome, a: Action) -> bool {
    &&& action_is(a, o)
    &&& continues(o) ==> !m.is_finished() && m.frames_view() == f
    &&& !continues(o) ==> m.is_finished()
    &&& o is Probe ==> m.awaits_probe_for_request(a)
}

/// A build request is the one the description gives for the top frame.
pub open spec fn build_request_ok(a: Action, taj: TajFile, top: FrameView) -> bool {
    a matches Action::Build(req) && {
        &&& req.repo@ == taj.repo@
        &&& crate::state::opt_view(req.git_ref) == crate::state::opt_view(taj.git_ref)
        &&& req.source_name@ == top.name
        &&& req.mode == top.mode
        &&& req.spec.wf()
        &&& method_named(lowercase_of(taj.build@)) == Some(req.spec@.method)
        &&& req.spec@.args == views(taj.build_args@)
        &&& req.spec@.bin == crate::state::opt_view(taj.bin)
        &&& req.spec@.subdir == crate::state::opt_view(taj.subdir)
        &&& req.spec@.build_dir == crate::state::opt_view(taj.build_dir)
        &&& req.spec@.env == match taj.env {
            Some(e) => e@,
            None => Map::empty(),
        }
        &&& req.install == taj.install
    }
}

/// What a step does, by event.
pub open spec fn step_ok(
    m0: MirrorInstall,
    m1: MirrorInstall,
    st0: Map<Seq<char>, InstallRecordView>,
    st1: Map<Seq<char>, InstallRecordView>,
    e: Event,
    a: Action,
) -> bool {
    let fv = m0.frames_view();
    let top = fv.last();
    match e {
        Event::TajLoaded(t) => {
            let (f, o) = on_loaded(fv, m0.installed_view(), st0, t);
            &&& moved_to(m1, f, o, a)
            &&& st1 == st0
            &&& m1.installed_view() == m0.installed_view()
        },
        Event::Probed(p) => {
            let taj = m0.probing_taj();
            let pkg = package_of(top);
            let ok = preflight_passes(taj, p);
            let meta = top.phase->Probing_meta;
            let (f, o) = on_probed(
                fv,
                ok,
                method_named(lowercase_of(taj.build@)) is Some,
                taj.build@,
                st1[pkg],
            );
            &&& moved_to(m1, f, o, a)
            &&& (ok && meta) ==> {
                &&& crate::install::meta_record_ok(
                    st1[pkg],
                    pkg,
                    taj.repo@,
                    Some(top.name),
                    "mirror"@,
                )
                &&& st1 == st0.insert(pkg, st1[pkg])
                &&& m1.installed_view() == m0.installed_view().push(pkg)
            }
            &&& !(ok && meta) ==> st1 == st0 && m1.installed_view() == m0.installed_view()
            &&& o is Build ==> build_request_ok(a, taj, top)
        },
        Event::Built(r) => {
            let (f, o) = finish(fv, r@);
            &&& moved_to(m1, f, o, a)
            &&& st1 == st0
            &&& m1.installed_view() == m0.installed_view().push(package_of(top))
        },
    }
}

impl MirrorInstall {
    /// Takes the next step of the install: the caller hands back the result
    /// of the last action, and gets the next one (see [`step_ok`]).
    pub fn step(&mut self, state: &mut State, event: Event) -> (a: Action)
        requires
            old(self).wf(),
            !old(self).is_finished(),
            old(state).wf(),
            event_fits(*old(self), event),
            built_recorded(old(state)@, event),
        ensures
            final(self).wf(),
            final(state).wf(),
            step_ok(*old(self), *final(self), old(state)@, final(state)@, event, a),
            a is LoadTaj ==> final(self).awaits_taj(),
            a is ProbeDeps ==> final(self).awaits_probe_for_request(a),
            a is Build ==> final(self).awaits_build(),
    {
        match event {
            Event::TajLoaded(taj) => self.on_taj_loaded(state, taj),
            Event::Probed(probe) => self.on_probe(state, probe),
            Event::Built(record) => self.on_built(record),
        }
    }

    fn on_taj_loaded(&mut self, state: &State, taj: TajFile) -> (a: Action)
        requires
            old(self).wf(),
            !old(self).is_finished(),
            state.wf(),
            event_fits(*old(self), Event::TajLoaded(taj)),
        ensures
            final(self).wf(),
            step_ok(*old(self), *final(self), state@, state@, Event::TajLoaded(taj), a),
    {
        let ghost fv = self.frames_view();
        let ghost inst = self.installed_view();
        let ghost tname = crate::state::opt_view(taj.name);
        let ghost deps = depends_of(taj);
        let ghost tg = taj;
        let meta = is_meta_build(&taj);
        let top = self.frames.pop().unwrap();
        assert(fv.drop_last() =~= self.frames_view());
        assert(fv.last() == frame_view(top));
        let Frame { name, mode, strict, phase } = top;
        let pkg = match &taj.name {
            Some(n) => n.clone(),
            None => name.clone(),
        };
        let seen = contains_str(&self.installed, pkg.as_str());
        proof {
            if seen {
                let i = choose|i: int| 0 <= i < self.installed@.len() && #[trigger] self.installed@[i]@ == pkg@;
                assert(inst[i] == pkg@);
            }
            if inst.contains(pkg@) {
                let i = choose|i: int| 0 <= i < inst.len() && inst[i] == pkg@;
                assert(self.installed@[i]@ == pkg@);
            }
        }
        if seen {
            match state.get(pkg.as_str()) {
                Some(rec) => {
                    let rec = rec.duplicate();
                    self.frames.push(Frame { name, mode, strict, phase: Phase::Loading });
                    assert(self.frames_view() =~= fv);
                    return self.finish_top(rec);
                },
                None => {
                    self.finished = true;
                    return Action::Failed(TajError::MissingState { name: pkg });
                },
            }
        }
        let present = state.contains_key(pkg.as_str());
        if mode == InstallMode::Install && strict && present {
            self.finished = true;
            return Action::Failed(TajError::AlreadyInstalled { name: pkg });
        }
        if mode == InstallMode::Install && !strict && present {
            let rec = match state.get(pkg.as_str()) {
                Some(r) => r.duplicate(),
                None => {
                    proof {
                        assert(false);
                    }
                    return Action::Failed(TajError::MissingState { name: pkg });
                },
            };
            self.frames.push(Frame { name, mode, strict, phase: Phase::Loading });
            assert(self.frames_view() =~= fv);
            return self.finish_top(rec);
        }
        let ghost ph = PhaseView::Deps { taj: tg, package: pkg@, depends: deps, meta, next: 0 };
        self.frames.push(
            Frame { name, mode, strict, phase: Phase::Deps { taj, package: pkg, meta, next: 0 } },
        );
        proof {
            lemma_replace_top_phase(fv, ph);
            assert(self.frames_view() =~= fv.drop_last().push(FrameView { phase: ph, ..fv.last() }));
        }
        self.advance_top()
    }

    fn on_probe(&mut self, state: &mut State, probe: DepProbe) -> (a: Action)
        requires
            old(self).wf(),
            !old(self).is_finished(),
            old(state).wf(),
            event_fits(*old(self), Event::Probed(probe)),
        ensures
            final(self).wf(),
            final(state).wf(),
            step_ok(*old(self), *final(self), old(state)@, final(state)@, Event::Probed(probe), a),
    {
        let ghost fv = self.frames_view();
        let ghost old_installed = self.installed@;
        let top = self.frames.pop().unwrap();
        assert(fv.drop_last() =~= self.frames_view());
        assert(fv.last() == frame_view(top));
        let Frame { name, mode, strict, phase } = top;
        match phase {
            Phase::Probing { taj, package, meta } => {
                match preflight_deps(&taj, &probe) {
                    Err(e) => {
                        self.finished = true;
                        return Action::Failed(e);
                    },
                    Ok(()) => {},
                }
                let ghost ph = PhaseView::Building { package: package@, repo: taj.repo@ };
                if meta {
                    let rec = match install_meta_package_for(state, &package, &taj, &name) {
                        Ok(r) => r,
                        Err(e) => {
                            self.finished = true;
                            return Action::Failed(e);
                        },
                    };
                    self.installed.push(package.clone());
                    assert(views(self.installed@) =~= views(old_installed).push(package@));
                    self.frames.push(
                        Frame {
                            name,
                            mode,
                            strict,
                            phase: Phase::Building { package, repo: taj.repo.clone() },
                        },
                    );
                    proof {
                        lemma_replace_top_phase(fv, ph);
                        assert(self.frames_view() =~= fv.drop_last().push(
                            FrameView { phase: ph, ..fv.last() },
                        ));
                    }
                    return self.finish_top(rec);
                }
                let spec = match taj.to_build_spec() {
                    Ok(s) => s,
                    Err(e) => {
                        self.finished = true;
                        return Action::Failed(e);
                    },
                };
                self.frames.push(
                    Frame {
                        name: name.clone(),
                        mode,
                        strict,
                        phase: Phase::Building { package: package.clone(), repo: taj.repo.clone() },
                    },
                );
                proof {
                    lemma_replace_top_phase(fv, ph);
                    assert(self.frames_view() =~= fv.drop_last().push(
                        FrameView { phase: ph, ..fv.last() },
                    ));
                }
                let TajFile { repo, git_ref, install, .. } = taj;
                Action::Build(
                    BuildRequest {
                        package,
                        repo,
                        git_ref,
                        spec,
                        install,
                        source_name: name,
                        mode,
                    },
                )
            },
            _ => {
                proof {
                    assert(false);
                }
                Action::ProbeDeps { tools: None, libraries: None }
            },
        }
    }

    fn on_built(&mut self, record: InstallRecord) -> (a: Action)
        requires
            old(self).wf(),
            !old(self).is_finished(),
            old(self).awaits_build(),
        ensures
            final(self).wf(),
            moved_to(
                *final(self),
                finish(old(self).frames_view(), record@).0,
                finish(old(self).frames_view(), record@).1,
                a,
            ),
            final(self).installed_view() == old(self).installed_view().push(
                package_of(old(self).frames_view().last()),
            ),
    {
        let ghost fv = self.frames_view();
        let ghost old_installed = self.installed@;
        let i = self.frames.len() - 1;
        let package = match &self.frames[i].phase {
            Phase::Building { package, .. } => package.clone(),
            _ => {
                proof {
                    assert(false);
                }
                String::new()
            },
        };
        assert(package@ == package_of(fv.last()));
        self.installed.push(package);
        assert(views(self.installed@) =~= views(old_installed).push(package_of(fv.last())));
        self.finish_top(record)
    }
}

/// Records a meta package of the mirror: its description's repository, the
/// name it was asked for by, source `mirror`.
fn install_meta_package_for(
    state: &mut State,
    package: &String,
    taj: &TajFile,
    name: &String,
) -> (r: Result<InstallRecord, TajError>)
    requires
        old(state).wf(),
    ensures
        final(state).wf(),
        r matches Ok(rec) && crate::install::meta_record_ok(
            rec@,
            package@,
            taj.repo@,
            Some(name@),
            "mirror"@,
        ) && final(state)@ == old(state)@.insert(package@, rec@),
{
    crate::install::install_meta_package(
        state,
        package.as_str(),
        taj.repo.as_str(),
        Some(name.clone()),
        "mirror",
    )
}

} // verus!
