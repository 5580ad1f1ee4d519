//! Installing, upgrading and removing packages: the decisions, and the
//! changes they make to the record of installed packages.
use vstd::prelude::*;
use crate::error::TajError;
use crate::order::{strictly_sorted, views};
use crate::path::{join, path_join};
use crate::state::{InstallRecord, InstallRecordView, State, opt_view, record_file_list, record_files};
use crate::text::{owned, str_eq};
use crate::util::repo_name_of;

verus! {

/// Whether an install may replace a package that is installed already.
#[derive(Debug, Clone, Copy, PartialEq, Eq, Structural)]
pub enum InstallMode {
    /// A new install: an installed package is an error.
    Install,
    /// A reinstall over the installed package.
    Upgrade,
}

/// The record of a meta package (one that only installs its dependencies).
pub open spec fn meta_record_ok(
    r: InstallRecordView,
    name: Seq<char>,
    repo_url: Seq<char>,
    source_name: Option<Seq<char>>,
    source: Seq<char>,
) -> bool {
    &&& r.name == name
    &&& r.bin_name == name
    &&& r.bin_path == Seq::<char>::empty()
    &&& r.repo == repo_url
    &&& r.source == source
    &&& r.files == Seq::<Seq<char>>::empty()
    &&& r.install_root is None
    &&& r.source_name == source_name
    &&& r.is_meta
}

/// Records a meta package as installed now, under `name`; the record holds
/// no files. The time stamp is the clock's.
pub fn install_meta_package(
    state: &mut State,
    name: &str,
    repo_url: &str,
    source_name: Option<String>,
    source: &str,
) -> (r: Result<InstallRecord, TajError>)
    requires
        old(state).wf(),
    ensures
        final(state).wf(),
        r matches Ok(rec) && meta_record_ok(rec@, name@, repo_url@, opt_view(source_name), source@)
            && final(state)@ == old(state)@.insert(name@, rec@),
{
    let record = InstallRecord {
        name: owned(name),
        bin_name: owned(name),
        bin_path: String::new(),
        repo: owned(repo_url),
        source: owned(source),
        installed_at: crate::util::now_ts(),
        files: Vec::new(),
        install_root: None,
        source_name,
        is_meta: true,
    };
    assert(record@.files =~= Seq::<Seq<char>>::empty());
    state.insert(owned(name), record.duplicate());
    Ok(record)
}

/// Checks that a package can be installed from a git URL: its name is the
/// URL's repository name, which in install mode must not be installed.
pub fn install_from_git_inner(state: &State, url: &str, mode: InstallMode) -> (r: Result<String, TajError>)
    requires
        state.wf(),
    ensures
        mode == InstallMode::Install && state@.contains_key(repo_name_of(url@)) ==> (r matches Err(
            TajError::AlreadyInstalled { name },
        ) && name@ == repo_name_of(url@)),
        !(mode == InstallMode::Install && state@.contains_key(repo_name_of(url@))) ==> (r matches Ok(
            name,
        ) && name@ == repo_name_of(url@)),
{
    let name = crate::util::repo_name_from_url(url);
    if state.contains_key(name.as_str()) && mode == InstallMode::Install {
        return Err(TajError::AlreadyInstalled { name });
    }
    Ok(name)
}

/// The name a new install from a git URL goes under, unless it is taken.
pub fn install_from_git(state: &State, url: &str) -> (r: Result<String, TajError>)
    requires
        state.wf(),
    ensures
        state@.contains_key(repo_name_of(url@)) ==> (r matches Err(
            TajError::AlreadyInstalled { name },
        ) && name@ == repo_name_of(url@)),
        !state@.contains_key(repo_name_of(url@)) ==> (r matches Ok(name) && name@ == repo_name_of(
            url@,
        )),
{
    install_from_git_inner(state, url, InstallMode::Install)
}

/// The name a reinstall from a git URL goes under.
pub fn upgrade_from_git(state: &State, url: &str) -> (r: Result<String, TajError>)
    requires
        state.wf(),
    ensures
        r matches Ok(name) && name@ == repo_name_of(url@),
{
    install_from_git_inner(state, url, InstallMode::Upgrade)
}

/// Where an installed package is reinstalled from.
#[derive(Debug, Clone, PartialEq, Eq)]
pub enum UpgradeSource {
    /// The mirror package of this name.
    Mirror { name: String },
    /// This git URL, from this provider (`github` or `gitlab`).
    Git { url: String, provider: String },
}

/// Where the installed package `name` is upgraded from: a mirror package
/// from the mirror under the name it was asked for by (else its own name); a
/// GitHub or GitLab package from its repository. Other sources, and packages
/// not installed, are errors.
pub fn upgrade_package(state: &State, name: &str) -> (r: Result<UpgradeSource, TajError>)
    requires
        state.wf(),
    ensures
        !state@.contains_key(name@) ==> (r matches Err(TajError::NotInstalled { name: n }) && n@
            == name@),
        state@.contains_key(name@) ==> {
            let rec = state@[name@];
            &&& rec.source == "mirror"@ ==> (r matches Ok(UpgradeSource::Mirror { name: m })
                && m@ == match rec.source_name {
                Some(s) => s,
                None => name@,
            })
            &&& (rec.source == "github"@ || rec.source == "gitlab"@) ==> (r matches Ok(
                UpgradeSource::Git { url, provider },
            ) && url@ == rec.repo && provider@ == rec.source)
            &&& !(rec.source == "mirror"@ || rec.source == "github"@ || rec.source == "gitlab"@)
                ==> (r matches Err(TajError::UnknownSource { source, name: n }) && source@
                == rec.source && n@ == name@)
        },
{
    proof {
        reveal_strlit("mirror");
        reveal_strlit("github");
        reveal_strlit("gitlab");
        assert("mirror"@[0] != "github"@[0]);
        assert("mirror"@[0] != "gitlab"@[0]);
        assert("github"@[3] != "gitlab"@[3]);
    }
    let record = match state.get(name) {
        Some(r) => r,
        None => {
            return Err(TajError::NotInstalled { name: owned(name) });
        },
    };
    if str_eq(record.source.as_str(), "mirror") {
        let source_name = match &record.source_name {
            Some(s) => s.clone(),
            None => owned(name),
        };
        Ok(UpgradeSource::Mirror { name: source_name })
    } else if str_eq(record.source.as_str(), "github") || str_eq(record.source.as_str(), "gitlab") {
        Ok(UpgradeSource::Git { url: record.repo.clone(), provider: record.source.clone() })
    } else {
        Err(TajError::UnknownSource { source: record.source.clone(), name: owned(name) })
    }
}

/// The packages to upgrade, in the order they are upgraded: every installed
/// package, by increasing name.
pub fn upgrade_all(state: &State) -> (r: Vec<String>)
    requires
        state.wf(),
    ensures
        strictly_sorted(views(r@)),
        forall|k: Seq<char>| views(r@).contains(k) <==> state@.contains_key(k),
{
    state.sorted_names()
}

/// Upgrading every installed package in turn, by increasing name, stopping
/// at the first failure.
#[derive(Debug)]
pub struct UpgradeAll {
    /// The packages to upgrade, in order.
    pub names: Vec<String>,
    /// How many have been upgraded.
    pub next: usize,
    /// Their new records, in order.
    pub upgraded: Vec<InstallRecord>,
}

/// What comes next in upgrading every package.
#[derive(Debug)]
pub enum UpgradeStep {
    /// Upgrade this package (see [`upgrade_package`]) and report how it went.
    Upgrade(String),
    /// Every package was upgraded; their new records, in order.
    Finished(Vec<InstallRecord>),
    /// An upgrade failed; the ones before it stay done.
    Stopped(TajError),
}

/// How upgrading every package starts, from the installed packages `st`:
/// the names to upgrade are the installed ones, by increasing name; none is
/// done yet; the first is upgraded first, or, with none, it is finished.
pub open spec fn upgrade_started(
    st: Map<Seq<char>, InstallRecordView>,
    u: UpgradeAll,
    step: UpgradeStep,
) -> bool {
    &&& strictly_sorted(views(u.names@))
    &&& forall|k: Seq<char>| views(u.names@).contains(k) <==> st.contains_key(k)
    &&& u.next == 0
    &&& u.upgraded@.len() == 0
    &&& u.names@.len() == 0 ==> (step matches UpgradeStep::Finished(v) && v@.len() == 0)
    &&& u.names@.len() > 0 ==> (step matches UpgradeStep::Upgrade(n) && n@ == u.names@[0]@)
}

/// What taking the outcome of one upgrade does, from `u0` to `u1`: a
/// failure stops everything; a success is kept, and the next package by name
/// is upgraded, or all are done and their records are handed back.
pub open spec fn upgrade_recorded(
    u0: UpgradeAll,
    u1: UpgradeAll,
    outcome: Result<InstallRecord, TajError>,
    step: UpgradeStep,
) -> bool {
    &&& u1.names == u0.names
    &&& match outcome {
        Err(e) => step == UpgradeStep::Stopped(e) && u1.next == u0.next,
        Ok(r) => {
            &&& u1.next == u0.next + 1
            &&& u1.next == u1.names@.len() ==> (step matches UpgradeStep::Finished(v) && v@
                == u0.upgraded@.push(r))
            &&& u1.next < u1.names@.len() ==> (step matches UpgradeStep::Upgrade(n) && n@
                == u1.names@[u1.next as int]@ && u1.upgraded@ == u0.upgraded@.push(r))
        },
    }
}

impl UpgradeAll {
    /// Starts upgrading every installed package: the first one, by name, is
    /// upgraded first; with none installed, it is finished at once.
    pub fn start(state: &State) -> (r: (UpgradeAll, UpgradeStep))
        requires
            state.wf(),
        ensures
            upgrade_started(state@, r.0, r.1),
    {
        let names = upgrade_all(state);
        let step = if names.len() == 0 {
            UpgradeStep::Finished(Vec::new())
        } else {
            UpgradeStep::Upgrade(names[0].clone())
        };
        (UpgradeAll { names, next: 0, upgraded: Vec::new() }, step)
    }

    /// Takes the outcome of the upgrade asked for last: a failure stops
    /// everything; a success is kept, and the next package by name is
    /// upgraded, or all are done.
    pub fn record(&mut self, outcome: Result<InstallRecord, TajError>) -> (step: UpgradeStep)
        requires
            old(self).next < old(self).names@.len(),
            old(self).upgraded@.len() == old(self).next,
        ensures
            upgrade_recorded(*old(self), *final(self), outcome, step),
    {
        match outcome {
            Err(e) => UpgradeStep::Stopped(e),
            Ok(r) => {
                let total = self.names.len();
                self.upgraded.push(r);
                self.next = self.next + 1;
                if self.next == total {
                    let mut done: Vec<InstallRecord> = Vec::new();
                    std::mem::swap(&mut done, &mut self.upgraded);
                    UpgradeStep::Finished(done)
                } else {
                    UpgradeStep::Upgrade(self.names[self.next].clone())
                }
            },
        }
    }
}

/// What uninstalling does to one recorded file.
#[derive(Debug, Clone, PartialEq, Eq)]
pub enum PathStep {
    /// Another installed package owns the file: it stays.
    Skip { path: String, owner: String },
    /// The file is removed (if it exists).
    Remove { path: String },
}

/// The file a step is about.
pub open spec fn step_path(s: PathStep) -> Seq<char> {
    match s {
        PathStep::Skip { path, .. } => path@,
        PathStep::Remove { path } => path@,
    }
}

/// The step for `path` is right for the packages that remain (`st`):
/// skipped, naming an owner, when one of them owns it; removed otherwise.
pub open spec fn path_step_ok(s: PathStep, st: Map<Seq<char>, InstallRecordView>) -> bool {
    match s {
        PathStep::Skip { path, owner } => st.contains_key(owner@) && record_files(
            st[owner@],
        ).contains(path@),
        PathStep::Remove { path } => forall|k: Seq<char>|
            #![trigger st[k]]
            st.contains_key(k) ==> !record_files(st[k]).contains(path@),
    }
}

/// What uninstalling a package does to its files.
#[derive(Debug)]
pub struct UninstallPlan {
    /// One step per distinct recorded file, by increasing path.
    pub steps: Vec<PathStep>,
    /// Empty directories under this root are removed after each file.
    pub install_root: Option<String>,
}

/// Uninstalls `name`: drops it from the state and plans what becomes of its
/// recorded files, each once, by increasing path; a file that another
/// installed package records is kept. A package that is not installed is
/// an error, and the state is unchanged.
pub fn uninstall(state: &mut State, name: &str) -> (r: Result<UninstallPlan, TajError>)
    requires
        old(state).wf(),
    ensures
        final(state).wf(),
        final(state)@ == old(state)@.remove(name@),
        !old(state)@.contains_key(name@) ==> (r matches Err(TajError::NotInstalled { name: n })
            && n@ == name@),
        old(state)@.contains_key(name@) ==> (r matches Ok(plan) && {
            let files = record_files(old(state)@[name@]);
            &&& strictly_sorted(plan.steps@.map_values(|s: PathStep| step_path(s)))
            &&& forall|p: Seq<char>|
                plan.steps@.map_values(|s: PathStep| step_path(s)).contains(p) <==> files.contains(p)
            &&& forall|i: int|
                0 <= i < plan.steps@.len() ==> path_step_ok(#[trigger] plan.steps@[i], final(state)@)
            &&& opt_view(plan.install_root) == old(state)@[name@].install_root
        }),
{
    let record = match state.remove(name) {
        Some(r) => r,
        None => {
            return Err(TajError::NotInstalled { name: owned(name) });
        },
    };
    let files = record_file_list(&record);
    let paths = crate::order::sorted_unique(&files);
    let mut steps: Vec<PathStep> = Vec::new();
    let mut i: usize = 0;
    while i < paths.len()
        invariant
            state.wf(),
            i <= paths.len(),
            steps@.map_values(|s: PathStep| step_path(s)) == views(paths@).subrange(0, i as int),
            forall|j: int| 0 <= j < steps@.len() ==> path_step_ok(#[trigger] steps@[j], state@),
        decreases paths.len() - i,
    {
        let path = paths[i].clone();
        let ghost before = steps@;
        match state.find_owner(path.as_str(), None) {
            Some(owner) => {
                steps.push(PathStep::Skip { path, owner });
            },
            None => {
                steps.push(PathStep::Remove { path });
            },
        }
        assert(steps@.map_values(|s: PathStep| step_path(s)) =~= before.map_values(
            |s: PathStep| step_path(s),
        ).push(views(paths@)[i as int]));
        i = i + 1;
        assert(steps@.map_values(|s: PathStep| step_path(s)) =~= views(paths@).subrange(
            0,
            i as int,
        ));
    }
    assert(views(paths@).subrange(0, paths.len() as int) =~= views(paths@));
    Ok(UninstallPlan { steps, install_root: record.install_root })
}

/// The record an upgrade replaces: in upgrade mode, the installed one.
pub fn previous_record(state: &State, name: &str, mode: InstallMode) -> (r: Option<InstallRecord>)
    requires
        state.wf(),
    ensures
        mode == InstallMode::Upgrade && state@.contains_key(name@) ==> (r matches Some(rec)
            && rec@ == state@[name@]),
        !(mode == InstallMode::Upgrade && state@.contains_key(name@)) ==> r is None,
{
    if mode == InstallMode::Upgrade {
        match state.get(name) {
            Some(r) => Some(r.duplicate()),
            None => None,
        }
    } else {
        None
    }
}

/// No installed package other than `except` records `p`.
pub open spec fn no_other_owner(st: Map<Seq<char>, InstallRecordView>, except: Seq<char>, p: Seq<char>) -> bool {
    forall|k: Seq<char>|
        #![trigger st[k]]
        st.contains_key(k) && k != except ==> !record_files(st[k]).contains(p)
}

/// `stale` is the list of files an upgrade from `previous` to `current`
/// leaves behind: each distinct one, by increasing path, that `previous`
/// records, `current` does not, and no other installed package does.
pub open spec fn stale_files_ok(
    stale: Seq<Seq<char>>,
    st: Map<Seq<char>, InstallRecordView>,
    previous: InstallRecordView,
    current: InstallRecordView,
) -> bool {
    &&& strictly_sorted(stale)
    &&& forall|p: Seq<char>|
        stale.contains(p) <==> {
            &&& record_files(previous).contains(p)
            &&& !record_files(current).contains(p)
            &&& no_other_owner(st, previous.name, p)
        }
}

/// The files of an upgraded package's previous record that are to be
/// removed: each distinct one, by increasing path, that the new record does
/// not hold and no other installed package records.
pub fn cleanup_stale_files(state: &State, previous: &InstallRecord, current: &InstallRecord) -> (r: Vec<String>)
    requires
        state.wf(),
    ensures
        stale_files_ok(views(r@), state@, previous@, current@),
{
    let stale = crate::order::sorted_unique(&record_file_list(previous));
    let current_files = record_file_list(current);
    let mut r: Vec<String> = Vec::new();
    let mut i: usize = 0;
    while i < stale.len()
        invariant
            state.wf(),
            i <= stale.len(),
            strictly_sorted(views(stale@)),
            forall|p: Seq<char>| views(stale@).contains(p) <==> record_files(previous@).contains(p),
            views(current_files@) == record_files(current@),
            strictly_sorted(views(r@)),
            forall|j: int|
                0 <= j < r@.len() ==> exists|m: int| 0 <= m < i && #[trigger] views(r@)[j] == views(stale@)[m],
            forall|p: Seq<char>|
                views(r@).contains(p) <==> {
                    &&& views(stale@).subrange(0, i as int).contains(p)
                    &&& !record_files(current@).contains(p)
                    &&& no_other_owner(state@, previous@.name, p)
                },
        decreases stale.len() - i,
    {
        let path = &stale[i];
        let kept = crate::text::contains_str(&current_files, path.as_str());
        let found = state.find_owner(path.as_str(), Some(previous.name.as_str()));
        let owned_elsewhere = found.is_some();
        proof {
            if let Some(n) = found {
                assert(state@.contains_key(n@) && n@ != previous@.name && record_files(state@[n@]).contains(path@));
                assert(!no_other_owner(state@, previous@.name, path@));
            } else {
                assert(no_other_owner(state@, previous@.name, path@));
            }
        }
        let ghost before = r@;
        let ghost pv = path@;
        proof {
            assert(views(stale@)[i as int] == pv);
            if kept {
                let q = choose|q: int| 0 <= q < current_files@.len() && #[trigger] current_files@[q]@ == pv;
                assert(views(current_files@)[q] == pv);
            } else {
                if record_files(current@).contains(pv) {
                    let q = choose|q: int| 0 <= q < views(current_files@).len() && views(current_files@)[q] == pv;
                    assert(current_files@[q]@ == pv);
                }
            }
        }
        if !kept && !owned_elsewhere {
            r.push(path.clone());
            proof {
                assert(views(r@) =~= views(before).push(pv));
                assert forall|a: int, b: int| 0 <= a < b < views(r@).len() implies crate::order::str_lt(
                    #[trigger] views(r@)[a],
                    #[trigger] views(r@)[b],
                ) by {
                    if b == views(r@).len() - 1 {
                        let m = choose|m: int| 0 <= m < i && #[trigger] views(before)[a] == views(stale@)[m];
                        assert(views(r@)[a] == views(before)[a]);
                        assert(crate::order::str_lt(views(stale@)[m], views(stale@)[i as int]));
                    } else {
                        assert(views(r@)[a] == views(before)[a]);
                        assert(views(r@)[b] == views(before)[b]);
                    }
                }
                assert forall|j: int|
                    0 <= j < r@.len() implies exists|m: int| 0 <= m < i + 1 && #[trigger] views(r@)[j] == views(stale@)[m] by {
                    if j == r@.len() - 1 {
                        assert(views(r@)[j] == views(stale@)[i as int]);
                    } else {
                        assert(views(r@)[j] == views(before)[j]);
                        let m = choose|m: int| 0 <= m < i && #[trigger] views(before)[j] == views(stale@)[m];
                        assert(views(r@)[j] == views(stale@)[m]);
                    }
                }
            }
        }
        proof {
            let pre = views(stale@).subrange(0, i as int);
            let pre1 = views(stale@).subrange(0, i + 1);
            assert(pre1 =~= pre.push(pv));
            assert forall|p: Seq<char>| pre1.contains(p) <==> pre.contains(p) || p == pv by {
                if pre1.contains(p) {
                    let q = choose|q: int| 0 <= q < pre1.len() && pre1[q] == p;
                    if q < pre.len() {
                        assert(pre[q] == p);
                    }
                }
                if pre.contains(p) {
                    let q = choose|q: int| 0 <= q < pre.len() && pre[q] == p;
                    assert(pre1[q] == p);
                }
                if p == pv {
                    assert(pre1[i as int] == p);
                }
            }
            assert forall|p: Seq<char>| views(r@).contains(p) <==> views(before).contains(p) || (p
                == pv && !kept && !owned_elsewhere) by {
                if views(r@).contains(p) {
                    let q = choose|q: int| 0 <= q < views(r@).len() && views(r@)[q] == p;
                    if q < views(before).len() {
                        assert(views(before)[q] == p);
                    }
                }
                if views(before).contains(p) {
                    let q = choose|q: int| 0 <= q < views(before).len() && views(before)[q] == p;
                    assert(views(r@)[q] == p);
                }
                if p == pv && !kept && !owned_elsewhere {
                    assert(views(r@)[views(r@).len() - 1] == p);
                }
            }
            if pre.contains(pv) {
                let q = choose|q: int| 0 <= q < pre.len() && pre[q] == pv;
                assert(views(stale@)[q] == pv);
                assert(crate::order::str_lt(views(stale@)[q], views(stale@)[i as int]));
                crate::order::lemma_lt_irreflexive(pv);
            }
            assert(!pre.contains(pv));
            assert forall|p: Seq<char>|
                views(r@).contains(p) <==> {
                    &&& pre1.contains(p)
                    &&& !record_files(current@).contains(p)
                    &&& no_other_owner(state@, previous@.name, p)
                } by {
                if p == pv {
                    assert(!views(before).contains(p));
                    assert(kept == record_files(current@).contains(pv));
                    assert(owned_elsewhere == !no_other_owner(state@, previous@.name, pv));
                    assert(pre1.contains(pv));
                } else {
                    assert(pre1.contains(p) == pre.contains(p));
                    assert(views(r@).contains(p) == views(before).contains(p));
                }
            }
        }
        i = i + 1;
    }
    assert(views(stale@).subrange(0, stale.len() as int) =~= views(stale@));
    r
}

/// Enters an installed package in the state, installed now, and gives back
/// its record.
pub fn record_install(
    state: &mut State,
    name: &str,
    repo_url: &str,
    source: &str,
    source_name: Option<String>,
    bin_name: String,
    bin_path: String,
    files: Vec<String>,
    install_root: Option<String>,
) -> (r: InstallRecord)
    requires
        old(state).wf(),
    ensures
        final(state).wf(),
        final(state)@ == old(state)@.insert(name@, r@),
        r@.name == name@,
        r@.bin_name == bin_name@,
        r@.bin_path == bin_path@,
        r@.repo == repo_url@,
        r@.source == source@,
        r@.files == views(files@),
        r@.install_root == opt_view(install_root),
        r@.source_name == opt_view(source_name),
        !r@.is_meta,
{
    let record = InstallRecord {
        name: owned(name),
        bin_name,
        bin_path,
        repo: owned(repo_url),
        source: owned(source),
        installed_at: crate::util::now_ts(),
        files,
        install_root,
        source_name,
        is_meta: false,
    };
    state.insert(owned(name), record.duplicate());
    record
}

/// Where a built binary is installed: `NAME` in the install directory, NAME
/// being the binary's name or else the package's.
pub fn binary_destination(install_dir: &str, bin: &Option<String>, name: &str) -> (r: (String, String))
    ensures
        r.0@ == match bin {
            Some(b) => b@,
            None => name@,
        },
        r.1@ == path_join(install_dir@, r.0@),
{
    let install_name = match bin {
        Some(b) => b.clone(),
        None => owned(name),
    };
    let dest = join(install_dir, install_name.as_str());
    (install_name, dest)
}

/// What to do before writing an install destination: nothing when it is
/// free; remove it when it exists and may be replaced (`overwrite`); an
/// error when it may not, or when a staged file would replace a directory
/// (`is_dir`). The result tells whether to remove it.
pub fn prepare_destination(dest: &str, exists: bool, is_dir: bool, overwrite: bool) -> (r: Result<
    bool,
    TajError,
>)
    ensures
        !exists ==> r == Ok::<bool, TajError>(false),
        exists && overwrite && !is_dir ==> r == Ok::<bool, TajError>(true),
        exists && overwrite && is_dir ==> (r matches Err(TajError::DestinationIsDirectory { path })
            && path@ == dest@),
        exists && !overwrite ==> (r matches Err(TajError::DestinationExists { path }) && path@
            == dest@),
{
    if !exists {
        Ok(false)
    } else if overwrite {
        if is_dir {
            Err(TajError::DestinationIsDirectory { path: owned(dest) })
        } else {
            Ok(true)
        }
    } else {
        Err(TajError::DestinationExists { path: owned(dest) })
    }
}

/// Some earlier element equals the one at `j`.
pub open spec fn repeats_at(s: Seq<Seq<char>>, j: int) -> bool {
    exists|i: int| 0 <= i < j && s[i] == #[trigger] s[j]
}

/// The destinations of staged files: each relative path joined onto the
/// prefix.
pub open spec fn stage_dests(rel_paths: Seq<Seq<char>>, prefix: Seq<char>) -> Seq<Seq<char>> {
    Seq::new(rel_paths.len(), |i: int| path_join(prefix, rel_paths[i]))
}

/// The outcome of [`collect_stage_destinations`] for the relative paths
/// `rel_paths` staged under `stage_root`.
pub open spec fn stage_destinations_ok(
    r: Result<Vec<String>, TajError>,
    rel_paths: Seq<Seq<char>>,
    prefix: Seq<char>,
    stage_root: Seq<char>,
) -> bool {
    let dests = stage_dests(rel_paths, prefix);
    &&& (forall|j: int| 0 <= j < dests.len() ==> !repeats_at(dests, j)) && dests.len() > 0 ==> (
    r matches Ok(d) && views(d@) == dests)
    &&& dests.len() == 0 ==> (r matches Err(TajError::NothingStaged { dir }) && dir@ == stage_root)
    &&& (exists|j: int| 0 <= j < dests.len() && repeats_at(dests, j)) ==> (r matches Err(
        TajError::DuplicateStagedPath { path },
    ) && exists|j: int|
        0 <= j < dests.len() && repeats_at(dests, j) && path@ == dests[j] && forall|k: int|
            0 <= k < j ==> !repeats_at(dests, k))
}

/// Where the staged files go: each relative path (in the order the staging
/// tree is walked) joined onto the prefix. The first destination that
/// repeats an earlier one is an error, as is an empty stage.
pub fn collect_stage_destinations(rel_paths: &Vec<String>, prefix: &str, stage_root: &str) -> (r: Result<
    Vec<String>,
    TajError,
>)
    ensures
        stage_destinations_ok(r, views(rel_paths@), prefix@, stage_root@),
{
    let ghost dests = stage_dests(views(rel_paths@), prefix@);
    assert(dests =~= Seq::new(rel_paths@.len(), |i: int| path_join(prefix@, rel_paths@[i]@)));
    let mut out: Vec<String> = Vec::new();
    let mut i: usize = 0;
    while i < rel_paths.len()
        invariant
            i <= rel_paths.len(),
            dests == Seq::new(rel_paths@.len(), |i: int| path_join(prefix@, rel_paths@[i]@)),
            dests == stage_dests(views(rel_paths@), prefix@),
            views(out@) == dests.subrange(0, i as int),
            forall|k: int| 0 <= k < i ==> !repeats_at(dests, k),
        decreases rel_paths.len() - i,
    {
        let dest = join(prefix, rel_paths[i].as_str());
        assert(dests[i as int] == dest@);
        assert(views(out@).len() == out@.len());
        assert(out@.len() == i);
        if crate::text::contains_str(&out, dest.as_str()) {
            proof {
                let q = choose|q: int| 0 <= q < out@.len() && #[trigger] out@[q]@ == dest@;
                assert(views(out@)[q] == dests[q]);
                assert(repeats_at(dests, i as int));
            }
            return Err(TajError::DuplicateStagedPath { path: dest });
        }
        proof {
            if repeats_at(dests, i as int) {
                let q = choose|q: int| 0 <= q < i && dests[q] == #[trigger] dests[i as int];
                assert(views(out@)[q] == dests[q]);
                assert(out@[q]@ == dest@);
            }
        }
        let ghost before = out@;
        out.push(dest);
        assert(views(out@) =~= views(before).push(dests[i as int]));
        i = i + 1;
        assert(views(out@) =~= dests.subrange(0, i as int));
    }
    assert(dests.subrange(0, rel_paths.len() as int) =~= dests);
    if out.len() == 0 {
        return Err(TajError::NothingStaged { dir: owned(stage_root) });
    }
    Ok(out)
}

} // verus!
