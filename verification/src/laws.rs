//! Properties that hold across the library's operations.
use vstd::prelude::*;
use crate::builder::{BuildPlan, SourceProbe, build_plan_ok};
use crate::buildspec::{
    BuildMethod, BuildSpec, BuildSpecView, CargoManifestView, cargo_bin_of, lowercase_of, method_named,
};
use crate::detect::{RepoProbe, detect_ok};
use crate::path::path_join;
use crate::preflight::DepProbe;
use crate::state::opt_view;
use crate::steps::work_dir_of;
use crate::text::eq_ignore_ascii_case;
use crate::cli::{Command, InstallArgs, flag_request, subcommand_request};
use crate::cloned::{ClonedInstall, Phase, Report, Task, step_ok};
use crate::conflicts::certain_conflict;
use crate::error::TajError;
use crate::install::{
    meta_record_ok, InstallMode, UpgradeAll, UpgradeStep, upgrade_recorded, upgrade_started,
};
use crate::order::{strictly_sorted, views};
use crate::prefix::{has_flag_with_value_spec, prefixed_args};
use crate::resolve::{
    MirrorInstall, Event, Action, step_ok as mirror_step_ok,
    FrameView, Outcome, PhaseView, advance, continues, chain_ok, finish, linked_at, names_of, on_loaded,
    on_probed, package_of,
};
use crate::state::{InstallRecord, InstallRecordView};
use crate::tajfile::TajFile;
use crate::text::starts_with;

verus! {

/// Recording a package and then uninstalling it gives back the state from
/// before, when the package was not installed then.
pub proof fn law_uninstall_undoes_install(
    st: Map<Seq<char>, InstallRecordView>,
    name: Seq<char>,
    rec: InstallRecordView,
)
    requires
        !st.contains_key(name),
    ensures
        st.insert(name, rec).remove(name) == st,
{
    assert(st.insert(name, rec).remove(name) =~= st);
}

/// What was recorded for a package is what reading it back gives, and the
/// other packages' records are untouched.
pub proof fn law_read_back_record(
    st: Map<Seq<char>, InstallRecordView>,
    name: Seq<char>,
    rec: InstallRecordView,
    other: Seq<char>,
)
    ensures
        st.insert(name, rec).contains_key(name),
        st.insert(name, rec)[name] == rec,
        other != name ==> st.insert(name, rec).contains_key(other) == st.contains_key(other),
        other != name && st.contains_key(other) ==> st.insert(name, rec)[other] == st[other],
{
}

/// Uninstalling leaves every other package's record as it was.
pub proof fn law_uninstall_keeps_others(
    st: Map<Seq<char>, InstallRecordView>,
    name: Seq<char>,
    other: Seq<char>,
)
    requires
        other != name,
        st.contains_key(other),
    ensures
        st.remove(name).contains_key(other),
        st.remove(name)[other] == st[other],
        !st.remove(name).contains_key(name),
{
}

/// Configuring a build for a prefix twice is the same as once: the first
/// time sets the prefix, the second finds it set.
pub proof fn law_prefix_idempotent(method: BuildMethod, args: Seq<Seq<char>>, prefix: Seq<char>)
    ensures
        prefixed_args(method, prefixed_args(method, args, prefix), prefix) == prefixed_args(
            method,
            args,
            prefix,
        ),
{
    let once = prefixed_args(method, args, prefix);
    match method {
        BuildMethod::Autotools | BuildMethod::Meson => {
            if !has_flag_with_value_spec(args, "--prefix"@) {
                let flag = "--prefix"@;
                let a = "--prefix="@ + prefix;
                assert("--prefix="@ =~= flag + "="@) by {
                    reveal_strlit("--prefix=");
                    reveal_strlit("--prefix");
                    reveal_strlit("=");
                }
                assert(a.subrange(0, (flag + "="@).len() as int) =~= flag + "="@);
                assert(once.last() == a);
                assert(starts_with(once[once.len() - 1], flag + "="@));
                assert(has_flag_with_value_spec(once, flag));
            }
        },
        BuildMethod::Cmake => {
            if !has_flag_with_value_spec(args, "-DCMAKE_INSTALL_PREFIX"@) {
                let flag = "-DCMAKE_INSTALL_PREFIX"@;
                let a = "-DCMAKE_INSTALL_PREFIX="@ + prefix;
                assert("-DCMAKE_INSTALL_PREFIX="@ =~= flag + "="@) by {
                    reveal_strlit("-DCMAKE_INSTALL_PREFIX=");
                    reveal_strlit("-DCMAKE_INSTALL_PREFIX");
                    reveal_strlit("=");
                }
                assert(a.subrange(0, (flag + "="@).len() as int) =~= flag + "="@);
                assert(once.last() == a);
                assert(starts_with(once[once.len() - 1], flag + "="@));
                assert(has_flag_with_value_spec(once, flag));
            }
        },
        _ => {},
    }
}

/// A dependency cycle is reported exactly for a package that is on the
/// chain being installed: when the next dependency to visit is being
/// visited already, the install fails with a cycle at it and no frame is
/// added for it; otherwise a frame is added for it and its `.taj` file is
/// loaded.
pub proof fn law_cycle_is_on_chain(frames: Seq<FrameView>)
    ensures
        advance(frames).1 matches Outcome::Cycle(d) ==> names_of(frames).contains(d),
        ({
            let ph = frames.last().phase;
            frames.len() > 0 && ph is Deps && 0 <= ph->Deps_next < ph->Deps_depends.len()
        }) ==> ({
            let dep = frames.last().phase->Deps_depends[frames.last().phase->Deps_next];
            &&& names_of(frames).contains(dep) ==> advance(frames).1 == Outcome::Cycle(dep)
                && advance(frames).0.len() == frames.len()
            &&& !names_of(frames).contains(dep) ==> advance(frames).1 == Outcome::Load(dep)
                && advance(frames).0.len() == frames.len() + 1 && advance(frames).0.last().name
                == dep
        }),
{
}

/// Only the requested package can be refused for being installed already;
/// a dependency that is installed is reused.
pub proof fn law_only_requested_package_refused(
    frames: Seq<FrameView>,
    installed: Seq<Seq<char>>,
    st: Map<Seq<char>, InstallRecordView>,
    t: TajFile,
)
    requires
        frames.len() > 0,
        chain_ok(frames),
    ensures
        on_loaded(frames, installed, st, t).1 is AlreadyInstalled
            ==> frames.len() == 1,
{
    if frames.len() > 1 {
        assert(linked_at(frames, frames.len() - 2));
    }
}

/// A dependency that is installed already (and was not installed in this
/// run) is not rebuilt: its installed record settles it.
pub proof fn law_installed_dependency_reused(
    frames: Seq<FrameView>,
    installed: Seq<Seq<char>>,
    st: Map<Seq<char>, InstallRecordView>,
    t: TajFile,
)
    requires
        frames.len() > 1,
        chain_ok(frames),
        ({
            let pkg = match t.name {
                Some(n) => n@,
                None => frames.last().name,
            };
            st.contains_key(pkg) && !installed.contains(pkg)
        }),
    ensures
        ({
            let pkg = match t.name {
                Some(n) => n@,
                None => frames.last().name,
            };
            on_loaded(frames, installed, st, t) == finish(frames, st[pkg])
        }),
{
    assert(linked_at(frames, frames.len() - 2));
}

/// An upgrade is never refused because the package is installed.
pub proof fn law_upgrade_not_refused(
    frames: Seq<FrameView>,
    installed: Seq<Seq<char>>,
    st: Map<Seq<char>, InstallRecordView>,
    t: TajFile,
)
    requires
        frames.len() > 0,
        frames.last().mode == InstallMode::Upgrade,
    ensures
        !(on_loaded(frames, installed, st, t).1 is AlreadyInstalled),
{
}

/// A package installed in this run is not built again in it: it is settled
/// by the record the run made.
pub proof fn law_installed_in_run_settled(
    frames: Seq<FrameView>,
    installed: Seq<Seq<char>>,
    st: Map<Seq<char>, InstallRecordView>,
    t: TajFile,
)
    requires
        frames.len() > 0,
        ({
            let pkg = match t.name {
                Some(n) => n@,
                None => frames.last().name,
            };
            installed.contains(pkg) && st.contains_key(pkg)
        }),
    ensures
        ({
            let pkg = match t.name {
                Some(n) => n@,
                None => frames.last().name,
            };
            on_loaded(frames, installed, st, t) == finish(frames, st[pkg])
        }),
{
}

/// A meta package records no files and no binary.
pub proof fn law_meta_package_has_no_files(
    r: InstallRecordView,
    name: Seq<char>,
    repo: Seq<char>,
    source_name: Option<Seq<char>>,
    source: Seq<char>,
)
    requires
        meta_record_ok(r, name, repo, source_name, source),
    ensures
        crate::state::record_files(r) == Seq::<Seq<char>>::empty(),
        r.bin_path == Seq::<char>::empty(),
{
}

/// The legacy flags ask for what the subcommands ask for: `-i NAME` is
/// `install NAME`, `-gh URL` is `install --github URL`, `-gl URL` is
/// `install --gitlab URL` and `-u NAME` is `uninstall NAME`.
pub proof fn law_legacy_flags_match_subcommands(arg: String)
    ensures
        flag_request("-i"@, arg@) == subcommand_request(
            Command::Install(InstallArgs { name: Some(arg), github: None, gitlab: None }),
        ),
        flag_request("-gh"@, arg@) == subcommand_request(
            Command::Install(InstallArgs { name: None, github: Some(arg), gitlab: None }),
        ),
        flag_request("-gl"@, arg@) == subcommand_request(
            Command::Install(InstallArgs { name: None, github: None, gitlab: Some(arg) }),
        ),
        flag_request("-u"@, arg@) == subcommand_request(Command::Uninstall { name: arg }),
{
    reveal_strlit("-i");
    reveal_strlit("-gh");
    reveal_strlit("-gl");
    reveal_strlit("-u");
    assert("-gh"@.len() != "-i"@.len());
    assert("-gl"@.len() != "-i"@.len());
    assert("-gl"@[2] != "-gh"@[2]);
    assert("-u"@[1] != "-i"@[1]);
    assert("-u"@.len() != "-gh"@.len());
    assert("-u"@.len() != "-gl"@.len());
}

/// Adding to a list with `push_unique` never makes a value occur twice.
pub proof fn law_push_unique_keeps_values_distinct(list: Seq<Seq<char>>, value: Seq<char>)
    requires
        list.no_duplicates(),
    ensures
        (if list.contains(value) {
            list
        } else {
            list.push(value)
        }).no_duplicates(),
{
    if !list.contains(value) {
        let l = list.push(value);
        assert forall|i: int, j: int| 0 <= i < l.len() && 0 <= j < l.len() && i != j implies l[i]
            != l[j] by {
            if i == list.len() as int {
                assert(list[j] == l[j]);
            } else if j == list.len() as int {
                assert(list[i] == l[i]);
            }
        }
    }
}

/// Installing a checked-out repository leaves the installed packages alone
/// until it ends; then exactly one record changes: the package's own.
pub proof fn law_state_changes_only_when_done(
    m0: ClonedInstall,
    m1: ClonedInstall,
    st0: Map<Seq<char>, InstallRecordView>,
    st1: Map<Seq<char>, InstallRecordView>,
    report: Report,
    task: Task,
)
    requires
        step_ok(m0, m1, st0, st1, report, task),
    ensures
        !(task is Done || task is RemoveStale) ==> st1 == st0,
        st1 == st0 || exists|r: InstallRecordView| #[trigger] st0.insert(m0.name@, r) == st1,
{
    if st1 != st0 {
        match task {
            Task::Done(r) => {
                assert(st0.insert(m0.name@, r@) == st1);
            },
            Task::RemoveStale { .. } => {
                let r = m1.phase->Cleanup_record;
                assert(st0.insert(m0.name@, r@) == st1);
            },
            _ => {},
        }
    }
}

/// Files are copied into place only after the conflict check passed: none
/// of them is recorded by another package alone, or, recorded by nobody,
/// present on disk.
pub proof fn law_copies_only_unclaimed_files(
    m0: ClonedInstall,
    m1: ClonedInstall,
    st0: Map<Seq<char>, InstallRecordView>,
    st1: Map<Seq<char>, InstallRecordView>,
    report: Report,
    task: Task,
)
    requires
        step_ok(m0, m1, st0, st1, report, task),
    ensures
        m0.phase matches Phase::StagedConflicts { targets, .. } ==> (task is CopyStaged ==> (
        report matches Report::Exists(on_disk) && forall|i: int|
            0 <= i < targets@.len() ==> !#[trigger] certain_conflict(
                st0,
                m0.name@,
                targets@[i]@,
                on_disk@[i],
            ))),
        m0.phase matches Phase::DestCheck { dest, .. } ==> (task is InstallBinary ==> (
        report matches Report::Exists(on_disk) && !certain_conflict(
            st0,
            m0.name@,
            dest@,
            on_disk@[0],
        ))),
{
    match m0.phase {
        Phase::StagedConflicts { targets, .. } => {
            if task is CopyStaged {
                let on_disk = report->Exists_0;
                let tv = crate::order::views(targets@);
                assert forall|i: int| 0 <= i < targets@.len() implies !#[trigger] certain_conflict(
                    st0,
                    m0.name@,
                    targets@[i]@,
                    on_disk@[i],
                ) by {
                    assert(tv[i] == targets@[i]@);
                    if certain_conflict(st0, m0.name@, tv[i], on_disk@[i]) {
                        assert(exists|j: int|
                            0 <= j < tv.len() && #[trigger] certain_conflict(
                                st0,
                                m0.name@,
                                tv[j],
                                on_disk@[j],
                            ));
                    }
                }
            }
        },
        Phase::DestCheck { dest, .. } => {
            if task is InstallBinary {
                let on_disk = report->Exists_0;
                let tv = seq![dest@];
                if certain_conflict(st0, m0.name@, dest@, on_disk@[0]) {
                    assert(certain_conflict(st0, m0.name@, tv[0], on_disk@[0]));
                    assert(exists|j: int|
                        0 <= j < tv.len() && #[trigger] certain_conflict(
                            st0,
                            m0.name@,
                            tv[j],
                            on_disk@[j],
                        ));
                }
            }
        },
        _ => {},
    }
}

/// `a` is `b` or an extension of it.
pub open spec fn is_prefix_of(a: Seq<Seq<char>>, b: Seq<Seq<char>>) -> bool {
    a.len() <= b.len() && b.subrange(0, a.len() as int) == a
}

/// A run of a mirror install: each step goes from one install to the next
/// as [`mirror_step_ok`] says, with the state before and after it.
pub open spec fn mirror_run_ok(
    ms: Seq<MirrorInstall>,
    sts: Seq<Map<Seq<char>, InstallRecordView>>,
    es: Seq<Event>,
    acts: Seq<Action>,
) -> bool {
    &&& ms.len() == es.len() + 1
    &&& sts.len() == ms.len()
    &&& acts.len() == es.len()
    &&& forall|i: int|
        0 <= i < es.len() ==> #[trigger] mirror_step_ok(ms[i], ms[i + 1], sts[i], sts[i + 1], es[i], acts[i])
}

/// Over a whole mirror install, the packages installed in the run only
/// accumulate: none is ever dropped from the list, and the order is kept.
pub proof fn law_run_installed_only_grows(
    ms: Seq<MirrorInstall>,
    sts: Seq<Map<Seq<char>, InstallRecordView>>,
    es: Seq<Event>,
    acts: Seq<Action>,
)
    requires
        mirror_run_ok(ms, sts, es, acts),
    ensures
        is_prefix_of(ms[0].installed_view(), ms.last().installed_view()),
    decreases es.len(),
{
    if es.len() == 0 {
        assert(ms.last() == ms[0]);
        assert(ms[0].installed_view().subrange(0, ms[0].installed_view().len() as int)
            =~= ms[0].installed_view());
    } else {
        let n = es.len() - 1;
        let ms2 = ms.drop_last();
        let sts2 = sts.drop_last();
        let es2 = es.drop_last();
        let acts2 = acts.drop_last();
        assert forall|i: int| 0 <= i < es2.len() implies #[trigger] mirror_step_ok(
            ms2[i],
            ms2[i + 1],
            sts2[i],
            sts2[i + 1],
            es2[i],
            acts2[i],
        ) by {
            assert(mirror_step_ok(ms[i], ms[i + 1], sts[i], sts[i + 1], es[i], acts[i]));
        }
        law_run_installed_only_grows(ms2, sts2, es2, acts2);
        assert(mirror_step_ok(ms[n], ms[n + 1], sts[n], sts[n + 1], es[n], acts[n]));
        let a = ms[0].installed_view();
        let b = ms[n].installed_view();
        let c = ms[n + 1].installed_view();
        assert(ms2.last() == ms[n]);
        assert(c.len() >= b.len() && c.subrange(0, b.len() as int) =~= b);
        assert(c.subrange(0, a.len() as int) =~= c.subrange(0, b.len() as int).subrange(
            0,
            a.len() as int,
        ));
        assert(c.subrange(0, a.len() as int) =~= a);
    }
}

/// When a package on the chain is done and the install goes on, the chain
/// below it is as it was: the frames that asked for it keep their names,
/// and at most the next dependency is put on top.
pub proof fn law_finish_restores_chain(frames: Seq<FrameView>, record: InstallRecordView)
    requires
        frames.len() > 1,
        chain_ok(frames),
    ensures
        continues(finish(frames, record).1) ==> {
            let f = finish(frames, record).0;
            &&& frames.len() - 1 <= f.len() <= frames.len()
            &&& names_of(f).subrange(0, frames.len() - 1) == names_of(frames.drop_last())
        },
{
    let rest = frames.drop_last();
    assert(linked_at(frames, frames.len() - 2));
    assert(rest.last() == frames[frames.len() - 2]);
    let (f, o) = advance(rest);
    if continues(o) {
        assert(names_of(f).subrange(0, frames.len() - 1) =~= names_of(rest));
    }
}

/// `meta NAME` and `bundle NAME` ask for what `install NAME` asks for: the
/// mirror package NAME.
pub proof fn law_meta_and_bundle_install_from_mirror(name: String)
    ensures
        subcommand_request(Command::Meta { name }) == subcommand_request(
            Command::Install(InstallArgs { name: Some(name), github: None, gitlab: None }),
        ),
        subcommand_request(Command::Bundle { name }) == subcommand_request(
            Command::Install(InstallArgs { name: Some(name), github: None, gitlab: None }),
        ),
{
}

/// A run of upgrading every package, from the installed packages `st`:
/// `us[i]` is the upgrade after `i` outcomes and `ss[i]` the step it asked
/// for then; the outcome `os[i]` answers the upgrade that `ss[i]` asked for.
pub open spec fn upgrade_run_ok(
    st: Map<Seq<char>, InstallRecordView>,
    us: Seq<UpgradeAll>,
    ss: Seq<UpgradeStep>,
    os: Seq<Result<InstallRecord, TajError>>,
) -> bool {
    &&& us.len() == os.len() + 1
    &&& ss.len() == us.len()
    &&& upgrade_started(st, us[0], ss[0])
    &&& forall|i: int|
        0 <= i < os.len() ==> ss[i] is Upgrade && #[trigger] upgrade_recorded(
            us[i],
            us[i + 1],
            os[i],
            ss[i + 1],
        )
}

/// What holds after `k` outcomes of an upgrade run.
proof fn lemma_upgrade_run_upto(
    st: Map<Seq<char>, InstallRecordView>,
    us: Seq<UpgradeAll>,
    ss: Seq<UpgradeStep>,
    os: Seq<Result<InstallRecord, TajError>>,
    k: int,
)
    requires
        upgrade_run_ok(st, us, ss, os),
        0 <= k <= os.len(),
    ensures
        us[k].names == us[0].names,
        ss[k] matches UpgradeStep::Upgrade(n) ==> {
            &&& us[k].next == k
            &&& k < us[0].names@.len()
            &&& n@ == us[0].names@[k]@
            &&& us[k].upgraded@.len() == k
            &&& forall|j: int| 0 <= j < k ==> os[j] == Ok::<InstallRecord, TajError>(us[k].upgraded@[j])
        },
        ss[k] matches UpgradeStep::Finished(v) ==> {
            &&& k == us[0].names@.len()
            &&& v@.len() == k
            &&& forall|j: int| 0 <= j < k ==> os[j] == Ok::<InstallRecord, TajError>(v@[j])
        },
        ss[k] matches UpgradeStep::Stopped(e) ==> k > 0 && os[k - 1] == Err::<InstallRecord, TajError>(e),
    decreases k,
{
    if k > 0 {
        let i = k - 1;
        lemma_upgrade_run_upto(st, us, ss, os, i);
        assert(upgrade_recorded(us[i], us[i + 1], os[i], ss[i + 1]));
        assert(ss[i] is Upgrade);
        assert(us[i + 1] == us[k] && ss[i + 1] == ss[k]);
        if ss[k] is Upgrade || ss[k] is Finished {
            let r = os[i]->Ok_0;
            assert forall|j: int| 0 <= j < k implies os[j] == Ok::<InstallRecord, TajError>(
                us[i].upgraded@.push(r)[j],
            ) by {
                if j < i {
                    assert(us[i].upgraded@.push(r)[j] == us[i].upgraded@[j]);
                }
            }
        }
    }
}

/// Upgrading every package goes through the installed packages in order of
/// name, one outcome for each, and stops at the first failure, which it
/// hands back; when it finishes, it has upgraded every installed package and
/// hands back their new records, each in the place of its name.
pub proof fn law_upgrade_all_in_order(
    st: Map<Seq<char>, InstallRecordView>,
    us: Seq<UpgradeAll>,
    ss: Seq<UpgradeStep>,
    os: Seq<Result<InstallRecord, TajError>>,
)
    requires
        upgrade_run_ok(st, us, ss, os),
    ensures
        strictly_sorted(views(us[0].names@)),
        forall|k: Seq<char>| views(us[0].names@).contains(k) <==> st.contains_key(k),
        os.len() <= us[0].names@.len(),
        forall|i: int|
            0 <= i < os.len() ==> (#[trigger] ss[i] matches UpgradeStep::Upgrade(n) && n@
                == us[0].names@[i]@),
        forall|i: int| 0 <= i < os.len() - 1 ==> #[trigger] os[i] is Ok,
        ss.last() matches UpgradeStep::Finished(v) ==> {
            &&& os.len() == us[0].names@.len()
            &&& v@.len() == os.len()
            &&& forall|i: int| 0 <= i < os.len() ==> os[i] == Ok::<InstallRecord, TajError>(v@[i])
        },
        ss.last() matches UpgradeStep::Stopped(e) ==> os.len() > 0 && os.last() == Err::<InstallRecord, TajError>(e),
        ss.last() is Upgrade ==> os.len() < us[0].names@.len(),
        us[0].names@.len() == 0 ==> os.len() == 0 && (ss.last() matches UpgradeStep::Finished(v)
            && v@.len() == 0),
{
    lemma_upgrade_run_upto(st, us, ss, os, os.len() as int);
    assert forall|i: int| 0 <= i < os.len() implies (#[trigger] ss[i] matches UpgradeStep::Upgrade(n)
        && n@ == us[0].names@[i]@) by {
        lemma_upgrade_run_upto(st, us, ss, os, i);
        assert(upgrade_recorded(us[i], us[i + 1], os[i], ss[i + 1]));
        assert(ss[i] is Upgrade);
    }
    assert forall|i: int| 0 <= i < os.len() - 1 implies #[trigger] os[i] is Ok by {
        let j = i + 1;
        assert(ss[j] is Upgrade && upgrade_recorded(us[j], us[j + 1], os[j], ss[j + 1]));
        assert(ss[i] is Upgrade && upgrade_recorded(us[i], us[i + 1], os[i], ss[i + 1]));
    }
    if os.len() > 0 {
        lemma_upgrade_run_upto(st, us, ss, os, os.len() - 1);
    }
}

/// Every install of a run but the last is still going: a step is taken only
/// on an install that has not ended.
pub open spec fn mirror_run_live(ms: Seq<MirrorInstall>) -> bool {
    forall|i: int| 0 <= i < ms.len() - 1 ==> !#[trigger] ms[i].is_finished()
}

/// Moving on in the top frame keeps every frame's name and drops none.
proof fn lemma_advance_keeps_names(fv: Seq<FrameView>)
    requires
        fv.len() > 0,
    ensures
        continues(advance(fv).1) ==> advance(fv).0.len() >= fv.len(),
        continues(advance(fv).1) ==> forall|k: int|
            0 <= k < fv.len() ==> #[trigger] advance(fv).0[k].name == fv[k].name,
{
}

/// Finishing the top frame keeps the names of the frames below it.
proof fn lemma_finish_keeps_names(fv: Seq<FrameView>, r: InstallRecordView)
    requires
        fv.len() > 0,
    ensures
        continues(finish(fv, r).1) ==> finish(fv, r).0.len() >= fv.len() - 1,
        continues(finish(fv, r).1) ==> forall|k: int|
            0 <= k < fv.len() - 1 ==> #[trigger] finish(fv, r).0[k].name == fv[k].name,
{
    let rest = fv.drop_last();
    if rest.len() > 0 {
        lemma_advance_keeps_names(rest);
    }
}

/// A step that leaves the install going keeps the names of every frame
/// below the top one, and drops at most the top one.
proof fn lemma_step_keeps_callers(
    m0: MirrorInstall,
    m1: MirrorInstall,
    st0: Map<Seq<char>, InstallRecordView>,
    st1: Map<Seq<char>, InstallRecordView>,
    e: Event,
    a: Action,
)
    requires
        mirror_step_ok(m0, m1, st0, st1, e, a),
        m0.frames_view().len() > 0,
        !m1.is_finished(),
    ensures
        m1.frames_view().len() >= m0.frames_view().len() - 1,
        forall|k: int|
            0 <= k < m0.frames_view().len() - 1 ==> #[trigger] m1.frames_view()[k].name
                == m0.frames_view()[k].name,
{
    let fv = m0.frames_view();
    let top = fv.last();
    match e {
        Event::TajLoaded(t) => {
            let pkg = match t.name {
                Some(n) => n@,
                None => top.name,
            };
            let ph = PhaseView::Deps {
                taj: t,
                package: pkg,
                depends: crate::resolve::depends_of(t),
                meta: crate::text::eq_ignore_ascii_case(t.build@, "meta"@),
                next: 0,
            };
            let replaced = fv.drop_last().push(FrameView { phase: ph, ..top });
            lemma_finish_keeps_names(fv, st0[pkg]);
            lemma_advance_keeps_names(replaced);
            assert forall|k: int| 0 <= k < fv.len() implies #[trigger] replaced[k].name
                == fv[k].name by {}
        },
        Event::Probed(p) => {
            let pkg = package_of(top);
            lemma_finish_keeps_names(fv, st1[pkg]);
        },
        Event::Built(r) => {
            lemma_finish_keeps_names(fv, r@);
        },
    }
}

/// While a package is being installed from the mirror, together with its
/// dependencies, the packages that asked for it stay on the chain: as long
/// as the chain keeps more than `m` frames, the first `m` of them keep their
/// names, and when the chain comes down to `m` frames (the visit of the
/// frame above them ended), those are still the ones it started with.
pub proof fn law_visit_keeps_callers(
    ms: Seq<MirrorInstall>,
    sts: Seq<Map<Seq<char>, InstallRecordView>>,
    es: Seq<Event>,
    acts: Seq<Action>,
    i: int,
    j: int,
    m: int,
)
    requires
        mirror_run_ok(ms, sts, es, acts),
        mirror_run_live(ms),
        0 <= i <= j < ms.len(),
        0 <= m <= ms[i].frames_view().len(),
        !ms[j].is_finished(),
        forall|t: int| i <= t < j ==> #[trigger] ms[t].frames_view().len() > m,
    ensures
        ms[j].frames_view().len() >= m,
        names_of(ms[j].frames_view()).subrange(0, m) == names_of(ms[i].frames_view()).subrange(
            0,
            m,
        ),
        ms[j].frames_view().len() == m ==> names_of(ms[j].frames_view()) == names_of(
            ms[i].frames_view(),
        ).subrange(0, m),
    decreases j - i,
{
    if i < j {
        assert(ms[i].frames_view().len() > m);
        assert(mirror_step_ok(ms[i], ms[i + 1], sts[i], sts[i + 1], es[i], acts[i]));
        if i + 1 < j {
            assert(!ms[i + 1].is_finished());
        }
        lemma_step_keeps_callers(ms[i], ms[i + 1], sts[i], sts[i + 1], es[i], acts[i]);
        law_visit_keeps_callers(ms, sts, es, acts, i + 1, j, m);
        assert(names_of(ms[i + 1].frames_view()).subrange(0, m) =~= names_of(
            ms[i].frames_view(),
        ).subrange(0, m));
    } else {
        assert(ms[j] == ms[i]);
    }
    if ms[j].frames_view().len() == m {
        assert(names_of(ms[j].frames_view()) =~= names_of(ms[j].frames_view()).subrange(0, m));
    }
}

/// Finishing the top frame can only report a cycle at a package on the
/// chain.
proof fn lemma_finish_cycle_on_chain(fv: Seq<FrameView>, r: InstallRecordView)
    requires
        fv.len() > 0,
    ensures
        finish(fv, r).1 matches Outcome::Cycle(d) ==> names_of(fv).contains(d),
{
    let rest = fv.drop_last();
    if rest.len() > 0 {
        if let Outcome::Cycle(d) = advance(rest).1 {
            let k = choose|k: int| 0 <= k < names_of(rest).len() && names_of(rest)[k] == d;
            assert(names_of(fv)[k] == d);
        }
    }
}

/// A mirror install fails with a dependency cycle only at a package that is
/// being installed (on the chain) when the step is taken, and that failure
/// ends the install. The step records nothing but what finishing the top
/// package records (when the cycle shows up as the package below it moves on
/// to its next dependency).
pub proof fn law_cycle_ends_install(
    ms: Seq<MirrorInstall>,
    sts: Seq<Map<Seq<char>, InstallRecordView>>,
    es: Seq<Event>,
    acts: Seq<Action>,
    i: int,
)
    requires
        mirror_run_ok(ms, sts, es, acts),
        0 <= i < es.len(),
        ms[i].frames_view().len() > 0,
        acts[i] matches Action::Failed(TajError::DependencyCycle { .. }),
    ensures
        names_of(ms[i].frames_view()).contains(acts[i]->Failed_0->DependencyCycle_name@),
        ms[i + 1].is_finished(),
        ({
            let pkg = package_of(ms[i].frames_view().last());
            &&& sts[i + 1] == sts[i] || sts[i + 1] == sts[i].insert(pkg, sts[i + 1][pkg])
            &&& ms[i + 1].installed_view() == ms[i].installed_view() || ms[i + 1].installed_view()
                == ms[i].installed_view().push(pkg)
        }),
{
    let m0 = ms[i];
    let m1 = ms[i + 1];
    assert(mirror_step_ok(ms[i], ms[i + 1], sts[i], sts[i + 1], es[i], acts[i]));
    let fv = m0.frames_view();
    let top = fv.last();
    let name = acts[i]->Failed_0->DependencyCycle_name@;
    match es[i] {
        Event::TajLoaded(t) => {
            let pkg = match t.name {
                Some(n) => n@,
                None => top.name,
            };
            let ph = PhaseView::Deps {
                taj: t,
                package: pkg,
                depends: crate::resolve::depends_of(t),
                meta: crate::text::eq_ignore_ascii_case(t.build@, "meta"@),
                next: 0,
            };
            let replaced = fv.drop_last().push(FrameView { phase: ph, ..top });
            lemma_finish_cycle_on_chain(fv, sts[i][pkg]);
            assert(names_of(replaced) =~= names_of(fv));
        },
        Event::Probed(p) => {
            let pkg = package_of(top);
            lemma_finish_cycle_on_chain(fv, sts[i + 1][pkg]);
        },
        Event::Built(r) => {
            lemma_finish_cycle_on_chain(fv, r@);
        },
    }
}

/// The install step of a package built with CMake or meson (and no build
/// directory of its own) runs in the build tree `REPO/build`, not in the
/// checkout; one with a build directory runs in that directory under the
/// checkout; any other runs in the checkout.
pub proof fn law_install_step_runs_in_build_tree(repo_dir: Seq<char>, spec: BuildSpecView)
    ensures
        spec.build_dir is None && (spec.method == BuildMethod::Cmake || spec.method
            == BuildMethod::Meson) ==> work_dir_of(repo_dir, spec) == path_join(repo_dir, "build"@)
            && work_dir_of(repo_dir, spec) != repo_dir,
        spec.build_dir matches Some(d) ==> work_dir_of(repo_dir, spec) == path_join(repo_dir, d),
        spec.build_dir is None && spec.method != BuildMethod::Cmake && spec.method
            != BuildMethod::Meson ==> work_dir_of(repo_dir, spec) == repo_dir,
{
    reveal_strlit("build");
    assert(path_join(repo_dir, "build"@).len() > repo_dir.len());
}

/// The install step of a CMake package (with no build directory of its own)
/// runs in the very tree that its build configures with `-B` and builds with
/// `--build`.
pub proof fn law_cmake_install_uses_configured_tree(
    r: Result<BuildPlan, TajError>,
    repo_dir: Seq<char>,
    spec: BuildSpec,
    name_hint: Seq<char>,
    out_dir: Seq<char>,
    sources: SourceProbe,
)
    requires
        build_plan_ok(r, repo_dir, spec, name_hint, out_dir, sources),
        spec.method == BuildMethod::Cmake,
        spec@.build_dir is None,
    ensures
        r matches Ok(p) && p.commands@.len() == 2 && ({
            let configure = p.commands@[0]@;
            let build = p.commands@[1]@;
            &&& configure.args[2] == "-B"@
            &&& configure.args[3] == work_dir_of(repo_dir, spec@)
            &&& build.args[0] == "--build"@
            &&& build.args[1] == work_dir_of(repo_dir, spec@)
        }),
{
    let p = r->Ok_0;
    assert(crate::command::command_views(p.commands@).len() == p.commands@.len());
    assert(p.commands@[0]@ == crate::command::command_views(p.commands@)[0]);
    assert(p.commands@[1]@ == crate::command::command_views(p.commands@)[1]);
}

/// gcc and g++ builds compile the sources found: with none the build is
/// refused; otherwise its one command, run in the checkout, is the compiler
/// with `-O2 -o OUT`, then every source in order, then the description's
/// arguments, where OUT is the binary's name (else the package's) in the
/// output directory. g++ takes the C++ sources, gcc the C sources.
pub proof fn law_compiler_builds_take_sources(
    r: Result<BuildPlan, TajError>,
    repo_dir: Seq<char>,
    spec: BuildSpec,
    name_hint: Seq<char>,
    out_dir: Seq<char>,
    sources: SourceProbe,
)
    requires
        build_plan_ok(r, repo_dir, spec, name_hint, out_dir, sources),
        spec.method == BuildMethod::Gcc || spec.method == BuildMethod::Gpp,
    ensures
        ({
            let gpp = spec.method == BuildMethod::Gpp;
            let srcs = if gpp {
                views(sources.cpp_sources@)
            } else {
                views(sources.c_sources@)
            };
            let out = path_join(
                out_dir,
                match spec@.bin {
                    Some(b) => b,
                    None => name_hint,
                },
            );
            &&& srcs.len() == 0 ==> r is Err
            &&& srcs.len() > 0 ==> (r matches Ok(p) && p.commands@.len() == 1 && ({
                let c = p.commands@[0]@;
                &&& c.program == (if gpp {
                    "g++"@
                } else {
                    "gcc"@
                })
                &&& c.cwd == Some(repo_dir)
                &&& c.args.len() == 3 + srcs.len() + spec@.args.len()
                &&& c.args.subrange(0, 3) == seq!["-O2"@, "-o"@, out]
                &&& c.args.subrange(3, 3 + srcs.len() as int) == srcs
                &&& c.args.subrange(3 + srcs.len() as int, c.args.len() as int) == spec@.args
            }))
        }),
{
    let gpp = spec.method == BuildMethod::Gpp;
    let srcs = if gpp {
        views(sources.cpp_sources@)
    } else {
        views(sources.c_sources@)
    };
    if srcs.len() > 0 {
        let p = r->Ok_0;
        let c = p.commands@[0]@;
        assert(crate::command::command_views(p.commands@).len() == p.commands@.len());
        assert(c == crate::command::command_views(p.commands@)[0]);
        let out = path_join(
            out_dir,
            match spec@.bin {
                Some(b) => b,
                None => name_hint,
            },
        );
        let head = seq!["-O2"@, "-o"@, out];
        assert(c.args == head + srcs + spec@.args);
        assert(c.args.subrange(0, 3) =~= head);
        assert(c.args.subrange(3, 3 + srcs.len() as int) =~= srcs);
        assert(c.args.subrange(3 + srcs.len() as int, c.args.len() as int) =~= spec@.args);
    }
}

/// A mirror package is built with the build specification its description
/// gives, in full: the method it names, its arguments, binary name,
/// subdirectory, build directory and environment, from its repository at its
/// git ref, with its install section.
pub proof fn law_mirror_build_uses_description(
    m0: MirrorInstall,
    m1: MirrorInstall,
    st0: Map<Seq<char>, InstallRecordView>,
    st1: Map<Seq<char>, InstallRecordView>,
    probe: DepProbe,
    a: Action,
)
    requires
        mirror_step_ok(m0, m1, st0, st1, Event::Probed(probe), a),
        a is Build,
    ensures
        ({
            let taj = m0.probing_taj();
            let req = a->Build_0;
            &&& method_named(lowercase_of(taj.build@)) == Some(req.spec@.method)
            &&& req.spec@.args == views(taj.build_args@)
            &&& req.spec@.bin == opt_view(taj.bin)
            &&& req.spec@.subdir == opt_view(taj.subdir)
            &&& req.spec@.build_dir == opt_view(taj.build_dir)
            &&& req.spec@.env == match taj.env {
                Some(e) => e@,
                None => Map::empty(),
            }
            &&& req.repo@ == taj.repo@
            &&& opt_view(req.git_ref) == opt_view(taj.git_ref)
            &&& req.install == taj.install
            &&& req.package@ == package_of(m0.frames_view().last())
        }),
{
}

/// With no Cargo, Go, meson, CMake or make files, a repository is built with
/// g++ (under the name asked for) exactly when a file at its top has the
/// extension `cpp`, `cc` or `cxx` in any ASCII case.
pub proof fn law_cpp_sources_select_gpp(
    probe: RepoProbe,
    name_hint: Seq<char>,
    dir: Seq<char>,
    r: Result<BuildSpec, TajError>,
)
    requires
        detect_ok(probe, name_hint, dir, r),
        probe.cargo_manifest is None,
        !probe.go_mod,
        !probe.meson_build,
        !probe.cmake_lists,
        !probe.makefile,
    ensures
        ({
            let exts = views(probe.file_extensions@);
            (exists|i: int|
                0 <= i < exts.len() && (eq_ignore_ascii_case(#[trigger] exts[i], "cpp"@)
                    || eq_ignore_ascii_case(exts[i], "cc"@) || eq_ignore_ascii_case(
                    exts[i],
                    "cxx"@,
                ))) <==> (r matches Ok(s) && s@.method == BuildMethod::Gpp)
        }),
        r is Ok && r->Ok_0@.method == BuildMethod::Gpp ==> r->Ok_0@.bin == Some(name_hint)
            && r->Ok_0@.args.len() == 0,
{
    let exts = views(probe.file_extensions@);
    let allowed = seq!["cpp"@, "cc"@, "cxx"@];
    let named = exists|i: int|
        0 <= i < exts.len() && (eq_ignore_ascii_case(#[trigger] exts[i], "cpp"@)
            || eq_ignore_ascii_case(exts[i], "cc"@) || eq_ignore_ascii_case(exts[i], "cxx"@));
    if named {
        let i = choose|i: int|
            0 <= i < exts.len() && (eq_ignore_ascii_case(#[trigger] exts[i], "cpp"@)
                || eq_ignore_ascii_case(exts[i], "cc"@) || eq_ignore_ascii_case(exts[i], "cxx"@));
        if eq_ignore_ascii_case(exts[i], "cpp"@) {
            assert(eq_ignore_ascii_case(exts[i], allowed[0]));
        } else if eq_ignore_ascii_case(exts[i], "cc"@) {
            assert(eq_ignore_ascii_case(exts[i], allowed[1]));
        } else {
            assert(eq_ignore_ascii_case(exts[i], allowed[2]));
        }
        assert(crate::detect::has_extension_spec(exts, allowed));
    } else {
        if crate::detect::has_extension_spec(exts, allowed) {
            let (i, j) = choose|i: int, j: int|
                0 <= i < exts.len() && 0 <= j < allowed.len() && eq_ignore_ascii_case(
                    #[trigger] exts[i],
                    #[trigger] allowed[j],
                );
            assert(eq_ignore_ascii_case(exts[i], allowed[j]));
            assert(j == 0 || j == 1 || j == 2);
            assert(false);
        }
    }
}

/// The first `k` names of a manifest's `[[bin]]` entries are all missing.
pub open spec fn unnamed_before(bins: Seq<Option<Seq<char>>>, k: int) -> bool {
    forall|j: int| 0 <= j < k ==> #[trigger] bins[j] is None
}

proof fn lemma_first_named_at(bins: Seq<Option<Seq<char>>>, k: int)
    requires
        0 <= k <= bins.len(),
        unnamed_before(bins, k),
    ensures
        crate::buildspec::first_named(bins) == crate::buildspec::first_named(bins.subrange(
            k,
            bins.len() as int,
        )),
    decreases k,
{
    if k > 0 {
        lemma_first_named_at(bins, k - 1);
        let rest = bins.subrange(k - 1, bins.len() as int);
        assert(rest[0] == bins[k - 1]);
        assert(rest.drop_first() =~= bins.subrange(k, bins.len() as int));
    } else {
        assert(bins.subrange(0, bins.len() as int) =~= bins);
    }
}

/// A Cargo package's binary is the earliest `[[bin]]` entry that has a name;
/// when none has one, it is the package's name.
pub proof fn law_cargo_bin_is_first_named(m: CargoManifestView, k: int)
    requires
        0 <= k <= m.bin_names.len(),
        unnamed_before(m.bin_names, k),
    ensures
        k < m.bin_names.len() && m.bin_names[k] is Some ==> cargo_bin_of(m) == m.bin_names[k],
        k == m.bin_names.len() ==> cargo_bin_of(m) == m.package_name,
{
    lemma_first_named_at(m.bin_names, k);
    let rest = m.bin_names.subrange(k, m.bin_names.len() as int);
    if k < m.bin_names.len() {
        assert(rest[0] == m.bin_names[k]);
    }
}

} // verus!
