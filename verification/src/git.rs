//! The git commands that fetch sources and keep the mirror checkout current.
use vstd::prelude::*;
use crate::command::{CommandPlan, CommandView, command_views};
use crate::config::Config;
use crate::error::TajError;
use crate::order::views;
use crate::path::{join, path_join};
use crate::text::owned;

verus! {

/// A git command with the given arguments, run where the caller is.
pub open spec fn git_command(args: Seq<Seq<char>>) -> CommandView {
    CommandView { program: "git"@, args, cwd: None, env: None }
}

fn git(args: Vec<String>) -> (r: CommandPlan)
    ensures
        r@ == git_command(views(args@)),
        r.wf(),
{
    CommandPlan { program: owned("git"), args, cwd: None, env: None }
}

/// A shallow clone of `url` into `dest` (`git clone --depth 1 URL DEST`);
/// git must be on `PATH`.
pub fn clone_repo(url: &str, dest: &str) -> (r: CommandPlan)
    ensures
        r.wf(),
        r@ == git_command(seq!["clone"@, "--depth"@, "1"@, url@, dest@]),
{
    let mut args: Vec<String> = Vec::new();
    args.push(owned("clone"));
    args.push(owned("--depth"));
    args.push(owned("1"));
    args.push(owned(url));
    args.push(owned(dest));
    assert(views(args@) =~= seq!["clone"@, "--depth"@, "1"@, url@, dest@]);
    git(args)
}

/// The commands that check out `url` into `dest` at a pinned ref (a tag, a
/// branch or a commit): a full clone, so that any commit is there, then
/// `git -C DEST checkout REF`. Without a ref, the shallow clone of
/// [`clone_repo`] alone.
pub fn clone_repo_at_ref(url: &str, dest: &str, git_ref: Option<&str>) -> (r: Vec<CommandPlan>)
    ensures
        forall|i: int| 0 <= i < r@.len() ==> (#[trigger] r@[i]).wf(),
        git_ref is None ==> command_views(r@) == seq![
            git_command(seq!["clone"@, "--depth"@, "1"@, url@, dest@]),
        ],
        git_ref matches Some(g) ==> command_views(r@) == seq![
            git_command(seq!["clone"@, url@, dest@]),
            git_command(seq!["-C"@, dest@, "checkout"@, g@]),
        ],
{
    let mut plans: Vec<CommandPlan> = Vec::new();
    match git_ref {
        None => {
            plans.push(clone_repo(url, dest));
            assert(command_views(plans@) =~= seq![plans@[0]@]);
        },
        Some(g) => {
            let mut clone: Vec<String> = Vec::new();
            clone.push(owned("clone"));
            clone.push(owned(url));
            clone.push(owned(dest));
            assert(views(clone@) =~= seq!["clone"@, url@, dest@]);
            let mut checkout: Vec<String> = Vec::new();
            checkout.push(owned("-C"));
            checkout.push(owned(dest));
            checkout.push(owned("checkout"));
            checkout.push(owned(g));
            assert(views(checkout@) =~= seq!["-C"@, dest@, "checkout"@, g@]);
            plans.push(git(clone));
            plans.push(git(checkout));
            assert(command_views(plans@) =~= seq![plans@[0]@, plans@[1]@]);
        },
    }
    plans
}

/// What bringing the mirror checkout up to date takes: the commands to run
/// in order, and the checkout's directory.
#[derive(Debug)]
pub struct MirrorSync {
    pub mirror_dir: String,
    pub commands: Vec<CommandPlan>,
}

/// The commands that make the mirror checkout current: a shallow clone of
/// the configured branch when there is no checkout; otherwise a shallow
/// fetch of the branch and a hard reset to what was fetched.
pub open spec fn mirror_commands(config: Config, mirror_dir: Seq<char>, exists: bool) -> Seq<
    CommandView,
> {
    if !exists {
        seq![
            git_command(
                seq![
                    "clone"@,
                    "--depth"@,
                    "1"@,
                    "-b"@,
                    config.mirror_branch@,
                    config.mirror_repo@,
                    mirror_dir,
                ],
            ),
        ]
    } else {
        seq![
            git_command(
                seq![
                    "-C"@,
                    mirror_dir,
                    "fetch"@,
                    "--depth"@,
                    "1"@,
                    "origin"@,
                    config.mirror_branch@,
                ],
            ),
            git_command(seq!["-C"@, mirror_dir, "reset"@, "--hard"@, "FETCH_HEAD"@]),
        ]
    }
}

/// Brings the mirror checkout (`mirror` under the cache directory) up to
/// date; `exists` and `git_dir_exists` tell whether the directory and its
/// `.git` exist. A directory that is not a git checkout is an error.
pub fn ensure_mirror(config: &Config, cache_dir: &str, exists: bool, git_dir_exists: bool) -> (r: Result<
    MirrorSync,
    TajError,
>)
    ensures
        exists && !git_dir_exists ==> (r matches Err(TajError::MirrorNotGitRepo { dir }) && dir@
            == path_join(cache_dir@, "mirror"@)),
        !(exists && !git_dir_exists) ==> (r matches Ok(sync) && sync.mirror_dir@ == path_join(
            cache_dir@,
            "mirror"@,
        ) && command_views(sync.commands@) == mirror_commands(
            *config,
            path_join(cache_dir@, "mirror"@),
            exists,
        ) && forall|i: int| 0 <= i < sync.commands@.len() ==> (#[trigger] sync.commands@[i]).wf()),
{
    let mirror_dir = join(cache_dir, "mirror");
    if exists && !git_dir_exists {
        return Err(TajError::MirrorNotGitRepo { dir: mirror_dir });
    }
    let mut commands: Vec<CommandPlan> = Vec::new();
    if !exists {
        let mut args: Vec<String> = Vec::new();
        args.push(owned("clone"));
        args.push(owned("--depth"));
        args.push(owned("1"));
        args.push(owned("-b"));
        args.push(config.mirror_branch.clone());
        args.push(config.mirror_repo.clone());
        args.push(mirror_dir.clone());
        commands.push(git(args));
    } else {
        let mut fetch: Vec<String> = Vec::new();
        fetch.push(owned("-C"));
        fetch.push(mirror_dir.clone());
        fetch.push(owned("fetch"));
        fetch.push(owned("--depth"));
        fetch.push(owned("1"));
        fetch.push(owned("origin"));
        fetch.push(config.mirror_branch.clone());
        commands.push(git(fetch));
        let mut reset: Vec<String> = Vec::new();
        reset.push(owned("-C"));
        reset.push(mirror_dir.clone());
        reset.push(owned("reset"));
        reset.push(owned("--hard"));
        reset.push(owned("FETCH_HEAD"));
        commands.push(git(reset));
    }
    proof {
        let want = mirror_commands(*config, mirror_dir@, exists);
        if !exists {
            assert(commands@[0]@.args =~= want[0].args);
        } else {
            assert(commands@[0]@.args =~= want[0].args);
            assert(commands@[1]@.args =~= want[1].args);
        }
        assert(command_views(commands@) =~= want);
    }
    Ok(MirrorSync { mirror_dir, commands })
}

} // verus!
