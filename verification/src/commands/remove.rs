//! `gh qwt remove` (alias `rm`): remove a worktree, or an entire repository.

use vstd::prelude::*;
use crate::commands::{Step, StepView, steps_view, agrees, confirmed};
use crate::commands::path::{target_spec, parse_target};
use crate::error::{Error, runtime, usage};
use crate::git::{GitCommandView, worktree_remove, branch_delete};
use crate::paths::{components, parent_components, is_prefix_of, path_components, same_names, names_prefix};
use crate::repo::{empty_parents, empty_parents_spec, worktree_in, worktree_in_spec, not_qwt_text, require_qwt_repo};
use crate::text::views;

verus! {

/// Arguments for `gh qwt remove` / `gh qwt rm`.
#[derive(Debug, Clone)]
pub struct Args {
    /// A branch name, resolved in the repository discovered from the current
    /// directory; or, outside any qwt repository, `owner/repo` (the whole
    /// repository) or `owner/repo/branch` (one worktree).
    pub spec: String,
    /// Remove a worktree even when it has local changes, or skip the
    /// confirmation prompt when removing an entire repository.
    pub force: bool,
    /// Also delete the local branch with `git branch -D` (single worktree only).
    pub delete_branch: bool,
}

/// What `remove` removes.
#[derive(Debug)]
pub enum Target {
    /// Inside the qwt repository at this directory: the worktree of the
    /// branch, which is the whole spec (it may hold any number of `/`).
    Branch(String, String),
    /// The repository `owner/repo`.
    Repo(String, String),
    /// The worktree of `branch` in `owner/repo`.
    Worktree(String, String, String),
}

/// The message for a spec that names neither a repository nor a worktree.
pub open spec fn malformed_text() -> Seq<char> {
    "not inside a qwt repository; SPEC must be a branch name (run inside a repository) or owner/repo[/branch]"@
}

/// What `remove` removes, given the qwt repository discovered from the
/// current directory (`discovered`, if any): inside one, the whole spec is a
/// branch of it; outside any, the spec must be `owner/repo` or
/// `owner/repo/branch`, and anything else is invalid usage.
pub fn target(spec: &str, discovered: Option<String>) -> (r: Result<Target, Error>)
    ensures
        match discovered {
            Some(d) => r matches Ok(Target::Branch(rd, rb)) && rd@ == d@ && rb@ == spec@,
            None => match target_spec(spec@) {
                Some((o, p, None)) => r matches Ok(Target::Repo(ro, rp)) && ro@ == o && rp@ == p,
                Some((o, p, Some(b))) => r matches Ok(Target::Worktree(ro, rp, rb)) && ro@ == o
                    && rp@ == p && rb@ == b,
                None => r matches Err(e) && e.is_usage() && e.text() == malformed_text(),
            },
        },
{
    if let Some(d) = discovered {
        return Ok(Target::Branch(d, spec.to_owned()));
    }
    match parse_target(spec) {
        Some((o, p, None)) => Ok(Target::Repo(o, p)),
        Some((o, p, Some(b))) => Ok(Target::Worktree(o, p, b)),
        None => Err(
            usage(
                "not inside a qwt repository; SPEC must be a branch name (run inside a repository) or owner/repo[/branch]",
            ),
        ),
    }
}

/// The message for a branch without a worktree.
pub open spec fn no_worktree_text(branch: Seq<char>, dest: Seq<char>) -> Seq<char> {
    "no worktree for branch '"@ + branch + "' at "@ + dest
}

/// The steps that remove the worktree at `dest`: `git worktree remove`, then
/// the directories left empty between it and `repo_dir`, then (with
/// `delete_branch`) the local branch; the removed path is printed last.
pub open spec fn remove_worktree_steps(
    repo_dir: Seq<char>,
    branch: Seq<char>,
    dest: Seq<char>,
    force: bool,
    delete_branch: bool,
) -> Seq<StepView> {
    seq![
        StepView::Git(
            GitCommandView {
                dir: Some(repo_dir),
                args: if force {
                    seq!["worktree"@, "remove"@, "--force"@, dest]
                } else {
                    seq!["worktree"@, "remove"@, dest]
                },
            },
        ),
        StepView::RemoveEmptyDirs(empty_parents_spec(repo_dir, branch)),
    ] + (if delete_branch {
        seq![StepView::Git(GitCommandView { dir: Some(repo_dir), args: seq!["branch"@, "-D"@, branch] })]
    } else {
        Seq::empty()
    }) + seq![StepView::Print("Removed worktree "@ + dest)]
}

/// Remove the worktree for `branch` under `repo_dir`; `dest_exists` says
/// whether its path (`worktree_in(repo_dir, branch)`) exists.
pub fn remove_worktree(repo_dir: &str, branch: &str, dest_exists: bool, force: bool, delete_branch: bool) -> (r: Result<Vec<Step>, Error>)
    ensures
        !dest_exists ==> (r matches Err(e) && !e.is_usage() && e.text() == no_worktree_text(
            branch@,
            worktree_in_spec(repo_dir@, branch@),
        )),
        dest_exists ==> (r matches Ok(steps) && steps_view(steps@) == remove_worktree_steps(
            repo_dir@,
            branch@,
            worktree_in_spec(repo_dir@, branch@),
            force,
            delete_branch,
        )),
{
    let dest = worktree_in(repo_dir, branch);
    if !dest_exists {
        let msg = String::from_str("no worktree for branch '").concat(branch).concat("' at ").concat(
            dest.as_str(),
        );
        return Err(runtime(msg.as_str()));
    }
    let mut steps: Vec<Step> = Vec::new();
    steps.push(Step::Git(worktree_remove(repo_dir, dest.as_str(), force)));
    steps.push(Step::RemoveEmptyDirs(empty_parents(repo_dir, branch)));
    if delete_branch {
        steps.push(Step::Git(branch_delete(repo_dir, branch)));
    }
    steps.push(Step::Print(String::from_str("Removed worktree ").concat(dest.as_str())));
    assert(steps_view(steps@) =~= remove_worktree_steps(
        repo_dir@,
        branch@,
        dest@,
        force,
        delete_branch,
    ));
    Ok(steps)
}

/// Whether removing `dir` as a repository under `root` would be unsafe: it is
/// the root itself, a direct child of it, or not below it (comparing path
/// components).
pub open spec fn unsafe_removal(root: Seq<char>, dir: Seq<char>) -> bool {
    components(dir) == components(root) || parent_components(components(dir)) == Some(
        components(root),
    ) || !is_prefix_of(components(root), components(dir))
}

/// The message for an unsafe removal.
pub open spec fn unsafe_text(dir: Seq<char>) -> Seq<char> {
    "refusing to remove unsafe repository path: "@ + dir
}

/// Check that the repository directory `dir` (`repo_dir(root, owner, repo)`)
/// may be removed: it lies strictly below a child of `root`, and it is a
/// qwt-managed repository (`is_qwt`).
pub fn check_repo_removal(root: &str, dir: &str, is_qwt: bool) -> (r: Result<(), Error>)
    ensures
        unsafe_removal(root@, dir@) ==> (r matches Err(e) && !e.is_usage() && e.text()
            == unsafe_text(dir@)),
        !unsafe_removal(root@, dir@) && !is_qwt ==> (r matches Err(e) && !e.is_usage() && e.text()
            == not_qwt_text(dir@)),
        !unsafe_removal(root@, dir@) && is_qwt ==> r is Ok,
{
    let rc = path_components(root);
    let dc = path_components(dir);
    let same = same_names(&dc, &rc);
    let n = dc.len();
    proof {
        reveal_strlit("/");
        assert("/"@ =~= seq!['/']);
        if n > 0 {
            assert(views(dc@).last() == dc@[n - 1]@);
        }
    }
    let parent_is_root = if n == 0 || crate::text::str_eq(dc[n - 1].as_str(), "/") {
        false
    } else {
        let mut parent: Vec<String> = Vec::new();
        let mut i: usize = 0;
        while i + 1 < n
            invariant
                n == dc@.len(),
                n >= 1,
                i <= n - 1,
                views(parent@) == views(dc@).take(i as int),
            decreases n - i,
        {
            let ghost prev = views(parent@);
            parent.push(dc[i].clone());
            assert(views(parent@) =~= prev.push(views(dc@)[i as int]));
            assert(views(dc@).take(i + 1) =~= views(dc@).take(i as int).push(views(dc@)[i as int]));
            i = i + 1;
        }
        assert(views(dc@).take(n - 1) =~= views(dc@).drop_last());
        same_names(&parent, &rc)
    };
    proof {
        assert(parent_is_root == (parent_components(components(dir@)) == Some(components(root@))));
    }
    let below = names_prefix(&rc, &dc);
    if same || parent_is_root || !below {
        let msg = String::from_str("refusing to remove unsafe repository path: ").concat(dir);
        return Err(runtime(msg.as_str()));
    }
    require_qwt_repo(dir, is_qwt)
}

/// The confirmation prompt for removing the repository at `dir`, unless `force`.
pub fn prompt(dir: &str, force: bool) -> (r: Option<String>)
    ensures
        force ==> r is None,
        !force ==> (r matches Some(p) && p@ == "Remove "@ + dir@ + " and all worktrees? [y/N] "@),
{
    if force {
        None
    } else {
        Some(String::from_str("Remove ").concat(dir).concat(" and all worktrees? [y/N] "))
    }
}

/// The steps that remove the repository at `dir` (`repo_dir(root, owner,
/// repo)`): refused, whatever the answer, when removing it would be unsafe
/// (see [`unsafe_removal`]) or when it is not a qwt-managed repository
/// (`is_qwt`); otherwise, with `force` or when the `answer` to the prompt
/// agrees, remove the directory and print it, and else only report that it
/// was aborted.
pub fn remove_repo(root: &str, dir: &str, is_qwt: bool, force: bool, answer: Option<String>) -> (r:
    Result<Vec<Step>, Error>)
    ensures
        unsafe_removal(root@, dir@) ==> (r matches Err(e) && !e.is_usage() && e.text()
            == unsafe_text(dir@)),
        !unsafe_removal(root@, dir@) && !is_qwt ==> (r matches Err(e) && !e.is_usage() && e.text()
            == not_qwt_text(dir@)),
        !unsafe_removal(root@, dir@) && is_qwt && (force || (answer matches Some(a) && agrees(a@)))
            ==> (r matches Ok(steps) && steps_view(steps@) == seq![
            StepView::RemoveDirAll(dir@),
            StepView::Print("Removed "@ + dir@),
        ]),
        !unsafe_removal(root@, dir@) && is_qwt && !(force || (answer matches Some(a) && agrees(
            a@,
        ))) ==> (r matches Ok(steps) && steps_view(steps@) == seq![StepView::Warn("Aborted."@)]),
{
    if let Err(e) = check_repo_removal(root, dir, is_qwt) {
        return Err(e);
    }
    let yes = force || match &answer {
        Some(a) => confirmed(a.as_str()),
        None => false,
    };
    let mut steps: Vec<Step> = Vec::new();
    if yes {
        steps.push(Step::RemoveDirAll(dir.to_owned()));
        steps.push(Step::Print(String::from_str("Removed ").concat(dir)));
        assert(steps_view(steps@) =~= seq![
            StepView::RemoveDirAll(dir@),
            StepView::Print("Removed "@ + dir@),
        ]);
    } else {
        steps.push(Step::Warn("Aborted.".to_owned()));
        assert(steps_view(steps@) =~= seq![StepView::Warn("Aborted."@)]);
    }
    Ok(steps)
}

} // verus!
