//! `gh qwt add`: add a worktree for a new or existing branch.

use vstd::prelude::*;
use crate::commands::{Step, StepView, steps_view};
use crate::error::{Error, runtime, usage};
use crate::git::{GitCommandView, opt_view, worktree_add_existing, worktree_add_new, worktree_add_tracking};
use crate::repo::{
    owner_repo_spec, parse_owner_repo, PathProbe, check_prefix_collision, listing_read,
    first_probe_error, prefix_paths_spec, empty_branch_text, worktree_in, worktree_in_spec,
};
use crate::text::segments;

verus! {

/// Arguments for `gh qwt add`.
#[derive(Debug, Clone)]
pub struct Args {
    /// Branch to create a worktree for (may contain `/`).
    pub branch: String,
    /// Operate on this repository (`owner/repo`) instead of discovering it
    /// from the current directory.
    pub repo: Option<String>,
    /// Base ref for a new branch when no matching branch exists.
    pub from: Option<String>,
}

/// Which repository `add` works on.
#[derive(Debug)]
pub enum Target {
    /// The one discovered from the current directory.
    Discover,
    /// `<root>/<owner>/<repo>`.
    Named(String, String),
}

/// The message for a malformed `--repo`.
pub open spec fn malformed_repo_text() -> Seq<char> {
    "--repo must be <owner>/<repo>"@
}

/// The repository `add` works on: discovered when `--repo` is absent; named by
/// `--repo owner/repo` otherwise, where a value that is not exactly two
/// non-empty `/`-separated parts is invalid usage.
pub fn target(args: &Args) -> (r: Result<Target, Error>)
    ensures
        match opt_view(args.repo) {
            None => r matches Ok(Target::Discover),
            Some(v) => match owner_repo_spec(v) {
                Ok((o, p)) if o.len() > 0 && p.len() > 0 => r matches Ok(Target::Named(ro, rp))
                    && ro@ == o && rp@ == p,
                _ => r matches Err(e) && e.is_usage() && e.text() == malformed_repo_text(),
            },
        },
{
    match &args.repo {
        None => Ok(Target::Discover),
        Some(v) => match parse_owner_repo(v.as_str()) {
            Ok((o, p)) => {
                if o.unicode_len() > 0 && p.unicode_len() > 0 {
                    Ok(Target::Named(o, p))
                } else {
                    Err(usage("--repo must be <owner>/<repo>"))
                }
            },
            Err(_) => Err(usage("--repo must be <owner>/<repo>")),
        },
    }
}

/// The message when the worktree path is taken.
pub open spec fn taken_text(dest: Seq<char>) -> Seq<char> {
    "worktree path "@ + dest + " already exists"@
}

/// Fail when the destination worktree path already exists (`exists`).
pub fn check_destination(dest: &str, exists: bool) -> (r: Result<(), Error>)
    ensures
        !exists ==> r is Ok,
        exists ==> (r matches Err(e) && !e.is_usage() && e.text() == taken_text(dest@)),
{
    if exists {
        let msg = String::from_str("worktree path ").concat(dest).concat(" already exists");
        Err(runtime(msg.as_str()))
    } else {
        Ok(())
    }
}

/// Whether the new branch needs the repository's default branch as its base:
/// no such local or remote branch exists and `--from` is absent.
pub open spec fn needs_default_base_spec(args: Args, local_exists: bool, remote_exists: bool) -> bool {
    !local_exists && !remote_exists && args.from is None
}

/// Whether the new branch needs the repository's default branch as its base.
pub fn needs_default_base(args: &Args, local_exists: bool, remote_exists: bool) -> (r: bool)
    ensures
        r == needs_default_base_spec(*args, local_exists, remote_exists),
{
    !local_exists && !remote_exists && args.from.is_none()
}

/// The base of a new branch: `--from` if given, else `default_base`.
pub open spec fn base_spec(args: Args, default_base: Option<Seq<char>>) -> Seq<char> {
    match opt_view(args.from) {
        Some(f) => f,
        None => default_base->0,
    }
}

/// The steps of [`plan`].
pub open spec fn plan_spec(
    args: Args,
    repo_dir: Seq<char>,
    dest: Seq<char>,
    local_exists: bool,
    remote_exists: bool,
    default_base: Option<Seq<char>>,
) -> Seq<StepView> {
    if local_exists {
        seq![
            StepView::Git(
                GitCommandView {
                    dir: Some(repo_dir),
                    args: seq!["worktree"@, "add"@, dest, args.branch@],
                },
            ),
            StepView::GitBestEffort(
                GitCommandView {
                    dir: Some(repo_dir),
                    args: seq!["branch"@, "--set-upstream-to=origin/"@ + args.branch@, args.branch@],
                },
            ),
            StepView::Print(dest),
        ]
    } else if remote_exists {
        seq![
            StepView::Git(
                GitCommandView {
                    dir: Some(repo_dir),
                    args: seq![
                        "worktree"@,
                        "add"@,
                        "--track"@,
                        "-b"@,
                        args.branch@,
                        dest,
                        "origin/"@ + args.branch@,
                    ],
                },
            ),
            StepView::Print(dest),
        ]
    } else {
        seq![
            StepView::Git(
                GitCommandView {
                    dir: Some(repo_dir),
                    args: seq!["worktree"@, "add"@, "-b"@, args.branch@, dest, base_spec(args, default_base)],
                },
            ),
            StepView::Print(dest),
        ]
    }
}

/// The steps of `add` for `args.branch` at `dest` under `repo_dir`:
/// - a local branch that exists (`local_exists`) is attached, and set, best
///   effort, to track `origin/<branch>`;
/// - otherwise, when `origin/<branch>` exists (`remote_exists`), a local
///   branch tracking it is created;
/// - otherwise a new branch is created from `--from`, or from
///   `default_base`, the repository's default branch.
///
/// The new worktree's path is printed last.
pub fn plan(
    args: &Args,
    repo_dir: &str,
    dest: &str,
    local_exists: bool,
    remote_exists: bool,
    default_base: Option<String>,
) -> (r: Vec<Step>)
    requires
        needs_default_base_spec(*args, local_exists, remote_exists) ==> default_base is Some,
    ensures
        steps_view(r@) == plan_spec(
            *args,
            repo_dir@,
            dest@,
            local_exists,
            remote_exists,
            opt_view(default_base),
        ),
{
    let ghost want = base_spec(*args, opt_view(default_base));
    let mut steps: Vec<Step> = Vec::new();
    let branch = args.branch.as_str();
    if local_exists {
        let (add, upstream) = worktree_add_existing(repo_dir, branch, dest);
        steps.push(Step::Git(add));
        steps.push(Step::GitBestEffort(upstream));
    } else if remote_exists {
        steps.push(Step::Git(worktree_add_tracking(repo_dir, branch, dest)));
    } else {
        let base: String = match &args.from {
            Some(f) => f.clone(),
            None => default_base.unwrap(),
        };
        assert(base@ == want);
        steps.push(Step::Git(worktree_add_new(repo_dir, branch, dest, base.as_str())));
    }
    steps.push(Step::Print(dest.to_owned()));
    proof {
        if local_exists {
            assert(steps_view(steps@) =~= seq![
                StepView::Git(
                    GitCommandView {
                        dir: Some(repo_dir@),
                        args: seq!["worktree"@, "add"@, dest@, args.branch@],
                    },
                ),
                StepView::GitBestEffort(
                    GitCommandView {
                        dir: Some(repo_dir@),
                        args: seq!["branch"@, "--set-upstream-to=origin/"@ + args.branch@, args.branch@],
                    },
                ),
                StepView::Print(dest@),
            ]);
        } else if remote_exists {
            assert(steps_view(steps@) =~= seq![
                StepView::Git(
                    GitCommandView {
                        dir: Some(repo_dir@),
                        args: seq![
                            "worktree"@,
                            "add"@,
                            "--track"@,
                            "-b"@,
                            args.branch@,
                            dest@,
                            "origin/"@ + args.branch@,
                        ],
                    },
                ),
                StepView::Print(dest@),
            ]);
        } else {
            assert(steps_view(steps@) =~= seq![
                StepView::Git(
                    GitCommandView {
                        dir: Some(repo_dir@),
                        args: seq![
                            "worktree"@,
                            "add"@,
                            "-b"@,
                            args.branch@,
                            dest@,
                            want,
                        ],
                    },
                ),
                StepView::Print(dest@),
            ]);
        }
    }
    steps
}

/// What `gh qwt add` does in the repository at `repo_dir`, for the
/// worktree path `dest` = `worktree_in(repo_dir, branch)`:
/// - refuse when `dest` already exists (`dest_exists`);
/// - refuse when the worktree would collide by path prefix with what exists
///   (`probes[k]` is what the file system shows at the `k`-th of
///   `prefix_paths(repo_dir, branch)`; see [`check_prefix_collision`]);
/// - otherwise the steps of [`plan`].
/// A refused request plans no step.
pub fn run(
    args: &Args,
    repo_dir: &str,
    dest_exists: bool,
    probes: &Vec<PathProbe>,
    local_exists: bool,
    remote_exists: bool,
    default_base: Option<String>,
) -> (r: Result<(String, Vec<Step>), Error>)
    requires
        probes@.len() == segments(args.branch@).len(),
        probes@.len() > 0 ==> listing_read(probes@.last()),
        needs_default_base_spec(*args, local_exists, remote_exists) ==> default_base is Some,
    ensures
        dest_exists ==> (r matches Err(e) && !e.is_usage() && e.text() == taken_text(
            worktree_in_spec(repo_dir@, args.branch@),
        )),
        !dest_exists && segments(args.branch@).len() == 0 ==> (r matches Err(e) && !e.is_usage()
            && e.text() == empty_branch_text()),
        !dest_exists && segments(args.branch@).len() > 0 ==> match first_probe_error(
            prefix_paths_spec(repo_dir@, args.branch@),
            probes@,
            probes@.len() as int,
        ) {
            Some(m) => r matches Err(e) && !e.is_usage() && e.text() == m,
            None => r matches Ok((dest, steps)) && dest@ == worktree_in_spec(repo_dir@, args.branch@)
                && steps_view(steps@) == plan_spec(
                *args,
                repo_dir@,
                dest@,
                local_exists,
                remote_exists,
                opt_view(default_base),
            ),
        },
{
    let dest = worktree_in(repo_dir, args.branch.as_str());
    if let Err(e) = check_destination(dest.as_str(), dest_exists) {
        return Err(e);
    }
    if let Err(e) = check_prefix_collision(repo_dir, args.branch.as_str(), probes) {
        return Err(e);
    }
    let steps = plan(args, repo_dir, dest.as_str(), local_exists, remote_exists, default_base);
    Ok((dest, steps))
}

} // verus!
