//! `gh qwt get`: clone a repository as a bare repository and add the worktree
//! of its default (or a selected) branch.

use vstd::prelude::*;
use crate::commands::{Step, StepView, steps_view};
use crate::error::{Error, runtime};
use crate::git::{GitCommandView, opt_view, clone_bare, configure_and_fetch, fetch_refspec, worktree_add_existing, worktree_add_tracking};
use crate::paths::{join, join_path};
use crate::repo::{
    RepoSpec, RepoSpecView, parse_spec, repo_dir, repo_dir_spec, worktree_in, worktree_in_spec,
    GITDIR_POINTER,
};
use crate::commands::path::path_spec;
use crate::text::{segments, lacks, lemma_segments_concat, lemma_segments_name, lemma_segments_names, lemma_segments_join};

verus! {

/// Arguments for `gh qwt get`.
#[derive(Debug, Clone)]
pub struct Args {
    /// Repository: `owner/repo`, an HTTPS URL, an SSH URL or a `file://` URL.
    pub spec: String,
    /// Create a worktree for this branch instead of the default branch.
    pub branch: Option<String>,
    /// Host to use when the repo spec is `owner/repo`.
    pub host: String,
}

/// Parse the repository argument; a malformed spec is invalid usage.
pub fn parse_args_spec(args: &Args) -> (r: Result<RepoSpec, Error>)
    ensures
        match parse_spec(args.spec@, args.host@) {
            Ok(v) => r matches Ok(s) && s@ == v,
            Err(e) => r matches Err(x) && x.is_usage() && x.text() == e.text(),
        },
{
    match RepoSpec::parse(args.spec.as_str(), args.host.as_str()) {
        Ok(s) => Ok(s),
        Err(e) => Err(e.to_error()),
    }
}

/// Where `get` puts a repository and its first worktree.
#[derive(Debug)]
pub struct Layout {
    /// `<root>/<owner>/<repo>`.
    pub repo_dir: String,
    /// `<repo_dir>/.bare`, the bare repository.
    pub bare_dir: String,
    /// `<repo_dir>/.git`, the pointer file.
    pub git_file: String,
    /// `<repo_dir>/<branch>`, the worktree.
    pub dest: String,
}

/// The characters of a [`Layout`].
pub struct LayoutView {
    pub repo_dir: Seq<char>,
    pub bare_dir: Seq<char>,
    pub git_file: Seq<char>,
    pub dest: Seq<char>,
}

impl View for Layout {
    type V = LayoutView;

    open spec fn view(&self) -> LayoutView {
        LayoutView {
            repo_dir: self.repo_dir@,
            bare_dir: self.bare_dir@,
            git_file: self.git_file@,
            dest: self.dest@,
        }
    }
}

/// The layout of repository `owner/repo` with a worktree for `branch` under `root`.
pub open spec fn layout_spec(root: Seq<char>, owner: Seq<char>, repo: Seq<char>, branch: Seq<char>) -> LayoutView {
    let d = repo_dir_spec(root, owner, repo);
    LayoutView {
        repo_dir: d,
        bare_dir: join_path(d, ".bare"@),
        git_file: join_path(d, ".git"@),
        dest: worktree_in_spec(d, branch),
    }
}

/// The steps that set a repository up before its worktree is added.
pub open spec fn setup_steps(spec: RepoSpecView, l: LayoutView) -> Seq<StepView> {
    seq![
        StepView::CreateDirAll(l.repo_dir),
        StepView::Git(
            GitCommandView { dir: None, args: seq!["clone"@, "--bare"@, spec.clone_url, l.bare_dir] },
        ),
        StepView::WriteFile(l.git_file, GITDIR_POINTER@),
        StepView::Git(
            GitCommandView {
                dir: Some(l.repo_dir),
                args: seq!["--git-dir=.bare"@, "config"@, "remote.origin.fetch"@, fetch_refspec()],
            },
        ),
        StepView::Git(
            GitCommandView {
                dir: Some(l.repo_dir),
                args: seq!["--git-dir=.bare"@, "fetch"@, "origin"@],
            },
        ),
    ]
}

/// The message when the repository directory already exists.
pub open spec fn exists_text(dir: Seq<char>) -> Seq<char> {
    "repository directory already exists: "@ + dir
}

/// Plan the set-up of `spec` under `root` for a worktree of `branch`:
/// refuse when the repository directory already exists
/// (`repo_dir_exists`); otherwise create it, clone the bare repository into
/// `.bare`, write the `.git` pointer, configure the fetch refspec and fetch.
pub fn setup(spec: &RepoSpec, root: &str, branch: &str, repo_dir_exists: bool) -> (r: Result<(Layout, Vec<Step>), Error>)
    ensures
        repo_dir_exists ==> (r matches Err(e) && !e.is_usage() && e.text() == exists_text(
            repo_dir_spec(root@, spec.owner@, spec.repo@),
        )),
        !repo_dir_exists ==> (r matches Ok((l, steps)) && l@ == layout_spec(
            root@,
            spec.owner@,
            spec.repo@,
            branch@,
        ) && steps_view(steps@) == setup_steps(spec@, l@)),
{
    let d = repo_dir(root, spec.owner.as_str(), spec.repo.as_str());
    if repo_dir_exists {
        let msg = String::from_str("repository directory already exists: ").concat(d.as_str());
        return Err(runtime(msg.as_str()));
    }
    let bare_dir = join(d.as_str(), ".bare");
    let git_file = join(d.as_str(), ".git");
    let dest = worktree_in(d.as_str(), branch);
    let mut steps: Vec<Step> = Vec::new();
    steps.push(Step::CreateDirAll(d.clone()));
    steps.push(Step::Git(clone_bare(spec.clone_url.as_str(), bare_dir.as_str())));
    steps.push(Step::WriteFile(git_file.clone(), GITDIR_POINTER.to_owned()));
    let mut cf = configure_and_fetch(d.as_str());
    let fetch = cf.pop().unwrap();
    let config = cf.pop().unwrap();
    steps.push(Step::Git(config));
    steps.push(Step::Git(fetch));
    let l = Layout { repo_dir: d, bare_dir, git_file, dest };
    assert(steps_view(steps@) =~= setup_steps(spec@, l@));
    Ok((l, steps))
}

/// What `gh qwt get` does before the worktree is added: parse the
/// repository argument (a malformed one is invalid usage), then plan the
/// repository's set-up with [`setup`] for the branch given by `--branch`, or
/// else `default_branch`, the one detected for the repository.
pub fn run(args: &Args, root: &str, default_branch: &str, repo_dir_exists: bool) -> (r: Result<
    (RepoSpec, Layout, Vec<Step>),
    Error,
>)
    ensures
        match parse_spec(args.spec@, args.host@) {
            Err(e) => r matches Err(x) && x.is_usage() && x.text() == e.text(),
            Ok(v) => if repo_dir_exists {
                r matches Err(x) && !x.is_usage() && x.text() == exists_text(
                    repo_dir_spec(root@, v.owner, v.repo),
                )
            } else {
                r matches Ok((s, l, steps)) && s@ == v && l@ == layout_spec(
                    root@,
                    v.owner,
                    v.repo,
                    match opt_view(args.branch) {
                        Some(b) => b,
                        None => default_branch@,
                    },
                ) && steps_view(steps@) == setup_steps(v, l@)
            },
        },
{
    let spec = match parse_args_spec(args) {
        Ok(s) => s,
        Err(e) => return Err(e),
    };
    let branch: String = match &args.branch {
        Some(b) => b.clone(),
        None => default_branch.to_owned(),
    };
    match setup(&spec, root, branch.as_str(), repo_dir_exists) {
        Ok((l, steps)) => Ok((spec, l, steps)),
        Err(e) => Err(e),
    }
}

/// The steps that add the worktree once the repository is set up: a local
/// branch that already exists (`local_exists`; a bare clone copies the
/// remote's branches) is attached and, best effort, set to track
/// `origin/<branch>`; otherwise a local branch tracking `origin/<branch>` is
/// created. The worktree path is printed last.
pub fn attach(layout: &Layout, branch: &str, local_exists: bool) -> (r: Vec<Step>)
    ensures
        local_exists ==> steps_view(r@) == seq![
            StepView::Git(
                GitCommandView {
                    dir: Some(layout.repo_dir@),
                    args: seq!["worktree"@, "add"@, layout.dest@, branch@],
                },
            ),
            StepView::GitBestEffort(
                GitCommandView {
                    dir: Some(layout.repo_dir@),
                    args: seq!["branch"@, "--set-upstream-to=origin/"@ + branch@, branch@],
                },
            ),
            StepView::Print(layout.dest@),
        ],
        !local_exists ==> steps_view(r@) == seq![
            StepView::Git(
                GitCommandView {
                    dir: Some(layout.repo_dir@),
                    args: seq![
                        "worktree"@,
                        "add"@,
                        "--track"@,
                        "-b"@,
                        branch@,
                        layout.dest@,
                        "origin/"@ + branch@,
                    ],
                },
            ),
            StepView::Print(layout.dest@),
        ],
{
    let mut steps: Vec<Step> = Vec::new();
    if local_exists {
        let (add, upstream) = worktree_add_existing(
            layout.repo_dir.as_str(),
            branch,
            layout.dest.as_str(),
        );
        steps.push(Step::Git(add));
        steps.push(Step::GitBestEffort(upstream));
    } else {
        steps.push(
            Step::Git(
                worktree_add_tracking(layout.repo_dir.as_str(), branch, layout.dest.as_str()),
            ),
        );
    }
    steps.push(Step::Print(layout.dest.clone()));
    assert(steps_view(steps@) =~= if local_exists {
        seq![
            StepView::Git(
                GitCommandView {
                    dir: Some(layout.repo_dir@),
                    args: seq!["worktree"@, "add"@, layout.dest@, branch@],
                },
            ),
            StepView::GitBestEffort(
                GitCommandView {
                    dir: Some(layout.repo_dir@),
                    args: seq!["branch"@, "--set-upstream-to=origin/"@ + branch@, branch@],
                },
            ),
            StepView::Print(layout.dest@),
        ]
    } else {
        seq![
            StepView::Git(
                GitCommandView {
                    dir: Some(layout.repo_dir@),
                    args: seq![
                        "worktree"@,
                        "add"@,
                        "--track"@,
                        "-b"@,
                        branch@,
                        layout.dest@,
                        "origin/"@ + branch@,
                    ],
                },
            ),
            StepView::Print(layout.dest@),
        ]
    });
    steps
}

/// `gh qwt path owner/repo/branch` names the worktree that `get` (and `add`)
/// create for `branch`: path and layout agree for every branch with at least
/// one name, however its `/`s are doubled or placed.
pub proof fn lemma_path_finds_worktree(root: Seq<char>, owner: Seq<char>, repo: Seq<char>, branch: Seq<char>)
    requires
        owner.len() > 0,
        lacks(owner, '/'),
        repo.len() > 0,
        lacks(repo, '/'),
        segments(branch).len() > 0,
    ensures
        path_spec(root, Some(owner + seq!['/'] + repo + seq!['/'] + branch)) == Some(
            layout_spec(root, owner, repo, branch).dest,
        ),
{
    let line = owner + seq!['/'] + repo + seq!['/'] + branch;
    let tail = repo + seq!['/'] + branch;
    assert(line =~= owner + seq!['/'] + tail);
    lemma_segments_concat(owner, tail);
    lemma_segments_concat(repo, branch);
    lemma_segments_name(owner);
    lemma_segments_name(repo);
    let segs = segments(branch);
    let names = segments(line);
    assert(names =~= seq![owner] + (seq![repo] + segs));
    assert(names.skip(2) =~= segs);
    lemma_segments_names(branch);
    lemma_segments_join(segs);
}

} // verus!
