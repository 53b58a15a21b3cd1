//! `gh qwt path`: the path of the qwt root, a repository or a worktree.

use vstd::prelude::*;
use crate::error::{Error, usage};
use crate::repo::{repo_dir, repo_dir_spec, worktree_path, worktree_in_spec};
use crate::text::{segments, views, join_with, path_segments, join};

verus! {

/// Arguments for `gh qwt path`.
#[derive(Debug, Clone)]
pub struct Args {
    /// `owner/repo` or `owner/repo/branch`; omitted prints the qwt root.
    pub spec: Option<String>,
}

/// What an `owner/repo[/branch]` spec names: owner, repository, and the
/// branch (its names joined by `/`) when there are more than two names.
/// Empty names (from doubled, leading or trailing `/`) are ignored.
pub open spec fn target_spec(spec: Seq<char>) -> Option<(Seq<char>, Seq<char>, Option<Seq<char>>)> {
    let names = segments(spec);
    if names.len() == 2 {
        Some((names[0], names[1], None))
    } else if names.len() > 2 {
        Some((names[0], names[1], Some(join_with(names.skip(2), seq!['/']))))
    } else {
        None
    }
}

/// Split an `owner/repo[/branch]` spec.
pub fn parse_target(spec: &str) -> (r: Option<(String, String, Option<String>)>)
    ensures
        match target_spec(spec@) {
            Some((o, p, b)) => r matches Some((ro, rp, rb)) && ro@ == o && rp@ == p && match b {
                Some(bb) => rb matches Some(x) && x@ == bb,
                None => rb is None,
            },
            None => r is None,
        },
{
    let names = path_segments(spec);
    let ghost all = views(names@);
    let n = names.len();
    if n < 2 {
        return None;
    }
    assert(all[0] == names@[0]@ && all[1] == names@[1]@);
    let owner = names[0].clone();
    let repo = names[1].clone();
    if n == 2 {
        return Some((owner, repo, None));
    }
    let mut rest: Vec<String> = Vec::new();
    let mut i: usize = 2;
    while i < n
        invariant
            n == names@.len(),
            all == views(names@),
            2 <= i <= n,
            views(rest@) == all.subrange(2, i as int),
        decreases n - i,
    {
        let ghost prev = views(rest@);
        rest.push(names[i].clone());
        assert(views(rest@) =~= prev.push(all[i as int]));
        assert(all.subrange(2, i + 1) =~= all.subrange(2, i as int).push(all[i as int]));
        i = i + 1;
    }
    assert(all.subrange(2, n as int) =~= all.skip(2));
    proof {
        reveal_strlit("/");
        assert("/"@ =~= seq!['/']);
    }
    let branch = join(&rest, "/");
    Some((owner, repo, Some(branch)))
}

/// The message for a malformed spec.
pub open spec fn malformed_text() -> Seq<char> {
    "SPEC must be <owner>/<repo> or <owner>/<repo>/<branch>"@
}

/// What `gh qwt path` prints for `spec` under `root`, or `None` when the spec
/// is malformed.
pub open spec fn path_spec(root: Seq<char>, spec: Option<Seq<char>>) -> Option<Seq<char>> {
    match spec {
        None => Some(root),
        Some(s) => match target_spec(s) {
            Some((o, p, None)) => Some(repo_dir_spec(root, o, p)),
            Some((o, p, Some(b))) => Some(worktree_in_spec(repo_dir_spec(root, o, p), b)),
            None => None,
        },
    }
}

/// Run the `path` command under the resolved qwt `root`: with no spec the
/// root; with `owner/repo` the repository directory; with
/// `owner/repo/branch` the worktree path (the branch may contain `/`).
/// Nothing is created.
pub fn run(args: &Args, root: &str) -> (r: Result<String, Error>)
    ensures
        match path_spec(
            root@,
            match args.spec {
                Some(s) => Some(s@),
                None => None,
            },
        ) {
            Some(p) => r matches Ok(x) && x@ == p,
            None => r matches Err(e) && e.is_usage() && e.text() == malformed_text(),
        },
{
    match &args.spec {
        None => Ok(root.to_owned()),
        Some(s) => match parse_target(s.as_str()) {
            Some((owner, repo, None)) => Ok(repo_dir(root, owner.as_str(), repo.as_str())),
            Some((owner, repo, Some(branch))) => Ok(
                worktree_path(root, owner.as_str(), repo.as_str(), branch.as_str()),
            ),
            None => Err(usage("SPEC must be <owner>/<repo> or <owner>/<repo>/<branch>")),
        },
    }
}

} // verus!
