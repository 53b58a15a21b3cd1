//! The `gh` invocation that asks GitHub for a repository's default branch,
//! and the order in which default-branch detection tries its sources.

use vstd::prelude::*;
use crate::git::{GitCommand, ls_remote_default_branch, parse_ls_remote_default_branch, first_head_ref};
use crate::error::Error;
use crate::text::lines;
use crate::repo::RepoSpec;
use crate::text::{views, trim, trim_str};

verus! {

/// A `gh` invocation: its arguments.
#[derive(Debug)]
pub struct GhCommand {
    pub args: Vec<String>,
}

/// `gh api repos/{owner}/{repo} -q .default_branch`: prints the default branch.
pub fn default_branch(owner: &str, repo: &str) -> (r: GhCommand)
    ensures
        views(r.args@) == seq!["api"@, "repos/"@ + owner@ + "/"@ + repo@, "-q"@, ".default_branch"@],
{
    let endpoint = String::from_str("repos/").concat(owner).concat("/").concat(repo);
    let mut args: Vec<String> = Vec::new();
    args.push("api".to_owned());
    args.push(endpoint);
    args.push("-q".to_owned());
    args.push(".default_branch".to_owned());
    assert(views(args@) =~= seq![
        "api"@,
        "repos/"@ + owner@ + "/"@ + repo@,
        "-q"@,
        ".default_branch"@,
    ]);
    GhCommand { args }
}

/// The next step of default-branch detection, which first asks GitHub with
/// [`default_branch`] and hands what it printed to
/// [`default_branch_with_fallback`].
#[derive(Debug)]
pub enum Detection {
    /// The default branch is known.
    Found(String),
    /// Run this `git ls-remote` and read its output with
    /// [`crate::git::parse_ls_remote_default_branch`].
    RunLsRemote(GitCommand),
}

/// Detect the default branch after asking GitHub: `gh_output` is what
/// `gh api` printed when it succeeded. A non-empty answer (surrounding
/// whitespace removed) is the default branch; otherwise fall back to
/// `git ls-remote --symref <url> HEAD`.
pub fn default_branch_with_fallback(spec: &RepoSpec, gh_output: Option<String>) -> (r: Detection)
    ensures
        match gh_output {
            Some(out) if trim(out@).len() > 0 => r matches Detection::Found(b) && b@ == trim(out@),
            _ => r matches Detection::RunLsRemote(c) && c@.dir is None && c@.args == seq![
                "ls-remote"@,
                "--symref"@,
                spec.clone_url@,
                "HEAD"@,
            ],
        },
{
    if let Some(out) = gh_output {
        let b = trim_str(out.as_str());
        if b.unicode_len() > 0 {
            return Detection::Found(b);
        }
    }
    Detection::RunLsRemote(ls_remote_default_branch(spec.clone_url.as_str()))
}

/// The repository's default branch from both sources: what `gh api`
/// printed when it succeeded (`gh_output`), and, when that gave no branch,
/// the outcome of `git ls-remote --symref <url> HEAD` (`ls_remote`: its
/// output, or the error it failed with). Detection fails only when both
/// sources fail: GitHub gave no branch, and git failed or printed no
/// `ref: refs/heads/<name>\tHEAD` line.
pub fn detected_branch(
    spec: &RepoSpec,
    gh_output: Option<String>,
    ls_remote: Option<Result<String, Error>>,
) -> (r: Result<String, Error>)
    requires
        !(gh_output matches Some(out) && trim(out@).len() > 0) ==> ls_remote is Some,
    ensures
        match gh_output {
            Some(out) if trim(out@).len() > 0 => r matches Ok(b) && b@ == trim(out@),
            _ => match ls_remote {
                Some(Ok(refs)) => match first_head_ref(lines(refs@)) {
                    Some(b) => r matches Ok(x) && x@ == b,
                    None => r matches Err(e) && !e.is_usage() && e.text()
                        == "could not parse default branch from git ls-remote for "@ + spec.clone_url@,
                },
                Some(Err(e)) => r == Err::<String, Error>(e),
                None => false,
            },
        },
{
    match default_branch_with_fallback(spec, gh_output) {
        Detection::Found(b) => Ok(b),
        Detection::RunLsRemote(_) => match ls_remote.unwrap() {
            Ok(refs) => parse_ls_remote_default_branch(spec.clone_url.as_str(), refs.as_str()),
            Err(e) => Err(e),
        },
    }
}

} // verus!
