//! `gh qwt rm`: the short name of `gh qwt remove`.

use vstd::prelude::*;

verus! {

/// Arguments for `gh qwt rm`.
#[derive(Debug, Clone)]
pub struct Args {
    /// Branch whose worktree should be removed (may contain `/`), or
    /// `owner/repo[/branch]` outside any qwt repository.
    pub branch: String,
    /// Remove the worktree even when it has local changes.
    pub force: bool,
    /// Also delete the local branch with `git branch -D`.
    pub delete_branch: bool,
}

impl Args {
    /// The same request as arguments of `gh qwt remove`.
    pub fn into_remove(self) -> (r: crate::commands::remove::Args)
        ensures
            r.spec == self.branch,
            r.force == self.force,
            r.delete_branch == self.delete_branch,
    {
        crate::commands::remove::Args {
            spec: self.branch,
            force: self.force,
            delete_branch: self.delete_branch,
        }
    }
}

} // verus!
