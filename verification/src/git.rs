//! The `git` invocations qwt makes, and the parsing of what they print.
//!
//! Each command is described by a [`GitCommand`]: the directory it runs in
//! and its arguments. Running it is left to the caller.

use vstd::prelude::*;
use crate::error::{Error, runtime};
use crate::text::{
    views, lines, lines_of, has_prefix, has_suffix, first_of, trim_end, trim_newlines, join_with,
    split_on, strip_prefix, strip_suffix, find_char, substring, str_eq, join, trim_end_str,
    trim_newlines_str, lacks, lemma_split_single, lemma_split_concat, strip_cr,
};

verus! {

/// A `git` invocation: the directory it runs in (if not the current one) and
/// its arguments.
#[derive(Debug)]
pub struct GitCommand {
    pub dir: Option<String>,
    pub args: Vec<String>,
}

/// The characters of a [`GitCommand`].
pub struct GitCommandView {
    pub dir: Option<Seq<char>>,
    pub args: Seq<Seq<char>>,
}

impl View for GitCommand {
    type V = GitCommandView;

    open spec fn view(&self) -> GitCommandView {
        GitCommandView {
            dir: match self.dir {
                Some(d) => Some(d@),
                None => None,
            },
            args: views(self.args@),
        }
    }
}

/// A command run in `dir` (or the current directory).
fn command(dir: Option<&str>, args: Vec<String>) -> (r: GitCommand)
    ensures
        r@.args == views(args@),
        r@.dir == match dir {
            Some(d) => Some(d@),
            None => None::<Seq<char>>,
        },
{
    GitCommand {
        dir: match dir {
            Some(d) => Some(d.to_owned()),
            None => None,
        },
        args,
    }
}

/// The owned copies of `parts`.
fn owned(parts: &[&str]) -> (r: Vec<String>)
    ensures
        views(r@) == parts@.map_values(|p: &str| p@),
{
    let n = parts.len();
    let mut out: Vec<String> = Vec::new();
    let mut i: usize = 0;
    while i < n
        invariant
            n == parts@.len(),
            i <= n,
            views(out@) == parts@.take(i as int).map_values(|p: &str| p@),
        decreases n - i,
    {
        let ghost prev = views(out@);
        out.push(parts[i].to_owned());
        assert(views(out@) =~= prev.push(parts@[i as int]@));
        i = i + 1;
        assert(views(out@) =~= parts@.take(i as int).map_values(|p: &str| p@));
    }
    assert(parts@.take(n as int) =~= parts@);
    out
}

/// `git clone --bare <url> <dest>`.
pub fn clone_bare(url: &str, dest: &str) -> (r: GitCommand)
    ensures
        r@.dir is None,
        r@.args == seq!["clone"@, "--bare"@, url@, dest@],
{
    let a = owned(&["clone", "--bare", url, dest]);
    assert(views(a@) =~= seq!["clone"@, "--bare"@, url@, dest@]);
    command(None, a)
}

/// The fetch refspec a bare clone lacks.
pub open spec fn fetch_refspec() -> Seq<char> {
    "+refs/heads/*:refs/remotes/origin/*"@
}

/// Configure the bare repo's fetch refspec and fetch origin, in `repo_dir`:
/// ```text
/// git --git-dir=.bare config remote.origin.fetch '+refs/heads/*:refs/remotes/origin/*'
/// git --git-dir=.bare fetch origin
/// ```
/// Bare clones omit the refspec needed to populate `refs/remotes/origin/*`.
pub fn configure_and_fetch(repo_dir: &str) -> (r: Vec<GitCommand>)
    ensures
        r@.len() == 2,
        r@[0]@.dir == Some(repo_dir@),
        r@[0]@.args == seq![
            "--git-dir=.bare"@,
            "config"@,
            "remote.origin.fetch"@,
            fetch_refspec(),
        ],
        r@[1]@.dir == Some(repo_dir@),
        r@[1]@.args == seq!["--git-dir=.bare"@, "fetch"@, "origin"@],
{
    let a = owned(&["--git-dir=.bare", "config", "remote.origin.fetch", "+refs/heads/*:refs/remotes/origin/*"]);
    assert(views(a@) =~= seq!["--git-dir=.bare"@, "config"@, "remote.origin.fetch"@, fetch_refspec()]);
    let b = owned(&["--git-dir=.bare", "fetch", "origin"]);
    assert(views(b@) =~= seq!["--git-dir=.bare"@, "fetch"@, "origin"@]);
    let mut out: Vec<GitCommand> = Vec::new();
    out.push(command(Some(repo_dir), a));
    out.push(command(Some(repo_dir), b));
    out
}

/// Add a worktree tracking `origin/<branch>`:
/// `git worktree add --track -b <branch> <dest> origin/<branch>` in `repo_dir`.
///
/// The result is a real local branch, not a detached HEAD.
pub fn worktree_add_tracking(repo_dir: &str, branch: &str, dest: &str) -> (r: GitCommand)
    ensures
        r@.dir == Some(repo_dir@),
        r@.args == seq![
            "worktree"@,
            "add"@,
            "--track"@,
            "-b"@,
            branch@,
            dest@,
            "origin/"@ + branch@,
        ],
{
    let origin_branch = String::from_str("origin/").concat(branch);
    let a = owned(&["worktree", "add", "--track", "-b", branch, dest, origin_branch.as_str()]);
    assert(views(a@) =~= seq![
        "worktree"@,
        "add"@,
        "--track"@,
        "-b"@,
        branch@,
        dest@,
        "origin/"@ + branch@,
    ]);
    command(Some(repo_dir), a)
}

/// Add a worktree with a new branch based on `base`:
/// `git worktree add -b <branch> <dest> <base>` in `repo_dir`.
pub fn worktree_add_new(repo_dir: &str, branch: &str, dest: &str, base: &str) -> (r: GitCommand)
    ensures
        r@.dir == Some(repo_dir@),
        r@.args == seq!["worktree"@, "add"@, "-b"@, branch@, dest@, base@],
{
    let a = owned(&["worktree", "add", "-b", branch, dest, base]);
    assert(views(a@) =~= seq!["worktree"@, "add"@, "-b"@, branch@, dest@, base@]);
    command(Some(repo_dir), a)
}

/// Attach an existing local branch to a new worktree:
/// `git worktree add <dest> <branch>` in `repo_dir`, then, best effort,
/// `git branch --set-upstream-to=origin/<branch> <branch>` so that it tracks
/// the remote when that ref exists.
///
/// A `git clone --bare` copies the remote's branches into local heads, so
/// they already exist locally and are attached rather than re-created.
pub fn worktree_add_existing(repo_dir: &str, branch: &str, dest: &str) -> (r: (GitCommand, GitCommand))
    ensures
        r.0@.dir == Some(repo_dir@),
        r.0@.args == seq!["worktree"@, "add"@, dest@, branch@],
        r.1@.dir == Some(repo_dir@),
        r.1@.args == seq!["branch"@, "--set-upstream-to=origin/"@ + branch@, branch@],
{
    let a = owned(&["worktree", "add", dest, branch]);
    assert(views(a@) =~= seq!["worktree"@, "add"@, dest@, branch@]);
    let upstream = String::from_str("--set-upstream-to=origin/").concat(branch);
    let b = owned(&["branch", upstream.as_str(), branch]);
    assert(views(b@) =~= seq!["branch"@, "--set-upstream-to=origin/"@ + branch@, branch@]);
    (command(Some(repo_dir), a), command(Some(repo_dir), b))
}

/// `git show-ref --verify --quiet refs/heads/<branch>` in `repo_dir`: it
/// succeeds exactly when the local branch exists.
pub fn local_branch_exists(repo_dir: &str, branch: &str) -> (r: GitCommand)
    ensures
        r@.dir == Some(repo_dir@),
        r@.args == seq!["show-ref"@, "--verify"@, "--quiet"@, "refs/heads/"@ + branch@],
{
    let local_ref = String::from_str("refs/heads/").concat(branch);
    let a = owned(&["show-ref", "--verify", "--quiet", local_ref.as_str()]);
    assert(views(a@) =~= seq!["show-ref"@, "--verify"@, "--quiet"@, "refs/heads/"@ + branch@]);
    command(Some(repo_dir), a)
}

/// `git show-ref --verify --quiet refs/remotes/origin/<branch>` in `repo_dir`:
/// it succeeds exactly when `origin/<branch>` exists.
pub fn remote_branch_exists(repo_dir: &str, branch: &str) -> (r: GitCommand)
    ensures
        r@.dir == Some(repo_dir@),
        r@.args == seq![
            "show-ref"@,
            "--verify"@,
            "--quiet"@,
            "refs/remotes/origin/"@ + branch@,
        ],
{
    let remote_ref = String::from_str("refs/remotes/origin/").concat(branch);
    let a = owned(&["show-ref", "--verify", "--quiet", remote_ref.as_str()]);
    assert(views(a@) =~= seq![
        "show-ref"@,
        "--verify"@,
        "--quiet"@,
        "refs/remotes/origin/"@ + branch@,
    ]);
    command(Some(repo_dir), a)
}

/// `git symbolic-ref --short HEAD` in `repo_dir`: prints the repository's
/// default branch, which the bare repo's HEAD points at after a clone.
pub fn default_branch_from_head(repo_dir: &str) -> (r: GitCommand)
    ensures
        r@.dir == Some(repo_dir@),
        r@.args == seq!["symbolic-ref"@, "--short"@, "HEAD"@],
{
    let a = owned(&["symbolic-ref", "--short", "HEAD"]);
    assert(views(a@) =~= seq!["symbolic-ref"@, "--short"@, "HEAD"@]);
    command(Some(repo_dir), a)
}

/// `git worktree list --porcelain` in `repo_dir`; see [`parse_worktree_list`].
pub fn worktree_list(repo_dir: &str) -> (r: GitCommand)
    ensures
        r@.dir == Some(repo_dir@),
        r@.args == seq!["worktree"@, "list"@, "--porcelain"@],
{
    let a = owned(&["worktree", "list", "--porcelain"]);
    assert(views(a@) =~= seq!["worktree"@, "list"@, "--porcelain"@]);
    command(Some(repo_dir), a)
}

/// Remove the worktree at `path`: `git worktree remove [--force] <path>` in `repo_dir`.
pub fn worktree_remove(repo_dir: &str, path: &str, force: bool) -> (r: GitCommand)
    ensures
        r@.dir == Some(repo_dir@),
        r@.args == if force {
            seq!["worktree"@, "remove"@, "--force"@, path@]
        } else {
            seq!["worktree"@, "remove"@, path@]
        },
{
    if force {
        let a = owned(&["worktree", "remove", "--force", path]);
        assert(views(a@) =~= seq!["worktree"@, "remove"@, "--force"@, path@]);
        command(Some(repo_dir), a)
    } else {
        let a = owned(&["worktree", "remove", path]);
        assert(views(a@) =~= seq!["worktree"@, "remove"@, path@]);
        command(Some(repo_dir), a)
    }
}

/// Delete a local branch: `git branch -D <branch>` in `repo_dir`.
pub fn branch_delete(repo_dir: &str, branch: &str) -> (r: GitCommand)
    ensures
        r@.dir == Some(repo_dir@),
        r@.args == seq!["branch"@, "-D"@, branch@],
{
    let a = owned(&["branch", "-D", branch]);
    assert(views(a@) =~= seq!["branch"@, "-D"@, branch@]);
    command(Some(repo_dir), a)
}

/// `git ls-remote --symref <url> HEAD`; see [`parse_ls_remote_default_branch`].
pub fn ls_remote_default_branch(url: &str) -> (r: GitCommand)
    ensures
        r@.dir is None,
        r@.args == seq!["ls-remote"@, "--symref"@, url@, "HEAD"@],
{
    let a = owned(&["ls-remote", "--symref", url, "HEAD"]);
    assert(views(a@) =~= seq!["ls-remote"@, "--symref"@, url@, "HEAD"@]);
    command(None, a)
}

/// `git fetch origin --prune` in `repo_dir`: refresh remote-tracking refs and
/// drop those whose branch is gone from origin.
pub fn fetch_prune(repo_dir: &str) -> (r: GitCommand)
    ensures
        r@.dir == Some(repo_dir@),
        r@.args == seq!["fetch"@, "origin"@, "--prune"@],
{
    let a = owned(&["fetch", "origin", "--prune"]);
    assert(views(a@) =~= seq!["fetch"@, "origin"@, "--prune"@]);
    command(Some(repo_dir), a)
}

/// `git worktree prune` in `repo_dir`: drop metadata of worktrees whose
/// directory is gone.
pub fn worktree_prune(repo_dir: &str) -> (r: GitCommand)
    ensures
        r@.dir == Some(repo_dir@),
        r@.args == seq!["worktree"@, "prune"@],
{
    let a = owned(&["worktree", "prune"]);
    assert(views(a@) =~= seq!["worktree"@, "prune"@]);
    command(Some(repo_dir), a)
}

/// `git config --get branch.<branch>.remote` in `repo_dir`: it succeeds
/// exactly when the branch has a remote configured, i.e. it tracked an
/// upstream at some point (`fetch --prune` does not remove this setting).
pub fn branch_remote(repo_dir: &str, branch: &str) -> (r: GitCommand)
    ensures
        r@.dir == Some(repo_dir@),
        r@.args == seq!["config"@, "--get"@, "branch."@ + branch@ + ".remote"@],
{
    let key = String::from_str("branch.").concat(branch).concat(".remote");
    let a = owned(&["config", "--get", key.as_str()]);
    assert(views(a@) =~= seq!["config"@, "--get"@, "branch."@ + branch@ + ".remote"@]);
    command(Some(repo_dir), a)
}

/// `git status --porcelain` in the worktree `path`: prints nothing exactly
/// when the worktree has no changes.
pub fn status_porcelain(path: &str) -> (r: GitCommand)
    ensures
        r@.dir == Some(path@),
        r@.args == seq!["status"@, "--porcelain"@],
{
    let a = owned(&["status", "--porcelain"]);
    assert(views(a@) =~= seq!["status"@, "--porcelain"@]);
    command(Some(path), a)
}

/// The arguments of a git command joined by spaces, as they appear in messages.
pub fn command_line(args: &Vec<String>) -> (r: String)
    ensures
        r@ == join_with(views(args@), " "@),
{
    join(args, " ")
}

/// The message for a git command that could not be started.
pub fn spawn_failure_message(args: &Vec<String>) -> (r: String)
    ensures
        r@ == "failed to spawn git "@ + join_with(views(args@), " "@),
{
    String::from_str("failed to spawn git ").concat(command_line(args).as_str())
}

/// The message for a git command that exited unsuccessfully, given what it
/// wrote to stderr.
pub fn failure_message(args: &Vec<String>, stderr: &str) -> (r: String)
    ensures
        r@ == "git "@ + join_with(views(args@), " "@) + " failed: "@ + trim_end(stderr@),
{
    String::from_str("git ").concat(command_line(args).as_str()).concat(" failed: ").concat(
        trim_end_str(stderr).as_str(),
    )
}

/// What a git command printed, without trailing line breaks.
pub fn output_text(stdout: &str) -> (r: String)
    ensures
        r@ == trim_newlines(stdout@),
{
    trim_newlines_str(stdout)
}

/// The branch named by one line of `git ls-remote --symref`:
/// `ref: refs/heads/<name>\tHEAD`.
pub open spec fn head_ref(line: Seq<char>) -> Option<Seq<char>> {
    if has_prefix(line, "ref: refs/heads/"@) {
        let rest = line.skip("ref: refs/heads/"@.len() as int);
        if has_suffix(rest, "\tHEAD"@) {
            Some(rest.take(rest.len() - "\tHEAD"@.len()))
        } else {
            None
        }
    } else {
        None
    }
}

/// The branch named by the first line of `lines` that names one.
pub open spec fn first_head_ref(lines: Seq<Seq<char>>) -> Option<Seq<char>>
    decreases lines.len(),
{
    if lines.len() == 0 {
        None
    } else {
        match first_head_ref(lines.drop_last()) {
            Some(b) => Some(b),
            None => head_ref(lines.last()),
        }
    }
}

/// The default branch in the output of `git ls-remote --symref <url> HEAD`:
/// from the first line shaped `ref: refs/heads/<name>\tHEAD`.
pub fn parse_ls_remote_default_branch(url: &str, refs: &str) -> (r: Result<String, Error>)
    ensures
        match first_head_ref(lines(refs@)) {
            Some(b) => r matches Ok(x) && x@ == b,
            None => r matches Err(e) && !e.is_usage() && e.text()
                == "could not parse default branch from git ls-remote for "@ + url@,
        },
{
    let ls = lines_of(refs);
    let ghost all = views(ls@);
    let n = ls.len();
    let mut i: usize = 0;
    while i < n
        invariant
            n == ls@.len(),
            all == views(ls@),
            all == lines(refs@),
            i <= n,
            first_head_ref(all.take(i as int)) is None,
        decreases n - i,
    {
        assert(all.take(i + 1).drop_last() =~= all.take(i as int));
        assert(all.take(i + 1).last() == ls@[i as int]@);
        let line = ls[i].as_str();
        if let Some(rest) = strip_prefix(line, "ref: refs/heads/") {
            if let Some(name) = strip_suffix(rest.as_str(), "\tHEAD") {
                proof {
                    lemma_first_head_ref_extends(all, (i + 1) as int);
                }
                return Ok(name);
            }
        }
        i = i + 1;
    }
    assert(all.take(n as int) =~= all);
    let msg = String::from_str("could not parse default branch from git ls-remote for ").concat(url);
    Err(runtime(msg.as_str()))
}

/// Once a head ref is found in a prefix, it is the first of the whole.
pub proof fn lemma_first_head_ref_extends(s: Seq<Seq<char>>, k: int)
    requires
        0 <= k <= s.len(),
        first_head_ref(s.take(k)) is Some,
    ensures
        first_head_ref(s) == first_head_ref(s.take(k)),
    decreases s.len() - k,
{
    if k < s.len() {
        assert(s.take(k + 1).drop_last() =~= s.take(k));
        lemma_first_head_ref_extends(s, k + 1);
    } else {
        assert(s.take(k) =~= s);
    }
}

/// The characters of an optional string.
pub open spec fn opt_view(o: Option<String>) -> Option<Seq<char>> {
    match o {
        Some(s) => Some(s@),
        None => None,
    }
}

/// A worktree entry parsed from `git worktree list --porcelain`.
#[derive(Debug, Clone)]
pub struct Worktree {
    /// Absolute path of the worktree.
    pub path: String,
    /// Branch name (without `refs/heads/`), if the worktree is on a branch.
    pub branch: Option<String>,
    /// Commit the worktree HEAD points at, if reported.
    pub head: Option<String>,
    /// Whether the worktree is in detached-HEAD state.
    pub detached: bool,
}

/// The characters of a [`Worktree`].
pub struct WorktreeView {
    pub path: Seq<char>,
    pub branch: Option<Seq<char>>,
    pub head: Option<Seq<char>>,
    pub detached: bool,
}

impl View for Worktree {
    type V = WorktreeView;

    open spec fn view(&self) -> WorktreeView {
        WorktreeView {
            path: self.path@,
            branch: opt_view(self.branch),
            head: opt_view(self.head),
            detached: self.detached,
        }
    }
}

/// The views of a sequence of worktrees.
pub open spec fn worktree_views(v: Seq<Worktree>) -> Seq<WorktreeView> {
    v.map_values(|w: Worktree| w@)
}

/// Whether a blank line (`\n\n`) starts at index `i` of `s`.
pub open spec fn blank_at(s: Seq<char>, i: int) -> bool {
    0 <= i && i + 1 < s.len() && s[i] == '\n' && s[i + 1] == '\n'
}

/// Index of the first `\n\n` in `s`, if any.
pub open spec fn first_blank(s: Seq<char>) -> Option<int>
    decreases s.len(),
{
    if s.len() < 2 {
        None
    } else {
        match first_blank(s.drop_last()) {
            Some(i) => Some(i),
            None => if s[s.len() - 2] == '\n' && s[s.len() - 1] == '\n' {
                Some(s.len() - 2)
            } else {
                None
            },
        }
    }
}

/// `first_blank` is the least index where `\n\n` starts.
pub proof fn lemma_first_blank(s: Seq<char>)
    ensures
        match first_blank(s) {
            Some(i) => blank_at(s, i) && forall|j: int| 0 <= j < i ==> !blank_at(s, j),
            None => forall|j: int| !blank_at(s, j),
        },
    decreases s.len(),
{
    if s.len() >= 2 {
        let t = s.drop_last();
        lemma_first_blank(t);
        assert(forall|j: int| 0 <= j < t.len() ==> t[j] == s[j]);
        assert(forall|j: int| j + 1 < t.len() ==> (blank_at(t, j) == blank_at(s, j)));
    }
}

/// The records of `s` separated by `\n\n`, as `str::split("\n\n")` yields them.
pub open spec fn split_blank(s: Seq<char>) -> Seq<Seq<char>>
    decreases s.len(),
{
    match first_blank(s) {
        Some(i) => {
            proof {
                lemma_first_blank(s);
            }
            seq![s.take(i)] + split_blank(s.skip(i + 2))
        },
        None => seq![s],
    }
}

/// The fields read so far from the lines of one porcelain record.
pub struct RecordFields {
    pub path: Option<Seq<char>>,
    pub head: Option<Seq<char>>,
    pub branch: Option<Seq<char>>,
    pub detached: bool,
    pub bare: bool,
}

/// No field read yet.
pub open spec fn no_fields() -> RecordFields {
    RecordFields { path: None, head: None, branch: None, detached: false, bare: false }
}

/// The fields after reading `line`; a later line of a kind overrides an earlier one.
pub open spec fn read_line(f: RecordFields, line: Seq<char>) -> RecordFields {
    if has_prefix(line, "worktree "@) {
        RecordFields {
            path: Some(line.skip("worktree "@.len() as int)),
            head: f.head,
            branch: f.branch,
            detached: f.detached,
            bare: f.bare,
        }
    } else if has_prefix(line, "HEAD "@) {
        RecordFields {
            path: f.path,
            head: Some(line.skip("HEAD "@.len() as int)),
            branch: f.branch,
            detached: f.detached,
            bare: f.bare,
        }
    } else if has_prefix(line, "branch refs/heads/"@) {
        RecordFields {
            path: f.path,
            head: f.head,
            branch: Some(line.skip("branch refs/heads/"@.len() as int)),
            detached: f.detached,
            bare: f.bare,
        }
    } else if line == "detached"@ {
        RecordFields {
            path: f.path,
            head: f.head,
            branch: f.branch,
            detached: true,
            bare: f.bare,
        }
    } else if line == "bare"@ {
        RecordFields {
            path: f.path,
            head: f.head,
            branch: f.branch,
            detached: f.detached,
            bare: true,
        }
    } else {
        f
    }
}

/// The fields of a record with the given lines.
pub open spec fn read_lines(ls: Seq<Seq<char>>) -> RecordFields
    decreases ls.len(),
{
    if ls.len() == 0 {
        no_fields()
    } else {
        read_line(read_lines(ls.drop_last()), ls.last())
    }
}

/// The worktree a porcelain record describes: none for the bare repository
/// itself or a record without a `worktree` line; a detached worktree has no branch.
pub open spec fn record_worktree(record: Seq<char>) -> Option<WorktreeView> {
    let f = read_lines(lines(record));
    if f.bare {
        None
    } else {
        match f.path {
            Some(p) => Some(
                WorktreeView {
                    path: p,
                    branch: if f.detached {
                        None
                    } else {
                        f.branch
                    },
                    head: f.head,
                    detached: f.detached,
                },
            ),
            None => None,
        }
    }
}

/// The worktrees the given records describe, in order.
pub open spec fn worktrees_from(records: Seq<Seq<char>>) -> Seq<WorktreeView>
    decreases records.len(),
{
    if records.len() == 0 {
        Seq::empty()
    } else {
        match record_worktree(records.last()) {
            Some(w) => worktrees_from(records.drop_last()).push(w),
            None => worktrees_from(records.drop_last()),
        }
    }
}

/// What `parse_worktree_list(porcelain)` yields.
pub open spec fn parse_worktree_list_spec(porcelain: Seq<char>) -> Seq<WorktreeView> {
    worktrees_from(split_blank(porcelain))
}

/// `s.split("\n\n")`, each record copied.
fn split_records(s: &str) -> (r: Vec<String>)
    ensures
        views(r@) == split_blank(s@),
{
    let v = crate::text::chars_of(s);
    let n = v.len();
    let mut parts: Vec<String> = Vec::new();
    let mut start: usize = 0;
    let mut i: usize = 0;
    assert(s@.skip(0) =~= s@);
    while i < n && i + 1 < n
        invariant
            v@ == s@,
            n == s@.len(),
            start <= i <= n,
            views(parts@) + split_blank(s@.skip(start as int)) == split_blank(s@),
            forall|k: int| start <= k < i ==> !blank_at(s@, k),
        decreases n - i,
    {
        if v[i] == '\n' && v[i + 1] == '\n' {
            let ghost t = s@.skip(start as int);
            proof {
                lemma_first_blank(t);
                assert forall|j: int| 0 <= j < i - start implies !blank_at(t, j) by {
                    assert(blank_at(t, j) == blank_at(s@, start + j));
                }
                assert(blank_at(t, i - start));
                assert(first_blank(t) == Some(i - start));
                assert(t.take(i - start) =~= s@.subrange(start as int, i as int));
                assert(t.skip(i - start + 2) =~= s@.skip(i + 2));
            }
            let piece = substring(s, start, i);
            let ghost prev = views(parts@);
            parts.push(piece);
            assert(views(parts@) =~= prev.push(s@.subrange(start as int, i as int)));
            assert(split_blank(t) == seq![t.take(i - start)] + split_blank(t.skip(i - start + 2)));
            assert(views(parts@) + split_blank(s@.skip(i + 2)) =~= prev + split_blank(t));
            start = i + 2;
            i = i + 2;
        } else {
            i = i + 1;
        }
    }
    let ghost t = s@.skip(start as int);
    proof {
        lemma_first_blank(t);
        assert forall|j: int| 0 <= j implies !blank_at(t, j) by {
            assert(blank_at(t, j) == blank_at(s@, start + j));
        }
        assert(first_blank(t) is None);
    }
    let last = substring(s, start, n);
    let ghost prev = views(parts@);
    parts.push(last);
    assert(views(parts@) =~= prev.push(t));
    assert(views(parts@) =~= split_blank(s@));
    parts
}

/// The fields of one record, as read so far.
struct Fields {
    path: Option<String>,
    head: Option<String>,
    branch: Option<String>,
    detached: bool,
    bare: bool,
}

impl View for Fields {
    type V = RecordFields;

    closed spec fn view(&self) -> RecordFields {
        RecordFields {
            path: opt_view(self.path),
            head: opt_view(self.head),
            branch: opt_view(self.branch),
            detached: self.detached,
            bare: self.bare,
        }
    }
}

/// Read the fields of one record.
fn read_record(record: &str) -> (r: Fields)
    ensures
        r@ == read_lines(lines(record@)),
{
    let ls = crate::text::lines_of(record);
    let ghost all = views(ls@);
    let n = ls.len();
    let mut f = Fields { path: None, head: None, branch: None, detached: false, bare: false };
    let mut i: usize = 0;
    assert(all.take(0) =~= Seq::<Seq<char>>::empty());
    while i < n
        invariant
            n == ls@.len(),
            all == views(ls@),
            all == lines(record@),
            i <= n,
            f@ == read_lines(all.take(i as int)),
        decreases n - i,
    {
        assert(all.take(i + 1).drop_last() =~= all.take(i as int));
        assert(all.take(i + 1).last() == ls@[i as int]@);
        let line = ls[i].as_str();
        if let Some(value) = strip_prefix(line, "worktree ") {
            f.path = Some(value);
        } else if let Some(value) = strip_prefix(line, "HEAD ") {
            f.head = Some(value);
        } else if let Some(value) = strip_prefix(line, "branch refs/heads/") {
            f.branch = Some(value);
        } else if str_eq(line, "detached") {
            f.detached = true;
        } else if str_eq(line, "bare") {
            f.bare = true;
        }
        i = i + 1;
    }
    assert(all.take(n as int) =~= all);
    f
}

/// Parse the output of `git worktree list --porcelain`: records separated by
/// blank lines; the bare repository's own record is skipped; a detached
/// worktree has no branch.
pub fn parse_worktree_list(porcelain: &str) -> (r: Vec<Worktree>)
    ensures
        worktree_views(r@) == parse_worktree_list_spec(porcelain@),
{
    let records = split_records(porcelain);
    let ghost all = views(records@);
    let n = records.len();
    let mut out: Vec<Worktree> = Vec::new();
    let mut i: usize = 0;
    assert(worktree_views(out@) =~= worktrees_from(all.take(0)));
    while i < n
        invariant
            n == records@.len(),
            all == views(records@),
            all == split_blank(porcelain@),
            i <= n,
            worktree_views(out@) == worktrees_from(all.take(i as int)),
        decreases n - i,
    {
        assert(all.take(i + 1).drop_last() =~= all.take(i as int));
        assert(all.take(i + 1).last() == records@[i as int]@);
        let f = read_record(records[i].as_str());
        let ghost prev = worktree_views(out@);
        if !f.bare {
            if let Some(path) = f.path {
                let branch = if f.detached {
                    None
                } else {
                    f.branch
                };
                let w = Worktree { path, branch, head: f.head, detached: f.detached };
                out.push(w);
                assert(worktree_views(out@) =~= prev.push(w@));
            }
        }
        i = i + 1;
    }
    assert(all.take(n as int) =~= all);
    out
}

/// Text without a line break is one record of one line.
proof fn lemma_one_line(s: Seq<char>)
    requires
        s.len() > 0,
        lacks(s, '\n'),
    ensures
        split_blank(s) == seq![s],
        lines(s) == seq![s],
{
    lemma_first_blank(s);
    if first_blank(s) is Some {
        let i = first_blank(s)->Some_0;
        assert(s[i] == '\n');
    }
    lemma_split_single(s, '\n');
    assert(seq![s].drop_last().map_values(|p: Seq<char>| strip_cr(p)) =~= Seq::<Seq<char>>::empty());
    assert(Seq::<Seq<char>>::empty().push(s) =~= seq![s]);
}

/// The path of a worktree is everything after `worktree `, spaces and all:
/// a one-line record `worktree <p>` lists the worktree at exactly `p`.
pub proof fn lemma_worktree_line_path(p: Seq<char>)
    requires
        lacks(p, '\n'),
    ensures
        parse_worktree_list_spec("worktree "@ + p) == seq![
            WorktreeView { path: p, branch: None, head: None, detached: false },
        ],
{
    reveal_strlit("worktree ");
    let s = "worktree "@ + p;
    assert(lacks(s, '\n')) by {
        assert forall|i: int| 0 <= i < s.len() implies s[i] != '\n' by {
            if i >= 9 {
                assert(s[i] == p[i - 9]);
            }
        }
    }
    lemma_one_line(s);
    assert(s.take("worktree "@.len() as int) =~= "worktree "@);
    assert(s.skip("worktree "@.len() as int) =~= p);
    assert(seq![s].drop_last() =~= Seq::<Seq<char>>::empty());
    assert(read_lines(Seq::<Seq<char>>::empty()) == no_fields());
    assert(seq![s].last() == s);
    assert(read_lines(seq![s]) == read_line(no_fields(), s));
    let one = seq![s];
    assert(one.drop_last() =~= Seq::<Seq<char>>::empty());
    assert(worktrees_from(one) == worktrees_from(Seq::<Seq<char>>::empty()).push(
        WorktreeView { path: p, branch: None, head: None, detached: false },
    ));
}

/// A full record reads back its three fields: `worktree <p>`, `HEAD <h>`
/// and `branch refs/heads/<b>` give the worktree at exactly `p` (spaces
/// and all), with head `h` and branch `b`.
pub proof fn lemma_worktree_record_fields(p: Seq<char>, h: Seq<char>, b: Seq<char>)
    requires
        lacks(p, '\n'),
        lacks(h, '\n'),
        lacks(b, '\n'),
        p.len() == 0 || p.last() != '\r',
        h.len() == 0 || h.last() != '\r',
    ensures
        parse_worktree_list_spec(
            "worktree "@ + p + "\n"@ + "HEAD "@ + h + "\n"@ + "branch refs/heads/"@ + b,
        ) == seq![WorktreeView { path: p, branch: Some(b), head: Some(h), detached: false }],
{
    reveal_strlit("worktree ");
    reveal_strlit("HEAD ");
    reveal_strlit("branch refs/heads/");
    reveal_strlit("\n");
    reveal_strlit("detached");
    reveal_strlit("bare");
    let l1 = "worktree "@ + p;
    let l2 = "HEAD "@ + h;
    let l3 = "branch refs/heads/"@ + b;
    let s = "worktree "@ + p + "\n"@ + "HEAD "@ + h + "\n"@ + "branch refs/heads/"@ + b;
    assert(s =~= l1 + seq!['\n'] + (l2 + seq!['\n'] + l3));
    assert(lacks(l1, '\n')) by {
        assert forall|i: int| 0 <= i < l1.len() implies l1[i] != '\n' by {
            if i >= 9 {
                assert(l1[i] == p[i - 9]);
            }
        }
    }
    assert(lacks(l2, '\n')) by {
        assert forall|i: int| 0 <= i < l2.len() implies l2[i] != '\n' by {
            if i >= 5 {
                assert(l2[i] == h[i - 5]);
            }
        }
    }
    assert(lacks(l3, '\n')) by {
        assert forall|i: int| 0 <= i < l3.len() implies l3[i] != '\n' by {
            if i >= 18 {
                assert(l3[i] == b[i - 18]);
            }
        }
    }
    // No blank line: each `\n` is followed by a line's first letter.
    lemma_first_blank(s);
    if first_blank(s) is Some {
        let i = first_blank(s)->Some_0;
        assert(s[i] == '\n' && s[i + 1] == '\n');
        let a = l1.len() as int;
        let c = a + 1 + l2.len();
        if i < a {
            assert(s[i] == l1[i]);
        } else if i == a {
            assert(s[i + 1] == l2[0]);
        } else if i < c {
            assert(s[i] == l2[i - a - 1]);
        } else if i == c {
            assert(s[i + 1] == l3[0]);
        } else {
            assert(s[i] == l3[i - c - 1]);
        }
    }
    assert(split_blank(s) == seq![s]);
    lemma_split_concat(l1, l2 + seq!['\n'] + l3, '\n');
    lemma_split_concat(l2, l3, '\n');
    lemma_split_single(l1, '\n');
    lemma_split_single(l2, '\n');
    lemma_split_single(l3, '\n');
    let parts = split_on(s, '\n');
    assert(parts =~= seq![l1, l2, l3]);
    assert(strip_cr(l1) == l1);
    assert(strip_cr(l2) == l2);
    assert(lines(s) =~= seq![l1, l2, l3]);
    let ls = seq![l1, l2, l3];
    assert(ls.drop_last() =~= seq![l1, l2]);
    assert(seq![l1, l2].drop_last() =~= seq![l1]);
    assert(seq![l1].drop_last() =~= Seq::<Seq<char>>::empty());
    assert(l1.take(9) =~= "worktree "@);
    assert(l1.skip(9) =~= p);
    assert(l2.take(5) =~= "HEAD "@);
    assert(l2.skip(5) =~= h);
    assert(l3.take(18) =~= "branch refs/heads/"@);
    assert(l3.skip(18) =~= b);
    assert(!has_prefix(l2, "worktree "@)) by {
        if l2.len() >= 9 {
            assert(l2.take(9)[0] == l2[0]);
        }
    }
    assert(!has_prefix(l3, "worktree "@)) by {
        assert(l3.take(9)[0] == l3[0]);
    }
    assert(!has_prefix(l3, "HEAD "@)) by {
        assert(l3.take(5)[0] == l3[0]);
    }
    assert(l2 != "detached"@ && l2 != "bare"@) by {
        assert("detached"@[0] == 'd' && "bare"@[0] == 'b');
    }
    assert(l3 != "detached"@ && l3 != "bare"@) by {
        assert("detached"@[0] == 'd' && "bare"@[0] == 'b');
    }
    let f1 = read_line(no_fields(), l1);
    assert(read_lines(Seq::<Seq<char>>::empty()) == no_fields());
    assert(seq![l1].last() == l1);
    assert(read_lines(seq![l1]) == f1);
    let f2 = read_line(f1, l2);
    assert(seq![l1, l2].last() == l2);
    assert(read_lines(seq![l1, l2]) == f2);
    assert(ls.last() == l3);
    let f3 = read_line(f2, l3);
    assert(read_lines(ls) == f3);
    assert(f3.path == Some(p) && f3.head == Some(h) && f3.branch == Some(b));
    assert(!f3.detached && !f3.bare);
    let one = seq![s];
    assert(one.drop_last() =~= Seq::<Seq<char>>::empty());
    assert(worktrees_from(one) == worktrees_from(Seq::<Seq<char>>::empty()).push(
        WorktreeView { path: p, branch: Some(b), head: Some(h), detached: false },
    ));
}

/// Every worktree the porcelain output describes is on a branch or detached,
/// never both.
pub proof fn lemma_detached_has_no_branch(porcelain: Seq<char>, i: int)
    requires
        0 <= i < parse_worktree_list_spec(porcelain).len(),
    ensures
        parse_worktree_list_spec(porcelain)[i].detached ==> parse_worktree_list_spec(
            porcelain,
        )[i].branch is None,
{
    lemma_worktrees_detached(split_blank(porcelain), i);
}

proof fn lemma_worktrees_detached(records: Seq<Seq<char>>, i: int)
    requires
        0 <= i < worktrees_from(records).len(),
    ensures
        worktrees_from(records)[i].detached ==> worktrees_from(records)[i].branch is None,
    decreases records.len(),
{
    if records.len() > 0 {
        let rest = worktrees_from(records.drop_last());
        if i < rest.len() {
            lemma_worktrees_detached(records.drop_last(), i);
        }
    }
}

} // verus!
