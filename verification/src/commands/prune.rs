//! `gh qwt prune`: remove the worktrees, in the repository discovered from the
//! current directory, whose branch tracked an upstream (`branch.<name>.remote`
//! is set) and whose `origin/<name>` is gone after `git fetch origin --prune`.
//! A branch that was never pushed, a worktree with uncommitted changes, and
//! the default branch are never touched.

use vstd::prelude::*;
use crate::commands::{Step, StepView, steps_view, agrees, confirmed};
use crate::git::{
    GitCommandView, Worktree, WorktreeView, worktree_views, fetch_prune, worktree_prune,
    worktree_remove, branch_delete, opt_view,
};
use crate::repo::{relative_spec, relative_to, empty_parents, empty_parents_spec};
use crate::text::{views, trim, trim_str, join_with, str_eq};

verus! {

/// Arguments for `gh qwt prune`.
#[derive(Debug, Clone)]
pub struct Args {
    /// Skip the confirmation prompt.
    pub force: bool,
}

/// Refresh what is known of `origin` before choosing: `git fetch origin
/// --prune`, then `git worktree prune`.
pub fn refresh(repo_dir: &str) -> (r: Vec<Step>)
    ensures
        steps_view(r@) == seq![
            StepView::Git(
                GitCommandView { dir: Some(repo_dir@), args: seq!["fetch"@, "origin"@, "--prune"@] },
            ),
            StepView::Git(GitCommandView { dir: Some(repo_dir@), args: seq!["worktree"@, "prune"@] }),
        ],
{
    let mut steps: Vec<Step> = Vec::new();
    steps.push(Step::Git(fetch_prune(repo_dir)));
    steps.push(Step::Git(worktree_prune(repo_dir)));
    assert(steps_view(steps@) =~= seq![
        StepView::Git(
            GitCommandView { dir: Some(repo_dir@), args: seq!["fetch"@, "origin"@, "--prune"@] },
        ),
        StepView::Git(GitCommandView { dir: Some(repo_dir@), args: seq!["worktree"@, "prune"@] }),
    ]);
    steps
}

/// What git reports of one worktree's branch, after `git fetch origin
/// --prune`: whether `branch.<name>.remote` is configured
/// ([`crate::git::branch_remote`] succeeds) and whether `origin/<name>`
/// exists ([`crate::git::remote_branch_exists`] succeeds).
#[derive(Debug, Clone, Copy)]
pub struct Upstream {
    /// The branch has a remote configured: it tracked an upstream.
    pub has_remote: bool,
    /// `origin/<name>` exists.
    pub on_origin: bool,
}

/// Whether a worktree may be pruned: it is on a branch other than the
/// default branch that tracked an upstream (`u.has_remote`) whose
/// `origin/<name>` is now gone (`!u.on_origin`).
pub open spec fn is_candidate(w: WorktreeView, u: Upstream, default_branch: Seq<char>) -> bool {
    match w.branch {
        Some(b) => b != default_branch && u.has_remote && !u.on_origin,
        None => false,
    }
}

/// Whether the worktree `w`, whose branch git reports as `u`, may be pruned.
pub fn prunable(w: &Worktree, u: Upstream, default_branch: &str) -> (r: bool)
    ensures
        r == is_candidate(w@, u, default_branch@),
{
    match &w.branch {
        Some(b) => !str_eq(b.as_str(), default_branch) && u.has_remote && !u.on_origin,
        None => false,
    }
}

/// Whether `git status --porcelain` printed nothing but whitespace.
pub open spec fn is_clean(status: Option<Seq<char>>) -> bool {
    match status {
        Some(t) => trim(t).len() == 0,
        None => false,
    }
}

/// The characters of optional strings.
pub open spec fn opt_views(v: Seq<Option<String>>) -> Seq<Option<Seq<char>>> {
    v.map_values(|o: Option<String>| opt_view(o))
}

/// The worktrees of `ws` that are pruned, in order: those that may be pruned
/// (`us[i]` is what git reports of the branch of `ws[i]`) and whose `git
/// status --porcelain` output `st[i]` is blank.
pub open spec fn pruned_spec(
    ws: Seq<WorktreeView>,
    us: Seq<Upstream>,
    st: Seq<Option<Seq<char>>>,
    default_branch: Seq<char>,
) -> Seq<WorktreeView>
    decreases ws.len(),
{
    if ws.len() == 0 {
        Seq::empty()
    } else {
        let i = ws.len() - 1;
        let rest = pruned_spec(ws.drop_last(), us, st, default_branch);
        if is_candidate(ws.last(), us[i], default_branch) && is_clean(st[i]) {
            rest.push(ws.last())
        } else {
            rest
        }
    }
}

/// The warning for a candidate with uncommitted changes.
pub open spec fn dirty_text(w: WorktreeView) -> Seq<char> {
    "skipping "@ + w.branch->0 + " at "@ + w.path + ": it has uncommitted changes"@
}

/// A warning for each worktree of `ws` that may be pruned but has changes.
pub open spec fn skipped_spec(
    ws: Seq<WorktreeView>,
    us: Seq<Upstream>,
    st: Seq<Option<Seq<char>>>,
    default_branch: Seq<char>,
) -> Seq<StepView>
    decreases ws.len(),
{
    if ws.len() == 0 {
        Seq::empty()
    } else {
        let i = ws.len() - 1;
        let rest = skipped_spec(ws.drop_last(), us, st, default_branch);
        if is_candidate(ws.last(), us[i], default_branch) && !is_clean(st[i]) {
            rest.push(StepView::Warn(dirty_text(ws.last())))
        } else {
            rest
        }
    }
}

/// What a prune works on: the worktrees, what git reports of each one's
/// branch, and the status output of each worktree that may be pruned.
pub open spec fn facts_agree(
    worktrees: Seq<Worktree>,
    upstream: Seq<Upstream>,
    status: Seq<Option<String>>,
    default_branch: Seq<char>,
) -> bool {
    &&& upstream.len() == worktrees.len()
    &&& status.len() == worktrees.len()
    &&& forall|i: int|
        0 <= i < worktrees.len() && is_candidate(#[trigger] worktrees[i]@, upstream[i], default_branch)
            ==> status[i] is Some
}

/// Choose what to prune: `upstream[i]` is what git reports of the branch of
/// `worktrees[i]`, and `status[i]` what `git status --porcelain` printed in
/// it, for each worktree that [`prunable`] allows. Returns the worktrees to
/// prune and a warning for each one skipped because it has changes.
pub fn select(
    worktrees: &Vec<Worktree>,
    upstream: &Vec<Upstream>,
    status: &Vec<Option<String>>,
    default_branch: &str,
) -> (r: (Vec<Worktree>, Vec<Step>))
    requires
        facts_agree(worktrees@, upstream@, status@, default_branch@),
    ensures
        worktree_views(r.0@) == pruned_spec(
            worktree_views(worktrees@),
            upstream@,
            opt_views(status@),
            default_branch@,
        ),
        steps_view(r.1@) == skipped_spec(
            worktree_views(worktrees@),
            upstream@,
            opt_views(status@),
            default_branch@,
        ),
        forall|k: int| 0 <= k < r.0@.len() ==> (#[trigger] r.0@[k]).branch is Some,
{
    let ghost all = worktree_views(worktrees@);
    let ghost st = opt_views(status@);
    let n = worktrees.len();
    let mut out: Vec<Worktree> = Vec::new();
    let mut warns: Vec<Step> = Vec::new();
    let mut i: usize = 0;
    assert(all.take(0) =~= Seq::<WorktreeView>::empty());
    while i < n
        invariant
            n == worktrees@.len(),
            facts_agree(worktrees@, upstream@, status@, default_branch@),
            all == worktree_views(worktrees@),
            st == opt_views(status@),
            i <= n,
            worktree_views(out@) == pruned_spec(all.take(i as int), upstream@, st, default_branch@),
            steps_view(warns@) == skipped_spec(all.take(i as int), upstream@, st, default_branch@),
            forall|k: int| 0 <= k < out@.len() ==> (#[trigger] out@[k]).branch is Some,
        decreases n - i,
    {
        assert(all.take(i + 1).drop_last() =~= all.take(i as int));
        assert(all.take(i + 1).last() == worktrees@[i as int]@);
        let w = &worktrees[i];
        let u = upstream[i];
        if prunable(w, u, default_branch) {
            assert(is_candidate(worktrees@[i as int]@, upstream@[i as int], default_branch@));
            let clean = match &status[i] {
                Some(t) => trim_str(t.as_str()).unicode_len() == 0,
                None => false,
            };
            assert(st[i as int] == opt_view(status@[i as int]));
            if clean {
                let ghost prev = worktree_views(out@);
                let c = Worktree {
                    path: w.path.clone(),
                    branch: w.branch.clone(),
                    head: w.head.clone(),
                    detached: w.detached,
                };
                out.push(c);
                assert(worktree_views(out@) =~= prev.push(w@));
            } else {
                let ghost prev = steps_view(warns@);
                let branch = match &w.branch {
                    Some(b) => b.clone(),
                    None => String::new(),
                };
                let msg = String::from_str("skipping ").concat(branch.as_str()).concat(" at ").concat(
                    w.path.as_str(),
                ).concat(": it has uncommitted changes");
                warns.push(Step::Warn(msg));
                assert(steps_view(warns@) =~= prev.push(StepView::Warn(dirty_text(w@))));
            }
        }
        i = i + 1;
    }
    assert(all.take(n as int) =~= all);
    (out, warns)
}

/// Each pruned worktree is one of the given worktrees, on a branch other
/// than the default branch, that tracked an upstream (a remote is
/// configured) whose `origin/<name>` is gone, and it has no changes. A
/// branch never pushed, one still on `origin`, the default branch, a
/// detached worktree and a worktree with changes are never pruned.
pub proof fn lemma_pruned_are_gone_and_clean(
    ws: Seq<WorktreeView>,
    us: Seq<Upstream>,
    st: Seq<Option<Seq<char>>>,
    default_branch: Seq<char>,
    i: int,
)
    requires
        us.len() == ws.len(),
        st.len() == ws.len(),
        0 <= i < pruned_spec(ws, us, st, default_branch).len(),
    ensures
        exists|j: int|
            0 <= j < ws.len() && #[trigger] ws[j] == pruned_spec(ws, us, st, default_branch)[i]
                && us[j].has_remote && !us[j].on_origin && is_clean(st[j]) && (ws[j].branch matches Some(
                b) && b != default_branch),
    decreases ws.len(),
{
    let front = ws.drop_last();
    let rest = pruned_spec(front, us, st, default_branch);
    let last = ws.len() - 1;
    if i < rest.len() {
        let us2 = us.drop_last();
        let st2 = st.drop_last();
        assert(pruned_spec(front, us2, st2, default_branch) == rest) by {
            lemma_pruned_prefix(front, us, st, us2, st2, default_branch);
        }
        lemma_pruned_are_gone_and_clean(front, us2, st2, default_branch, i);
        let j = choose|j: int|
            0 <= j < front.len() && #[trigger] front[j] == pruned_spec(front, us2, st2, default_branch)[i]
                && us2[j].has_remote && !us2[j].on_origin && is_clean(st2[j]) && (front[j].branch matches Some(
                b) && b != default_branch);
        assert(ws[j] == front[j]);
        assert(pruned_spec(ws, us, st, default_branch)[i] == rest[i]);
    } else {
        assert(ws[last] == pruned_spec(ws, us, st, default_branch)[i]);
    }
}

/// Every worktree that qualifies is pruned: on a branch other than the
/// default branch, with a remote configured, gone from `origin`, and clean.
/// With [`lemma_pruned_are_gone_and_clean`], the pruned worktrees are
/// exactly those that qualify.
pub proof fn lemma_every_qualifying_worktree_is_pruned(
    ws: Seq<WorktreeView>,
    us: Seq<Upstream>,
    st: Seq<Option<Seq<char>>>,
    default_branch: Seq<char>,
    j: int,
)
    requires
        us.len() == ws.len(),
        st.len() == ws.len(),
        0 <= j < ws.len(),
        ws[j].branch matches Some(b) && b != default_branch,
        us[j].has_remote,
        !us[j].on_origin,
        is_clean(st[j]),
    ensures
        pruned_spec(ws, us, st, default_branch).contains(ws[j]),
    decreases ws.len(),
{
    let front = ws.drop_last();
    let rest = pruned_spec(front, us, st, default_branch);
    if j == ws.len() - 1 {
        let r = pruned_spec(ws, us, st, default_branch);
        assert(r == rest.push(ws.last()));
        assert(r[rest.len() as int] == ws[j]);
    } else {
        let us2 = us.drop_last();
        let st2 = st.drop_last();
        lemma_pruned_prefix(front, us, st, us2, st2, default_branch);
        assert(front[j] == ws[j]);
        lemma_every_qualifying_worktree_is_pruned(front, us2, st2, default_branch, j);
        let k = choose|k: int| 0 <= k < rest.len() && rest[k] == ws[j];
        let r = pruned_spec(ws, us, st, default_branch);
        assert(r[k] == ws[j]);
    }
}

/// Only the first `ws.len()` reports and statuses matter.
proof fn lemma_pruned_prefix(
    ws: Seq<WorktreeView>,
    us: Seq<Upstream>,
    st: Seq<Option<Seq<char>>>,
    vs: Seq<Upstream>,
    tt: Seq<Option<Seq<char>>>,
    default_branch: Seq<char>,
)
    requires
        ws.len() <= us.len(),
        ws.len() <= vs.len(),
        ws.len() <= st.len(),
        ws.len() <= tt.len(),
        forall|k: int| 0 <= k < ws.len() ==> us[k] == vs[k] && st[k] == tt[k],
    ensures
        pruned_spec(ws, us, st, default_branch) == pruned_spec(ws, vs, tt, default_branch),
    decreases ws.len(),
{
    if ws.len() > 0 {
        lemma_pruned_prefix(ws.drop_last(), us, st, vs, tt, default_branch);
    }
}

/// The line that names one worktree in the confirmation prompt.
pub open spec fn prompt_line(w: WorktreeView) -> Seq<char> {
    "  "@ + w.branch->0 + " ("@ + w.path + ")"@
}

/// The confirmation prompt before pruning `ws`, unless `force` or there is
/// nothing to prune: the worktrees one per line, then the question.
pub fn prompt(ws: &Vec<Worktree>, force: bool) -> (r: Option<String>)
    requires
        forall|i: int| 0 <= i < ws@.len() ==> (#[trigger] ws@[i]).branch is Some,
    ensures
        (force || ws@.len() == 0) ==> r is None,
        !(force || ws@.len() == 0) ==> (r matches Some(p) && p@ == join_with(
            worktree_views(ws@).map_values(|w: WorktreeView| prompt_line(w)),
            seq!['\n'],
        ) + "\nRemove these worktrees? [y/N] "@),
{
    if force || ws.len() == 0 {
        return None;
    }
    let mut lines: Vec<String> = Vec::new();
    let n = ws.len();
    let mut i: usize = 0;
    let ghost all = worktree_views(ws@).map_values(|w: WorktreeView| prompt_line(w));
    while i < n
        invariant
            n == ws@.len(),
            i <= n,
            all == worktree_views(ws@).map_values(|w: WorktreeView| prompt_line(w)),
            forall|k: int| 0 <= k < ws@.len() ==> (#[trigger] ws@[k]).branch is Some,
            views(lines@) == all.take(i as int),
        decreases n - i,
    {
        let w = &ws[i];
        let branch = match &w.branch {
            Some(b) => b.clone(),
            None => String::new(),
        };
        let line = String::from_str("  ").concat(branch.as_str()).concat(" (").concat(
            w.path.as_str(),
        ).concat(")");
        let ghost prev = views(lines@);
        lines.push(line);
        assert(views(lines@) =~= prev.push(all[i as int]));
        assert(all.take(i + 1) =~= all.take(i as int).push(all[i as int]));
        i = i + 1;
    }
    assert(all.take(n as int) =~= all);
    proof {
        reveal_strlit("\n");
        assert("\n"@ =~= seq!['\n']);
    }
    let text = crate::text::join(&lines, "\n").concat("\nRemove these worktrees? [y/N] ");
    Some(text)
}

/// The directories left empty when the worktree at `path` is removed:
/// those between it and `repo_dir` when it lies below `repo_dir`.
pub open spec fn parents_of(repo_dir: Seq<char>, path: Seq<char>) -> Seq<Seq<char>> {
    match relative_spec(repo_dir, path) {
        Some(rel) => empty_parents_spec(repo_dir, rel),
        None => Seq::empty(),
    }
}

/// The steps that prune the worktrees `ws`, in order: for each, `git
/// worktree remove`, the directories left empty, `git branch -D`, and a line
/// naming it.
pub open spec fn prune_steps(repo_dir: Seq<char>, ws: Seq<WorktreeView>) -> Seq<StepView>
    decreases ws.len(),
{
    if ws.len() == 0 {
        Seq::empty()
    } else {
        let w = ws.last();
        prune_steps(repo_dir, ws.drop_last()) + seq![
            StepView::Git(
                GitCommandView { dir: Some(repo_dir), args: seq!["worktree"@, "remove"@, w.path] },
            ),
            StepView::RemoveEmptyDirs(parents_of(repo_dir, w.path)),
            StepView::Git(
                GitCommandView { dir: Some(repo_dir), args: seq!["branch"@, "-D"@, w.branch->0] },
            ),
            StepView::Print("Removed worktree "@ + w.path + " ("@ + w.branch->0 + ")"@),
        ]
    }
}

/// The steps that follow the choice: "Nothing to prune" when nothing is
/// chosen; otherwise, with `force` or when the `answer` to the prompt
/// agrees, [`prune_steps`]; otherwise only "Aborted.".
pub open spec fn outcome(
    repo_dir: Seq<char>,
    chosen: Seq<WorktreeView>,
    force: bool,
    answer: Option<Seq<char>>,
) -> Seq<StepView> {
    if chosen.len() == 0 {
        seq![StepView::Print("Nothing to prune"@)]
    } else if force || (answer matches Some(a) && agrees(a)) {
        prune_steps(repo_dir, chosen)
    } else {
        seq![StepView::Warn("Aborted."@)]
    }
}

/// The steps of `gh qwt prune` in the repository at `repo_dir`, from what
/// git reports (see [`select`]) and the `answer` to the prompt: the
/// worktrees of [`pruned_spec`] are removed, with their branches, only with
/// `--force` or when the answer agrees. Nothing else is removed.
pub fn run(
    args: &Args,
    repo_dir: &str,
    worktrees: &Vec<Worktree>,
    upstream: &Vec<Upstream>,
    status: &Vec<Option<String>>,
    default_branch: &str,
    answer: Option<String>,
) -> (r: Vec<Step>)
    requires
        facts_agree(worktrees@, upstream@, status@, default_branch@),
    ensures
        steps_view(r@) == outcome(
            repo_dir@,
            pruned_spec(worktree_views(worktrees@), upstream@, opt_views(status@), default_branch@),
            args.force,
            opt_view(answer),
        ),
{
    let (chosen, _) = select(worktrees, upstream, status, default_branch);
    plan(repo_dir, &chosen, args.force, answer)
}

/// The steps of [`outcome`] for the chosen worktrees `ws`.
fn plan(repo_dir: &str, ws: &Vec<Worktree>, force: bool, answer: Option<String>) -> (r: Vec<Step>)
    requires
        forall|i: int| 0 <= i < ws@.len() ==> (#[trigger] ws@[i]).branch is Some,
    ensures
        steps_view(r@) == outcome(repo_dir@, worktree_views(ws@), force, opt_view(answer)),
{
    let mut steps: Vec<Step> = Vec::new();
    let n = ws.len();
    if n == 0 {
        steps.push(Step::Print("Nothing to prune".to_owned()));
        assert(steps_view(steps@) =~= seq![StepView::Print("Nothing to prune"@)]);
        return steps;
    }
    let yes = force || match &answer {
        Some(a) => confirmed(a.as_str()),
        None => false,
    };
    if !yes {
        steps.push(Step::Warn("Aborted.".to_owned()));
        assert(steps_view(steps@) =~= seq![StepView::Warn("Aborted."@)]);
        return steps;
    }
    let ghost all = worktree_views(ws@);
    let mut i: usize = 0;
    assert(all.take(0) =~= Seq::<WorktreeView>::empty());
    while i < n
        invariant
            n == ws@.len(),
            i <= n,
            all == worktree_views(ws@),
            forall|k: int| 0 <= k < ws@.len() ==> (#[trigger] ws@[k]).branch is Some,
            steps_view(steps@) == prune_steps(repo_dir@, all.take(i as int)),
        decreases n - i,
    {
        assert(all.take(i + 1).drop_last() =~= all.take(i as int));
        assert(all.take(i + 1).last() == ws@[i as int]@);
        let w = &ws[i];
        let branch = match &w.branch {
            Some(b) => b.clone(),
            None => String::new(),
        };
        let parents = match relative_to(repo_dir, w.path.as_str()) {
            Some(rel) => empty_parents(repo_dir, rel.as_str()),
            None => Vec::new(),
        };
        let ghost prev = steps_view(steps@);
        steps.push(Step::Git(worktree_remove(repo_dir, w.path.as_str(), false)));
        steps.push(Step::RemoveEmptyDirs(parents));
        steps.push(Step::Git(branch_delete(repo_dir, branch.as_str())));
        steps.push(
            Step::Print(
                String::from_str("Removed worktree ").concat(w.path.as_str()).concat(" (").concat(
                    branch.as_str(),
                ).concat(")"),
            ),
        );
        proof {
            let wv = all[i as int];
            assert(wv == w@);
            assert(branch@ == wv.branch->0);
            assert(views(parents@) == parents_of(repo_dir@, wv.path));
            let four = seq![
                StepView::Git(
                    GitCommandView { dir: Some(repo_dir@), args: seq!["worktree"@, "remove"@, wv.path] },
                ),
                StepView::RemoveEmptyDirs(parents_of(repo_dir@, wv.path)),
                StepView::Git(
                    GitCommandView { dir: Some(repo_dir@), args: seq!["branch"@, "-D"@, wv.branch->0] },
                ),
                StepView::Print("Removed worktree "@ + wv.path + " ("@ + wv.branch->0 + ")"@),
            ];
            assert(prune_steps(repo_dir@, all.take(i + 1)) == prev + four);
            assert(steps_view(steps@) =~= prev + four);
        }
        i = i + 1;
    }
    assert(all.take(n as int) =~= all);
    steps
}

} // verus!
