//! `gh qwt list`: one line per worktree of every qwt-managed repository,
//! `owner/repo/branch` (or the worktree's absolute path), sorted.

use vstd::prelude::*;
use crate::git::{Worktree, WorktreeView, worktree_views, opt_view};
use crate::repo::{relative_spec, relative_to, repo_dir_spec};
use crate::text::{
    views, occurs, contains, chars_of, str_eq, segments, join_with, lacks, has_prefix,
    lemma_segments_concat, lemma_segments_name, lemma_segments_names,
};
use crate::paths::lemma_join_all_names;
use crate::commands::path::path_spec;

verus! {

/// Arguments for `gh qwt list`.
#[derive(Debug, Clone)]
pub struct Args {
    /// Print absolute paths for worktrees.
    pub full_path: bool,
    /// Only list entries matching this query.
    pub query: Option<String>,
    /// Match the query exactly against `branch`, `repo/branch` or
    /// `owner/repo/branch` instead of as a substring.
    pub exact: bool,
}

/// One qwt-managed repository and its worktrees, as found under the qwt root.
#[derive(Debug)]
pub struct RepoListing {
    /// The owner directory's name.
    pub owner: String,
    /// The repository directory's name.
    pub repo: String,
    /// The repository directory, in the form `git worktree list` reports
    /// paths (canonical).
    pub dir: String,
    /// Its worktrees, as `git worktree list --porcelain` reports them.
    pub worktrees: Vec<Worktree>,
}

/// The name a worktree is listed under, below its repository: its path
/// relative to the repository directory, else its branch; none if neither.
pub open spec fn entry_rel(dir: Seq<char>, w: WorktreeView) -> Option<Seq<char>> {
    match relative_spec(dir, w.path) {
        Some(rel) => Some(rel),
        None => w.branch,
    }
}

/// `owner/repo/rel`.
pub open spec fn entry_name(owner: Seq<char>, repo: Seq<char>, rel: Seq<char>) -> Seq<char> {
    owner + seq!['/'] + repo + seq!['/'] + rel
}

/// What `char::is_uppercase` says of `c`: whether it has the Unicode
/// `Uppercase` property.
pub uninterp spec fn is_uppercase_char(c: char) -> bool;

/// What `str::to_lowercase` returns for `s`: its Unicode lower-case mapping.
pub uninterp spec fn unicode_lowercase(s: Seq<char>) -> Seq<char>;

/// `char::is_uppercase`: the result is named [`is_uppercase_char`]; what it
/// is for a given character (the Unicode tables of std) is left unstated.
#[verifier::external_body]
fn char_is_uppercase(c: char) -> (r: bool)
    ensures
        r == is_uppercase_char(c),
{
    c.is_uppercase()
}

/// `str::to_lowercase`: the result is named [`unicode_lowercase`]; the
/// mapping itself (the Unicode tables of std, with the context rule for
/// final sigma) is left unstated.
#[verifier::external_body]
fn to_lowercase(s: &str) -> (r: String)
    ensures
        r@ == unicode_lowercase(s@),
{
    s.to_lowercase()
}

/// Whether `s` holds an upper-case letter (Unicode).
pub open spec fn has_upper(s: Seq<char>) -> bool {
    exists|i: int| 0 <= i < s.len() && is_uppercase_char(#[trigger] s[i])
}

/// Whether an entry matches the query: every entry when there is none; with
/// `exact`, the query equals `branch`, `repo/branch` or `owner/repo/branch`;
/// otherwise it occurs in `owner/repo/branch`, case-sensitively when the
/// query holds an upper-case letter and otherwise with both in Unicode lower
/// case (smartcase).
pub open spec fn selected(
    query: Option<Seq<char>>,
    exact: bool,
    owner: Seq<char>,
    repo: Seq<char>,
    rel: Seq<char>,
) -> bool {
    match query {
        None => true,
        Some(q) => selected_with(
            q,
            exact,
            owner,
            repo,
            rel,
            has_upper(q),
            unicode_lowercase(entry_name(owner, repo, rel)),
            unicode_lowercase(q),
        ),
    }
}

/// Whether an entry matches query `q`, given whether `q` holds an upper-case
/// letter (`upper`) and the lower-case forms of the entry (`low_name`) and of
/// the query (`low_q`).
pub open spec fn selected_with(
    q: Seq<char>,
    exact: bool,
    owner: Seq<char>,
    repo: Seq<char>,
    rel: Seq<char>,
    upper: bool,
    low_name: Seq<char>,
    low_q: Seq<char>,
) -> bool {
    if exact {
        q == rel || q == repo + seq!['/'] + rel || q == entry_name(owner, repo, rel)
    } else if upper {
        occurs(entry_name(owner, repo, rel), q)
    } else {
        occurs(low_name, low_q)
    }
}

/// Whether an entry `owner/repo/rel` matches query `q`, given whether `q`
/// holds an upper-case letter and the lower-case forms of the entry and of
/// the query; see [`selected_with`].
pub fn query_matches(
    q: &str,
    exact: bool,
    owner: &str,
    repo: &str,
    rel: &str,
    upper: bool,
    low_name: &str,
    low_q: &str,
) -> (r: bool)
    ensures
        r == selected_with(q@, exact, owner@, repo@, rel@, upper, low_name@, low_q@),
{
    proof {
        reveal_strlit("/");
        assert("/"@ =~= seq!['/']);
    }
    if exact {
        let repo_rel = repo.to_owned().concat("/").concat(rel);
        let name = owner.to_owned().concat("/").concat(repo_rel.as_str());
        assert(name@ == entry_name(owner@, repo@, rel@));
        str_eq(q, rel) || str_eq(q, repo_rel.as_str()) || str_eq(q, name.as_str())
    } else if upper {
        let name = owner.to_owned().concat("/").concat(repo).concat("/").concat(rel);
        contains(name.as_str(), q)
    } else {
        contains(low_name, low_q)
    }
}

/// The line listed for one worktree, if it is listed.
pub open spec fn entry_line(
    full_path: bool,
    query: Option<Seq<char>>,
    exact: bool,
    owner: Seq<char>,
    repo: Seq<char>,
    dir: Seq<char>,
    w: WorktreeView,
) -> Option<Seq<char>> {
    match entry_rel(dir, w) {
        None => None,
        Some(rel) => if selected(query, exact, owner, repo, rel) {
            Some(
                if full_path {
                    w.path
                } else {
                    entry_name(owner, repo, rel)
                },
            )
        } else {
            None
        },
    }
}

/// The lines listed for the given worktrees of one repository, in order.
pub open spec fn repo_lines(
    full_path: bool,
    query: Option<Seq<char>>,
    exact: bool,
    owner: Seq<char>,
    repo: Seq<char>,
    dir: Seq<char>,
    ws: Seq<WorktreeView>,
) -> Seq<Seq<char>>
    decreases ws.len(),
{
    if ws.len() == 0 {
        Seq::empty()
    } else {
        let rest = repo_lines(full_path, query, exact, owner, repo, dir, ws.drop_last());
        match entry_line(full_path, query, exact, owner, repo, dir, ws.last()) {
            Some(l) => rest.push(l),
            None => rest,
        }
    }
}

/// The lines listed for the given repositories, before sorting.
pub open spec fn all_lines(args: Args, repos: Seq<RepoListing>) -> Seq<Seq<char>>
    decreases repos.len(),
{
    if repos.len() == 0 {
        Seq::empty()
    } else {
        let r = repos.last();
        all_lines(args, repos.drop_last()) + repo_lines(
            args.full_path,
            opt_view(args.query),
            args.exact,
            r.owner@,
            r.repo@,
            r.dir@,
            worktree_views(r.worktrees@),
        )
    }
}

/// Lexicographic order on characters (the order of `str`'s `Ord`).
pub open spec fn lex_le(a: Seq<char>, b: Seq<char>) -> bool
    decreases a.len(),
{
    if a.len() == 0 {
        true
    } else if b.len() == 0 {
        false
    } else if a[0] != b[0] {
        a[0] < b[0]
    } else {
        lex_le(a.drop_first(), b.drop_first())
    }
}

/// Whether `s` is sorted.
pub open spec fn sorted(s: Seq<Seq<char>>) -> bool {
    forall|i: int, j: int| 0 <= i < j < s.len() ==> lex_le(#[trigger] s[i], #[trigger] s[j])
}

/// Any two strings are ordered one way or the other.
pub proof fn lemma_lex_total(a: Seq<char>, b: Seq<char>)
    ensures
        lex_le(a, b) || lex_le(b, a),
    decreases a.len(),
{
    if a.len() > 0 && b.len() > 0 && a[0] == b[0] {
        lemma_lex_total(a.drop_first(), b.drop_first());
    }
}

/// The order is transitive.
pub proof fn lemma_lex_trans(a: Seq<char>, b: Seq<char>, c: Seq<char>)
    requires
        lex_le(a, b),
        lex_le(b, c),
    ensures
        lex_le(a, c),
    decreases a.len(),
{
    if a.len() > 0 && b.len() > 0 && c.len() > 0 && a[0] == b[0] && b[0] == c[0] {
        lemma_lex_trans(a.drop_first(), b.drop_first(), c.drop_first());
    }
}

/// `a <= b` in lexicographic order.
fn lex_le_exec(a: &str, b: &str) -> (r: bool)
    ensures
        r == lex_le(a@, b@),
{
    let x = chars_of(a);
    let y = chars_of(b);
    let mut i: usize = 0;
    assert(a@.skip(0) =~= a@ && b@.skip(0) =~= b@);
    loop
        invariant
            x@ == a@,
            y@ == b@,
            i <= x@.len(),
            i <= y@.len(),
            lex_le(a@, b@) == lex_le(a@.skip(i as int), b@.skip(i as int)),
        decreases x@.len() - i,
    {
        if i == x.len() {
            return true;
        }
        if i == y.len() {
            return false;
        }
        if x[i] != y[i] {
            return x[i] < y[i];
        }
        assert(a@.skip(i as int).drop_first() =~= a@.skip(i + 1));
        assert(b@.skip(i as int).drop_first() =~= b@.skip(i + 1));
        i = i + 1;
    }
}

/// `v` sorted.
fn sort_lines(v: &Vec<String>) -> (r: Vec<String>)
    ensures
        sorted(views(r@)),
        views(r@).to_multiset() == views(v@).to_multiset(),
{
    let n = v.len();
    let mut out: Vec<String> = Vec::new();
    let mut i: usize = 0;
    proof {
        broadcast use vstd::seq_lib::group_to_multiset_ensures;
        assert(views(v@).take(0) =~= Seq::<Seq<char>>::empty());
        assert(views(out@) =~= Seq::<Seq<char>>::empty());
    }
    while i < n
        invariant
            n == v@.len(),
            i <= n,
            sorted(views(out@)),
            views(out@).to_multiset() == views(v@).take(i as int).to_multiset(),
        decreases n - i,
    {
        let x = v[i].clone();
        let m = out.len();
        let mut p: usize = 0;
        while p < m && lex_le_exec(out[p].as_str(), x.as_str())
            invariant
                m == out@.len(),
                p <= m,
                forall|k: int| 0 <= k < p ==> lex_le(#[trigger] views(out@)[k], x@),
            decreases m - p,
        {
            p = p + 1;
        }
        let ghost before = views(out@);
        out.insert(p, x);
        proof {
            broadcast use vstd::seq_lib::group_to_multiset_ensures;
            assert(views(out@) =~= before.insert(p as int, x@));
            let after = views(out@);
            if p < m {
                lemma_lex_total(before[p as int], x@);
            }
            assert forall|a: int, b: int| 0 <= a < b < after.len() implies lex_le(
                #[trigger] after[a],
                #[trigger] after[b],
            ) by {
                if b < p {
                    assert(after[a] == before[a] && after[b] == before[b]);
                } else if b == p {
                    assert(after[a] == before[a]);
                } else if a == p {
                    assert(after[b] == before[b - 1]);
                    if b - 1 > p {
                        lemma_lex_trans(x@, before[p as int], before[b - 1]);
                    }
                } else if a < p {
                    assert(after[a] == before[a] && after[b] == before[b - 1]);
                } else {
                    assert(after[a] == before[a - 1] && after[b] == before[b - 1]);
                }
            }
            assert(views(v@).take(i + 1) =~= views(v@).take(i as int).push(v@[i as int]@));
        }
        i = i + 1;
    }
    assert(views(v@).take(n as int) =~= views(v@));
    out
}

/// Whether `q` holds an upper-case letter.
fn has_upper_exec(q: &str) -> (r: bool)
    ensures
        r == has_upper(q@),
{
    let v = chars_of(q);
    let n = v.len();
    let mut i: usize = 0;
    while i < n
        invariant
            v@ == q@,
            n == v@.len(),
            i <= n,
            forall|k: int| 0 <= k < i ==> !is_uppercase_char(#[trigger] q@[k]),
        decreases n - i,
    {
        if char_is_uppercase(v[i]) {
            return true;
        }
        i = i + 1;
    }
    false
}

/// The line listed for worktree `w` of a repository, if it is listed.
fn line_for(args: &Args, owner: &str, repo: &str, dir: &str, w: &Worktree) -> (r: Option<String>)
    ensures
        match entry_line(args.full_path, opt_view(args.query), args.exact, owner@, repo@, dir@, w@) {
            Some(l) => r matches Some(x) && x@ == l,
            None => r is None,
        },
{
    let rel = match relative_to(dir, w.path.as_str()) {
        Some(rel) => rel,
        None => match &w.branch {
            Some(b) => b.clone(),
            None => {
                return None;
            },
        },
    };
    proof {
        reveal_strlit("/");
        assert("/"@ =~= seq!['/']);
    }
    let name = owner.to_owned().concat("/").concat(repo).concat("/").concat(rel.as_str());
    let keep = match &args.query {
        None => true,
        Some(q) => {
            let upper = has_upper_exec(q.as_str());
            let low_name = to_lowercase(name.as_str());
            let low_q = to_lowercase(q.as_str());
            query_matches(
                q.as_str(),
                args.exact,
                owner,
                repo,
                rel.as_str(),
                upper,
                low_name.as_str(),
                low_q.as_str(),
            )
        },
    };
    if !keep {
        return None;
    }
    if args.full_path {
        Some(w.path.clone())
    } else {
        Some(name)
    }
}

/// Run the `list` command over the qwt-managed repositories found under the
/// root: one line per listed worktree, sorted; see [`entry_line`].
pub fn run(args: &Args, repos: &Vec<RepoListing>) -> (r: Vec<String>)
    ensures
        sorted(views(r@)),
        views(r@).to_multiset() == all_lines(*args, repos@).to_multiset(),
{
    let mut lines: Vec<String> = Vec::new();
    let n = repos.len();
    let mut i: usize = 0;
    assert(repos@.take(0) =~= Seq::<RepoListing>::empty());
    assert(views(lines@) =~= Seq::<Seq<char>>::empty());
    while i < n
        invariant
            n == repos@.len(),
            i <= n,
            views(lines@) == all_lines(*args, repos@.take(i as int)),
        decreases n - i,
    {
        let r = &repos[i];
        let ghost before = views(lines@);
        let ghost ws = worktree_views(r.worktrees@);
        let m = r.worktrees.len();
        let mut j: usize = 0;
        assert(ws.take(0) =~= Seq::<WorktreeView>::empty());
        assert(views(lines@) =~= before + repo_lines(
            args.full_path,
            opt_view(args.query),
            args.exact,
            r.owner@,
            r.repo@,
            r.dir@,
            ws.take(0),
        ));
        while j < m
            invariant
                m == r.worktrees@.len(),
                ws == worktree_views(r.worktrees@),
                j <= m,
                views(lines@) == before + repo_lines(
                    args.full_path,
                    opt_view(args.query),
                    args.exact,
                    r.owner@,
                    r.repo@,
                    r.dir@,
                    ws.take(j as int),
                ),
            decreases m - j,
        {
            assert(ws.take(j + 1).drop_last() =~= ws.take(j as int));
            assert(ws.take(j + 1).last() == r.worktrees@[j as int]@);
            let ghost prev = views(lines@);
            match line_for(args, r.owner.as_str(), r.repo.as_str(), r.dir.as_str(), &r.worktrees[j]) {
                Some(l) => {
                    lines.push(l);
                    assert(views(lines@) =~= prev.push(l@));
                },
                None => {},
            }
            j = j + 1;
        }
        assert(ws.take(m as int) =~= ws);
        assert(repos@.take(i + 1).drop_last() =~= repos@.take(i as int));
        i = i + 1;
    }
    assert(repos@.take(n as int) =~= repos@);
    sort_lines(&lines)
}

/// A listed line of one worktree is among the lines of its repository.
proof fn lemma_repo_lines_has(
    full_path: bool,
    query: Option<Seq<char>>,
    exact: bool,
    owner: Seq<char>,
    repo: Seq<char>,
    dir: Seq<char>,
    ws: Seq<WorktreeView>,
    j: int,
    line: Seq<char>,
)
    requires
        0 <= j < ws.len(),
        entry_line(full_path, query, exact, owner, repo, dir, ws[j]) == Some(line),
    ensures
        repo_lines(full_path, query, exact, owner, repo, dir, ws).contains(line),
    decreases ws.len(),
{
    let rest = repo_lines(full_path, query, exact, owner, repo, dir, ws.drop_last());
    let all = repo_lines(full_path, query, exact, owner, repo, dir, ws);
    if j == ws.len() - 1 {
        assert(all == rest.push(line));
        assert(all[rest.len() as int] == line);
    } else {
        assert(ws.drop_last()[j] == ws[j]);
        lemma_repo_lines_has(full_path, query, exact, owner, repo, dir, ws.drop_last(), j, line);
        let k = choose|k: int| 0 <= k < rest.len() && rest[k] == line;
        assert(all[k] == line);
    }
}

/// A line of one repository is among the lines of all of them.
proof fn lemma_all_lines_has(args: Args, repos: Seq<RepoListing>, k: int, line: Seq<char>)
    requires
        0 <= k < repos.len(),
        repo_lines(
            args.full_path,
            opt_view(args.query),
            args.exact,
            repos[k].owner@,
            repos[k].repo@,
            repos[k].dir@,
            worktree_views(repos[k].worktrees@),
        ).contains(line),
    ensures
        all_lines(args, repos).contains(line),
    decreases repos.len(),
{
    let front = all_lines(args, repos.drop_last());
    let r = repos.last();
    let mine = repo_lines(
        args.full_path,
        opt_view(args.query),
        args.exact,
        r.owner@,
        r.repo@,
        r.dir@,
        worktree_views(r.worktrees@),
    );
    let all = all_lines(args, repos);
    assert(all == front + mine);
    if k == repos.len() - 1 {
        let i = choose|i: int| 0 <= i < mine.len() && mine[i] == line;
        assert(all[front.len() + i] == line);
    } else {
        assert(repos.drop_last()[k] == repos[k]);
        lemma_all_lines_has(args, repos.drop_last(), k, line);
        let i = choose|i: int| 0 <= i < front.len() && front[i] == line;
        assert(all[i] == line);
    }
}

/// Smartcase matching is against the whole `owner/repo/branch`: without
/// `--exact`, a query with no upper-case letter lists every worktree whose
/// `owner/repo/rel`, in lower case, holds the query in lower case; so a
/// query naming the owner or the repository lists all of that repository's
/// worktrees. `list::run` prints exactly these lines, sorted.
pub proof fn lemma_lowercase_query_matches_whole_name(
    args: Args,
    repos: Seq<RepoListing>,
    k: int,
    j: int,
    rel: Seq<char>,
)
    requires
        !args.exact,
        opt_view(args.query) matches Some(q) && (forall|i: int|
            0 <= i < q.len() ==> !is_uppercase_char(#[trigger] q[i])) && occurs(
            unicode_lowercase(entry_name(repos[k].owner@, repos[k].repo@, rel)),
            unicode_lowercase(q),
        ),
        0 <= k < repos.len(),
        0 <= j < repos[k].worktrees@.len(),
        entry_rel(repos[k].dir@, repos[k].worktrees@[j]@) == Some(rel),
    ensures
        all_lines(args, repos).contains(
            if args.full_path {
                repos[k].worktrees@[j]@.path
            } else {
                entry_name(repos[k].owner@, repos[k].repo@, rel)
            },
        ),
{
    let r = repos[k];
    let ws = worktree_views(r.worktrees@);
    let q = opt_view(args.query)->Some_0;
    assert(!has_upper(q));
    assert(ws[j] == r.worktrees@[j]@);
    let line = if args.full_path {
        ws[j].path
    } else {
        entry_name(r.owner@, r.repo@, rel)
    };
    assert(entry_line(args.full_path, opt_view(args.query), args.exact, r.owner@, r.repo@, r.dir@, ws[j])
        == Some(line));
    lemma_repo_lines_has(
        args.full_path,
        opt_view(args.query),
        args.exact,
        r.owner@,
        r.repo@,
        r.dir@,
        ws,
        j,
        line,
    );
    lemma_all_lines_has(args, repos, k, line);
}

/// The query filters on `owner/repo/branch` whether or not `--full-path` is
/// given: the same worktrees are listed either way, by path or by name.
pub proof fn lemma_filter_ignores_full_path(
    query: Option<Seq<char>>,
    exact: bool,
    owner: Seq<char>,
    repo: Seq<char>,
    dir: Seq<char>,
    w: WorktreeView,
)
    ensures
        entry_line(true, query, exact, owner, repo, dir, w) is Some <==> entry_line(
            false,
            query,
            exact,
            owner,
            repo,
            dir,
            w,
        ) is Some,
        entry_line(true, query, exact, owner, repo, dir, w) is Some ==> entry_line(
            true,
            query,
            exact,
            owner,
            repo,
            dir,
            w,
        ) == Some(w.path),
{
}

/// A worktree listed under its path relative to its repository directory
/// resolves back to that worktree: `gh qwt path` on the printed
/// `owner/repo/rel` gives the worktree's path, when the repository
/// directory is `<root>/<owner>/<repo>` and `rel` is written in plain
/// names (no empty name between, before or after its `/`s).
pub proof fn lemma_listed_entry_resolves(
    root: Seq<char>,
    owner: Seq<char>,
    repo: Seq<char>,
    path: Seq<char>,
    rel: Seq<char>,
)
    requires
        owner.len() > 0,
        lacks(owner, '/'),
        repo.len() > 0,
        lacks(repo, '/'),
        relative_spec(repo_dir_spec(root, owner, repo), path) == Some(rel),
        rel.len() > 0,
        join_with(segments(rel), seq!['/']) == rel,
    ensures
        path_spec(root, Some(entry_name(owner, repo, rel))) == Some(path),
{
    let line = entry_name(owner, repo, rel);
    let tail = repo + seq!['/'] + rel;
    assert(line =~= owner + seq!['/'] + tail);
    lemma_segments_concat(owner, tail);
    lemma_segments_concat(repo, rel);
    lemma_segments_name(owner);
    lemma_segments_name(repo);
    let names = segments(line);
    assert(names =~= seq![owner] + (seq![repo] + segments(rel)));
    let segs = segments(rel);
    if segs.len() == 0 {
        assert(join_with(segs, seq!['/']) == Seq::<char>::empty());
        assert(false);
    }
    assert(names.len() > 2);
    assert(names[0] == owner && names[1] == repo);
    assert(names.skip(2) =~= segs);
    let dir = repo_dir_spec(root, owner, repo);
    assert(repo[0] != '/');
    assert(dir.len() > 0 && dir.last() == repo.last());
    lemma_segments_names(rel);
    lemma_join_all_names(dir, segs);
    let pre = dir + seq!['/'];
    assert(has_prefix(path, pre));
    assert(path =~= pre + rel);
}

} // verus!
