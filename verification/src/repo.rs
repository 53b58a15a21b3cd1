//! Repo-spec parsing, path building, and qwt repository recognition and
//! discovery.

use vstd::prelude::*;
use crate::error::{Error, runtime};
use crate::paths::{join, join_path, join_all, join_each, lemma_join_all_concat, lemma_join_all_names};
use crate::text::{
    trim, trim_str, has_prefix, has_suffix, occurs, first_of, split_on, segments, views, substring,
    strip_prefix, strip_suffix, find_char, split, path_segments, contains, join_with, str_eq,
    lemma_segments_concat, lacks, is_ws, lemma_trim_plain, lemma_trim_idempotent, lemma_split_concat,
    lemma_split_single, lemma_split_pieces, lemma_first_of_after, lemma_first_of, lemma_segments_names,
    lemma_join_last, slashed, to_slashes,
};

verus! {

/// Name of the bare-repository directory inside a qwt-managed repository.
pub const BARE_DIR: &'static str = ".bare";

/// Exact contents of the `.git` pointer file written into a qwt-managed repository.
///
/// The pointer is relative so the repository tree is relocatable.
pub const GITDIR_POINTER: &'static str = "gitdir: ./.bare\n";

/// A parsed repository specification.
#[derive(Debug, Clone, PartialEq, Eq)]
pub struct RepoSpec {
    /// Host, e.g. `github.com`.
    pub host: String,
    /// Repository owner, e.g. `cli`.
    pub owner: String,
    /// Repository name (without any trailing `.git`), e.g. `cli`.
    pub repo: String,
    /// URL suitable for `git clone`.
    pub clone_url: String,
}

/// The characters of each field of a [`RepoSpec`].
pub struct RepoSpecView {
    pub host: Seq<char>,
    pub owner: Seq<char>,
    pub repo: Seq<char>,
    pub clone_url: Seq<char>,
}

impl View for RepoSpec {
    type V = RepoSpecView;

    open spec fn view(&self) -> RepoSpecView {
        RepoSpecView {
            host: self.host@,
            owner: self.owner@,
            repo: self.repo@,
            clone_url: self.clone_url@,
        }
    }
}

/// Why a repository spec was rejected.
#[derive(Debug, Clone, Copy, PartialEq, Eq)]
pub enum SpecError {
    /// The spec is empty or only whitespace.
    Empty,
    /// An HTTPS URL without a `/` after the host.
    MissingHttpsPath,
    /// A `file://` URL without a final path component naming the repository.
    MissingFileRepo,
    /// A URL whose scheme is neither `https://` nor `file://`.
    UnsupportedScheme,
    /// A `git@` spec without a `:` after the host.
    MalformedSsh,
    /// The host part is empty.
    MissingHost,
    /// The owner part is empty.
    MissingOwner,
    /// The repository part is empty or absent.
    MissingRepo,
    /// More than one `/` in the `owner/repo` part.
    TooManyParts,
}

impl SpecError {
    /// The message that describes this rejection.
    pub open spec fn text(&self) -> Seq<char> {
        match self {
            SpecError::Empty => "repository spec must not be empty"@,
            SpecError::MissingHttpsPath => "HTTPS repository spec must include owner/repo path"@,
            SpecError::MissingFileRepo => "file:// repository spec is missing a repo name"@,
            SpecError::UnsupportedScheme => "unsupported repository URL scheme"@,
            SpecError::MalformedSsh => "malformed SSH repository spec"@,
            SpecError::MissingHost => "repository spec is missing host"@,
            SpecError::MissingOwner => "repository spec is missing owner"@,
            SpecError::MissingRepo => "repository spec is missing repo"@,
            SpecError::TooManyParts => "repository spec must contain exactly owner/repo"@,
        }
    }

    /// The message that describes this rejection.
    pub fn message(&self) -> (r: String)
        ensures
            r@ == self.text(),
    {
        match self {
            SpecError::Empty => "repository spec must not be empty".to_owned(),
            SpecError::MissingHttpsPath => "HTTPS repository spec must include owner/repo path".to_owned(),
            SpecError::MissingFileRepo => "file:// repository spec is missing a repo name".to_owned(),
            SpecError::UnsupportedScheme => "unsupported repository URL scheme".to_owned(),
            SpecError::MalformedSsh => "malformed SSH repository spec".to_owned(),
            SpecError::MissingHost => "repository spec is missing host".to_owned(),
            SpecError::MissingOwner => "repository spec is missing owner".to_owned(),
            SpecError::MissingRepo => "repository spec is missing repo".to_owned(),
            SpecError::TooManyParts => "repository spec must contain exactly owner/repo".to_owned(),
        }
    }

    /// This rejection as an invalid-usage error.
    pub fn to_error(&self) -> (e: Error)
        ensures
            e.is_usage(),
            e.text() == self.text(),
    {
        let m = self.message();
        crate::error::usage(m.as_str())
    }
}

/// `owner/repo` split at `/`: exactly two parts.
pub open spec fn owner_repo_spec(path: Seq<char>) -> Result<(Seq<char>, Seq<char>), SpecError> {
    let parts = split_on(path, '/');
    if parts.len() < 2 {
        Err(SpecError::MissingRepo)
    } else if parts.len() > 2 {
        Err(SpecError::TooManyParts)
    } else {
        Ok((parts[0], parts[1]))
    }
}

/// `repo` without one trailing `.git`.
pub open spec fn strip_git_spec(repo: Seq<char>) -> Seq<char> {
    if has_suffix(repo, ".git"@) {
        repo.take(repo.len() - ".git"@.len())
    } else {
        repo
    }
}

/// The first empty part among host, owner and repo, in that order.
pub open spec fn validate_spec(host: Seq<char>, owner: Seq<char>, repo: Seq<char>) -> Option<SpecError> {
    if host.len() == 0 {
        Some(SpecError::MissingHost)
    } else if owner.len() == 0 {
        Some(SpecError::MissingOwner)
    } else if repo.len() == 0 {
        Some(SpecError::MissingRepo)
    } else {
        None
    }
}

/// The spec for `host`, `owner/repo` after a scheme prefix, with `.git` stripped
/// from the repository name and the clone URL built by `url`.
pub open spec fn hosted_spec(
    host: Seq<char>,
    path: Seq<char>,
    strip: bool,
    url: spec_fn(Seq<char>, Seq<char>, Seq<char>) -> Seq<char>,
) -> Result<RepoSpecView, SpecError> {
    match owner_repo_spec(path) {
        Err(e) => Err(e),
        Ok((owner, repo0)) => {
            let repo = if strip {
                strip_git_spec(repo0)
            } else {
                repo0
            };
            match validate_spec(host, owner, repo) {
                Some(e) => Err(e),
                None => Ok(
                    RepoSpecView { host, owner, repo, clone_url: url(host, owner, repo) },
                ),
            }
        },
    }
}

/// `https://<host>/<owner>/<repo>.git`
pub open spec fn https_url(host: Seq<char>, owner: Seq<char>, repo: Seq<char>) -> Seq<char> {
    "https://"@ + host + "/"@ + owner + "/"@ + repo + ".git"@
}

/// `git@<host>:<owner>/<repo>.git`
pub open spec fn ssh_url(host: Seq<char>, owner: Seq<char>, repo: Seq<char>) -> Seq<char> {
    "git@"@ + host + ":"@ + owner + "/"@ + repo + ".git"@
}

/// What `RepoSpec::parse(input, default_host)` yields.
pub open spec fn parse_spec(input: Seq<char>, default_host: Seq<char>) -> Result<RepoSpecView, SpecError> {
    let t = trim(input);
    if t.len() == 0 {
        Err(SpecError::Empty)
    } else if has_prefix(t, "https://"@) {
        let rest = t.skip("https://"@.len() as int);
        match first_of(rest, '/') {
            None => Err(SpecError::MissingHttpsPath),
            Some(i) => hosted_spec(
                rest.take(i),
                rest.skip(i + 1),
                true,
                |h: Seq<char>, o: Seq<char>, r: Seq<char>| https_url(h, o, r),
            ),
        }
    } else if has_prefix(t, "file://"@) {
        let segs = segments(t.skip("file://"@.len() as int));
        if segs.len() == 0 || strip_git_spec(segs.last()).len() == 0 {
            Err(SpecError::MissingFileRepo)
        } else {
            Ok(
                RepoSpecView {
                    host: "local"@,
                    owner: if segs.len() >= 2 {
                        segs[segs.len() - 2]
                    } else {
                        "local"@
                    },
                    repo: strip_git_spec(segs.last()),
                    clone_url: t,
                },
            )
        }
    } else if occurs(t, "://"@) {
        Err(SpecError::UnsupportedScheme)
    } else if has_prefix(t, "git@"@) {
        let rest = t.skip("git@"@.len() as int);
        match first_of(rest, ':') {
            None => Err(SpecError::MalformedSsh),
            Some(i) => hosted_spec(
                rest.take(i),
                rest.skip(i + 1),
                true,
                |h: Seq<char>, o: Seq<char>, r: Seq<char>| ssh_url(h, o, r),
            ),
        }
    } else {
        hosted_spec(
            default_host,
            t,
            false,
            |h: Seq<char>, o: Seq<char>, r: Seq<char>| https_url(h, o, r),
        )
    }
}

/// The view of a parse result.
pub open spec fn parse_result_view(r: Result<RepoSpec, SpecError>) -> Result<RepoSpecView, SpecError> {
    match r {
        Ok(s) => Ok(s@),
        Err(e) => Err(e),
    }
}

/// The default host only matters for the `owner/repo` shorthand: a URL
/// (any input with a scheme, or an SSH `git@` spec) parses the same under
/// every default host.
pub proof fn lemma_default_host_unused(input: Seq<char>, h1: Seq<char>, h2: Seq<char>)
    requires
        occurs(trim(input), "://"@) || has_prefix(trim(input), "git@"@),
    ensures
        parse_spec(input, h1) == parse_spec(input, h2),
{
    reveal_strlit("://");
    reveal_strlit("git@");
    let t = trim(input);
    assert(t.len() > 0);
}

/// The parts of an `owner/repo` split hold no `/`.
proof fn lemma_owner_repo_parts(path: Seq<char>)
    ensures
        owner_repo_spec(path) matches Ok((o, r)) ==> lacks(o, '/') && lacks(r, '/'),
{
    lemma_split_pieces(path, '/');
}

/// `r.git` with its `.git` stripped is `r`.
proof fn lemma_strip_git_appended(r: Seq<char>)
    ensures
        strip_git_spec(r + ".git"@) == r,
{
    let s = r + ".git"@;
    assert(s.skip(s.len() - ".git"@.len()) =~= ".git"@);
    assert(s.take(s.len() - ".git"@.len()) =~= r);
}

/// `owner/repo.git` splits into `owner` and `repo.git`.
proof fn lemma_owner_repo_of(o: Seq<char>, r: Seq<char>)
    requires
        lacks(o, '/'),
        lacks(r, '/'),
    ensures
        owner_repo_spec(o + "/"@ + r + ".git"@) == Ok::<(Seq<char>, Seq<char>), SpecError>(
            (o, r + ".git"@),
        ),
{
    reveal_strlit("/");
    reveal_strlit(".git");
    let g = r + ".git"@;
    assert(lacks(g, '/'));
    assert(o + "/"@ + r + ".git"@ =~= o + seq!['/'] + g);
    lemma_split_concat(o, g, '/');
    lemma_split_single(o, '/');
    lemma_split_single(g, '/');
}

/// `owner/repo` splits into `owner` and `repo`.
proof fn lemma_owner_repo_plain(o: Seq<char>, r: Seq<char>)
    requires
        lacks(o, '/'),
        lacks(r, '/'),
    ensures
        owner_repo_spec(o + "/"@ + r) == Ok::<(Seq<char>, Seq<char>), SpecError>((o, r)),
{
    reveal_strlit("/");
    assert(o + "/"@ + r =~= o + seq!['/'] + r);
    lemma_split_concat(o, r, '/');
    lemma_split_single(o, '/');
    lemma_split_single(r, '/');
}

/// Only a trailing `.git` is dropped from a repository name: an HTTPS URL
/// whose repository name does not end in `.git` keeps that name whole
/// (dots included), and its clone URL is that name with `.git` appended.
pub proof fn lemma_https_name_kept(h: Seq<char>, o: Seq<char>, r: Seq<char>, d: Seq<char>)
    requires
        h.len() > 0,
        lacks(h, '/'),
        o.len() > 0,
        lacks(o, '/'),
        r.len() > 0,
        lacks(r, '/'),
        !is_ws(r.last()),
        !has_suffix(r, ".git"@),
    ensures
        parse_spec("https://"@ + h + "/"@ + o + "/"@ + r, d) == Ok::<RepoSpecView, SpecError>(
            RepoSpecView { host: h, owner: o, repo: r, clone_url: https_url(h, o, r) },
        ),
{
    reveal_strlit("https://");
    reveal_strlit("/");
    let u = "https://"@ + h + "/"@ + o + "/"@ + r;
    assert(u[0] == 'h');
    assert(u.last() == r.last());
    lemma_trim_plain(u);
    assert(u.take("https://"@.len() as int) =~= "https://"@);
    let rest = u.skip("https://"@.len() as int);
    let path = o + "/"@ + r;
    assert(rest =~= h + seq!['/'] + path);
    lemma_first_of_after(h, path, '/');
    assert(rest.take(h.len() as int) =~= h);
    assert(rest.skip(h.len() + 1int) =~= path);
    lemma_owner_repo_plain(o, r);
    assert(strip_git_spec(r) == r);
    assert(validate_spec(h, o, r) is None);
}

/// Likewise for an SSH spec whose repository name does not end in `.git`.
pub proof fn lemma_ssh_name_kept(h: Seq<char>, o: Seq<char>, r: Seq<char>, d: Seq<char>)
    requires
        h.len() > 0,
        lacks(h, ':'),
        o.len() > 0,
        lacks(o, '/'),
        r.len() > 0,
        lacks(r, '/'),
        !is_ws(r.last()),
        !has_suffix(r, ".git"@),
    ensures
        parse_spec("git@"@ + h + ":"@ + o + "/"@ + r, d) == Ok::<RepoSpecView, SpecError>(
            RepoSpecView { host: h, owner: o, repo: r, clone_url: ssh_url(h, o, r) },
        ),
{
    reveal_strlit("git@");
    reveal_strlit(":");
    reveal_strlit("https://");
    reveal_strlit("file://");
    reveal_strlit("/");
    reveal_strlit("://");
    let u = "git@"@ + h + ":"@ + o + "/"@ + r;
    assert(u[0] == 'g');
    assert(u.last() == r.last());
    lemma_trim_plain(u);
    assert(!has_prefix(u, "https://"@)) by {
        assert(u.take(8)[0] == u[0]);
    }
    assert(!has_prefix(u, "file://"@)) by {
        assert(u.take(7)[0] == u[0]);
    }
    assert(!occurs(u, "://"@)) by {
        let a = 4 + h.len();
        let sep = a + 1 + o.len();
        assert(u =~= "git@"@ + h + seq![':'] + o + seq!['/'] + r);
        assert forall|i: int| 0 <= i && i + 3 <= u.len() implies #[trigger] u.subrange(i, i + 3)
            != "://"@ by {
            if u.subrange(i, i + 3) == "://"@ {
                let w = u.subrange(i, i + 3);
                assert(w[0] == u[i] && w[1] == u[i + 1] && w[2] == u[i + 2]);
                assert(u[i] == ':' && u[i + 1] == '/' && u[i + 2] == '/');
                if i < 4 {
                    assert(u[i] == "git@"@[i]);
                } else if i < a {
                    assert(u[i] == h[i - 4]);
                } else if i == a {
                    assert(u[i + 1] == o[0]);
                } else if i + 1 < sep {
                    assert(u[i + 1] == o[i + 1 - a - 1]);
                } else if i + 1 == sep {
                    assert(u[i + 2] == r[0]);
                } else {
                    assert(u[i] == r[i - sep - 1]);
                }
            }
        }
    }
    assert(u.take("git@"@.len() as int) =~= "git@"@);
    let rest = u.skip("git@"@.len() as int);
    let path = o + "/"@ + r;
    assert(rest =~= h + seq![':'] + path);
    lemma_first_of_after(h, path, ':');
    assert(rest.take(h.len() as int) =~= h);
    assert(rest.skip(h.len() + 1int) =~= path);
    lemma_owner_repo_plain(o, r);
    assert(strip_git_spec(r) == r);
    assert(validate_spec(h, o, r) is None);
}

/// An HTTPS clone URL parses to its host, owner and repository.
pub proof fn lemma_parse_https_url(h: Seq<char>, o: Seq<char>, r: Seq<char>, d: Seq<char>)
    requires
        h.len() > 0,
        lacks(h, '/'),
        o.len() > 0,
        lacks(o, '/'),
        r.len() > 0,
        lacks(r, '/'),
    ensures
        parse_spec(https_url(h, o, r), d) == Ok::<RepoSpecView, SpecError>(
            RepoSpecView { host: h, owner: o, repo: r, clone_url: https_url(h, o, r) },
        ),
{
    reveal_strlit("https://");
    reveal_strlit("/");
    reveal_strlit(".git");
    let u = https_url(h, o, r);
    lemma_trim_plain(u);
    let rest = u.skip("https://"@.len() as int);
    let path = o + "/"@ + r + ".git"@;
    assert(rest =~= h + seq!['/'] + path);
    lemma_first_of_after(h, path, '/');
    assert(rest.take(h.len() as int) =~= h);
    assert(rest.skip(h.len() + 1int) =~= path);
    lemma_owner_repo_of(o, r);
    lemma_strip_git_appended(r);
    assert(trim(u) == u);
    assert(u.take("https://"@.len() as int) =~= "https://"@);
    assert(has_prefix(u, "https://"@));
    assert(first_of(rest, '/') == Some(h.len() as int));
    assert(validate_spec(h, o, r) is None);
    assert(hosted_spec(
        h,
        path,
        true,
        |h: Seq<char>, o: Seq<char>, r: Seq<char>| https_url(h, o, r),
    ) == Ok::<RepoSpecView, SpecError>(
        RepoSpecView { host: h, owner: o, repo: r, clone_url: https_url(h, o, r) },
    ));
}

/// An SSH clone URL holds no `://`.
proof fn lemma_ssh_url_no_scheme(h: Seq<char>, o: Seq<char>, r: Seq<char>)
    requires
        lacks(h, ':'),
        o.len() > 0,
        lacks(o, '/'),
        r.len() > 0,
        lacks(r, '/'),
    ensures
        !occurs(ssh_url(h, o, r), "://"@),
{
    reveal_strlit("git@");
    reveal_strlit(":");
    reveal_strlit("/");
    reveal_strlit(".git");
    reveal_strlit("://");
    let u = ssh_url(h, o, r);
    let a = 4 + h.len();
    let sep = a + 1 + o.len();
    let g = r + ".git"@;
    assert(u =~= "git@"@ + h + seq![':'] + o + seq!['/'] + g);
    assert(forall|k: int| 0 <= k < g.len() ==> #[trigger] g[k] != '/');
    assert forall|i: int| 0 <= i && i + 3 <= u.len() implies #[trigger] u.subrange(i, i + 3)
        != "://"@ by {
        if u.subrange(i, i + 3) == "://"@ {
            let w = u.subrange(i, i + 3);
            assert(w[0] == u[i] && w[1] == u[i + 1] && w[2] == u[i + 2]);
            assert(u[i] == ':' && u[i + 1] == '/' && u[i + 2] == '/');
            if i < 4 {
                assert(u[i] == "git@"@[i]);
            } else if i < a {
                assert(u[i] == h[i - 4]);
            } else if i == a {
                assert(u[i + 1] == o[0]);
            } else if i + 1 < sep {
                assert(u[i + 1] == o[i + 1 - a - 1]);
            } else if i + 1 == sep {
                assert(u[i + 2] == g[0]);
            } else {
                assert(u[i + 1] == g[i + 1 - sep - 1]);
            }
        }
    }
}

/// An SSH clone URL parses to its host, owner and repository.
pub proof fn lemma_parse_ssh_url(h: Seq<char>, o: Seq<char>, r: Seq<char>, d: Seq<char>)
    requires
        h.len() > 0,
        lacks(h, ':'),
        o.len() > 0,
        lacks(o, '/'),
        r.len() > 0,
        lacks(r, '/'),
    ensures
        parse_spec(ssh_url(h, o, r), d) == Ok::<RepoSpecView, SpecError>(
            RepoSpecView { host: h, owner: o, repo: r, clone_url: ssh_url(h, o, r) },
        ),
{
    reveal_strlit("git@");
    reveal_strlit(":");
    reveal_strlit("https://");
    reveal_strlit("file://");
    reveal_strlit("/");
    reveal_strlit(".git");
    let u = ssh_url(h, o, r);
    lemma_trim_plain(u);
    lemma_ssh_url_no_scheme(h, o, r);
    assert(!has_prefix(u, "https://"@)) by {
        assert(u[0] == 'g');
        assert("https://"@[0] == 'h');
        assert(u.take(8)[0] == u[0]);
    }
    assert(!has_prefix(u, "file://"@)) by {
        assert(u[0] == 'g');
        assert(u.take(7)[0] == u[0]);
    }
    assert(u.take("git@"@.len() as int) =~= "git@"@);
    let rest = u.skip("git@"@.len() as int);
    let path = o + "/"@ + r + ".git"@;
    assert(rest =~= h + seq![':'] + path);
    lemma_first_of_after(h, path, ':');
    assert(rest.take(h.len() as int) =~= h);
    assert(rest.skip(h.len() + 1int) =~= path);
    lemma_owner_repo_of(o, r);
    lemma_strip_git_appended(r);
    assert(validate_spec(h, o, r) is None);
}

/// The clone URL of a parsed spec parses back to the same spec, under any
/// default host. (A default host holding `/` cannot round-trip: its
/// `https://` URL splits the host at that `/`.)
pub proof fn lemma_clone_url_parses_back(input: Seq<char>, h: Seq<char>, d: Seq<char>)
    requires
        parse_spec(input, h) is Ok,
        lacks(parse_spec(input, h)->Ok_0.host, '/') || has_prefix(trim(input), "git@"@),
    ensures
        parse_spec(parse_spec(input, h)->Ok_0.clone_url, d) == parse_spec(input, h),
{
    reveal_strlit("https://");
    reveal_strlit("file://");
    reveal_strlit("git@");
    reveal_strlit("://");
    let t = trim(input);
    let v = parse_spec(input, h)->Ok_0;
    if has_prefix(t, "https://"@) {
        let rest = t.skip(8);
        let i = first_of(rest, '/')->Some_0;
        lemma_first_of(rest, '/');
        assert(lacks(rest.take(i), '/'));
        lemma_owner_repo_parts(rest.skip(i + 1));
        lemma_parse_https_url(v.host, v.owner, v.repo, d);
    } else if has_prefix(t, "file://"@) {
        lemma_trim_idempotent(input);
    } else if occurs(t, "://"@) {
    } else if has_prefix(t, "git@"@) {
        let rest = t.skip(4);
        let i = first_of(rest, ':')->Some_0;
        lemma_first_of(rest, ':');
        assert(lacks(rest.take(i), ':'));
        lemma_owner_repo_parts(rest.skip(i + 1));
        lemma_parse_ssh_url(v.host, v.owner, v.repo, d);
    } else {
        lemma_owner_repo_parts(t);
        lemma_parse_https_url(v.host, v.owner, v.repo, d);
    }
}

/// Split `path` into `owner/repo`.
pub(crate) fn parse_owner_repo(path: &str) -> (r: Result<(String, String), SpecError>)
    ensures
        match (r, owner_repo_spec(path@)) {
            (Ok((o, p)), Ok((so, sp))) => o@ == so && p@ == sp,
            (Err(e), Err(se)) => e == se,
            _ => false,
        },
{
    let parts = split(path, '/');
    if parts.len() < 2 {
        return Err(SpecError::MissingRepo);
    }
    if parts.len() > 2 {
        return Err(SpecError::TooManyParts);
    }
    assert(views(parts@)[0] == parts@[0]@);
    assert(views(parts@)[1] == parts@[1]@);
    Ok((parts[0].clone(), parts[1].clone()))
}

/// `repo` without one trailing `.git`.
pub fn strip_git_suffix(repo: &str) -> (r: String)
    ensures
        r@ == strip_git_spec(repo@),
{
    match strip_suffix(repo, ".git") {
        Some(s) => s,
        None => repo.to_owned(),
    }
}

/// Reject an empty host, owner or repo, in that order.
fn validate_parts(host: &str, owner: &str, repo: &str) -> (r: Result<(), SpecError>)
    ensures
        match validate_spec(host@, owner@, repo@) {
            Some(e) => r == Err::<(), SpecError>(e),
            None => r is Ok,
        },
{
    if host.unicode_len() == 0 {
        return Err(SpecError::MissingHost);
    }
    if owner.unicode_len() == 0 {
        return Err(SpecError::MissingOwner);
    }
    if repo.unicode_len() == 0 {
        return Err(SpecError::MissingRepo);
    }
    Ok(())
}

/// `https://<host>/<owner>/<repo>.git`
fn build_https_url(host: &str, owner: &str, repo: &str) -> (r: String)
    ensures
        r@ == https_url(host@, owner@, repo@),
{
    String::from_str("https://").concat(host).concat("/").concat(owner).concat("/").concat(
        repo,
    ).concat(".git")
}

/// `git@<host>:<owner>/<repo>.git`
fn build_ssh_url(host: &str, owner: &str, repo: &str) -> (r: String)
    ensures
        r@ == ssh_url(host@, owner@, repo@),
{
    String::from_str("git@").concat(host).concat(":").concat(owner).concat("/").concat(
        repo,
    ).concat(".git")
}

impl RepoSpec {
    /// Parse `input` in one of these forms:
    /// - `owner/repo` (uses `default_host`)
    /// - HTTPS URL, e.g. `https://github.com/cli/cli(.git)`
    /// - SSH URL, e.g. `git@github.com:cli/cli.git`
    /// - local URL, e.g. `file:///tmp/acme/widget` (owner from the parent
    ///   directory, repository from the final component, host `local`)
    ///
    /// Surrounding whitespace is ignored; invalid or malformed specs are rejected.
    pub fn parse(input: &str, default_host: &str) -> (r: Result<RepoSpec, SpecError>)
        ensures
            parse_result_view(r) == parse_spec(input@, default_host@),
    {
        let t = trim_str(input);
        let ts = t.as_str();
        if ts.unicode_len() == 0 {
            return Err(SpecError::Empty);
        }
        if let Some(rest) = strip_prefix(ts, "https://") {
            let n = rest.unicode_len();
            match find_char(rest.as_str(), '/') {
                None => {
                    return Err(SpecError::MissingHttpsPath);
                },
                Some(i) => {
                    let host = substring(rest.as_str(), 0, i);
                    let path = substring(rest.as_str(), i + 1, n);
                    assert(host@ == rest@.take(i as int));
                    assert(path@ == rest@.skip(i + 1));
                    let (owner, repo0) = match parse_owner_repo(path.as_str()) {
                        Ok(p) => p,
                        Err(e) => {
                            return Err(e);
                        },
                    };
                    let repo = strip_git_suffix(repo0.as_str());
                    if let Err(e) = validate_parts(host.as_str(), owner.as_str(), repo.as_str()) {
                        return Err(e);
                    }
                    let clone_url = build_https_url(host.as_str(), owner.as_str(), repo.as_str());
                    return Ok(RepoSpec { host, owner, repo, clone_url });
                },
            }
        }
        if let Some(rest) = strip_prefix(ts, "file://") {
            let segs = path_segments(rest.as_str());
            let k = segs.len();
            if k == 0 {
                return Err(SpecError::MissingFileRepo);
            }
            assert(views(segs@).last() == segs@[k - 1]@);
            let repo = strip_git_suffix(segs[k - 1].as_str());
            if repo.unicode_len() == 0 {
                return Err(SpecError::MissingFileRepo);
            }
            let owner = if k >= 2 {
                assert(views(segs@)[k - 2] == segs@[k - 2]@);
                segs[k - 2].clone()
            } else {
                "local".to_owned()
            };
            return Ok(
                RepoSpec { host: "local".to_owned(), owner, repo, clone_url: ts.to_owned() },
            );
        }
        if contains(ts, "://") {
            return Err(SpecError::UnsupportedScheme);
        }
        if let Some(rest) = strip_prefix(ts, "git@") {
            let n = rest.unicode_len();
            match find_char(rest.as_str(), ':') {
                None => {
                    return Err(SpecError::MalformedSsh);
                },
                Some(i) => {
                    let host = substring(rest.as_str(), 0, i);
                    let path = substring(rest.as_str(), i + 1, n);
                    assert(host@ == rest@.take(i as int));
                    assert(path@ == rest@.skip(i + 1));
                    let (owner, repo0) = match parse_owner_repo(path.as_str()) {
                        Ok(p) => p,
                        Err(e) => {
                            return Err(e);
                        },
                    };
                    let repo = strip_git_suffix(repo0.as_str());
                    if let Err(e) = validate_parts(host.as_str(), owner.as_str(), repo.as_str()) {
                        return Err(e);
                    }
                    let clone_url = build_ssh_url(host.as_str(), owner.as_str(), repo.as_str());
                    return Ok(RepoSpec { host, owner, repo, clone_url });
                },
            }
        }
        let (owner, repo) = match parse_owner_repo(ts) {
            Ok(p) => p,
            Err(e) => {
                return Err(e);
            },
        };
        if let Err(e) = validate_parts(default_host, owner.as_str(), repo.as_str()) {
            return Err(e);
        }
        let clone_url = build_https_url(default_host, owner.as_str(), repo.as_str());
        Ok(RepoSpec { host: default_host.to_owned(), owner, repo, clone_url })
    }
}


/// `<root>/<owner>/<repo>`.
pub open spec fn repo_dir_spec(root: Seq<char>, owner: Seq<char>, repo: Seq<char>) -> Seq<char> {
    join_path(join_path(root, owner), repo)
}

/// `repo_dir` joined with each non-empty `/`-separated name of `branch`.
pub open spec fn worktree_in_spec(repo_dir: Seq<char>, branch: Seq<char>) -> Seq<char> {
    join_all(repo_dir, segments(branch))
}

/// A branch name with a `/` maps to nested directories: the worktree of
/// `a/b` lies at the path of `b` below the worktree path of `a`.
pub proof fn lemma_slash_branch_nests(repo_dir: Seq<char>, a: Seq<char>, b: Seq<char>)
    ensures
        worktree_in_spec(repo_dir, a + seq!['/'] + b) == worktree_in_spec(
            worktree_in_spec(repo_dir, a),
            b,
        ),
{
    lemma_segments_concat(a, b);
    lemma_join_all_concat(repo_dir, segments(a), segments(b));
}

/// Build the repository directory path: `<root>/<owner>/<repo>`.
pub fn repo_dir(root: &str, owner: &str, repo: &str) -> (r: String)
    ensures
        r@ == repo_dir_spec(root@, owner@, repo@),
{
    let d = join(root, owner);
    join(d.as_str(), repo)
}

/// Build a worktree path: `<root>/<owner>/<repo>/<branch>`.
///
/// A `branch` containing `/` produces nested directories.
pub fn worktree_path(root: &str, owner: &str, repo: &str, branch: &str) -> (r: String)
    ensures
        r@ == worktree_in_spec(repo_dir_spec(root@, owner@, repo@), branch@),
{
    let d = repo_dir(root, owner, repo);
    worktree_in(d.as_str(), branch)
}

/// Build a worktree path under an existing repository directory.
///
/// A `branch` containing `/` produces nested directories; empty names
/// (from doubled, leading or trailing `/`) are skipped.
pub fn worktree_in(repo_dir: &str, branch: &str) -> (r: String)
    ensures
        r@ == worktree_in_spec(repo_dir@, branch@),
{
    let segs = path_segments(branch);
    join_each(repo_dir, &segs)
}

/// Whether the contents of a `.git` file point at the qwt bare repository.
pub open spec fn pointer_recognized(contents: Seq<char>) -> bool {
    trim(contents) == "gitdir: ./.bare"@ || trim(contents) == "gitdir: .bare"@
}

/// Whether a directory is a qwt-managed repository, from what the file system
/// shows of it: its `.bare` entry is a directory, and its `.git` entry is a
/// file (`git_file` holds its contents) pointing at `./.bare`.
pub open spec fn is_qwt_repo_spec(bare_is_dir: bool, git_file: Option<Seq<char>>) -> bool {
    bare_is_dir && match git_file {
        Some(c) => pointer_recognized(c),
        None => false,
    }
}

/// Whether a directory is a qwt-managed repository: `bare_is_dir` says whether
/// `<dir>/.bare` is a directory; `git_file` holds the contents of `<dir>/.git`
/// when that is a readable file.
pub fn is_qwt_repo(bare_is_dir: bool, git_file: Option<String>) -> (r: bool)
    ensures
        r == is_qwt_repo_spec(
            bare_is_dir,
            match git_file {
                Some(c) => Some(c@),
                None => None,
            },
        ),
{
    if !bare_is_dir {
        return false;
    }
    match git_file {
        None => false,
        Some(c) => {
            let t = trim_str(c.as_str());
            str_eq(t.as_str(), "gitdir: ./.bare") || str_eq(t.as_str(), "gitdir: .bare")
        },
    }
}

/// The `.git` pointer that qwt writes is the one it recognizes: a repository
/// laid out by `get` is found again by discovery.
pub proof fn lemma_written_pointer_is_recognized()
    ensures
        pointer_recognized(GITDIR_POINTER@),
        is_qwt_repo_spec(true, Some(GITDIR_POINTER@)),
{
    reveal_strlit("gitdir: ./.bare\n");
    reveal_strlit("gitdir: ./.bare");
    let s = GITDIR_POINTER@;
    assert(s.len() == 16);
    assert(!crate::text::is_ws(s[0]));
    assert(crate::text::trim_start(s) == s);
    assert(crate::text::is_ws(s.last()));
    assert(!crate::text::is_ws(s.drop_last().last()));
    assert(crate::text::trim_end(s.drop_last()) == s.drop_last());
    assert(s.drop_last() =~= "gitdir: ./.bare"@);
}

/// `\\?\`, the prefix of an extended-length Windows path.
pub open spec fn verbatim_prefix() -> Seq<char> {
    seq!['\\', '\\', '?', '\\']
}

/// `p` without an extended-length Windows prefix.
pub open spec fn strip_verbatim(p: Seq<char>) -> Seq<char> {
    if has_prefix(p, verbatim_prefix()) {
        p.skip(4)
    } else {
        p
    }
}

/// The path with the given names under the root (when `absolute`) or
/// relative to the current directory.
pub open spec fn render(absolute: bool, names: Seq<Seq<char>>) -> Seq<char> {
    (if absolute {
        seq!['/']
    } else {
        Seq::<char>::empty()
    }) + join_with(names, seq!['/'])
}

/// The directories that discovery inspects, nearest first: `start` itself
/// (without an extended-length prefix, with `\` read as `/`), then each
/// parent up to the root.
pub open spec fn ancestors(start: Seq<char>) -> Seq<Seq<char>> {
    let p = slashed(strip_verbatim(start));
    let names = segments(p);
    Seq::new(
        (names.len() + 1) as nat,
        |k: int| render(has_prefix(p, seq!['/']), names.take(names.len() - k)),
    )
}

/// Index of the first `true` in `s`, if any.
pub open spec fn first_true(s: Seq<bool>) -> Option<int>
    decreases s.len(),
{
    if s.len() == 0 {
        None
    } else {
        match first_true(s.drop_last()) {
            Some(i) => Some(i),
            None => if s.last() {
                Some(s.len() - 1)
            } else {
                None
            },
        }
    }
}

/// The directories that discovery inspects from `start`, nearest first.
pub fn discovery_candidates(start: &str) -> (r: Vec<String>)
    ensures
        views(r@) == ancestors(start@),
{
    let stripped = match strip_prefix(start, "\\\\?\\") {
        Some(rest) => rest,
        None => start.to_owned(),
    };
    proof {
        reveal_strlit("\\\\?\\");
        assert("\\\\?\\"@ =~= verbatim_prefix());
    }
    let sl = to_slashes(stripped.as_str());
    let p = sl.as_str();
    let absolute = p.unicode_len() > 0 && p.get_char(0) == '/';
    proof {
        if absolute {
            assert(p@.take(1) =~= seq!['/']);
        } else if p@.len() > 0 {
            assert(p@.take(1)[0] != '/');
        }
        assert(absolute == has_prefix(p@, seq!['/']));
    }
    let names = path_segments(p);
    let m = names.len();
    let ghost all = views(names@);
    // forward[j] is the path made of the first j names.
    let mut forward: Vec<String> = Vec::new();
    let mut cur = if absolute {
        "/".to_owned()
    } else {
        String::new()
    };
    proof {
        reveal_strlit("/");
        assert("/"@ =~= seq!['/']);
        assert(all.take(0) =~= Seq::<Seq<char>>::empty());
    }
    let mut j: usize = 0;
    while j < m
        invariant
            m == names@.len(),
            all == views(names@),
            j <= m,
            forward@.len() == j,
            forall|k: int| 0 <= k < j ==> #[trigger] forward@[k]@ == render(absolute, all.take(k)),
            cur@ == render(absolute, all.take(j as int)),
            "/"@ == seq!['/'],
        decreases m - j,
    {
        forward.push(cur.clone());
        let next = if j == 0 {
            let base = if absolute {
                "/".to_owned()
            } else {
                String::new()
            };
            base.concat(names[j].as_str())
        } else {
            cur.concat("/").concat(names[j].as_str())
        };
        proof {
            assert(all.take(j + 1).drop_last() =~= all.take(j as int));
            assert(all.take(j + 1).last() == all[j as int]);
            assert(all[j as int] == names@[j as int]@);
            if j == 0 {
                assert(join_with(all.take(1), seq!['/']) == all[0]);
            } else {
                assert(join_with(all.take(j + 1), seq!['/']) == join_with(all.take(j as int), seq!['/'])
                    + seq!['/'] + all[j as int]);
            }
        }
        cur = next;
        j = j + 1;
        assert(cur@ =~= render(absolute, all.take(j as int)));
    }
    forward.push(cur);
    assert(all.take(m as int) =~= all);
    let mut out: Vec<String> = Vec::new();
    let total = forward.len();
    let mut k: usize = 0;
    while k < total
        invariant
            total == m + 1,
            m == names@.len(),
            all == views(names@),
            all == segments(p@),
            p@ == slashed(strip_verbatim(start@)),
            absolute == has_prefix(p@, seq!['/']),
            forward@.len() == m + 1,
            forall|i: int| 0 <= i <= m ==> #[trigger] forward@[i]@ == render(absolute, all.take(i)),
            k <= m + 1,
            out@.len() == k,
            forall|i: int| 0 <= i < k ==> #[trigger] out@[i]@ == render(absolute, all.take(m - i)),
        decreases m + 1 - k,
    {
        out.push(forward[m - k].clone());
        k = k + 1;
    }
    assert(views(out@) =~= ancestors(start@));
    out
}

/// Discover the qwt repository root: the nearest of `discovery_candidates(canonical)`
/// for which `found` holds. `start` is the directory as given, for the message.
pub fn discover_repo_root(start: &str, canonical: &str, found: &Vec<bool>) -> (r: Result<String, Error>)
    requires
        found@.len() == ancestors(canonical@).len(),
    ensures
        match first_true(found@) {
            Some(i) => r matches Ok(d) && d@ == ancestors(canonical@)[i],
            None => r matches Err(e) && !e.is_usage() && e.text() == "no qwt repository found from "@
                + start@,
        },
{
    let cands = discovery_candidates(canonical);
    let n = found.len();
    let mut i: usize = 0;
    while i < n
        invariant
            n == found@.len(),
            views(cands@) == ancestors(canonical@),
            cands@.len() == n,
            i <= n,
            first_true(found@.take(i as int)) is None,
        decreases n - i,
    {
        assert(found@.take(i + 1).drop_last() =~= found@.take(i as int));
        if found[i] {
            proof {
                lemma_first_true_extends(found@, (i + 1) as int);
            }
            assert(views(cands@)[i as int] == cands@[i as int]@);
            return Ok(cands[i].clone());
        }
        i = i + 1;
    }
    assert(found@.take(n as int) =~= found@);
    let msg = String::from_str("no qwt repository found from ").concat(start);
    Err(runtime(msg.as_str()))
}

/// `first_true` finds the least index holding `true`, and `None` only when
/// no index does.
pub proof fn lemma_first_true(s: Seq<bool>)
    ensures
        match first_true(s) {
            Some(i) => 0 <= i < s.len() && s[i] && forall|j: int| 0 <= j < i ==> !s[j],
            None => forall|j: int| 0 <= j < s.len() ==> !s[j],
        },
    decreases s.len(),
{
    if s.len() > 0 {
        let t = s.drop_last();
        lemma_first_true(t);
        assert(forall|j: int| 0 <= j < t.len() ==> t[j] == s[j]);
    }
}

/// Discovery inspects the start directory first and stops at the nearest
/// qwt repository: when the start directory is one (`found[0]`), it is the
/// result; otherwise the result is the nearest ancestor found, and
/// discovery fails only when none is.
pub proof fn lemma_discovery_finds_nearest(found: Seq<bool>)
    requires
        found.len() > 0,
    ensures
        found[0] ==> first_true(found) == Some(0int),
        forall|i: int| 0 <= i < found.len() && found[i] && (forall|j: int| 0 <= j < i ==> !found[j])
            ==> first_true(found) == Some(i),
        first_true(found) is None <==> forall|j: int| 0 <= j < found.len() ==> !found[j],
{
    lemma_first_true(found);
    assert forall|i: int| 0 <= i < found.len() && found[i] && (forall|j: int| 0 <= j < i ==> !found[j])
        implies first_true(found) == Some(i) by {
        match first_true(found) {
            Some(k) => {
                if k < i {
                } else if k > i {
                }
            },
            None => {},
        }
    }
}

/// Once the first `true` lies in a prefix of `s`, it is the first `true` of `s`.
pub proof fn lemma_first_true_extends(s: Seq<bool>, k: int)
    requires
        0 <= k <= s.len(),
        first_true(s.take(k)) is Some,
    ensures
        first_true(s) == first_true(s.take(k)),
    decreases s.len() - k,
{
    if k < s.len() {
        assert(s.take(k + 1).drop_last() =~= s.take(k));
        lemma_first_true_extends(s, k + 1);
    } else {
        assert(s.take(k) =~= s);
    }
}


/// What the file system shows of a directory's listing.
#[derive(Debug)]
pub enum Listing {
    /// The listing was not read.
    NotRead,
    /// The names of the directory's entries.
    Entries(Vec<String>),
    /// Reading the listing failed; the message says why.
    Unreadable(String),
}

/// What the file system shows at one of the paths a new worktree would occupy.
#[derive(Debug)]
pub enum PathProbe {
    /// Nothing exists there.
    Missing,
    /// The path could not be inspected; the text says why.
    Unreadable(String),
    /// Something other than a directory exists there.
    NotDirectory,
    /// A directory exists there.
    Directory {
        /// It holds a `.git` file or directory, i.e. it is a worktree.
        git_marker: bool,
        /// Its entries (read for the requested path itself).
        listing: Listing,
    },
}

/// Whether one of `names` is an entry other than `.git` and `.bare`.
pub open spec fn has_branch_entry(names: Seq<Seq<char>>) -> bool {
    exists|i: int| 0 <= i < names.len() && #[trigger] names[i] != ".git"@ && names[i] != ".bare"@
}

/// Whether a directory whose entries are `names` holds anything but `.git` and
/// `.bare`, i.e. a nested worktree directory.
pub fn contains_branch_descendant(names: &Vec<String>) -> (r: bool)
    ensures
        r == has_branch_entry(views(names@)),
{
    let n = names.len();
    let mut i: usize = 0;
    while i < n
        invariant
            n == names@.len(),
            i <= n,
            forall|j: int| 0 <= j < i ==> names@[j]@ == ".git"@ || names@[j]@ == ".bare"@,
        decreases n - i,
    {
        let name = names[i].as_str();
        if !str_eq(name, ".git") && !str_eq(name, BARE_DIR) {
            assert(views(names@)[i as int] == names@[i as int]@);
            return true;
        }
        i = i + 1;
    }
    assert forall|j: int| 0 <= j < n implies !(#[trigger] views(names@)[j] != ".git"@ && views(
        names@,
    )[j] != ".bare"@) by {
        assert(views(names@)[j] == names@[j]@);
    }
    false
}

/// Whether a probe of the requested path itself is complete: a directory
/// there without a `.git` marker has had its entries read (or their reading
/// failed), since nested worktrees below it are what makes it collide.
pub open spec fn listing_read(p: PathProbe) -> bool {
    match p {
        PathProbe::Directory { git_marker, listing } => git_marker || !(listing is NotRead),
        _ => true,
    }
}

/// The paths a worktree for `branch` under `repo_dir` occupies, outermost
/// first: one per name of the branch.
pub open spec fn prefix_paths_spec(repo_dir: Seq<char>, branch: Seq<char>) -> Seq<Seq<char>> {
    let names = segments(branch);
    Seq::new(names.len(), |k: int| join_all(repo_dir, names.take(k + 1)))
}

/// The paths a worktree for `branch` under `repo_dir` occupies, outermost first.
pub fn prefix_paths(repo_dir: &str, branch: &str) -> (r: Vec<String>)
    ensures
        views(r@) == prefix_paths_spec(repo_dir@, branch@),
{
    let names = path_segments(branch);
    let ghost all = views(names@);
    let n = names.len();
    let mut out: Vec<String> = Vec::new();
    let mut cur = repo_dir.to_owned();
    let mut i: usize = 0;
    assert(all.take(0) =~= Seq::<Seq<char>>::empty());
    while i < n
        invariant
            n == names@.len(),
            all == views(names@),
            all == segments(branch@),
            i <= n,
            cur@ == join_all(repo_dir@, all.take(i as int)),
            out@.len() == i,
            forall|k: int| 0 <= k < i ==> #[trigger] out@[k]@ == join_all(repo_dir@, all.take(k + 1)),
        decreases n - i,
    {
        assert(all.take(i + 1).drop_last() =~= all.take(i as int));
        assert(all.take(i + 1).last() == names@[i as int]@);
        cur = join(cur.as_str(), names[i].as_str());
        out.push(cur.clone());
        i = i + 1;
    }
    assert(views(out@) =~= prefix_paths_spec(repo_dir@, branch@));
    out
}

/// The error that the probe of the `k`-th of `n` occupied paths reports, if any.
pub open spec fn probe_error(path: Seq<char>, probe: PathProbe, is_target: bool) -> Option<Seq<char>> {
    match probe {
        PathProbe::Missing => None,
        PathProbe::Unreadable(d) => Some("cannot inspect "@ + path + ": "@ + d@),
        PathProbe::NotDirectory => Some(
            "worktree path "@ + path + " collides with existing non-directory"@,
        ),
        PathProbe::Directory { git_marker, listing } => if git_marker {
            Some("worktree path "@ + path + " collides with existing worktree"@)
        } else if is_target {
            match listing {
                Listing::Entries(names) => if has_branch_entry(views(names@)) {
                    Some("worktree path "@ + path + " is a prefix of an existing worktree"@)
                } else {
                    None
                },
                Listing::Unreadable(m) => Some(m@),
                Listing::NotRead => None,
            }
        } else {
            None
        },
    }
}

/// The first error among the first `i` probes.
pub open spec fn first_probe_error(paths: Seq<Seq<char>>, probes: Seq<PathProbe>, i: int) -> Option<
    Seq<char>,
>
    decreases i,
{
    if i <= 0 {
        None
    } else {
        match first_probe_error(paths, probes, i - 1) {
            Some(m) => Some(m),
            None => probe_error(paths[i - 1], probes[i - 1], i == probes.len()),
        }
    }
}

/// The message for a branch with no names.
pub open spec fn empty_branch_text() -> Seq<char> {
    "branch name must not be empty"@
}

/// Ensure adding a worktree for `branch` under `repo_dir` does not collide by
/// path prefix with something that exists (e.g. `fix` vs `fix/parser`).
/// `probes[k]` is what the file system shows at the `k`-th of
/// [`prefix_paths`]`(repo_dir, branch)`.
pub fn check_prefix_collision(repo_dir: &str, branch: &str, probes: &Vec<PathProbe>) -> (r: Result<(), Error>)
    requires
        probes@.len() == segments(branch@).len(),
        probes@.len() > 0 ==> listing_read(probes@.last()),
    ensures
        segments(branch@).len() == 0 ==> (r matches Err(e) && !e.is_usage() && e.text()
            == empty_branch_text()),
        segments(branch@).len() > 0 ==> match first_probe_error(
            prefix_paths_spec(repo_dir@, branch@),
            probes@,
            probes@.len() as int,
        ) {
            Some(m) => r matches Err(e) && !e.is_usage() && e.text() == m,
            None => r is Ok,
        },
{
    let paths = prefix_paths(repo_dir, branch);
    assert(views(paths@).len() == paths@.len());
    let n = probes.len();
    if n == 0 {
        return Err(runtime("branch name must not be empty"));
    }
    let ghost ps = views(paths@);
    let mut i: usize = 0;
    while i < n
        invariant
            n == probes@.len(),
            n == paths@.len(),
            ps == views(paths@),
            ps == prefix_paths_spec(repo_dir@, branch@),
            n == segments(branch@).len(),
            i <= n,
            first_probe_error(ps, probes@, i as int) is None,
        decreases n - i,
    {
        let path = paths[i].as_str();
        assert(path@ == ps[i as int]);
        let is_target = i + 1 == n;
        let err: Option<String> = match &probes[i] {
            PathProbe::Missing => None,
            PathProbe::Unreadable(d) => Some(
                String::from_str("cannot inspect ").concat(path).concat(": ").concat(d.as_str()),
            ),
            PathProbe::NotDirectory => Some(
                String::from_str("worktree path ").concat(path).concat(
                    " collides with existing non-directory",
                ),
            ),
            PathProbe::Directory { git_marker, listing } => {
                if *git_marker {
                    Some(
                        String::from_str("worktree path ").concat(path).concat(
                            " collides with existing worktree",
                        ),
                    )
                } else if is_target {
                    match listing {
                        Listing::Entries(names) => {
                            if contains_branch_descendant(names) {
                                Some(
                                    String::from_str("worktree path ").concat(path).concat(
                                        " is a prefix of an existing worktree",
                                    ),
                                )
                            } else {
                                None
                            }
                        },
                        Listing::Unreadable(m) => Some(m.clone()),
                        Listing::NotRead => None,
                    }
                } else {
                    None
                }
            },
        };
        match err {
            Some(m) => {
                assert(first_probe_error(ps, probes@, (i + 1) as int) == Some(m@));
                proof {
                    lemma_first_probe_error_stays(ps, probes@, (i + 1) as int, n as int);
                }
                return Err(runtime(m.as_str()));
            },
            None => {},
        }
        i = i + 1;
    }
    Ok(())
}

/// A probe error found among the first `i` probes is the first among more.
pub proof fn lemma_first_probe_error_stays(
    paths: Seq<Seq<char>>,
    probes: Seq<PathProbe>,
    i: int,
    j: int,
)
    requires
        0 <= i <= j,
        first_probe_error(paths, probes, i) is Some,
    ensures
        first_probe_error(paths, probes, j) == first_probe_error(paths, probes, i),
    decreases j - i,
{
    if j > i {
        lemma_first_probe_error_stays(paths, probes, i, j - 1);
    }
}

/// A collision at any of the occupied paths, the target or one of its
/// parents, makes the check fail.
pub proof fn lemma_any_collision_rejects(paths: Seq<Seq<char>>, probes: Seq<PathProbe>, k: int)
    requires
        0 <= k < probes.len(),
        probe_error(paths[k], probes[k], k + 1 == probes.len()) is Some,
    ensures
        first_probe_error(paths, probes, probes.len() as int) is Some,
{
    assert(first_probe_error(paths, probes, k + 1) is Some);
    lemma_first_probe_error_stays(paths, probes, k + 1, probes.len() as int);
}

/// The directories between `repo_dir` and the worktree for `branch`, deepest
/// first; they are removed, while empty, after the worktree is removed.
pub open spec fn empty_parents_spec(repo_dir: Seq<char>, branch: Seq<char>) -> Seq<Seq<char>> {
    let names = segments(branch);
    let n = if names.len() > 0 {
        names.len() - 1
    } else {
        0
    };
    Seq::new(n as nat, |k: int| join_all(repo_dir, names.take(n - k)))
}

/// The directories cleaned up after a worktree is removed lie strictly
/// between the repository directory and the worktree: each is below
/// `repo_dir` and above the worktree path, so neither the repository nor
/// anything outside it is touched.
pub proof fn lemma_empty_parents_between(repo_dir: Seq<char>, branch: Seq<char>, i: int)
    requires
        repo_dir.len() > 0,
        repo_dir.last() != '/',
        0 <= i < empty_parents_spec(repo_dir, branch).len(),
    ensures
        has_prefix(empty_parents_spec(repo_dir, branch)[i], repo_dir + seq!['/']),
        has_prefix(
            worktree_in_spec(repo_dir, branch),
            empty_parents_spec(repo_dir, branch)[i] + seq!['/'],
        ),
{
    let names = segments(branch);
    let n = names.len() - 1;
    let m = n - i;
    let front = names.take(m);
    let back = names.skip(m);
    let p = empty_parents_spec(repo_dir, branch)[i];
    lemma_segments_names(branch);
    assert(p == join_all(repo_dir, front));
    assert(forall|k: int| 0 <= k < front.len() ==> front[k] == names[k]);
    assert(forall|k: int| 0 <= k < back.len() ==> back[k] == names[k + m]);
    lemma_join_all_names(repo_dir, front);
    assert(front.last() == names[m - 1]);
    lemma_join_last(front, seq!['/']);
    assert(p.last() == front.last().last());
    assert(p.take(repo_dir.len() + 1int) =~= repo_dir + seq!['/']);
    assert(front + back =~= names);
    lemma_join_all_concat(repo_dir, front, back);
    lemma_join_all_names(p, back);
    let w = worktree_in_spec(repo_dir, branch);
    assert(w == p + seq!['/'] + join_with(back, seq!['/']));
    assert(w.take(p.len() + 1int) =~= p + seq!['/']);
}

/// The directories between `repo_dir` and the worktree for `branch`, deepest first.
pub fn empty_parents(repo_dir: &str, branch: &str) -> (r: Vec<String>)
    ensures
        views(r@) == empty_parents_spec(repo_dir@, branch@),
{
    let paths = prefix_paths(repo_dir, branch);
    assert(views(paths@).len() == paths@.len());
    let m = paths.len();
    let mut out: Vec<String> = Vec::new();
    if m == 0 {
        assert(views(out@) =~= empty_parents_spec(repo_dir@, branch@));
        return out;
    }
    let n = m - 1;
    let mut k: usize = 0;
    while k < n
        invariant
            m == paths@.len(),
            m == segments(branch@).len(),
            n + 1 == m,
            views(paths@) == prefix_paths_spec(repo_dir@, branch@),
            k <= n,
            out@.len() == k,
            forall|i: int| 0 <= i < k ==> #[trigger] out@[i]@ == join_all(
                repo_dir@,
                segments(branch@).take(n - i),
            ),
        decreases n - k,
    {
        assert(views(paths@)[n - 1 - k] == paths@[n - 1 - k]@);
        assert(prefix_paths_spec(repo_dir@, branch@)[n - 1 - k] == join_all(
            repo_dir@,
            segments(branch@).take(n - k),
        ));
        out.push(paths[n - 1 - k].clone());
        k = k + 1;
    }
    assert(views(out@) =~= empty_parents_spec(repo_dir@, branch@));
    out
}

/// The part of `path` below `base`, if `path` lies below it.
pub open spec fn relative_spec(base: Seq<char>, path: Seq<char>) -> Option<Seq<char>> {
    let pre = if base.len() > 0 && base.last() == '/' {
        base
    } else {
        base + seq!['/']
    };
    if has_prefix(path, pre) {
        Some(path.skip(pre.len() as int))
    } else {
        None
    }
}

/// The part of `path` below `base`, if `path` lies below it.
pub fn relative_to(base: &str, path: &str) -> (r: Option<String>)
    ensures
        match relative_spec(base@, path@) {
            Some(rel) => r matches Some(x) && x@ == rel,
            None => r is None,
        },
{
    let n = base.unicode_len();
    let pre = if n > 0 && base.get_char(n - 1) == '/' {
        base.to_owned()
    } else {
        proof {
            reveal_strlit("/");
        }
        base.to_owned().concat("/")
    };
    proof {
        reveal_strlit("/");
        assert("/"@ =~= seq!['/']);
    }
    strip_prefix(path, pre.as_str())
}


/// The message for a directory that is not a qwt-managed repository.
pub open spec fn not_qwt_text(dir: Seq<char>) -> Seq<char> {
    "not a qwt repository: "@ + dir
}

/// Fail unless `dir` is a qwt-managed repository (`is_qwt` is what
/// [`is_qwt_repo`] says of it).
pub fn require_qwt_repo(dir: &str, is_qwt: bool) -> (r: Result<(), Error>)
    ensures
        is_qwt ==> r is Ok,
        !is_qwt ==> (r matches Err(e) && !e.is_usage() && e.text() == not_qwt_text(dir@)),
{
    if is_qwt {
        Ok(())
    } else {
        let msg = String::from_str("not a qwt repository: ").concat(dir);
        Err(runtime(msg.as_str()))
    }
}

} // verus!
