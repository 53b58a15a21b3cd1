use gh_qwt::repo::{
    check_prefix_collision, contains_branch_descendant, discover_repo_root,
    discovery_candidates, empty_parents, is_qwt_repo, prefix_paths, relative_to, repo_dir,
    require_qwt_repo, strip_git_suffix, worktree_in, worktree_path, Listing, PathProbe, RepoSpec,
    SpecError, BARE_DIR, GITDIR_POINTER,
};
use std::path::{Path, PathBuf};

fn assert_spec(
    input: &str,
    default_host: &str,
    host: &str,
    owner: &str,
    repo: &str,
    clone_url: &str,
) {
    let spec = RepoSpec::parse(input, default_host).expect("spec should parse");
    assert_eq!(spec.host, host);
    assert_eq!(spec.owner, owner);
    assert_eq!(spec.repo, repo);
    assert_eq!(spec.clone_url, clone_url);
}

#[test]
fn parse_examples() {
    assert_spec(
        "cli/cli",
        "github.com",
        "github.com",
        "cli",
        "cli",
        "https://github.com/cli/cli.git",
    );
    assert_spec(
        "cli/cli",
        "github.example.com",
        "github.example.com",
        "cli",
        "cli",
        "https://github.example.com/cli/cli.git",
    );
    assert_spec(
        "https://github.com/cli/cli.git",
        "github.example.com",
        "github.com",
        "cli",
        "cli",
        "https://github.com/cli/cli.git",
    );
    assert_spec(
        "https://github.com/cli/cli",
        "github.example.com",
        "github.com",
        "cli",
        "cli",
        "https://github.com/cli/cli.git",
    );
    assert_spec(
        "git@github.com:cli/cli.git",
        "github.example.com",
        "github.com",
        "cli",
        "cli",
        "git@github.com:cli/cli.git",
    );
    assert_spec(
        "file:///tmp/acme/src",
        "github.com",
        "local",
        "acme",
        "src",
        "file:///tmp/acme/src",
    );
    assert_spec(
        "file:///tmp/acme/src.git",
        "github.com",
        "local",
        "acme",
        "src",
        "file:///tmp/acme/src.git",
    );
}

#[test]
fn parse_rejects_invalid_specs() {
    for input in ["", "a/b/c", "ftp://x/y", "foo", "/foo", "foo/"] {
        assert!(
            RepoSpec::parse(input, "github.com").is_err(),
            "{input:?} should be rejected"
        );
    }
}

#[test]
fn parse_reports_each_rejection() {
    let cases = [
        ("", SpecError::Empty),
        ("   ", SpecError::Empty),
        ("https://github.com", SpecError::MissingHttpsPath),
        ("file://", SpecError::MissingFileRepo),
        ("file:///tmp/.git", SpecError::MissingFileRepo),
        ("ftp://x/y", SpecError::UnsupportedScheme),
        ("git@github.com", SpecError::MalformedSsh),
        ("https:///cli/cli", SpecError::MissingHost),
        ("git@:cli/cli", SpecError::MissingHost),
        ("/foo", SpecError::MissingOwner),
        ("foo", SpecError::MissingRepo),
        ("foo/", SpecError::MissingRepo),
        ("https://github.com/cli/.git", SpecError::MissingRepo),
        ("a/b/c", SpecError::TooManyParts),
        ("https://github.com/a/b/c", SpecError::TooManyParts),
    ];
    for (input, want) in cases {
        assert_eq!(RepoSpec::parse(input, "github.com").unwrap_err(), want, "{input:?}");
    }
    let e = SpecError::TooManyParts.to_error();
    assert_eq!(e.exit_code(), 2);
    assert_eq!(e.message(), "repository spec must contain exactly owner/repo");
    assert_eq!(SpecError::MalformedSsh.message(), "malformed SSH repository spec");
}

#[test]
fn parse_trims_and_keeps_single_file_component() {
    assert_spec("  cli/cli \n", "github.com", "github.com", "cli", "cli", "https://github.com/cli/cli.git");
    assert_spec("file:///src.git", "github.com", "local", "local", "src", "file:///src.git");
    assert_spec("cli/cli.git", "github.com", "github.com", "cli", "cli.git", "https://github.com/cli/cli.git.git");
    assert_eq!(strip_git_suffix("cli.git"), "cli");
    assert_eq!(strip_git_suffix("cli"), "cli");
    assert_eq!(strip_git_suffix(".git"), "");
}

#[test]
fn clone_url_parses_back_to_the_same_spec() {
    for (input, host) in [
        ("cli/cli", "github.com"),
        ("https://github.com/cli/cli", "x.example"),
        ("git@github.com:cli/cli.git", "x.example"),
        ("file:///tmp/acme/src.git", "github.com"),
        ("  o/r.git ", "h.example"),
    ] {
        let first = RepoSpec::parse(input, host).unwrap();
        let again = RepoSpec::parse(&first.clone_url, "elsewhere.example").unwrap();
        assert_eq!(first, again, "{input:?}");
    }
}

#[test]
fn default_host_does_not_affect_urls() {
    for input in ["https://github.com/cli/cli", "git@github.com:cli/cli.git", "file:///a/b", "ftp://x/y"] {
        assert_eq!(
            RepoSpec::parse(input, "github.com"),
            RepoSpec::parse(input, "github.example.com"),
            "{input:?}"
        );
    }
}

#[test]
fn builds_repo_and_worktree_paths_without_host() {
    let root = "/qwt";

    assert_eq!(PathBuf::from(repo_dir(root, "cli", "cli")), PathBuf::from("/qwt/cli/cli"));
    assert_eq!(
        PathBuf::from(worktree_path(root, "cli", "cli", "fix/parser")),
        PathBuf::from("/qwt/cli/cli/fix/parser")
    );
    assert_eq!(
        PathBuf::from(worktree_path(root, "cli", "cli", "feature/login")),
        PathBuf::from("/qwt/cli/cli/feature/login")
    );
}

#[test]
fn slash_branches_nest_and_empty_names_are_skipped() {
    assert_eq!(worktree_in("/qwt/a/b", "x//y/"), "/qwt/a/b/x/y");
    assert_eq!(worktree_in("/qwt/a/b/", "main"), "/qwt/a/b/main");
    assert_eq!(worktree_in("/qwt/a/b", "fix/parser"), worktree_in(&worktree_in("/qwt/a/b", "fix"), "parser"));
    assert_eq!(repo_dir("", "o", "r"), "o/r");
    assert_eq!(repo_dir("/", "o", "r"), "/o/r");
    assert_eq!(repo_dir("/q", "/abs", "r"), "/abs/r");
}

#[test]
fn identifies_and_discovers_qwt_repo() {
    assert!(is_qwt_repo(true, Some(GITDIR_POINTER.to_string())));
    assert!(is_qwt_repo(true, Some("gitdir: ./.bare".to_string())));
    assert!(is_qwt_repo(true, Some("  gitdir: ./.bare  \r\n".to_string())));
    assert!(!is_qwt_repo(true, Some("gitdir: ../.bare/worktrees/feat\n".to_string())));
    assert!(!is_qwt_repo(false, Some(GITDIR_POINTER.to_string())));
    assert!(!is_qwt_repo(true, None));
    assert_eq!(BARE_DIR, ".bare");

    let start = "/tmp/t/owner/repo/feature/login";
    let cands = discovery_candidates(start);
    assert_eq!(
        cands,
        vec![
            "/tmp/t/owner/repo/feature/login",
            "/tmp/t/owner/repo/feature",
            "/tmp/t/owner/repo",
            "/tmp/t/owner",
            "/tmp/t",
            "/tmp",
            "/",
        ]
    );
    let found: Vec<bool> = cands.iter().map(|c| c == "/tmp/t/owner/repo").collect();
    assert_eq!(
        Path::new(&discover_repo_root(start, start, &found).unwrap()),
        Path::new("/tmp/t/owner/repo")
    );
}

#[test]
fn rejects_non_qwt_repo_and_missing_discovery() {
    assert!(!is_qwt_repo(false, None));
    let start = "/tmp/empty";
    let found = vec![false; discovery_candidates(start).len()];
    let err = discover_repo_root(start, start, &found).unwrap_err();
    assert_eq!(err.exit_code(), 1);
    assert_eq!(err.message(), "no qwt repository found from /tmp/empty");
}

#[test]
fn discovery_strips_verbatim_prefix_and_handles_relative_paths() {
    assert_eq!(discovery_candidates("\\\\?\\/a/b"), vec!["/a/b", "/a", "/"]);
    assert_eq!(discovery_candidates("a/b"), vec!["a/b", "a", ""]);
}

fn dir(git_marker: bool, listing: Listing) -> PathProbe {
    PathProbe::Directory { git_marker, listing }
}

#[test]
fn detects_ancestor_prefix_collision() {
    let probes = vec![dir(true, Listing::NotRead), PathProbe::Missing];
    let err = check_prefix_collision("/r", "feat/x", &probes).unwrap_err();
    assert_eq!(err.message(), "worktree path /r/feat collides with existing worktree");
}

#[test]
fn detects_requested_branch_prefix_collision() {
    let probes = vec![dir(false, Listing::Entries(vec!["x".to_string()]))];
    let err = check_prefix_collision("/r", "feat", &probes).unwrap_err();
    assert_eq!(err.message(), "worktree path /r/feat is a prefix of an existing worktree");
}

#[test]
fn detects_requested_branch_prefix_collision_for_existing_child_dir() {
    let probes = vec![dir(false, Listing::Entries(vec![".git".to_string(), "x".to_string()]))];
    assert!(check_prefix_collision("/r", "feat", &probes).is_err());
}

#[test]
fn allows_non_colliding_nested_branch() {
    assert_eq!(prefix_paths("/r", "feat/x"), vec!["/r/feat", "/r/feat/x"]);
    let probes = vec![dir(false, Listing::NotRead), PathProbe::Missing];
    assert!(check_prefix_collision("/r", "feat/x", &probes).is_ok());
    let probes = vec![PathProbe::Missing, PathProbe::Missing];
    assert!(check_prefix_collision("/r", "new/branch", &probes).is_ok());
    let probes = vec![dir(false, Listing::Entries(vec![".git".to_string(), ".bare".to_string()]))];
    assert!(check_prefix_collision("/r", "feat", &probes).is_ok());
}

#[test]
fn prefix_collision_reports_other_obstacles() {
    let err = check_prefix_collision("/r", "a/b", &vec![PathProbe::NotDirectory, PathProbe::Missing])
        .unwrap_err();
    assert_eq!(err.message(), "worktree path /r/a collides with existing non-directory");
    let err = check_prefix_collision("/r", "a", &vec![PathProbe::Unreadable("denied".to_string())])
        .unwrap_err();
    assert_eq!(err.message(), "cannot inspect /r/a: denied");
    let err = check_prefix_collision("/r", "a", &vec![dir(false, Listing::Unreadable("boom".to_string()))])
        .unwrap_err();
    assert_eq!(err.message(), "boom");
    let err = check_prefix_collision("/r", "//", &vec![]).unwrap_err();
    assert_eq!(err.message(), "branch name must not be empty");
    assert!(contains_branch_descendant(&vec!["src".to_string()]));
    assert!(!contains_branch_descendant(&vec![".git".to_string(), ".bare".to_string()]));
}

#[test]
fn lists_empty_parents_and_relative_paths() {
    assert_eq!(empty_parents("/r", "a/b/c"), vec!["/r/a/b", "/r/a"]);
    let wt = worktree_in("/r", "a/b/c");
    for p in empty_parents("/r", "a//b/c/") {
        assert!(p.starts_with("/r/") && wt.starts_with(&format!("{p}/")), "{p:?}");
    }
    assert!(empty_parents("/r", "main").is_empty());
    assert_eq!(relative_to("/r", "/r/a/b").as_deref(), Some("a/b"));
    assert_eq!(relative_to("/r/", "/r/a").as_deref(), Some("a"));
    assert_eq!(relative_to("/r", "/rx/a"), None);
    assert!(require_qwt_repo("/r", true).is_ok());
    let e = require_qwt_repo("/r", false).unwrap_err();
    assert_eq!(e.exit_code(), 1);
}
