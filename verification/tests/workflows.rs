use gh_qwt::commands::{add, get, path, prune, remove, rm, Step};
use gh_qwt::config::{expand_tilde, resolve_root, root_config_command};
use gh_qwt::error::{runtime, usage, usage_from, UsageError, Error};
use gh_qwt::gh::{default_branch, default_branch_with_fallback, detected_branch, Detection};
use gh_qwt::git::{parse_worktree_list, Worktree};
use gh_qwt::repo::{
    check_prefix_collision, discover_repo_root, discovery_candidates, prefix_paths, Listing, PathProbe, RepoSpec,
};

/// One line per step, for comparisons.
fn show(steps: &[Step]) -> Vec<String> {
    steps
        .iter()
        .map(|s| match s {
            Step::CreateDirAll(p) => format!("mkdir -p {p}"),
            Step::Git(c) => format!("git[{}] {}", c.dir.clone().unwrap_or_default(), c.args.join(" ")),
            Step::GitBestEffort(c) => {
                format!("git?[{}] {}", c.dir.clone().unwrap_or_default(), c.args.join(" "))
            }
            Step::WriteFile(p, c) => format!("write {p} {c:?}"),
            Step::RemoveDirAll(p) => format!("rm -r {p}"),
            Step::RemoveEmptyDirs(ds) => format!("rmdir {}", ds.join(" ")),
            Step::Print(l) => format!("print {l}"),
            Step::Warn(l) => format!("warn {l}"),
        })
        .collect()
}

fn get_args(spec: &str, branch: Option<&str>) -> get::Args {
    get::Args { spec: spec.to_string(), branch: branch.map(|b| b.to_string()), host: "github.com".to_string() }
}

#[test]
fn get_creates_bare_repo_and_default_worktree() {
    let (spec, layout, steps) = get::run(&get_args("file:///src/acme/widget", Some("main")), "/q", "", false).unwrap();
    assert_eq!(spec.owner, "acme");
    assert_eq!(layout.repo_dir, "/q/acme/widget");
    assert_eq!(layout.bare_dir, "/q/acme/widget/.bare");
    assert_eq!(layout.git_file, "/q/acme/widget/.git");
    assert_eq!(layout.dest, "/q/acme/widget/main");
    assert_eq!(
        show(&steps),
        vec![
            "mkdir -p /q/acme/widget",
            "git[] clone --bare file:///src/acme/widget /q/acme/widget/.bare",
            "write /q/acme/widget/.git \"gitdir: ./.bare\\n\"",
            "git[/q/acme/widget] --git-dir=.bare config remote.origin.fetch +refs/heads/*:refs/remotes/origin/*",
            "git[/q/acme/widget] --git-dir=.bare fetch origin",
        ]
    );
    let attach = get::attach(&layout, "main", true);
    assert_eq!(
        show(&attach),
        vec![
            "git[/q/acme/widget] worktree add /q/acme/widget/main main",
            "git?[/q/acme/widget] branch --set-upstream-to=origin/main main",
            "print /q/acme/widget/main",
        ]
    );
    let attach = get::attach(&layout, "main", false);
    assert_eq!(
        show(&attach),
        vec![
            "git[/q/acme/widget] worktree add --track -b main /q/acme/widget/main origin/main",
            "print /q/acme/widget/main",
        ]
    );
}

#[test]
fn get_without_branch_detects_default() {
    let (_, layout, _) = get::run(&get_args("cli/cli", None), "/q", "trunk", false).unwrap();
    assert_eq!(layout.dest, "/q/cli/cli/trunk");
}

#[test]
fn get_rejects_existing_repository() {
    let err = get::run(&get_args("cli/cli", Some("main")), "/q", "", true).unwrap_err();
    assert_eq!(err.exit_code(), 1);
    assert_eq!(err.message(), "repository directory already exists: /q/cli/cli");
}

#[test]
fn get_rejects_invalid_spec_with_exit_2() {
    let err = get::run(&get_args("a/b/c", Some("main")), "/q", "", false).unwrap_err();
    assert_eq!(err.exit_code(), 2);
    assert!(get::parse_args_spec(&get_args("a/b/c", None)).is_err());
}

#[test]
fn default_branch_detection_order() {
    let gh = RepoSpec::parse("cli/cli", "github.com").unwrap();
    assert_eq!(default_branch("o", "r").args, vec!["api", "repos/o/r", "-q", ".default_branch"]);
    match default_branch_with_fallback(&gh, Some(" trunk\n".to_string())) {
        Detection::Found(b) => assert_eq!(b, "trunk"),
        other => panic!("unexpected {other:?}"),
    }
    for out in [None, Some("  \n".to_string())] {
        match default_branch_with_fallback(&gh, out) {
            Detection::RunLsRemote(c) => {
                assert_eq!(c.args, vec!["ls-remote", "--symref", "https://github.com/cli/cli.git", "HEAD"])
            }
            other => panic!("unexpected {other:?}"),
        }
    }
    let local = RepoSpec::parse("file:///src/acme/widget", "github.com").unwrap();
    assert_eq!(default_branch(&local.owner, &local.repo).args, vec!["api", "repos/acme/widget", "-q", ".default_branch"]);
    match default_branch_with_fallback(&local, None) {
        Detection::RunLsRemote(c) => assert_eq!(c.args, vec!["ls-remote", "--symref", "file:///src/acme/widget", "HEAD"]),
        other => panic!("unexpected {other:?}"),
    }
}

fn missing(n: usize) -> Vec<PathProbe> {
    (0..n).map(|_| PathProbe::Missing).collect()
}

fn add_args(branch: &str, repo: Option<&str>, from: Option<&str>) -> add::Args {
    add::Args { branch: branch.to_string(), repo: repo.map(|r| r.to_string()), from: from.map(|f| f.to_string()) }
}

#[test]
fn add_creates_existing_and_new_branch_worktrees() {
    let d = "/q/acme/widget";
    let a = add_args("feature/x", Some("acme/widget"), None);
    match add::target(&a).unwrap() {
        add::Target::Named(o, r) => assert_eq!((o.as_str(), r.as_str()), ("acme", "widget")),
        add::Target::Discover => panic!("expected a named repository"),
    }
    let (dest, steps) = add::run(&a, d, false, &missing(2), true, true, None).unwrap();
    assert_eq!(dest, "/q/acme/widget/feature/x");
    assert_eq!(
        show(&steps),
        vec![
            "git[/q/acme/widget] worktree add /q/acme/widget/feature/x feature/x",
            "git?[/q/acme/widget] branch --set-upstream-to=origin/feature/x feature/x",
            "print /q/acme/widget/feature/x",
        ]
    );
    let (_, steps) = add::run(&a, d, false, &missing(2), false, true, None).unwrap();
    assert_eq!(
        show(&steps),
        vec![
            "git[/q/acme/widget] worktree add --track -b feature/x /q/acme/widget/feature/x origin/feature/x",
            "print /q/acme/widget/feature/x",
        ]
    );
    let n = add_args("topic/new", Some("acme/widget"), None);
    assert!(add::needs_default_base(&n, false, false));
    let (_, steps) = add::run(&n, d, false, &missing(2), false, false, Some("main".to_string())).unwrap();
    assert_eq!(
        show(&steps),
        vec![
            "git[/q/acme/widget] worktree add -b topic/new /q/acme/widget/topic/new main",
            "print /q/acme/widget/topic/new",
        ]
    );
    let f = add_args("topic/new", None, Some("v1.0"));
    assert!(!add::needs_default_base(&f, false, false));
    let (_, steps) = add::run(&f, d, false, &missing(2), false, false, None).unwrap();
    assert_eq!(show(&steps)[0], "git[/q/acme/widget] worktree add -b topic/new /q/acme/widget/topic/new v1.0");
}

#[test]
fn add_rejects_taken_destination_and_bad_repo() {
    assert!(add::check_destination("/q/a", false).is_ok());
    let e = add::check_destination("/q/a", true).unwrap_err();
    assert_eq!(e.message(), "worktree path /q/a already exists");
    assert_eq!(e.exit_code(), 1);
    for bad in ["solo", "a/b/c", "/b", "a/"] {
        let e = add::target(&add_args("x", Some(bad), None)).unwrap_err();
        assert_eq!(e.exit_code(), 2, "{bad:?}");
        assert_eq!(e.message(), "--repo must be <owner>/<repo>");
    }
    assert!(matches!(add::target(&add_args("x", None, None)).unwrap(), add::Target::Discover));
}

#[test]
fn rm_removes_worktree_and_optionally_branch() {
    let steps = remove::remove_worktree("/q/acme/widget", "feature/x", true, false, true).unwrap();
    assert_eq!(
        show(&steps),
        vec![
            "git[/q/acme/widget] worktree remove /q/acme/widget/feature/x",
            "rmdir /q/acme/widget/feature",
            "git[/q/acme/widget] branch -D feature/x",
            "print Removed worktree /q/acme/widget/feature/x",
        ]
    );
    let steps = remove::remove_worktree("/q/acme/widget", "main", true, true, false).unwrap();
    assert_eq!(
        show(&steps),
        vec![
            "git[/q/acme/widget] worktree remove --force /q/acme/widget/main",
            "rmdir ",
            "print Removed worktree /q/acme/widget/main",
        ]
    );
    let e = remove::remove_worktree("/q/acme/widget", "does-not-exist", false, false, false).unwrap_err();
    assert_eq!(e.exit_code(), 1);
    assert_eq!(e.message(), "no worktree for branch 'does-not-exist' at /q/acme/widget/does-not-exist");
    let r = rm::Args { branch: "feature/x".to_string(), force: true, delete_branch: false }.into_remove();
    assert_eq!(r.spec, "feature/x");
    assert!(r.force && !r.delete_branch);
}

#[test]
fn remove_owner_repo_from_outside_removes_entire_repository() {
    match remove::target("acme/widget", None).unwrap() {
        remove::Target::Repo(o, r) => assert_eq!((o.as_str(), r.as_str()), ("acme", "widget")),
        _ => panic!("expected a repository"),
    }
    assert!(remove::check_repo_removal("/q", "/q/acme/widget", true).is_ok());
    assert_eq!(remove::prompt("/q/acme/widget", true), None);
    let steps = remove::remove_repo("/q", "/q/acme/widget", true, true, None).unwrap();
    assert_eq!(show(&steps), vec!["rm -r /q/acme/widget", "print Removed /q/acme/widget"]);
    let e = remove::check_repo_removal("/q", "/q/no/such", false).unwrap_err();
    assert_eq!(e.message(), "not a qwt repository: /q/no/such");
}

#[test]
fn remove_owner_repo_branch_from_outside_removes_only_that_worktree() {
    match remove::target("acme/widget/feature/x", None).unwrap() {
        remove::Target::Worktree(o, r, b) => {
            assert_eq!((o.as_str(), r.as_str(), b.as_str()), ("acme", "widget", "feature/x"))
        }
        _ => panic!("expected a worktree"),
    }
}

#[test]
fn remove_declined_keeps_repository() {
    assert_eq!(
        remove::prompt("/q/acme/widget", false).as_deref(),
        Some("Remove /q/acme/widget and all worktrees? [y/N] ")
    );
    let steps = remove::remove_repo("/q", "/q/acme/widget", true, false, Some("n\n".to_string())).unwrap();
    assert_eq!(show(&steps), vec!["warn Aborted."]);
    let steps = remove::remove_repo("/q", "/q/acme/widget", true, false, None).unwrap();
    assert_eq!(show(&steps), vec!["warn Aborted."]);
    let steps = remove::remove_repo("/q", "/q/acme/widget", true, false, Some("yes\n".to_string())).unwrap();
    assert_eq!(show(&steps)[0], "rm -r /q/acme/widget");
}

#[test]
fn remove_rejects_malformed_spec_outside_repository_with_exit_2() {
    let e = remove::target("solo", None).unwrap_err();
    assert_eq!(e.exit_code(), 2);
}

#[test]
fn remove_refuses_unsafe_repository_paths() {
    for dir in ["/q", "/q/acme", "/elsewhere/a/b", "/"] {
        let e = remove::check_repo_removal("/q", dir, true).unwrap_err();
        assert_eq!(e.message(), format!("refusing to remove unsafe repository path: {dir}"));
    }
    assert!(remove::check_repo_removal("/q/", "/q//acme/widget/", true).is_ok());
}

fn wt(path: &str, branch: Option<&str>) -> Worktree {
    Worktree { path: path.to_string(), branch: branch.map(|b| b.to_string()), head: None, detached: branch.is_none() }
}

fn up(has_remote: bool, on_origin: bool) -> prune::Upstream {
    prune::Upstream { has_remote, on_origin }
}

#[test]
fn prune_removes_worktree_whose_remote_branch_is_gone() {
    let d = "/q/acme/widget";
    let refresh = prune::refresh(d);
    assert_eq!(show(&refresh), vec!["git[/q/acme/widget] fetch origin --prune", "git[/q/acme/widget] worktree prune"]);
    let ws = parse_worktree_list(
        "worktree /q/acme/widget\nbare\n\nworktree /q/acme/widget/main\nHEAD a\nbranch refs/heads/main\n\n\
         worktree /q/acme/widget/feature/x\nHEAD b\nbranch refs/heads/feature/x\n\n",
    );
    // main is on origin; feature/x tracked origin and is gone from it.
    let upstream = vec![up(true, true), up(true, false)];
    assert!(!prune::prunable(&ws[0], upstream[0], "main"));
    assert!(prune::prunable(&ws[1], upstream[1], "main"));
    let status = vec![None, Some(String::new())];
    let (chosen, warns) = prune::select(&ws, &upstream, &status, "main");
    assert_eq!(chosen.len(), 1);
    assert_eq!(chosen[0].branch.as_deref(), Some("feature/x"));
    assert!(warns.is_empty());
    let steps = prune::run(&prune::Args { force: true }, d, &ws, &upstream, &status, "main", None);
    assert_eq!(
        show(&steps),
        vec![
            "git[/q/acme/widget] worktree remove /q/acme/widget/feature/x",
            "rmdir /q/acme/widget/feature",
            "git[/q/acme/widget] branch -D feature/x",
            "print Removed worktree /q/acme/widget/feature/x (feature/x)",
        ]
    );
}

#[test]
fn prune_never_touches_branch_without_upstream() {
    let ws = vec![wt("/q/r/main", Some("main")), wt("/q/r/totally/new", Some("totally/new")), wt("/q/r/d", None)];
    // main: the default branch; totally/new: never pushed, so no remote is
    // configured; d: detached.
    let upstream = vec![up(true, false), up(false, false), up(true, false)];
    let status = vec![None, None, None];
    let (chosen, warns) = prune::select(&ws, &upstream, &status, "main");
    assert!(chosen.is_empty() && warns.is_empty());
    let steps = prune::run(&prune::Args { force: true }, "/q/r", &ws, &upstream, &status, "main", None);
    assert_eq!(show(&steps), vec!["print Nothing to prune"]);
    // A branch still on origin is kept, whatever its upstream is named.
    let ws = vec![wt("/q/r/fix", Some("fix"))];
    assert!(!prune::prunable(&ws[0], up(true, true), "main"));
}

#[test]
fn prune_skips_dirty_candidate() {
    let ws = vec![wt("/q/r/feature/x", Some("feature/x")), wt("/q/r/b", Some("b"))];
    let upstream = vec![up(true, false), up(true, false)];
    let status = vec![Some("?? untracked.txt\n".to_string()), Some(" \n".to_string())];
    let (chosen, warns) = prune::select(&ws, &upstream, &status, "main");
    assert_eq!(chosen.len(), 1);
    assert_eq!(chosen[0].branch.as_deref(), Some("b"));
    assert_eq!(show(&warns), vec!["warn skipping feature/x at /q/r/feature/x: it has uncommitted changes"]);
    let steps = prune::run(&prune::Args { force: true }, "/q/r", &ws, &upstream, &status, "main", None);
    assert_eq!(show(&steps)[0], "git[/q/r] worktree remove /q/r/b");
    assert_eq!(show(&steps).len(), 4);
}

#[test]
fn prune_prints_nothing_to_prune_when_clean() {
    let steps = prune::run(&prune::Args { force: true }, "/q/r", &vec![], &vec![], &vec![], "main", None);
    assert_eq!(show(&steps), vec!["print Nothing to prune"]);
    assert_eq!(prune::prompt(&vec![], false), None);
}

#[test]
fn prune_declined_keeps_worktree() {
    let ws = vec![wt("/q/r/feature/x", Some("feature/x"))];
    assert_eq!(
        prune::prompt(&ws, false).as_deref(),
        Some("  feature/x (/q/r/feature/x)\nRemove these worktrees? [y/N] ")
    );
    assert_eq!(prune::prompt(&ws, true), None);
    let upstream = vec![up(true, false)];
    let status = vec![Some(String::new())];
    let args = prune::Args { force: false };
    let steps = prune::run(&args, "/q/r", &ws, &upstream, &status, "main", Some("n\n".to_string()));
    assert_eq!(show(&steps), vec!["warn Aborted."]);
    let steps = prune::run(&args, "/q/r", &ws, &upstream, &status, "main", None);
    assert_eq!(show(&steps), vec!["warn Aborted."]);
    let steps = prune::run(&args, "/q/r", &ws, &upstream, &status, "main", Some("y\n".to_string()));
    assert_eq!(show(&steps).len(), 4);
}

#[test]
fn resolves_root_in_order_and_expands_tilde() {
    let home = Some("/home/u".to_string());
    assert_eq!(resolve_root(Some("/env".to_string()), Some("/cfg".to_string()), home.clone()).unwrap(), "/env");
    assert_eq!(resolve_root(Some(String::new()), Some("/cfg".to_string()), home.clone()).unwrap(), "/cfg");
    assert_eq!(resolve_root(None, Some("~/w".to_string()), home.clone()).unwrap(), "/home/u/w");
    assert_eq!(resolve_root(None, None, home.clone()).unwrap(), "/home/u/qwt");
    assert_eq!(resolve_root(None, Some(String::new()), home.clone()).unwrap(), "/home/u/qwt");
    let e = resolve_root(None, None, None).unwrap_err();
    assert_eq!(e.exit_code(), 1);
    assert_eq!(e.message(), "cannot determine the home directory to expand `~`");
    assert_eq!(expand_tilde("~", home.clone()).unwrap(), "/home/u");
    assert_eq!(expand_tilde("~x/y", home.clone()).unwrap(), "~x/y");
    assert_eq!(expand_tilde("/abs", None).unwrap(), "/abs");
    assert_eq!(root_config_command().args, vec!["config", "--get", "qwt.root"]);
}

#[test]
fn errors_map_to_exit_codes() {
    let u = usage("bad");
    assert_eq!(u.exit_code(), 2);
    assert_eq!(u.message(), "bad");
    let r = runtime("boom");
    assert_eq!(r.exit_code(), 1);
    let u2 = usage_from(r);
    assert_eq!(u2.exit_code(), 2);
    assert_eq!(u2.message(), "boom");
    let e = Error::Usage(UsageError("x".to_string()));
    assert_eq!(e.exit_code(), 2);
}

#[test]
fn add_rejects_prefix_collision() {
    let d = "/q/acme/widget";
    assert_eq!(prefix_paths(d, "topic/child"), vec!["/q/acme/widget/topic", "/q/acme/widget/topic/child"]);
    let probes = vec![PathProbe::Directory { git_marker: true, listing: Listing::NotRead }, PathProbe::Missing];
    let e = check_prefix_collision(d, "topic/child", &probes).unwrap_err();
    assert_eq!(e.exit_code(), 1);
    assert_eq!(e.message(), "worktree path /q/acme/widget/topic collides with existing worktree");
}

#[test]
fn remove_primary_name_also_removes_worktree_via_cwd_discovery() {
    let start = "/q/acme/widget/main";
    let found: Vec<bool> = discovery_candidates(start).iter().map(|c| c == "/q/acme/widget").collect();
    let dir = discover_repo_root(start, start, &found).unwrap();
    let steps = remove::remove_worktree(&dir, "feature/x", true, false, false).unwrap();
    assert_eq!(show(&steps)[0], "git[/q/acme/widget] worktree remove /q/acme/widget/feature/x");
    assert_eq!(show(&steps).last().unwrap(), "print Removed worktree /q/acme/widget/feature/x");
}

#[test]
fn prune_fails_outside_repository() {
    let start = "/tmp/elsewhere";
    let found = vec![false; discovery_candidates(start).len()];
    let e = discover_repo_root(start, start, &found).unwrap_err();
    assert_eq!(e.exit_code(), 1);
}

#[test]
fn path_names_the_worktree_get_creates() {
    for branch in ["main", "fix/parser", "fix//parser/"] {
        let (_, layout, _) = get::run(&get_args("acme/widget", Some(branch)), "/q", "", false).unwrap();
        let p = path::run(&path::Args { spec: Some(format!("acme/widget/{branch}")) }, "/q").unwrap();
        assert_eq!(p, layout.dest, "{branch:?}");
    }
}

#[test]
fn add_refuses_taken_destination_or_collision_without_steps() {
    let d = "/q/acme/widget";
    let a = add_args("topic/child", Some("acme/widget"), None);
    let e = add::run(&a, d, true, &missing(2), true, true, None).unwrap_err();
    assert_eq!(e.message(), "worktree path /q/acme/widget/topic/child already exists");
    let probes = vec![PathProbe::Directory { git_marker: true, listing: Listing::NotRead }, PathProbe::Missing];
    let e = add::run(&a, d, false, &probes, true, true, None).unwrap_err();
    assert_eq!(e.message(), "worktree path /q/acme/widget/topic collides with existing worktree");
    let e = add::run(&add_args("//", None, None), d, false, &vec![], true, true, None).unwrap_err();
    assert_eq!(e.message(), "branch name must not be empty");
}

#[test]
fn remove_refuses_unsafe_or_foreign_repository_before_any_step() {
    for dir in ["/q", "/q/acme", "/elsewhere/a/b"] {
        let e = remove::remove_repo("/q", dir, true, true, None).unwrap_err();
        assert_eq!(e.message(), format!("refusing to remove unsafe repository path: {dir}"));
    }
    let e = remove::remove_repo("/q", "/q/no/such", false, true, Some("y".to_string())).unwrap_err();
    assert_eq!(e.message(), "not a qwt repository: /q/no/such");
    assert_eq!(e.exit_code(), 1);
}

#[test]
fn remove_inside_a_repository_takes_the_whole_spec_as_branch() {
    match remove::target("acme/widget", Some("/q/o/r".to_string())).unwrap() {
        remove::Target::Branch(d, b) => assert_eq!((d.as_str(), b.as_str()), ("/q/o/r", "acme/widget")),
        _ => panic!("expected a branch of the discovered repository"),
    }
    match remove::target("solo", Some("/q/o/r".to_string())).unwrap() {
        remove::Target::Branch(_, b) => assert_eq!(b, "solo"),
        _ => panic!("expected a branch of the discovered repository"),
    }
}

#[test]
fn windows_separators_are_path_separators() {
    assert_eq!(
        discovery_candidates("C:\\q\\acme\\widget\\main"),
        vec!["C:/q/acme/widget/main", "C:/q/acme/widget", "C:/q/acme", "C:/q", "C:", ""]
    );
    assert_eq!(discovery_candidates("\\\\?\\C:\\q"), vec!["C:/q", "C:", ""]);
    assert!(remove::check_repo_removal("C:\\q", "C:\\q/acme/widget", true).is_ok());
    assert!(remove::check_repo_removal("C:\\q", "C:\\q/acme", true).is_err());
    assert_eq!(gh_qwt::text::to_slashes("a\\b/c"), "a/b/c");
}

#[test]
fn default_branch_detection_fails_only_when_both_sources_fail() {
    let spec = RepoSpec::parse("file:///src/acme/widget", "github.com").unwrap();
    assert_eq!(detected_branch(&spec, Some("trunk\n".to_string()), None).unwrap(), "trunk");
    let refs = "ref: refs/heads/main\tHEAD\nabc\tHEAD\n".to_string();
    assert_eq!(detected_branch(&spec, None, Some(Ok(refs.clone()))).unwrap(), "main");
    assert_eq!(detected_branch(&spec, Some(" ".to_string()), Some(Ok(refs))).unwrap(), "main");
    let e = detected_branch(&spec, None, Some(Ok("abc\tHEAD\n".to_string()))).unwrap_err();
    assert_eq!(e.message(), "could not parse default branch from git ls-remote for file:///src/acme/widget");
    let e = detected_branch(&spec, None, Some(Err(runtime("git ls-remote failed")))).unwrap_err();
    assert_eq!(e.message(), "git ls-remote failed");
}
