use gh_qwt::commands::list::{self as list, RepoListing};
use gh_qwt::commands::path;
use gh_qwt::commands::{confirmed, Step};
use gh_qwt::git::{parse_worktree_list, Worktree};

const ROOT: &str = "/tmp/env/root";
const DIR: &str = "/tmp/env/root/acme/widget";

/// The worktrees `git worktree list --porcelain` reports after `get -b main`
/// and `add feature/x` for `acme/widget`.
fn widget() -> RepoListing {
    let porcelain = format!(
        "worktree {DIR}\nbare\n\nworktree {DIR}/main\nHEAD aaa\nbranch refs/heads/main\n\n\
         worktree {DIR}/feature/x\nHEAD bbb\nbranch refs/heads/feature/x\n\n"
    );
    RepoListing {
        owner: "acme".to_string(),
        repo: "widget".to_string(),
        dir: DIR.to_string(),
        worktrees: parse_worktree_list(&porcelain),
    }
}

fn listed(full_path: bool, query: Option<&str>, exact: bool) -> String {
    let args = list::Args { full_path, query: query.map(|q| q.to_string()), exact };
    let lines = list::run(&args, &vec![widget()]);
    lines.iter().map(|l| format!("{l}\n")).collect()
}

fn path_of(spec: Option<&str>) -> Result<String, gh_qwt::error::Error> {
    path::run(&path::Args { spec: spec.map(|s| s.to_string()) }, ROOT)
}

#[test]
fn list_prints_flat_sorted_spec_and_full_path() {
    assert_eq!(listed(false, None, false), "acme/widget/feature/x\nacme/widget/main\n");
    let expected_full_path = format!("{}\n{}\n", format!("{DIR}/feature/x"), format!("{DIR}/main"));
    assert_eq!(listed(true, None, false), expected_full_path);
}

#[test]
fn list_query_filters_by_substring_with_smartcase() {
    assert_eq!(listed(false, Some("feature"), false), "acme/widget/feature/x\n");
    assert_eq!(listed(false, Some("Feature"), false), "");
    assert_eq!(listed(false, Some("nope"), false), "");
}

#[test]
fn list_exact_matches_branch_repo_branch_or_full_spec() {
    assert_eq!(listed(false, Some("main"), true), "acme/widget/main\n");
    assert_eq!(listed(false, Some("widget/main"), true), "acme/widget/main\n");
    assert_eq!(listed(false, Some("acme/widget/main"), true), "acme/widget/main\n");
    assert_eq!(listed(false, Some("mai"), true), "");
    assert_eq!(listed(false, None, true), "acme/widget/feature/x\nacme/widget/main\n");
}

#[test]
fn list_output_round_trips_through_path() {
    let stdout = listed(false, None, false);
    let lines: Vec<&str> = stdout.lines().collect();
    assert_eq!(lines, vec!["acme/widget/feature/x", "acme/widget/main"]);

    for line in lines {
        let branch = line.strip_prefix("acme/widget/").expect("spec prefix");
        let expected = branch.split('/').fold(DIR.to_string(), |p, seg| format!("{p}/{seg}"));
        assert_eq!(format!("{}\n", path_of(Some(line)).unwrap()), format!("{}\n", expected));
    }
}

#[test]
fn list_query_lowercase_matches_upper_case_names() {
    let mut repo = widget();
    repo.worktrees.push(Worktree {
        path: format!("{DIR}/Fix/Bug"),
        branch: Some("Fix/Bug".to_string()),
        head: None,
        detached: false,
    });
    let args = list::Args { full_path: false, query: Some("fix/b".to_string()), exact: false };
    assert_eq!(list::run(&args, &vec![repo]), vec!["acme/widget/Fix/Bug".to_string()]);
}

#[test]
fn list_names_detached_and_outside_worktrees() {
    let repo = RepoListing {
        owner: "o".to_string(),
        repo: "r".to_string(),
        dir: "/q/o/r".to_string(),
        worktrees: vec![
            Worktree { path: "/q/o/r/zz".to_string(), branch: None, head: None, detached: true },
            Worktree { path: "/elsewhere/b".to_string(), branch: Some("b".to_string()), head: None, detached: false },
            Worktree { path: "/elsewhere/c".to_string(), branch: None, head: None, detached: true },
        ],
    };
    let other = RepoListing {
        owner: "a".to_string(),
        repo: "z".to_string(),
        dir: "/q/a/z".to_string(),
        worktrees: vec![Worktree { path: "/q/a/z/main".to_string(), branch: Some("main".to_string()), head: None, detached: false }],
    };
    let args = list::Args { full_path: false, query: None, exact: false };
    assert_eq!(
        list::run(&args, &vec![repo, other]),
        vec!["a/z/main".to_string(), "o/r/b".to_string(), "o/r/zz".to_string()]
    );
}

#[test]
fn path_prints_root_repo_and_worktree() {
    assert_eq!(path_of(None).unwrap(), ROOT);
    assert_eq!(path_of(Some("acme/widget")).unwrap(), DIR);
    assert_eq!(path_of(Some("acme/widget/feature/x")).unwrap(), format!("{DIR}/feature/x"));
    let err = path_of(Some("solo")).unwrap_err();
    assert_eq!(err.exit_code(), 2);
    assert_eq!(err.message(), "SPEC must be <owner>/<repo> or <owner>/<repo>/<branch>");
    assert_eq!(path_of(Some("/acme//widget/")).unwrap(), DIR);
}

#[test]
fn parse_target_splits_owner_repo_branch() {
    assert_eq!(
        path::parse_target("a/b/c/d"),
        Some(("a".to_string(), "b".to_string(), Some("c/d".to_string())))
    );
    assert_eq!(path::parse_target("a/b"), Some(("a".to_string(), "b".to_string(), None)));
    assert_eq!(path::parse_target("a"), None);
}

#[test]
fn root_prints_the_resolved_root() {
    let args = gh_qwt::commands::root::Args {};
    assert_eq!(gh_qwt::commands::root::run(&args, ROOT), ROOT);
}

#[test]
fn prompts_agree_only_on_yes() {
    for yes in ["y", "Y", "yes", "YES", " Yes \n"] {
        assert!(confirmed(yes), "{yes:?}");
    }
    for no in ["", "n", "no", "ye", "yess", "y e s"] {
        assert!(!confirmed(no), "{no:?}");
    }
}

#[test]
fn step_prints_carry_lines() {
    let s = Step::Print("x".to_string());
    match s {
        Step::Print(l) => assert_eq!(l, "x"),
        _ => panic!("unexpected step"),
    }
}

#[test]
fn list_query_smartcase_is_unicode_aware() {
    let other = RepoListing {
        owner: "o".to_string(),
        repo: "r".to_string(),
        dir: "/q/o/r".to_string(),
        worktrees: vec![Worktree {
            path: "/q/o/r/d/\u{c9}".to_string(),
            branch: Some("\u{c9}".to_string()),
            head: None,
            detached: false,
        }],
    };
    let repos = vec![widget(), other];
    let run = |q: &str| {
        let args = list::Args { full_path: false, query: Some(q.to_string()), exact: false };
        list::run(&args, &repos)
    };
    // A lower-case query matches the upper-case letter; an upper-case one is exact.
    assert_eq!(run("\u{e9}"), vec!["o/r/d/\u{c9}".to_string()]);
    assert_eq!(run("d/\u{c9}"), vec!["o/r/d/\u{c9}".to_string()]);
    assert_eq!(run("D/\u{c9}"), vec![] as Vec<String>);
    assert_eq!(run("o/r/d/\u{c9}"), vec!["o/r/d/\u{c9}".to_string()]);
    assert!(list::query_matches("\u{e9}", false, "o", "r", "\u{c9}", false, "o/r/\u{e9}", "\u{e9}"));
    assert!(!list::query_matches("\u{c9}", false, "o", "r", "x", true, "o/r/\u{e9}", "\u{e9}"));
}
