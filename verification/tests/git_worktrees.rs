use gh_qwt::git::{
    branch_delete, clone_bare, command_line, configure_and_fetch, default_branch_from_head,
    failure_message, local_branch_exists, ls_remote_default_branch, output_text,
    branch_remote, parse_ls_remote_default_branch, parse_worktree_list,
    remote_branch_exists, spawn_failure_message, status_porcelain,
    worktree_add_existing, worktree_add_new, worktree_add_tracking, worktree_list,
    worktree_remove, GitCommand,
};
use std::path::PathBuf;

fn args_of(c: &GitCommand) -> Vec<&str> {
    c.args.iter().map(|a| a.as_str()).collect()
}

#[test]
fn parses_single_non_detached_worktree() {
    let worktrees =
        parse_worktree_list("worktree /repo/main\nHEAD abc123\nbranch refs/heads/main\n\n");

    assert_eq!(worktrees.len(), 1);
    assert_eq!(PathBuf::from(worktrees[0].path.clone()), PathBuf::from("/repo/main"));
    assert_eq!(worktrees[0].head.as_deref(), Some("abc123"));
    assert_eq!(worktrees[0].branch.as_deref(), Some("main"));
    assert!(!worktrees[0].detached);
}

#[test]
fn parses_multiple_worktree_records() {
    let worktrees = parse_worktree_list(
        "worktree /repo/main\nHEAD abc123\nbranch refs/heads/main\n\n\
         worktree /repo/fix/parser\nHEAD def456\nbranch refs/heads/fix/parser\n\n",
    );

    assert_eq!(worktrees.len(), 2);
    assert_eq!(worktrees[0].branch.as_deref(), Some("main"));
    assert_eq!(PathBuf::from(worktrees[1].path.clone()), PathBuf::from("/repo/fix/parser"));
    assert_eq!(worktrees[1].head.as_deref(), Some("def456"));
    assert_eq!(worktrees[1].branch.as_deref(), Some("fix/parser"));
    assert!(!worktrees[1].detached);
}

#[test]
fn parses_detached_worktree_record() {
    let worktrees = parse_worktree_list("worktree /repo/detached\nHEAD abc123\ndetached\n\n");

    assert_eq!(worktrees.len(), 1);
    assert_eq!(PathBuf::from(worktrees[0].path.clone()), PathBuf::from("/repo/detached"));
    assert_eq!(worktrees[0].head.as_deref(), Some("abc123"));
    assert_eq!(worktrees[0].branch, None);
    assert!(worktrees[0].detached);
}

#[test]
fn skips_bare_entries() {
    let worktrees = parse_worktree_list(
        "worktree /repo\nHEAD abc123\nbare\n\n\
         worktree /repo/main\nHEAD def456\nbranch refs/heads/main\n\n",
    );

    assert_eq!(worktrees.len(), 1);
    assert_eq!(PathBuf::from(worktrees[0].path.clone()), PathBuf::from("/repo/main"));
    assert_eq!(worktrees[0].branch.as_deref(), Some("main"));
}

#[test]
fn parses_last_record_without_trailing_blank_line() {
    let worktrees = parse_worktree_list(
        "worktree /repo/main\nHEAD abc123\nbranch refs/heads/main\n\nworktree /repo/b\nHEAD 1\nbranch refs/heads/b",
    );
    assert_eq!(worktrees.len(), 2);
    assert_eq!(worktrees[1].path, "/repo/b");
    assert_eq!(worktrees[1].branch.as_deref(), Some("b"));
}

#[test]
fn parses_crlf_and_ignores_non_head_branch_refs() {
    let worktrees =
        parse_worktree_list("worktree /r/x\r\nHEAD 9\r\nbranch refs/tags/v1\r\n\r\n");
    assert_eq!(worktrees.len(), 1);
    assert_eq!(worktrees[0].path, "/r/x");
    assert_eq!(worktrees[0].head.as_deref(), Some("9"));
    assert_eq!(worktrees[0].branch, None);
    assert!(!worktrees[0].detached);
}

#[test]
fn empty_porcelain_has_no_worktrees() {
    assert!(parse_worktree_list("").is_empty());
    assert!(parse_worktree_list("\n\n").is_empty());
}

#[test]
fn builds_git_commands() {
    let c = clone_bare("https://github.com/cli/cli.git", "/q/cli/cli/.bare");
    assert_eq!(c.dir, None);
    assert_eq!(args_of(&c), vec!["clone", "--bare", "https://github.com/cli/cli.git", "/q/cli/cli/.bare"]);

    let cf = configure_and_fetch("/q/cli/cli");
    assert_eq!(cf.len(), 2);
    assert_eq!(cf[0].dir.as_deref(), Some("/q/cli/cli"));
    assert_eq!(
        args_of(&cf[0]),
        vec!["--git-dir=.bare", "config", "remote.origin.fetch", "+refs/heads/*:refs/remotes/origin/*"]
    );
    assert_eq!(args_of(&cf[1]), vec!["--git-dir=.bare", "fetch", "origin"]);

    let t = worktree_add_tracking("/q/r", "fix/parser", "/q/r/fix/parser");
    assert_eq!(t.dir.as_deref(), Some("/q/r"));
    assert_eq!(
        args_of(&t),
        vec!["worktree", "add", "--track", "-b", "fix/parser", "/q/r/fix/parser", "origin/fix/parser"]
    );

    let n = worktree_add_new("/q/r", "topic", "/q/r/topic", "main");
    assert_eq!(args_of(&n), vec!["worktree", "add", "-b", "topic", "/q/r/topic", "main"]);

    let (a, u) = worktree_add_existing("/q/r", "main", "/q/r/main");
    assert_eq!(args_of(&a), vec!["worktree", "add", "/q/r/main", "main"]);
    assert_eq!(args_of(&u), vec!["branch", "--set-upstream-to=origin/main", "main"]);

    assert_eq!(
        args_of(&local_branch_exists("/q/r", "x")),
        vec!["show-ref", "--verify", "--quiet", "refs/heads/x"]
    );
    assert_eq!(
        args_of(&remote_branch_exists("/q/r", "x")),
        vec!["show-ref", "--verify", "--quiet", "refs/remotes/origin/x"]
    );
    assert_eq!(
        args_of(&default_branch_from_head("/q/r")),
        vec!["symbolic-ref", "--short", "HEAD"]
    );
    assert_eq!(args_of(&worktree_list("/q/r")), vec!["worktree", "list", "--porcelain"]);
    assert_eq!(args_of(&worktree_remove("/q/r", "/q/r/x", false)), vec!["worktree", "remove", "/q/r/x"]);
    assert_eq!(
        args_of(&worktree_remove("/q/r", "/q/r/x", true)),
        vec!["worktree", "remove", "--force", "/q/r/x"]
    );
    assert_eq!(args_of(&branch_delete("/q/r", "x")), vec!["branch", "-D", "x"]);
    let l = ls_remote_default_branch("file:///src");
    assert_eq!(l.dir, None);
    assert_eq!(args_of(&l), vec!["ls-remote", "--symref", "file:///src", "HEAD"]);
    let b = branch_remote("/q/r", "feature/x");
    assert_eq!(b.dir.as_deref(), Some("/q/r"));
    assert_eq!(args_of(&b), vec!["config", "--get", "branch.feature/x.remote"]);
    let s = status_porcelain("/q/r/x");
    assert_eq!(s.dir.as_deref(), Some("/q/r/x"));
    assert_eq!(args_of(&s), vec!["status", "--porcelain"]);
}

#[test]
fn formats_git_messages() {
    let a = vec!["worktree".to_string(), "add".to_string(), "x".to_string()];
    assert_eq!(command_line(&a), "worktree add x");
    assert_eq!(spawn_failure_message(&a), "failed to spawn git worktree add x");
    assert_eq!(
        failure_message(&a, "fatal: invalid reference: x\n\n"),
        "git worktree add x failed: fatal: invalid reference: x"
    );
    assert_eq!(output_text("main\n"), "main");
    assert_eq!(output_text("main\r\n"), "main");
    assert_eq!(output_text("a b \n\n"), "a b ");
}

#[test]
fn parses_ls_remote_default_branch() {
    let out = "ref: refs/heads/trunk\tHEAD\n0123456789abcdef\tHEAD\n";
    assert_eq!(parse_ls_remote_default_branch("u", out).unwrap(), "trunk");
    let err = parse_ls_remote_default_branch("file:///src", "0123\tHEAD\n").unwrap_err();
    assert_eq!(err.exit_code(), 1);
    assert_eq!(
        err.message(),
        "could not parse default branch from git ls-remote for file:///src"
    );
}
