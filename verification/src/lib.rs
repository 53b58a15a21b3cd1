//! Repository-spec parsing, worktree layout and git plumbing decisions for
//! `gh qwt`, a git-worktree-centred repository manager.

pub mod text;
pub mod error;
pub mod paths;
pub mod repo;
pub mod git;
pub mod gh;
pub mod config;
pub mod commands;
