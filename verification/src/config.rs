//! qwt root resolution.

use vstd::prelude::*;
use crate::error::{Error, runtime};
use crate::git::GitCommand;
use crate::paths::{join, join_path};
use crate::text::{views, has_prefix, strip_prefix, str_eq};

verus! {

/// `git config --get qwt.root`: prints the configured qwt root.
pub fn root_config_command() -> (r: GitCommand)
    ensures
        r@.dir is None,
        r@.args == seq!["config"@, "--get"@, "qwt.root"@],
{
    let mut args: Vec<String> = Vec::new();
    args.push("config".to_owned());
    args.push("--get".to_owned());
    args.push("qwt.root".to_owned());
    assert(views(args@) =~= seq!["config"@, "--get"@, "qwt.root"@]);
    GitCommand { dir: None, args }
}

/// The message when `~` cannot be expanded.
pub open spec fn no_home_text() -> Seq<char> {
    "cannot determine the home directory to expand `~`"@
}

/// What `expand_tilde(path, home)` yields: `~` is the home directory, `~/rest`
/// is `rest` under it, any other path is unchanged.
pub open spec fn expand_spec(path: Seq<char>, home: Option<Seq<char>>) -> Option<Seq<char>> {
    if path == "~"@ || has_prefix(path, "~/"@) {
        match home {
            Some(h) => Some(
                if path == "~"@ {
                    h
                } else {
                    join_path(h, path.skip(2))
                },
            ),
            None => None,
        }
    } else {
        Some(path)
    }
}

/// Expand a leading `~` or `~/` in `path` to `home`, the user's home directory
/// (`None` when it is unknown). Paths that do not start with `~` are returned
/// unchanged.
pub fn expand_tilde(path: &str, home: Option<String>) -> (r: Result<String, Error>)
    ensures
        match expand_spec(
            path@,
            match home {
                Some(h) => Some(h@),
                None => None,
            },
        ) {
            Some(p) => r matches Ok(x) && x@ == p,
            None => r matches Err(e) && !e.is_usage() && e.text() == no_home_text(),
        },
{
    proof {
        reveal_strlit("~/");
        reveal_strlit("~");
    }
    let rest = strip_prefix(path, "~/");
    if str_eq(path, "~") || rest.is_some() {
        match home {
            Some(h) => {
                if str_eq(path, "~") {
                    Ok(h)
                } else {
                    let r = rest.unwrap();
                    assert(r@ == path@.skip(2));
                    Ok(join(h.as_str(), r.as_str()))
                }
            },
            None => Err(runtime("cannot determine the home directory to expand `~`")),
        }
    } else {
        Ok(path.to_owned())
    }
}

/// The setting the qwt root comes from, before `~` expansion: `QWT_ROOT` if set
/// and non-empty, else `qwt.root` from git config if non-empty, else `~/qwt`.
pub open spec fn root_setting(env_root: Option<Seq<char>>, config_root: Option<Seq<char>>) -> Seq<char> {
    match env_root {
        Some(e) if e.len() > 0 => e,
        _ => match config_root {
            Some(c) if c.len() > 0 => c,
            _ => "~/qwt"@,
        },
    }
}

/// Resolve the qwt root directory from `env_root` (the `QWT_ROOT` environment
/// variable), `config_root` (what `git config --get qwt.root` printed when it
/// succeeded) and `home` (the user's home directory):
/// 1. `QWT_ROOT`, if set and non-empty.
/// 2. `qwt.root` from git config, if non-empty.
/// 3. `~/qwt`.
///
/// A leading `~` in the chosen value is expanded to the home directory.
pub fn resolve_root(env_root: Option<String>, config_root: Option<String>, home: Option<String>) -> (r: Result<String, Error>)
    ensures
        match expand_spec(
            root_setting(
                match env_root {
                    Some(e) => Some(e@),
                    None => None,
                },
                match config_root {
                    Some(c) => Some(c@),
                    None => None,
                },
            ),
            match home {
                Some(h) => Some(h@),
                None => None,
            },
        ) {
            Some(p) => r matches Ok(x) && x@ == p,
            None => r matches Err(e) && !e.is_usage() && e.text() == no_home_text(),
        },
{
    let chosen: String = match env_root {
        Some(e) if e.unicode_len() > 0 => e,
        _ => match config_root {
            Some(c) if c.unicode_len() > 0 => c,
            _ => "~/qwt".to_owned(),
        },
    };
    expand_tilde(chosen.as_str(), home)
}

} // verus!
