//! `gh qwt root`: print the resolved qwt root.

use vstd::prelude::*;

verus! {

/// Arguments for `gh qwt root`: none.
#[derive(Debug, Clone)]
pub struct Args {}

/// What `gh qwt root` prints: the resolved qwt root (see
/// [`crate::config::resolve_root`]).
pub fn run(_args: &Args, root: &str) -> (r: String)
    ensures
        r@ == root@,
{
    root.to_owned()
}

} // verus!
