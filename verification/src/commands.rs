//! The `gh qwt` commands: what each decides from its arguments and from what
//! git and the file system report, and the steps it then takes.

pub mod add;
pub mod get;
pub mod list;
pub mod path;
pub mod prune;
pub mod remove;
pub mod rm;
pub mod root;

use vstd::prelude::*;
use crate::git::GitCommand;
use crate::text::{views, trim, trim_str, chars_of};

verus! {

/// One effect of a command. Steps run in order; the first that fails ends
/// the command with its error.
#[derive(Debug)]
pub enum Step {
    /// Create a directory and its missing parents.
    CreateDirAll(String),
    /// Run a git command that must succeed.
    Git(GitCommand),
    /// Run a git command whose failure is ignored.
    GitBestEffort(GitCommand),
    /// Write a file with exactly these contents.
    WriteFile(String, String),
    /// Remove a directory and everything in it.
    RemoveDirAll(String),
    /// Remove these directories in order while they are empty; stop at the
    /// first that cannot be removed.
    RemoveEmptyDirs(Vec<String>),
    /// Print a line on stdout.
    Print(String),
    /// Print a line on stderr.
    Warn(String),
}

/// The characters of a [`Step`].
pub enum StepView {
    CreateDirAll(Seq<char>),
    Git(crate::git::GitCommandView),
    GitBestEffort(crate::git::GitCommandView),
    WriteFile(Seq<char>, Seq<char>),
    RemoveDirAll(Seq<char>),
    RemoveEmptyDirs(Seq<Seq<char>>),
    Print(Seq<char>),
    Warn(Seq<char>),
}

impl View for Step {
    type V = StepView;

    open spec fn view(&self) -> StepView {
        match self {
            Step::CreateDirAll(p) => StepView::CreateDirAll(p@),
            Step::Git(c) => StepView::Git(c@),
            Step::GitBestEffort(c) => StepView::GitBestEffort(c@),
            Step::WriteFile(p, c) => StepView::WriteFile(p@, c@),
            Step::RemoveDirAll(p) => StepView::RemoveDirAll(p@),
            Step::RemoveEmptyDirs(ds) => StepView::RemoveEmptyDirs(views(ds@)),
            Step::Print(l) => StepView::Print(l@),
            Step::Warn(l) => StepView::Warn(l@),
        }
    }
}

/// The views of a sequence of steps.
pub open spec fn steps_view(v: Seq<Step>) -> Seq<StepView> {
    v.map_values(|s: Step| s@)
}

/// `c` in lower case, for ASCII letters.
pub open spec fn ascii_lower(c: char) -> char {
    if 'A' <= c && c <= 'Z' {
        ((c as u32) + 32) as char
    } else {
        c
    }
}

/// Whether an answer to a `[y/N]` prompt agrees: `y` or `yes` in any case,
/// surrounding whitespace ignored.
pub open spec fn agrees(answer: Seq<char>) -> bool {
    let t = trim(answer).map_values(|c: char| ascii_lower(c));
    t == seq!['y'] || t == seq!['y', 'e', 's']
}

/// Whether an answer to a `[y/N]` prompt agrees.
pub fn confirmed(answer: &str) -> (r: bool)
    ensures
        r == agrees(answer@),
{
    let t = trim_str(answer);
    let v = chars_of(t.as_str());
    let ghost low = t@.map_values(|c: char| ascii_lower(c));
    assert(low.len() == v@.len());
    assert(forall|i: int| 0 <= i < v@.len() ==> low[i] == ascii_lower(#[trigger] v@[i]));
    if v.len() == 1 {
        let r = v[0] == 'y' || v[0] == 'Y';
        assert(ascii_lower('Y') == 'y');
        assert(r == (low =~= seq!['y']));
        assert(!(low =~= seq!['y', 'e', 's']));
        r
    } else if v.len() == 3 {
        let r = (v[0] == 'y' || v[0] == 'Y') && (v[1] == 'e' || v[1] == 'E') && (v[2] == 's' || v[2]
            == 'S');
        assert(ascii_lower('Y') == 'y' && ascii_lower('E') == 'e' && ascii_lower('S') == 's');
        assert(r == (low =~= seq!['y', 'e', 's']));
        assert(!(low =~= seq!['y']));
        r
    } else {
        assert(!(low =~= seq!['y']));
        assert(!(low =~= seq!['y', 'e', 's']));
        false
    }
}

} // verus!
