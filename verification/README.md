# gh_qwt

`gh qwt` manages git repositories as one bare clone plus one worktree
directory per branch, under `<root>/<owner>/<repo>/<branch>`.

- `src/` is the verified library: repository-spec parsing, the path layout,
  qwt repository recognition and discovery, the parsing of git's output, and
  each command's decisions, which come back as plain steps (`Step`) to run.
  Every function carries a `requires`/`ensures` contract proved by Verus;
  the public `lemma_*` proof functions state the properties that hold across
  calls (for instance, that every line `list` prints resolves through `path`
  to the worktree it names).
- `app/` is the command-line program: clap parsing, running `git` and `gh`,
  the file system, prompts, and the order in which each command asks the
  library and carries out its steps.
- `tests/` exercises the library on concrete inputs.
