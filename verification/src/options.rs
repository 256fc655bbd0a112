//! Options for setting up a repository and for running Git commands.

use vstd::prelude::*;

verus! {

/// Options for `Git::init_repo_with_options`.
#[derive(Debug)]
pub struct GitInitOptions {
    /// If `true`, then `init_repo_with_options` makes an initial commit with
    /// some content.
    pub make_initial_commit: bool,
    /// If `true`, run `git branchless init` as part of initialization process.
    pub run_branchless_init: bool,
}

impl Default for GitInitOptions {
    fn default() -> (o: Self)
        ensures
            o.make_initial_commit,
            o.run_branchless_init,
    {
        GitInitOptions { make_initial_commit: true, run_branchless_init: true }
    }
}

/// Options for `Git::run_with_options`.
#[derive(Debug)]
pub struct GitRunOptions {
    /// The timestamp of the command. Mostly useful for `git commit`. This should
    /// be a number like 0, 1, 2, 3...
    pub time: isize,
    /// The exit code that `Git` should return.
    pub expected_exit_code: i32,
    /// The input to write to the child process's stdin.
    pub input: Option<String>,
}

impl Default for GitRunOptions {
    fn default() -> (o: Self)
        ensures
            o.time == 0,
            o.expected_exit_code == 0,
            o.input is None,
    {
        GitRunOptions { time: 0, expected_exit_code: 0, input: None }
    }
}

} // verus!
