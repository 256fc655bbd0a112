//! The `git` executable as the tests drive it: the commands that are run, the
//! environment they run in, and how their output is checked and cleaned up.

use vstd::prelude::*;
use crate::options::GitRunOptions;
use crate::version::{feature_version, supports_features_of_2_29, version_le, GitVersion};
use crate::paths::{join_paths, join_paths_spec, path_parent, path_parent_of};
use crate::text::{
    decimal, format_decimal, join_with, pad_zeros, pad_zeros_str, replace_all, replace_all_str,
    views,
};

verus! {

/// The author and committer name of test commits.
pub const DUMMY_NAME: &'static str = "Testy McTestface";

/// The author and committer email of test commits.
pub const DUMMY_EMAIL: &'static str = "test@example.com";

/// The date of test commits, before the time offset.
pub const DUMMY_DATE: &'static str = "Wed 29 Oct 12:34:56 2020 PDT";

/// Wrapper around the Git executable, for testing.
#[derive(Clone, Debug)]
pub struct Git {
    /// The path to the repository on disk. The directory itself must exist,
    /// although it might not have a `.git` folder in it.
    pub repo_path: String,
    /// The path to the Git executable on disk. This is important since we test
    /// against multiple Git versions.
    pub path_to_git: String,
}

/// Path to the `git` executable on disk to be executed.
#[derive(Clone, Debug)]
pub struct GitRunInfo {
    /// The path to the Git executable on disk.
    pub path_to_git: String,
    /// The working directory that the Git executable should be run in.
    pub working_directory: String,
    /// The environment variables that should be passed to the Git process, as
    /// settings in order: the environment is `env_map` of them, where a later
    /// setting of a variable wins over an earlier one.
    pub env: Vec<(String, String)>,
}

/// A process to start: the program, its working directory, its arguments, and
/// its whole environment (nothing is inherited; where a variable is given twice,
/// the later value holds).
#[derive(Debug)]
pub struct GitCommand {
    /// A line to print before the process starts, if any.
    pub announcement: Option<String>,
    /// The program to run.
    pub program: String,
    /// The working directory, where it is set.
    pub current_dir: Option<String>,
    /// The arguments, not including the program itself.
    pub args: Vec<String>,
    /// The environment variables, in the order in which they are set.
    pub env: Vec<(String, String)>,
    /// What to write to the process's standard input, where it is piped.
    pub input: Option<String>,
}

/// The environment that setting `env` in order makes: each variable holds the
/// value of its last setting (as `Command::env` and collecting into a
/// `HashMap` both behave).
pub open spec fn env_map(env: Seq<(Seq<char>, Seq<char>)>) -> Map<Seq<char>, Seq<char>>
    decreases env.len(),
{
    if env.len() == 0 {
        Map::empty()
    } else {
        env_map(env.drop_last()).insert(env.last().0, env.last().1)
    }
}

/// The character sequences of a list of environment variables.
pub open spec fn env_views(env: Seq<(String, String)>) -> Seq<(Seq<char>, Seq<char>)> {
    env.map_values(|p: (String, String)| (p.0@, p.1@))
}

/// The value of the date variables for a command run at `time`.
pub open spec fn commit_date(time: int) -> Seq<char> {
    DUMMY_DATE@ + " -"@ + pad_zeros(decimal(time), 2)
}

/// Writes the date of a command run at `time`: the dummy date, then ` -` and
/// the time, padded with zeros to two characters.
pub fn format_commit_date(time: isize) -> (s: String)
    ensures
        s@ == commit_date(time as int),
{
    let mut s = DUMMY_DATE.to_owned();
    s.append(" -");
    let t = format_decimal(time as i64);
    let padded = pad_zeros_str(t.as_str(), 2);
    s.append(padded.as_str());
    s
}

impl Git {
    /// Constructor.
    pub fn new(repo_path: String, git_run_info: GitRunInfo) -> (git: Git)
        ensures
            git.repo_path == repo_path,
            git.path_to_git == git_run_info.path_to_git,
    {
        let GitRunInfo { path_to_git, working_directory: _, env: _ } = git_run_info;
        Git { repo_path, path_to_git }
    }
}

} // verus!

verus! {

/// Calls `String::from_utf8` on `bytes`: a string where the bytes are valid
/// UTF-8 (its characters those that the bytes encode), nothing otherwise.
#[verifier::external_body]
fn string_from_utf8(bytes: Vec<u8>) -> (r: Option<String>)
    ensures
        r is Some <==> vstd::utf8::valid_utf8(bytes@),
        r matches Some(s) ==> s@ == vstd::utf8::decode_utf8(bytes@),
{
    String::from_utf8(bytes).ok()
}

/// Output with the path to Git replaced by `<git-executable>`, then the
/// repository path replaced by `<repo-path>`.
pub open spec fn preprocessed(output: Seq<char>, path_to_git: Seq<char>, repo_path: Seq<char>) -> Seq<char> {
    replace_all(replace_all(output, path_to_git, "<git-executable>"@), repo_path, "<repo-path>"@)
}

/// The paths of helper programs that the test environment found: the
/// `git-branchless` binary under test, and `sh`.
#[derive(Debug)]
pub struct HelperPrograms {
    /// The path of the `git-branchless` binary.
    pub git_branchless: String,
    /// The path of the shell.
    pub sh: String,
}

/// Why the `PATH` for a test command could not be made, as a value.
pub enum PathEnvFailure {
    /// This path has no parent directory.
    NoParent(Seq<char>),
    /// This directory holds the list separator.
    SeparatorInEntry(Seq<char>),
}

/// Why the `PATH` for a test command could not be made.
#[derive(Debug)]
pub enum PathEnvError {
    /// This path has no parent directory.
    NoParent { path: String },
    /// This directory holds the list separator `:`.
    SeparatorInEntry { entry: String },
}

impl PathEnvError {
    /// The failure that this error reports.
    pub open spec fn failure(&self) -> PathEnvFailure {
        match self {
            PathEnvError::NoParent { path } => PathEnvFailure::NoParent(path@),
            PathEnvError::SeparatorInEntry { entry } => PathEnvFailure::SeparatorInEntry(entry@),
        }
    }
}

/// The `PATH` for test commands: the directories of `git-branchless`, of Git
/// and of `sh`, in this order.
pub open spec fn path_for_env(
    git_branchless: Seq<char>,
    path_to_git: Seq<char>,
    sh: Seq<char>,
) -> Result<Seq<char>, PathEnvFailure> {
    match (path_parent_of(git_branchless), path_parent_of(path_to_git), path_parent_of(sh)) {
        (None, _, _) => Err(PathEnvFailure::NoParent(git_branchless)),
        (Some(_), None, _) => Err(PathEnvFailure::NoParent(path_to_git)),
        (Some(_), Some(_), None) => Err(PathEnvFailure::NoParent(sh)),
        (Some(b), Some(g), Some(s)) => match join_paths_spec(seq![b, g, s]) {
            Ok(joined) => Ok(joined),
            Err(entry) => Err(PathEnvFailure::SeparatorInEntry(entry)),
        },
    }
}

/// The arguments of a test command: `-C`, the repository, then `args`.
pub open spec fn run_args(repo_path: Seq<char>, args: Seq<Seq<char>>) -> Seq<Seq<char>> {
    seq!["-C"@, repo_path] + args
}

/// The environment of a test command run at `time`.
pub open spec fn run_env(time: int, path_to_git: Seq<char>, path_env: Seq<char>) -> Seq<(Seq<char>, Seq<char>)> {
    seq![
        ("GIT_AUTHOR_DATE"@, commit_date(time)),
        ("GIT_COMMITTER_DATE"@, commit_date(time)),
        ("GIT_EDITOR"@, ":"@),
        ("PATH_TO_GIT"@, path_to_git),
        ("PATH"@, path_env),
    ]
}

/// Why the output of a test command was refused.
#[derive(Debug)]
pub enum GitRunError {
    /// Git exited with another code than the one expected.
    UnexpectedExitCode { exit_code: i32, expected_exit_code: i32, stdout: Vec<u8>, stderr: Vec<u8> },
    /// The output is not valid UTF-8.
    InvalidUtf8,
    /// The canonical path of the repository could not be had.
    RepoPathUnavailable,
}

fn clone_option_string(s: &Option<String>) -> (r: Option<String>)
    ensures
        r == *s,
{
    match s {
        Some(t) => Some(t.clone()),
        None => None,
    }
}

impl Git {
    /// Replace dynamic strings in the output, for testing purposes: the path to
    /// Git, then the canonical path of the repository.
    pub fn preprocess_output(&self, stdout: String, canonical_repo_path: &str) -> (r: String)
        ensures
            r@ == preprocessed(stdout@, self.path_to_git@, canonical_repo_path@),
    {
        proof {
            reveal_strlit("<git-executable>");
            reveal_strlit("<repo-path>");
        }
        let stdout = replace_all_str(stdout.as_str(), self.path_to_git.as_str(), "<git-executable>");
        replace_all_str(stdout.as_str(), canonical_repo_path, "<repo-path>")
    }

    /// Get the `PATH` environment variable to use for testing: the directories
    /// holding `git-branchless`, Git and `sh`, in this order. The three paths
    /// must have parents, and none of those may hold the separator `:`.
    pub fn get_path_for_env(&self, helpers: &HelperPrograms) -> (r: String)
        requires
            path_for_env(helpers.git_branchless@, self.path_to_git@, helpers.sh@) is Ok,
        ensures
            path_for_env(helpers.git_branchless@, self.path_to_git@, helpers.sh@)
                == Ok::<Seq<char>, PathEnvFailure>(r@),
    {
        let branchless_path = match path_parent(helpers.git_branchless.as_str()) {
            Some(p) => p,
            None => unreached(),
        };
        let git_path = match path_parent(self.path_to_git.as_str()) {
            Some(p) => p,
            None => unreached(),
        };
        let bash_path = match path_parent(helpers.sh.as_str()) {
            Some(p) => p,
            None => unreached(),
        };
        let entries = vec![branchless_path, git_path, bash_path];
        proof {
            assert(views(entries@) =~= seq![entries@[0]@, entries@[1]@, entries@[2]@]);
        }
        match join_paths(entries.as_slice()) {
            Ok(joined) => joined,
            Err(_) => unreached(),
        }
    }

    /// Checks that the `PATH` for testing can be made, and makes it: the error
    /// names the first of the three paths without a parent, or the first
    /// directory that holds the separator `:`.
    pub fn check_path_for_env(&self, helpers: &HelperPrograms) -> (r: Result<String, PathEnvError>)
        ensures
            match r {
                Ok(s) => path_for_env(helpers.git_branchless@, self.path_to_git@, helpers.sh@)
                    == Ok::<Seq<char>, PathEnvFailure>(s@),
                Err(e) => path_for_env(helpers.git_branchless@, self.path_to_git@, helpers.sh@)
                    == Err::<Seq<char>, PathEnvFailure>(e.failure()),
            },
    {
        let branchless_path = match path_parent(helpers.git_branchless.as_str()) {
            Some(p) => p,
            None => return Err(PathEnvError::NoParent { path: helpers.git_branchless.clone() }),
        };
        let git_path = match path_parent(self.path_to_git.as_str()) {
            Some(p) => p,
            None => return Err(PathEnvError::NoParent { path: self.path_to_git.clone() }),
        };
        let bash_path = match path_parent(helpers.sh.as_str()) {
            Some(p) => p,
            None => return Err(PathEnvError::NoParent { path: helpers.sh.clone() }),
        };
        let entries = vec![branchless_path, git_path, bash_path];
        proof {
            assert(views(entries@) =~= seq![entries@[0]@, entries@[1]@, entries@[2]@]);
        }
        match join_paths(entries.as_slice()) {
            Ok(_) => Ok(self.get_path_for_env(helpers)),
            Err(entry) => Err(PathEnvError::SeparatorInEntry { entry }),
        }
    }

    /// Lays out a Git command: Git run in the repository with `args`, with a
    /// fixed author, committer and date (from `options.time`), an editor that
    /// accepts any message, and the `PATH` for testing (which must be possible
    /// to make, as for `get_path_for_env`).
    pub fn run_with_options(
        &self,
        args: &[String],
        options: &GitRunOptions,
        helpers: &HelperPrograms,
    ) -> (cmd: GitCommand)
        requires
            path_for_env(helpers.git_branchless@, self.path_to_git@, helpers.sh@) is Ok,
        ensures
            cmd.announcement is None,
            cmd.program@ == self.path_to_git@,
            cmd.current_dir is None,
            views(cmd.args@) == run_args(self.repo_path@, views(args@)),
            env_views(cmd.env@) == run_env(
                options.time as int,
                self.path_to_git@,
                path_for_env(helpers.git_branchless@, self.path_to_git@, helpers.sh@)->Ok_0,
            ),
            cmd.input == options.input,
    {
        let date = format_commit_date(options.time);
        let mut new_args: Vec<String> = vec!["-C".to_owned(), self.repo_path.clone()];
        let mut i: usize = 0;
        while i < args.len()
            invariant
                i <= args.len(),
                views(new_args@) == seq!["-C"@, self.repo_path@] + views(args@.take(i as int)),
            decreases args.len() - i,
        {
            let ghost before = new_args@;
            new_args.push(args[i].clone());
            proof {
                assert(views(new_args@) =~= views(before).push(args@[i as int]@));
                assert(views(args@.take(i + 1)) =~= views(args@.take(i as int)).push(args@[i as int]@));
                assert(views(new_args@) =~= seq!["-C"@, self.repo_path@] + views(args@.take(i + 1)));
            }
            i += 1;
        }
        assert(args@.take(args.len() as int) =~= args@);
        let new_path = self.get_path_for_env(helpers);
        let env: Vec<(String, String)> = vec![
            ("GIT_AUTHOR_DATE".to_owned(), date.clone()),
            ("GIT_COMMITTER_DATE".to_owned(), date),
            ("GIT_EDITOR".to_owned(), ":".to_owned()),
            ("PATH_TO_GIT".to_owned(), self.path_to_git.clone()),
            ("PATH".to_owned(), new_path),
        ];
        assert(env_views(env@) =~= run_env(
            options.time as int,
            self.path_to_git@,
            path_for_env(helpers.git_branchless@, self.path_to_git@, helpers.sh@)->Ok_0,
        ));
        GitCommand {
            announcement: None,
            program: self.path_to_git.clone(),
            current_dir: None,
            args: new_args,
            env,
            input: clone_option_string(&options.input),
        }
    }

    /// Lays out a Git command as `run_with_options` does, once the `PATH` for
    /// testing has been checked: where it cannot be made, the error says why.
    pub fn try_run_with_options(
        &self,
        args: &[String],
        options: &GitRunOptions,
        helpers: &HelperPrograms,
    ) -> (r: Result<GitCommand, PathEnvError>)
        ensures
            match r {
                Ok(cmd) => {
                    &&& path_for_env(helpers.git_branchless@, self.path_to_git@, helpers.sh@) is Ok
                    &&& cmd.announcement is None
                    &&& cmd.program@ == self.path_to_git@
                    &&& cmd.current_dir is None
                    &&& views(cmd.args@) == run_args(self.repo_path@, views(args@))
                    &&& env_views(cmd.env@) == run_env(
                        options.time as int,
                        self.path_to_git@,
                        path_for_env(helpers.git_branchless@, self.path_to_git@, helpers.sh@)->Ok_0,
                    )
                    &&& cmd.input == options.input
                },
                Err(e) => path_for_env(helpers.git_branchless@, self.path_to_git@, helpers.sh@)
                    == Err::<Seq<char>, PathEnvFailure>(e.failure()),
            },
    {
        match self.check_path_for_env(helpers) {
            Ok(_) => Ok(self.run_with_options(args, options, helpers)),
            Err(e) => Err(e),
        }
    }

    /// Lays out a Git command with the default options.
    pub fn run(&self, args: &[String], helpers: &HelperPrograms) -> (cmd: GitCommand)
        requires
            path_for_env(helpers.git_branchless@, self.path_to_git@, helpers.sh@) is Ok,
        ensures
            cmd.announcement is None,
            cmd.program@ == self.path_to_git@,
            cmd.current_dir is None,
            views(cmd.args@) == run_args(self.repo_path@, views(args@)),
            env_views(cmd.env@) == run_env(
                0,
                self.path_to_git@,
                path_for_env(helpers.git_branchless@, self.path_to_git@, helpers.sh@)->Ok_0,
            ),
            cmd.input is None,
    {
        self.run_with_options(args, &GitRunOptions::default(), helpers)
    }

    /// Lays out a Git command with the default options, once the `PATH` for
    /// testing has been checked: where it cannot be made, the error says why.
    pub fn try_run(&self, args: &[String], helpers: &HelperPrograms) -> (r: Result<GitCommand, PathEnvError>)
        ensures
            match r {
                Ok(cmd) => {
                    &&& path_for_env(helpers.git_branchless@, self.path_to_git@, helpers.sh@) is Ok
                    &&& views(cmd.args@) == run_args(self.repo_path@, views(args@))
                    &&& env_views(cmd.env@) == run_env(
                        0,
                        self.path_to_git@,
                        path_for_env(helpers.git_branchless@, self.path_to_git@, helpers.sh@)->Ok_0,
                    )
                    &&& cmd.program@ == self.path_to_git@
                    &&& cmd.announcement is None
                    &&& cmd.current_dir is None
                    &&& cmd.input is None
                },
                Err(e) => path_for_env(helpers.git_branchless@, self.path_to_git@, helpers.sh@)
                    == Err::<Seq<char>, PathEnvFailure>(e.failure()),
            },
    {
        match self.check_path_for_env(helpers) {
            Ok(_) => Ok(self.run(args, helpers)),
            Err(e) => Err(e),
        }
    }

    /// Checks what a test command gave back: the exit code must be the one
    /// expected, and both streams valid UTF-8; the streams are then cleaned up
    /// with `preprocess_output`, which needs the canonical repository path.
    pub fn finish_run(
        &self,
        options: &GitRunOptions,
        exit_code: i32,
        stdout: Vec<u8>,
        stderr: Vec<u8>,
        canonical_repo_path: &Option<String>,
    ) -> (r: Result<(String, String), GitRunError>)
        ensures
            exit_code != options.expected_exit_code ==> r == Err::<(String, String), GitRunError>(
                GitRunError::UnexpectedExitCode {
                    exit_code,
                    expected_exit_code: options.expected_exit_code,
                    stdout,
                    stderr,
                },
            ),
            exit_code == options.expected_exit_code && !vstd::utf8::valid_utf8(stdout@)
                ==> r matches Err(GitRunError::InvalidUtf8),
            exit_code == options.expected_exit_code && vstd::utf8::valid_utf8(stdout@)
                && canonical_repo_path is None ==> r matches Err(GitRunError::RepoPathUnavailable),
            exit_code == options.expected_exit_code && vstd::utf8::valid_utf8(stdout@)
                && canonical_repo_path is Some && !vstd::utf8::valid_utf8(stderr@)
                ==> r matches Err(GitRunError::InvalidUtf8),
            r is Ok <==> (exit_code == options.expected_exit_code && vstd::utf8::valid_utf8(stdout@)
                && canonical_repo_path is Some && vstd::utf8::valid_utf8(stderr@)),
            r matches Ok((out, err)) ==> {
                &&& out@ == preprocessed(
                    vstd::utf8::decode_utf8(stdout@),
                    self.path_to_git@,
                    canonical_repo_path->Some_0@,
                )
                &&& err@ == preprocessed(
                    vstd::utf8::decode_utf8(stderr@),
                    self.path_to_git@,
                    canonical_repo_path->Some_0@,
                )
            },
    {
        if exit_code != options.expected_exit_code {
            return Err(GitRunError::UnexpectedExitCode {
                exit_code,
                expected_exit_code: options.expected_exit_code,
                stdout,
                stderr,
            });
        }
        let out = match string_from_utf8(stdout) {
            Some(s) => s,
            None => return Err(GitRunError::InvalidUtf8),
        };
        let repo = match canonical_repo_path {
            Some(p) => p,
            None => return Err(GitRunError::RepoPathUnavailable),
        };
        let out = self.preprocess_output(out, repo.as_str());
        let err = match string_from_utf8(stderr) {
            Some(s) => s,
            None => return Err(GitRunError::InvalidUtf8),
        };
        let err = self.preprocess_output(err, repo.as_str());
        Ok((out, err))
    }
}

} // verus!

verus! {

/// The environment variable that carries the current event transaction to the
/// hooks that Git calls.
pub const BRANCHLESS_TRANSACTION_ID_ENV_VAR: &'static str = "BRANCHLESS_TRANSACTION_ID";

/// The line printed before Git runs with `args`.
pub open spec fn run_announcement(path_to_git: Seq<char>, args: Seq<Seq<char>>) -> Seq<char> {
    "branchless: "@ + path_to_git + " "@ + join_with(args, " "@)
}

/// The environment of a Git process run for the user: the given variables, then
/// the event transaction, where there is one.
pub open spec fn run_info_env(
    env: Seq<(Seq<char>, Seq<char>)>,
    event_tx_id: Option<isize>,
) -> Seq<(Seq<char>, Seq<char>)> {
    match event_tx_id {
        Some(id) => env.push((BRANCHLESS_TRANSACTION_ID_ENV_VAR@, decimal(id as int))),
        None => env,
    }
}

fn clone_env(env: &Vec<(String, String)>) -> (r: Vec<(String, String)>)
    ensures
        env_views(r@) == env_views(env@),
{
    let mut r: Vec<(String, String)> = Vec::new();
    let mut i: usize = 0;
    while i < env.len()
        invariant
            i <= env.len(),
            env_views(r@) == env_views(env@.take(i as int)),
        decreases env.len() - i,
    {
        let ghost before = r@;
        let (k, v) = &env[i];
        r.push((k.clone(), v.clone()));
        proof {
            assert(env_views(r@) =~= env_views(before).push((env@[i as int].0@, env@[i as int].1@)));
            assert(env_views(env@.take(i + 1)) =~= env_views(env@.take(i as int)).push(
                (env@[i as int].0@, env@[i as int].1@),
            ));
        }
        i += 1;
    }
    assert(env@.take(env.len() as int) =~= env@);
    r
}

fn clone_strings(v: &[String]) -> (r: Vec<String>)
    ensures
        views(r@) == views(v@),
{
    let mut r: Vec<String> = Vec::new();
    let mut i: usize = 0;
    while i < v.len()
        invariant
            i <= v.len(),
            views(r@) == views(v@.take(i as int)),
        decreases v.len() - i,
    {
        let ghost before = r@;
        r.push(v[i].clone());
        proof {
            assert(views(r@) =~= views(before).push(v@[i as int]@));
            assert(views(v@.take(i + 1)) =~= views(v@.take(i as int)).push(v@[i as int]@));
        }
        i += 1;
    }
    assert(v@.take(v.len() as int) =~= v@);
    r
}

impl GitRunInfo {
    /// Lays out a Git run for the user: announced on one line, run in the
    /// working directory with `args` (not including the Git executable itself)
    /// and the given environment, plus the event transaction where there is one.
    /// Such commands may affect the working copy or run hooks.
    pub fn run(&self, event_tx_id: Option<isize>, args: &[String]) -> (cmd: GitCommand)
        ensures
            cmd.announcement matches Some(a) && a@ == run_announcement(self.path_to_git@, views(args@)),
            cmd.program@ == self.path_to_git@,
            cmd.current_dir matches Some(d) && d@ == self.working_directory@,
            views(cmd.args@) == views(args@),
            env_views(cmd.env@) == run_info_env(env_views(self.env@), event_tx_id),
            env_map(env_views(cmd.env@)) == match event_tx_id {
                Some(id) => env_map(env_views(self.env@)).insert(
                    BRANCHLESS_TRANSACTION_ID_ENV_VAR@,
                    decimal(id as int),
                ),
                None => env_map(env_views(self.env@)),
            },
            cmd.input is None,
    {
        let mut announcement = "branchless: ".to_owned();
        announcement.append(self.path_to_git.as_str());
        announcement.append(" ");
        let joined = crate::text::join_strings(args, " ");
        announcement.append(joined.as_str());
        let mut env = clone_env(&self.env);
        match event_tx_id {
            Some(id) => {
                let ghost before = env@;
                env.push((BRANCHLESS_TRANSACTION_ID_ENV_VAR.to_owned(), format_decimal(id as i64)));
                assert(env_views(env@) =~= env_views(before).push(
                    (BRANCHLESS_TRANSACTION_ID_ENV_VAR@, decimal(id as int)),
                ));
                assert(env_views(env@).drop_last() =~= env_views(before));
            },
            None => {},
        }
        GitCommand {
            announcement: Some(announcement),
            program: self.path_to_git.clone(),
            current_dir: Some(self.working_directory.clone()),
            args: clone_strings(args),
            env,
            input: None,
        }
    }

    /// The exit code to report for a finished Git run: Git's own, or 1 where
    /// the process ended without one (terminated by a signal).
    pub fn exit_code_of(code: Option<i32>) -> (r: isize)
        ensures
            r == match code {
                Some(c) => c as int,
                None => 1int,
            },
    {
        match code {
            Some(c) => c as isize,
            None => 1,
        }
    }
}

} // verus!

verus! {

/// Commands run at different times carry different dates, and the same time
/// always gives the same date: the date tells the time apart.
pub proof fn law_commit_date_injective(a: int, b: int)
    requires
        commit_date(a) == commit_date(b),
    ensures
        a == b,
{
    let prefix = DUMMY_DATE@ + " -"@;
    assert(commit_date(a).skip(prefix.len() as int) =~= pad_zeros(decimal(a), 2));
    assert(commit_date(b).skip(prefix.len() as int) =~= pad_zeros(decimal(b), 2));
    crate::text::law_padded_decimal_injective(a, b);
}

/// Output that mentions neither the path to Git nor the repository path (both
/// non-empty) comes through `preprocess_output` unchanged.
pub proof fn law_preprocess_leaves_other_output(output: Seq<char>, path_to_git: Seq<char>, repo_path: Seq<char>)
    requires
        path_to_git.len() > 0,
        repo_path.len() > 0,
        !crate::text::occurs_in(path_to_git, output),
        !crate::text::occurs_in(repo_path, output),
    ensures
        preprocessed(output, path_to_git, repo_path) == output,
{
    crate::text::law_replace_absent(output, path_to_git, "<git-executable>"@);
    crate::text::law_replace_absent(output, repo_path, "<repo-path>"@);
}

} // verus!

verus! {

impl Git {
    /// Determine if Git at `version` supports the `reference-transaction` hook
    /// (introduced in Git 2.29.0).
    pub fn supports_reference_transactions(&self, version: &GitVersion) -> (b: bool)
        ensures
            b == version_le(feature_version(), *version),
    {
        supports_features_of_2_29(version)
    }

    /// Determine if the `--committer-date-is-author-date` option to
    /// `git rebase -i` is respected at `version`. The option was passed only to
    /// the `am` rebase back-end until Git 2.29.0, when it became available for
    /// merge back-end rebases as well.
    pub fn supports_committer_date_is_author_date(&self, version: &GitVersion) -> (b: bool)
        ensures
            b == version_le(feature_version(), *version),
    {
        supports_features_of_2_29(version)
    }
}

} // verus!

verus! {

/// Output is cleaned up line by line: where neither path holds a line break,
/// cleaning two lines joined by a line break gives the two cleaned lines joined
/// by it. So every occurrence of either path is replaced, on every line.
pub proof fn law_preprocess_line_by_line(a: Seq<char>, b: Seq<char>, path_to_git: Seq<char>, repo_path: Seq<char>)
    requires
        path_to_git.len() > 0,
        repo_path.len() > 0,
        !path_to_git.contains('\n'),
        !repo_path.contains('\n'),
    ensures
        preprocessed(a + seq!['\n'] + b, path_to_git, repo_path)
            == preprocessed(a, path_to_git, repo_path) + seq!['\n'] + preprocessed(b, path_to_git, repo_path),
{
    let g = "<git-executable>"@;
    crate::text::law_replace_around(a, '\n', b, path_to_git, g);
    crate::text::law_replace_around(
        replace_all(a, path_to_git, g),
        '\n',
        replace_all(b, path_to_git, g),
        repo_path,
        "<repo-path>"@,
    );
}

/// Output that begins with the repository path (and does not mention Git's
/// path) begins with `<repo-path>` once cleaned, followed by the cleaned rest.
pub proof fn law_leading_repo_path_replaced(repo_path: Seq<char>, s: Seq<char>, path_to_git: Seq<char>)
    requires
        path_to_git.len() > 0,
        repo_path.len() > 0,
        !crate::text::occurs_in(path_to_git, repo_path + s),
    ensures
        preprocessed(repo_path + s, path_to_git, repo_path)
            == "<repo-path>"@ + preprocessed(s, path_to_git, repo_path),
{
    let g = "<git-executable>"@;
    let t = repo_path + s;
    crate::text::law_replace_absent(t, path_to_git, g);
    assert(!crate::text::occurs_in(path_to_git, s)) by {
        if crate::text::occurs_in(path_to_git, s) {
            let i = choose|i: int| 0 <= i && i + path_to_git.len() <= s.len()
                && #[trigger] s.subrange(i, i + path_to_git.len()) == path_to_git;
            let k = i + repo_path.len();
            assert(t.subrange(k, k + path_to_git.len()) =~= s.subrange(i, i + path_to_git.len()));
        }
    }
    crate::text::law_replace_absent(s, path_to_git, g);
    assert(t.take(repo_path.len() as int) =~= repo_path);
    assert(t.skip(repo_path.len() as int) =~= s);
}

} // verus!

verus! {

/// The author date and the committer date of a test command are the same, and
/// the date tells the command's time apart: commands run at different times
/// carry different dates. Nothing else in the environment depends on the time.
pub proof fn law_run_dates(a: int, b: int, path_to_git: Seq<char>, path_env: Seq<char>)
    ensures
        run_env(a, path_to_git, path_env)[0].0 == "GIT_AUTHOR_DATE"@,
        run_env(a, path_to_git, path_env)[1].0 == "GIT_COMMITTER_DATE"@,
        run_env(a, path_to_git, path_env)[0].1 == run_env(a, path_to_git, path_env)[1].1,
        run_env(a, path_to_git, path_env)[0].1 == run_env(b, path_to_git, path_env)[0].1 ==> a == b,
        run_env(a, path_to_git, path_env).len() == run_env(b, path_to_git, path_env).len(),
        forall|i: int| 2 <= i < run_env(a, path_to_git, path_env).len()
            ==> run_env(a, path_to_git, path_env)[i] == run_env(b, path_to_git, path_env)[i],
{
    if run_env(a, path_to_git, path_env)[0].1 == run_env(b, path_to_git, path_env)[0].1 {
        law_commit_date_injective(a, b);
    }
}

} // verus!

verus! {

/// Git's path is replaced first: output that is exactly Git's path cleans to
/// `<git-executable>`, even where the repository path lies inside Git's path
/// (as long as it does not occur in `<git-executable>` itself).
pub proof fn law_git_path_replaced_first(path_to_git: Seq<char>, repo_path: Seq<char>)
    requires
        path_to_git.len() > 0,
        repo_path.len() > 0,
        !crate::text::occurs_in(repo_path, "<git-executable>"@),
    ensures
        preprocessed(path_to_git, path_to_git, repo_path) == "<git-executable>"@,
{
    let g = "<git-executable>"@;
    assert(path_to_git.take(path_to_git.len() as int) =~= path_to_git);
    assert(path_to_git.skip(path_to_git.len() as int) =~= Seq::<char>::empty());
    assert(replace_all(Seq::<char>::empty(), path_to_git, g) == Seq::<char>::empty());
    assert(g + Seq::<char>::empty() =~= g);
    assert(replace_all(path_to_git, path_to_git, g) == g);
    crate::text::law_replace_absent(g, repo_path, "<repo-path>"@);
}

} // verus!
