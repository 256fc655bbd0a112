//! Multi-step test operations (setting up a repository, committing a file),
//! laid out as the list of steps to take in order; a step that fails ends the
//! operation.

use vstd::prelude::*;
use crate::git::{Git, DUMMY_EMAIL, DUMMY_NAME};
use crate::options::{GitInitOptions, GitRunOptions};
use crate::paths::{path_join, path_joined};
use crate::text::views;

verus! {

/// One step of a test operation.
#[derive(Debug)]
pub enum GitStep {
    /// Run Git with these arguments and options (see `Git::run_with_options`).
    Run { args: Vec<String>, options: GitRunOptions },
    /// Write `contents` to the file at `path`.
    WriteFile { path: String, contents: String },
    /// Read the object id of the commit that `HEAD` points to; the operation
    /// gives it back.
    ReadHeadOid,
}

/// A step, as a value.
pub enum StepView {
    Run { args: Seq<Seq<char>>, time: int, expected_exit_code: int, input: Option<Seq<char>> },
    WriteFile { path: Seq<char>, contents: Seq<char> },
    ReadHeadOid,
}

impl View for GitStep {
    type V = StepView;

    open spec fn view(&self) -> StepView {
        match self {
            GitStep::Run { args, options } => StepView::Run {
                args: views(args@),
                time: options.time as int,
                expected_exit_code: options.expected_exit_code as int,
                input: match options.input {
                    Some(s) => Some(s@),
                    None => None,
                },
            },
            GitStep::WriteFile { path, contents } => StepView::WriteFile {
                path: path@,
                contents: contents@,
            },
            GitStep::ReadHeadOid => StepView::ReadHeadOid,
        }
    }
}

/// The values of a list of steps.
pub open spec fn step_views(steps: Seq<GitStep>) -> Seq<StepView> {
    steps.map_values(|s: GitStep| s@)
}

/// Running Git with `args` and the default options.
pub open spec fn default_run(args: Seq<Seq<char>>) -> StepView {
    StepView::Run { args, time: 0, expected_exit_code: 0, input: None }
}

/// The file `<name>.txt` in the repository.
pub open spec fn file_path(repo_path: Seq<char>, name: Seq<char>) -> Seq<char> {
    path_joined(repo_path, name + ".txt"@)
}

/// The steps that commit `contents` as `<name>.txt` at `time`.
pub open spec fn commit_file_with_contents_plan(
    repo_path: Seq<char>,
    name: Seq<char>,
    time: int,
    contents: Seq<char>,
) -> Seq<StepView> {
    seq![
        StepView::WriteFile { path: file_path(repo_path, name), contents },
        default_run(seq!["add"@, "."@]),
        StepView::Run {
            args: seq!["commit"@, "-m"@, "create "@ + name + ".txt"@],
            time,
            expected_exit_code: 0,
            input: None,
        },
        StepView::ReadHeadOid,
    ]
}

/// The default contents of `<name>.txt`.
pub open spec fn default_contents(name: Seq<char>) -> Seq<char> {
    name + " contents\n"@
}

/// The steps that set up a repository.
pub open spec fn init_repo_plan(
    repo_path: Seq<char>,
    make_initial_commit: bool,
    run_branchless_init: bool,
) -> Seq<StepView> {
    seq![
        default_run(seq!["init"@]),
        default_run(seq!["config"@, "user.name"@, DUMMY_NAME@]),
        default_run(seq!["config"@, "user.email"@, DUMMY_EMAIL@]),
    ] + (if make_initial_commit {
        commit_file_with_contents_plan(repo_path, "initial"@, 0, default_contents("initial"@))
    } else {
        Seq::empty()
    }) + seq![default_run(seq!["config"@, "branchless.commitMetadata.relativeTime"@, "false"@])]
        + (if run_branchless_init {
        seq![default_run(seq!["branchless"@, "init"@])]
    } else {
        Seq::empty()
    })
}

fn args1(a: &str) -> (v: Vec<String>)
    ensures
        views(v@) == seq![a@],
{
    let v = vec![a.to_owned()];
    assert(views(v@) =~= seq![a@]);
    v
}

fn args2(a: &str, b: &str) -> (v: Vec<String>)
    ensures
        views(v@) == seq![a@, b@],
{
    let v = vec![a.to_owned(), b.to_owned()];
    assert(views(v@) =~= seq![a@, b@]);
    v
}

fn args3(a: &str, b: &str, c: &str) -> (v: Vec<String>)
    ensures
        views(v@) == seq![a@, b@, c@],
{
    let v = vec![a.to_owned(), b.to_owned(), c.to_owned()];
    assert(views(v@) =~= seq![a@, b@, c@]);
    v
}

fn run_step(args: Vec<String>, time: isize) -> (s: GitStep)
    ensures
        s@ == (StepView::Run { args: views(args@), time: time as int, expected_exit_code: 0, input: None }),
{
    GitStep::Run { args, options: GitRunOptions { time, expected_exit_code: 0, input: None } }
}

impl Git {
    fn file_path(&self, name: &str) -> (p: String)
        ensures
            p@ == file_path(self.repo_path@, name@),
    {
        let mut file_name = name.to_owned();
        file_name.append(".txt");
        path_join(self.repo_path.as_str(), file_name.as_str())
    }

    /// Write the provided contents to the provided file in the repository root.
    pub fn write_file(&self, name: &str, contents: &str) -> (s: GitStep)
        ensures
            s@ == (StepView::WriteFile { path: file_path(self.repo_path@, name@), contents: contents@ }),
    {
        GitStep::WriteFile { path: self.file_path(name), contents: contents.to_owned() }
    }

    /// Commit a file with the given contents. The `time` argument is used to
    /// set the commit timestamp, which is factored into the commit hash.
    pub fn commit_file_with_contents(&self, name: &str, time: isize, contents: &str) -> (steps: Vec<GitStep>)
        ensures
            step_views(steps@) == commit_file_with_contents_plan(self.repo_path@, name@, time as int, contents@),
    {
        let mut message = "create ".to_owned();
        message.append(name);
        message.append(".txt");
        let steps = vec![
            self.write_file(name, contents),
            run_step(args2("add", "."), 0),
            run_step(args3("commit", "-m", message.as_str()), time),
            GitStep::ReadHeadOid,
        ];
        assert(step_views(steps@) =~= commit_file_with_contents_plan(
            self.repo_path@,
            name@,
            time as int,
            contents@,
        ));
        steps
    }

    /// Commit a file with default contents. The `time` argument is used to set
    /// the commit timestamp, which is factored into the commit hash.
    pub fn commit_file(&self, name: &str, time: isize) -> (steps: Vec<GitStep>)
        ensures
            step_views(steps@) == commit_file_with_contents_plan(
                self.repo_path@,
                name@,
                time as int,
                default_contents(name@),
            ),
    {
        let mut contents = name.to_owned();
        contents.append(" contents\n");
        self.commit_file_with_contents(name, time, contents.as_str())
    }

    /// Set up a Git repo in the directory and initialize git-branchless to work
    /// with it.
    pub fn init_repo_with_options(&self, options: &GitInitOptions) -> (steps: Vec<GitStep>)
        ensures
            step_views(steps@) == init_repo_plan(
                self.repo_path@,
                options.make_initial_commit,
                options.run_branchless_init,
            ),
    {
        let mut steps = vec![
            run_step(args1("init"), 0),
            run_step(args3("config", "user.name", DUMMY_NAME), 0),
            run_step(args3("config", "user.email", DUMMY_EMAIL), 0),
        ];
        let ghost first = step_views(steps@);
        if options.make_initial_commit {
            let mut commit = self.commit_file("initial", 0);
            proof { reveal_strlit("initial"); }
            let ghost c = step_views(commit@);
            steps.append(&mut commit);
            assert(step_views(steps@) =~= first + c);
        }
        let ghost second = step_views(steps@);
        steps.push(run_step(
            args3("config", "branchless.commitMetadata.relativeTime", "false"),
            0,
        ));
        let ghost third = step_views(steps@);
        assert(third =~= second.push(steps@.last()@));
        if options.run_branchless_init {
            steps.push(run_step(args2("branchless", "init"), 0));
            assert(step_views(steps@) =~= third.push(steps@.last()@));
        }
        assert(step_views(steps@) =~= init_repo_plan(
            self.repo_path@,
            options.make_initial_commit,
            options.run_branchless_init,
        ));
        steps
    }

    /// Set up a Git repo in the directory and initialize git-branchless to work
    /// with it, with the default options.
    pub fn init_repo(&self) -> (steps: Vec<GitStep>)
        ensures
            step_views(steps@) == init_repo_plan(self.repo_path@, true, true),
    {
        self.init_repo_with_options(&GitInitOptions::default())
    }

    /// Detach HEAD. This is useful to call to make sure that no branch is
    /// checked out, and therefore that future commit operations don't move any
    /// branches.
    pub fn detach_head(&self) -> (steps: Vec<GitStep>)
        ensures
            step_views(steps@) == seq![default_run(seq!["checkout"@, "--detach"@])],
    {
        let steps = vec![run_step(args2("checkout", "--detach"), 0)];
        assert(step_views(steps@) =~= seq![default_run(seq!["checkout"@, "--detach"@])]);
        steps
    }

    /// Resolve a file during a merge or rebase conflict with the provided
    /// contents: write it, then add it.
    pub fn resolve_file(&self, name: &str, contents: &str) -> (steps: Vec<GitStep>)
        ensures
            step_views(steps@) == seq![
                StepView::WriteFile { path: file_path(self.repo_path@, name@), contents: contents@ },
                default_run(seq!["add"@, file_path(self.repo_path@, name@)]),
            ],
    {
        let path = self.file_path(name);
        let steps = vec![
            GitStep::WriteFile { path: path.clone(), contents: contents.to_owned() },
            run_step(args2("add", path.as_str()), 0),
        ];
        assert(step_views(steps@) =~= seq![
            StepView::WriteFile { path: file_path(self.repo_path@, name@), contents: contents@ },
            default_run(seq!["add"@, file_path(self.repo_path@, name@)]),
        ]);
        steps
    }
}

/// A test operation under way: its steps, how many of them have succeeded so
/// far (the first ones, in order), and the object id the last `ReadHeadOid`
/// step read, if any. A failed step ends the operation: `record` then gives
/// back the failure, and no run is left from which to take a later step.
pub struct StepRun<O> {
    steps: Vec<GitStep>,
    done: usize,
    head_oid: Option<O>,
}

impl<O> StepRun<O> {
    #[verifier::type_invariant]
    spec fn inv(self) -> bool {
        self.done <= self.steps@.len()
    }

    /// The steps of the operation.
    pub closed spec fn steps(self) -> Seq<GitStep> {
        self.steps@
    }

    /// How many steps have succeeded: the first ones, in order.
    pub closed spec fn done(self) -> nat {
        self.done as nat
    }

    /// The object id that the last `ReadHeadOid` step read, if any.
    pub closed spec fn head_oid(self) -> Option<O> {
        self.head_oid
    }

    /// Begins an operation made of `steps`.
    pub fn start(steps: Vec<GitStep>) -> (r: StepRun<O>)
        ensures
            r.steps() == steps@,
            r.done() == 0,
            r.head_oid() is None,
    {
        StepRun { steps, done: 0, head_oid: None }
    }

    /// The step to take next: the first that has not succeeded yet, or nothing
    /// once all have.
    pub fn next_step(&self) -> (s: Option<&GitStep>)
        ensures
            self.done() <= self.steps().len(),
            self.done() < self.steps().len() ==> s == Some(&self.steps()[self.done() as int]),
            self.done() == self.steps().len() ==> s is None,
    {
        proof {
            use_type_invariant(self);
        }
        if self.done < self.steps.len() {
            Some(&self.steps[self.done])
        } else {
            None
        }
    }

    /// Takes the outcome of the step that `next_step` gave: a failure ends the
    /// operation with that failure; a success counts the step, and an object id
    /// that it read replaces the one kept so far.
    pub fn record<E>(self, outcome: Result<Option<O>, E>) -> (r: Result<StepRun<O>, E>)
        requires
            self.done() < self.steps().len(),
        ensures
            match outcome {
                Err(e) => r == Err::<StepRun<O>, E>(e),
                Ok(read) => (r matches Ok(next) && next.steps() == self.steps() && next.done() == self.done() + 1
                    && next.head_oid() == (if read is Some { read } else { self.head_oid() })),
            },
    {
        proof {
            use_type_invariant(&self);
        }
        let StepRun { steps, done, head_oid } = self;
        let total = steps.len();
        assert(done < total);
        match outcome {
            Err(e) => Err(e),
            Ok(read) => {
                let head_oid = match read {
                    Some(oid) => Some(oid),
                    None => head_oid,
                };
                Ok(StepRun { steps, done: done + 1, head_oid })
            },
        }
    }

    /// Ends an operation whose steps have all succeeded, giving the object id
    /// that the last `ReadHeadOid` step read, if any.
    pub fn finish(self) -> (oid: Option<O>)
        requires
            self.done() == self.steps().len(),
        ensures
            oid == self.head_oid(),
    {
        self.head_oid
    }
}

} // verus!

verus! {

/// Setting up a repository runs `git branchless init` as its last step exactly
/// when asked to, whether or not an initial commit is made; the initial commit
/// adds its four steps, and the three steps that name the committer always come
/// first.
pub proof fn law_init_repo_steps(repo_path: Seq<char>, make_initial_commit: bool, run_branchless_init: bool)
    ensures
        (init_repo_plan(repo_path, make_initial_commit, run_branchless_init).last()
            == default_run(seq!["branchless"@, "init"@])) <==> run_branchless_init,
        init_repo_plan(repo_path, make_initial_commit, run_branchless_init).len()
            == 4 + (if make_initial_commit { 4int } else { 0int }) + (if run_branchless_init { 1int } else { 0int }),
        init_repo_plan(repo_path, make_initial_commit, run_branchless_init).take(3)
            == init_repo_plan(repo_path, !make_initial_commit, !run_branchless_init).take(3),
{
    let p = init_repo_plan(repo_path, make_initial_commit, run_branchless_init);
    let q = init_repo_plan(repo_path, !make_initial_commit, !run_branchless_init);
    let relative_time = default_run(seq!["config"@, "branchless.commitMetadata.relativeTime"@, "false"@]);
    let init = default_run(seq!["branchless"@, "init"@]);
    assert(relative_time != init) by {
        assert(seq!["config"@, "branchless.commitMetadata.relativeTime"@, "false"@].len() == 3);
    }
    assert(p.take(3) =~= q.take(3));
}

/// Committing a file at `time` runs the `commit` step at that time, and only
/// that step: the other commands run at time 0. Commits made at different times
/// are made by different steps.
pub proof fn law_commit_step_time(repo_path: Seq<char>, name: Seq<char>, time: int, other: int, contents: Seq<char>)
    ensures
        commit_file_with_contents_plan(repo_path, name, time, contents)[2] matches StepView::Run {
            args,
            time: t,
            ..
        } && args[0] == "commit"@ && t == time,
        commit_file_with_contents_plan(repo_path, name, time, contents)[1] matches StepView::Run {
            time: t,
            ..
        } && t == 0,
        commit_file_with_contents_plan(repo_path, name, time, contents)
            == commit_file_with_contents_plan(repo_path, name, other, contents) ==> time == other,
{
    let p = commit_file_with_contents_plan(repo_path, name, time, contents);
    let q = commit_file_with_contents_plan(repo_path, name, other, contents);
    if p == q {
        assert(p[2] == q[2]);
    }
}

} // verus!
