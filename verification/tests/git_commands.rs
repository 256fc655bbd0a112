use git_branchless::git::format_commit_date;
use git_branchless::paths::join_paths;
use git_branchless::text::{format_decimal, join_strings, pad_zeros_str, replace_all_str};
use git_branchless::{
    Git, GitCommand, GitInitOptions, GitRunError, GitRunInfo, GitRunOptions, GitStep, GitVersion,
    GitVersionParseError, HelperPrograms, PathEnvError, StepRun,
};

fn strings(v: &[&str]) -> Vec<String> {
    v.iter().map(|s| s.to_string()).collect()
}

fn test_git() -> Git {
    Git {
        repo_path: "/tmp/repo".to_string(),
        path_to_git: "/opt/git/bin/git".to_string(),
    }
}

fn helpers() -> HelperPrograms {
    HelperPrograms {
        git_branchless: "/work/target/debug/git-branchless".to_string(),
        sh: "/bin/sh".to_string(),
    }
}

fn env_pairs(cmd: &GitCommand) -> Vec<(&str, &str)> {
    cmd.env.iter().map(|(k, v)| (k.as_str(), v.as_str())).collect()
}

#[test]
fn decimal_formatting() {
    assert_eq!(format_decimal(0), "0");
    assert_eq!(format_decimal(7), "7");
    assert_eq!(format_decimal(-5), "-5");
    assert_eq!(format_decimal(1234), "1234");
    assert_eq!(format_decimal(i64::MIN), i64::MIN.to_string());
    assert_eq!(format_decimal(i64::MAX), i64::MAX.to_string());
}

#[test]
fn zero_padding() {
    assert_eq!(pad_zeros_str("5", 2), "05");
    assert_eq!(pad_zeros_str("12", 2), "12");
    assert_eq!(pad_zeros_str("-3", 2), "-3");
    assert_eq!(pad_zeros_str("", 3), "000");
}

#[test]
fn commit_dates() {
    assert_eq!(format_commit_date(0), "Wed 29 Oct 12:34:56 2020 PDT -00");
    assert_eq!(format_commit_date(5), "Wed 29 Oct 12:34:56 2020 PDT -05");
    assert_eq!(format_commit_date(12), "Wed 29 Oct 12:34:56 2020 PDT -12");
    assert_eq!(format_commit_date(-3), "Wed 29 Oct 12:34:56 2020 PDT --3");
    for t in [-3isize, 0, 5, 12, 123] {
        assert_eq!(
            format_commit_date(t),
            format!("Wed 29 Oct 12:34:56 2020 PDT -{time:0>2}", time = t)
        );
    }
}

#[test]
fn commit_dates_tell_times_apart() {
    let times = [-12isize, -1, 0, 1, 2, 9, 10, 11, 99, 100];
    for a in times {
        for b in times {
            assert_eq!(format_commit_date(a) == format_commit_date(b), a == b);
        }
    }
}

#[test]
fn replacing() {
    assert_eq!(replace_all_str("a-b-c", "-", "+"), "a+b+c");
    assert_eq!(replace_all_str("aaa", "aa", "b"), "ba");
    assert_eq!(replace_all_str("abc", "", "X"), "XaXbXcX");
    assert_eq!(replace_all_str("", "", "X"), "X");
    assert_eq!(replace_all_str("", "a", "X"), "");
    assert_eq!(replace_all_str("héllo wörld", "ö", "oe"), "héllo woerld");
    assert_eq!(replace_all_str("nothing here", "zz", "y"), "nothing here");
    for (s, f, t) in [("abab", "ab", "x"), ("xyzxy", "xy", ""), ("a", "ab", "q")] {
        assert_eq!(replace_all_str(s, f, t), s.replace(f, t));
    }
}

#[test]
fn joining() {
    assert_eq!(join_strings(&strings(&["a", "b", "c"]), ", "), "a, b, c");
    assert_eq!(join_strings(&strings(&[]), " "), "");
    assert_eq!(join_strings(&strings(&["one"]), " "), "one");
}

#[test]
fn joining_paths() {
    assert_eq!(join_paths(&strings(&["/a", "/b/c", "/d"])), Ok("/a:/b/c:/d".to_string()));
    assert_eq!(join_paths(&strings(&["/a", "/b:c", "/d:e"])), Err("/b:c".to_string()));
    let joined = join_paths(&strings(&["/x", "", "/y"])).unwrap();
    let parts: Vec<&str> = joined.split(':').collect();
    assert_eq!(parts, vec!["/x", "", "/y"]);
}

#[test]
fn path_for_env() {
    let git = test_git();
    assert_eq!(git.get_path_for_env(&helpers()), "/work/target/debug:/opt/git/bin:/bin");
    assert_eq!(
        git.check_path_for_env(&helpers()).unwrap(),
        "/work/target/debug:/opt/git/bin:/bin"
    );
    let no_parent = HelperPrograms { git_branchless: "/".to_string(), sh: "/bin/sh".to_string() };
    match git.check_path_for_env(&no_parent) {
        Err(PathEnvError::NoParent { path }) => assert_eq!(path, "/"),
        other => panic!("unexpected: {:?}", other),
    }
    let bad_sh = HelperPrograms {
        git_branchless: "/work/bin/git-branchless".to_string(),
        sh: "/we:ird/sh".to_string(),
    };
    match git.check_path_for_env(&bad_sh) {
        Err(PathEnvError::SeparatorInEntry { entry }) => assert_eq!(entry, "/we:ird"),
        other => panic!("unexpected: {:?}", other),
    }
    let bad_git = Git { repo_path: "/r".to_string(), path_to_git: "git".to_string() };
    // "git" has the empty path as its parent.
    assert_eq!(bad_git.get_path_for_env(&helpers()), "/work/target/debug::/bin");
    let no_git_parent = Git { repo_path: "/r".to_string(), path_to_git: "".to_string() };
    match no_git_parent.check_path_for_env(&helpers()) {
        Err(PathEnvError::NoParent { path }) => assert_eq!(path, ""),
        other => panic!("unexpected: {:?}", other),
    }
}

#[test]
fn run_with_options_lays_out_command() {
    let git = test_git();
    let options = GitRunOptions { time: 3, expected_exit_code: 1, input: Some("yes\n".to_string()) };
    let cmd = git.run_with_options(&strings(&["commit", "-m", "msg"]), &options, &helpers());
    assert_eq!(cmd.announcement, None);
    assert_eq!(cmd.program, "/opt/git/bin/git");
    assert_eq!(cmd.current_dir, None);
    assert_eq!(cmd.args, strings(&["-C", "/tmp/repo", "commit", "-m", "msg"]));
    assert_eq!(
        env_pairs(&cmd),
        vec![
            ("GIT_AUTHOR_DATE", "Wed 29 Oct 12:34:56 2020 PDT -03"),
            ("GIT_COMMITTER_DATE", "Wed 29 Oct 12:34:56 2020 PDT -03"),
            ("GIT_EDITOR", ":"),
            ("PATH_TO_GIT", "/opt/git/bin/git"),
            ("PATH", "/work/target/debug:/opt/git/bin:/bin"),
        ]
    );
    assert_eq!(cmd.input, Some("yes\n".to_string()));
}

#[test]
fn run_uses_default_options() {
    let git = test_git();
    let cmd = git.run(&strings(&["status"]), &helpers());
    assert_eq!(cmd.args, strings(&["-C", "/tmp/repo", "status"]));
    assert_eq!(cmd.env[0].1, "Wed 29 Oct 12:34:56 2020 PDT -00");
    assert_eq!(cmd.input, None);
    let checked = git.try_run(&strings(&["status"]), &helpers()).unwrap();
    assert_eq!(checked.args, cmd.args);
    assert_eq!(checked.env, cmd.env);
    let bad = HelperPrograms { git_branchless: "".to_string(), sh: "/bin/sh".to_string() };
    assert!(matches!(git.try_run(&strings(&["status"]), &bad), Err(PathEnvError::NoParent { .. })));
    let options = GitRunOptions { time: 7, expected_exit_code: 0, input: None };
    assert!(matches!(
        git.try_run_with_options(&strings(&["log"]), &options, &bad),
        Err(PathEnvError::NoParent { .. })
    ));
    let with_time = git.try_run_with_options(&strings(&["log"]), &options, &helpers()).unwrap();
    assert_eq!(with_time.env[1].1, "Wed 29 Oct 12:34:56 2020 PDT -07");
}

#[test]
fn preprocessing_output() {
    let git = test_git();
    let out = git.preprocess_output(
        "/opt/git/bin/git ran in /real/tmp/repo/sub\n".to_string(),
        "/real/tmp/repo",
    );
    assert_eq!(out, "<git-executable> ran in <repo-path>/sub\n");
    let plain = "nothing to see\n".to_string();
    assert_eq!(git.preprocess_output(plain.clone(), "/real/tmp/repo"), plain);
}

#[test]
fn finishing_runs() {
    let git = test_git();
    let options = GitRunOptions::default();
    let repo = Some("/real/repo".to_string());
    let ok = git
        .finish_run(&options, 0, b"at /real/repo\n".to_vec(), b"/opt/git/bin/git: ok".to_vec(), &repo)
        .unwrap();
    assert_eq!(ok, ("at <repo-path>\n".to_string(), "<git-executable>: ok".to_string()));

    match git.finish_run(&options, 2, b"out".to_vec(), b"err".to_vec(), &repo) {
        Err(GitRunError::UnexpectedExitCode { exit_code, expected_exit_code, stdout, stderr }) => {
            assert_eq!((exit_code, expected_exit_code), (2, 0));
            assert_eq!((stdout, stderr), (b"out".to_vec(), b"err".to_vec()));
        }
        other => panic!("unexpected: {:?}", other),
    }
    let expect_one = GitRunOptions { time: 0, expected_exit_code: 1, input: None };
    assert!(git.finish_run(&expect_one, 1, vec![], vec![], &repo).is_ok());
    assert!(matches!(
        git.finish_run(&options, 0, vec![0xff, 0xfe], vec![], &repo),
        Err(GitRunError::InvalidUtf8)
    ));
    assert!(matches!(
        git.finish_run(&options, 0, b"fine".to_vec(), vec![0xc3], &repo),
        Err(GitRunError::InvalidUtf8)
    ));
    assert!(matches!(
        git.finish_run(&options, 0, b"fine".to_vec(), vec![], &None),
        Err(GitRunError::RepoPathUnavailable)
    ));
    let utf8 = git.finish_run(&options, 0, "héllo".as_bytes().to_vec(), vec![], &repo).unwrap();
    assert_eq!(utf8.0, "héllo");
}

#[test]
fn run_info_lays_out_command() {
    let info = GitRunInfo {
        path_to_git: "/usr/bin/git".to_string(),
        working_directory: "/work".to_string(),
        env: vec![("HOME".to_string(), "/home/me".to_string())],
    };
    let cmd = info.run(Some(42), &strings(&["status", "--short"]));
    assert_eq!(cmd.announcement, Some("branchless: /usr/bin/git status --short".to_string()));
    assert_eq!(cmd.program, "/usr/bin/git");
    assert_eq!(cmd.current_dir, Some("/work".to_string()));
    assert_eq!(cmd.args, strings(&["status", "--short"]));
    assert_eq!(
        env_pairs(&cmd),
        vec![("HOME", "/home/me"), ("BRANCHLESS_TRANSACTION_ID", "42")]
    );
    let plain = info.run(None, &strings(&[]));
    assert_eq!(plain.announcement, Some("branchless: /usr/bin/git ".to_string()));
    assert_eq!(env_pairs(&plain), vec![("HOME", "/home/me")]);
    let negative = info.run(Some(-7), &strings(&["log"]));
    assert_eq!(negative.env[1].1, "-7");
}

#[test]
fn exit_codes() {
    assert_eq!(GitRunInfo::exit_code_of(Some(0)), 0);
    assert_eq!(GitRunInfo::exit_code_of(Some(128)), 128);
    assert_eq!(GitRunInfo::exit_code_of(Some(-1)), -1);
    assert_eq!(GitRunInfo::exit_code_of(None), 1);
}

#[test]
fn new_keeps_the_git_path() {
    let info = GitRunInfo {
        path_to_git: "/usr/bin/git".to_string(),
        working_directory: "/elsewhere".to_string(),
        env: vec![],
    };
    let git = Git::new("/tmp/r".to_string(), info);
    assert_eq!(git.repo_path, "/tmp/r");
    assert_eq!(git.path_to_git, "/usr/bin/git");
}

#[test]
fn default_options() {
    let init = GitInitOptions::default();
    assert!(init.make_initial_commit);
    assert!(init.run_branchless_init);
    let run = GitRunOptions::default();
    assert_eq!(run.time, 0);
    assert_eq!(run.expected_exit_code, 0);
    assert_eq!(run.input, None);
}

#[test]
fn feature_versions() {
    let git = test_git();
    for (v, expected) in [
        (GitVersion(2, 28, 9), false),
        (GitVersion(2, 29, 0), true),
        (GitVersion(2, 29, -1), false),
        (GitVersion(2, 30, 0), true),
        (GitVersion(3, 0, 0), true),
        (GitVersion(1, 99, 99), false),
    ] {
        assert_eq!(git.supports_reference_transactions(&v), expected);
        assert_eq!(git.supports_committer_date_is_author_date(&v), expected);
    }
    assert!(GitVersion(2, 30, 1).is_at_least(&GitVersion(2, 30, 1)));
    assert!(!GitVersion(2, 30, 1).is_at_least(&GitVersion(2, 31, 0)));
}

fn run_step(step: &GitStep) -> (Vec<String>, isize) {
    match step {
        GitStep::Run { args, options } => {
            assert_eq!(options.expected_exit_code, 0);
            assert_eq!(options.input, None);
            (args.clone(), options.time)
        }
        other => panic!("not a run: {:?}", other),
    }
}

#[test]
fn commit_file_steps() {
    let git = test_git();
    let steps = git.commit_file("foo", 4);
    assert_eq!(steps.len(), 4);
    match &steps[0] {
        GitStep::WriteFile { path, contents } => {
            assert_eq!(path, "/tmp/repo/foo.txt");
            assert_eq!(contents, "foo contents\n");
        }
        other => panic!("unexpected: {:?}", other),
    }
    assert_eq!(run_step(&steps[1]), (strings(&["add", "."]), 0));
    assert_eq!(run_step(&steps[2]), (strings(&["commit", "-m", "create foo.txt"]), 4));
    assert!(matches!(steps[3], GitStep::ReadHeadOid));

    let custom = git.commit_file_with_contents("bar", 1, "hello");
    match &custom[0] {
        GitStep::WriteFile { path, contents } => {
            assert_eq!(path, "/tmp/repo/bar.txt");
            assert_eq!(contents, "hello");
        }
        other => panic!("unexpected: {:?}", other),
    }
}

#[test]
fn init_repo_steps() {
    let git = test_git();
    let steps = git.init_repo();
    assert_eq!(steps.len(), 9);
    assert_eq!(run_step(&steps[0]), (strings(&["init"]), 0));
    assert_eq!(run_step(&steps[1]), (strings(&["config", "user.name", "Testy McTestface"]), 0));
    assert_eq!(run_step(&steps[2]), (strings(&["config", "user.email", "test@example.com"]), 0));
    match &steps[3] {
        GitStep::WriteFile { path, contents } => {
            assert_eq!(path, "/tmp/repo/initial.txt");
            assert_eq!(contents, "initial contents\n");
        }
        other => panic!("unexpected: {:?}", other),
    }
    assert_eq!(run_step(&steps[5]), (strings(&["commit", "-m", "create initial.txt"]), 0));
    assert!(matches!(steps[6], GitStep::ReadHeadOid));
    assert_eq!(
        run_step(&steps[7]),
        (strings(&["config", "branchless.commitMetadata.relativeTime", "false"]), 0)
    );
    assert_eq!(run_step(&steps[8]), (strings(&["branchless", "init"]), 0));

    let bare = git.init_repo_with_options(&GitInitOptions {
        make_initial_commit: false,
        run_branchless_init: false,
    });
    assert_eq!(bare.len(), 4);
    assert_eq!(run_step(&bare[3]).0, strings(&["config", "branchless.commitMetadata.relativeTime", "false"]));

    let commit_only = git.init_repo_with_options(&GitInitOptions {
        make_initial_commit: true,
        run_branchless_init: false,
    });
    assert_eq!(commit_only.len(), 8);
}

#[test]
fn other_steps() {
    let git = test_git();
    let detach = git.detach_head();
    assert_eq!(detach.len(), 1);
    assert_eq!(run_step(&detach[0]), (strings(&["checkout", "--detach"]), 0));

    let resolve = git.resolve_file("conflict", "merged\n");
    assert_eq!(resolve.len(), 2);
    match &resolve[0] {
        GitStep::WriteFile { path, contents } => {
            assert_eq!(path, "/tmp/repo/conflict.txt");
            assert_eq!(contents, "merged\n");
        }
        other => panic!("unexpected: {:?}", other),
    }
    assert_eq!(run_step(&resolve[1]), (strings(&["add", "/tmp/repo/conflict.txt"]), 0));

    match git.write_file("x", "y") {
        GitStep::WriteFile { path, contents } => {
            assert_eq!(path, "/tmp/repo/x.txt");
            assert_eq!(contents, "y");
        }
        other => panic!("unexpected: {:?}", other),
    }
}

#[test]
fn run_info_environment_overrides() {
    let info = GitRunInfo {
        path_to_git: "/usr/bin/git".to_string(),
        working_directory: "/work".to_string(),
        env: vec![
            ("BRANCHLESS_TRANSACTION_ID".to_string(), "1".to_string()),
            ("HOME".to_string(), "/h".to_string()),
        ],
    };
    let cmd = info.run(Some(9), &strings(&["status"]));
    let last_value = cmd
        .env
        .iter()
        .filter(|(k, _)| k == "BRANCHLESS_TRANSACTION_ID")
        .last()
        .map(|(_, v)| v.clone());
    assert_eq!(last_value, Some("9".to_string()));
}

#[test]
fn absolute_file_names_replace_the_repository() {
    let git = test_git();
    match git.write_file("/elsewhere/x", "y") {
        GitStep::WriteFile { path, .. } => assert_eq!(path, "/elsewhere/x.txt"),
        other => panic!("unexpected: {:?}", other),
    }
    let slashed = Git { repo_path: "/tmp/repo/".to_string(), path_to_git: "/usr/bin/git".to_string() };
    match slashed.write_file("x", "y") {
        GitStep::WriteFile { path, .. } => assert_eq!(path, "/tmp/repo/x.txt"),
        other => panic!("unexpected: {:?}", other),
    }
    let relative = Git { repo_path: "".to_string(), path_to_git: "/usr/bin/git".to_string() };
    match relative.write_file("x", "y") {
        GitStep::WriteFile { path, .. } => assert_eq!(path, "x.txt"),
        other => panic!("unexpected: {:?}", other),
    }
}

#[test]
fn step_runs_stop_at_the_first_failure() {
    let git = test_git();
    let mut run: StepRun<u32> = StepRun::start(git.commit_file("foo", 1));
    let mut taken = 0;
    let failed = loop {
        match run.next_step() {
            None => break None,
            Some(_) => {
                taken += 1;
                let outcome: Result<Option<u32>, String> =
                    if taken == 2 { Err("add failed".to_string()) } else { Ok(None) };
                match run.record(outcome) {
                    Ok(next) => run = next,
                    Err(e) => break Some(e),
                }
            }
        }
    };
    assert_eq!(failed, Some("add failed".to_string()));
    assert_eq!(taken, 2);
}

#[test]
fn step_runs_give_the_head_oid() {
    let git = test_git();
    let mut run: StepRun<u32> = StepRun::start(git.commit_file("foo", 1));
    let mut i = 0;
    while let Some(step) = run.next_step() {
        let outcome: Result<Option<u32>, String> = match step {
            GitStep::ReadHeadOid => Ok(Some(77)),
            _ => Ok(None),
        };
        i += 1;
        run = run.record(outcome).unwrap();
    }
    assert_eq!(i, 4);
    assert_eq!(run.finish(), Some(77));
    let empty: StepRun<u32> = StepRun::start(vec![]);
    assert!(empty.next_step().is_none());
    assert_eq!(empty.finish(), None);
}

#[test]
fn git_version_output() {
    assert_eq!(GitVersion::parse("git version 2.39.2\n"), Ok(GitVersion(2, 39, 2)));
    assert_eq!(GitVersion::parse("  git version 12.34.56.78.abcdef  "), Ok(GitVersion(12, 34, 56)));
    assert_eq!(GitVersion::parse("git version 2.33.GIT"), Ok(GitVersion(2, 33, 0)));
    assert_eq!(
        GitVersion::parse("git version 2.37.1 (Apple Git-137.1)"),
        Ok(GitVersion(2, 37, 1))
    );
    assert_eq!(GitVersion::parse("git version 2.30.1-rc0"), Ok(GitVersion(2, 30, 1)));
    assert_eq!(GitVersion::parse("git version"), Err(GitVersionParseError::Output));
    assert_eq!(GitVersion::parse("git version 2.30"), Err(GitVersionParseError::VersionString));
    assert_eq!(GitVersion::parse("git version x.30.1"), Err(GitVersionParseError::Number));
    assert_eq!(
        GitVersion::parse("git version 99999999999999999999.1.1"),
        Err(GitVersionParseError::Number)
    );
    assert_eq!(GitVersion::parse("git version +2.+3.+4"), Ok(GitVersion(2, 3, 4)));
    assert_eq!(GitVersion::parse("git version +2.-3.+4"), Err(GitVersionParseError::VersionString));
    assert_eq!(GitVersion::parse("git version 2.+.1"), Err(GitVersionParseError::Number));
    let git = test_git();
    let v = GitVersion::parse("git version 2.29.0").unwrap();
    assert!(git.supports_reference_transactions(&v));
    assert!(git.supports_committer_date_is_author_date(&v));
}
