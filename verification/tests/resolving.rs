use git_branchless::{resolve_commits, Resolution, ResolveCommitsResult, ResolveStep};

fn hashes(v: &[&str]) -> Vec<String> {
    v.iter().map(|s| s.to_string()).collect()
}

#[test]
fn all_commits_found() {
    let r: Result<ResolveCommitsResult<u32>, String> =
        resolve_commits(hashes(&["abc", "HEAD", "main"]), vec![Ok(Some(1)), Ok(Some(2)), Ok(Some(3))]);
    match r {
        Ok(ResolveCommitsResult::Resolved { commits }) => assert_eq!(commits, vec![1, 2, 3]),
        other => panic!("unexpected: {:?}", other),
    }
}

#[test]
fn no_hashes() {
    let r: Result<ResolveCommitsResult<u32>, String> = resolve_commits(vec![], vec![]);
    match r {
        Ok(ResolveCommitsResult::Resolved { commits }) => assert!(commits.is_empty()),
        other => panic!("unexpected: {:?}", other),
    }
}

#[test]
fn first_missing_commit_is_reported() {
    let r: Result<ResolveCommitsResult<u32>, String> = resolve_commits(
        hashes(&["abc", "nope", "gone"]),
        vec![Ok(Some(1)), Ok(None), Ok(None)],
    );
    match r {
        Ok(ResolveCommitsResult::CommitNotFound { commit }) => assert_eq!(commit, "nope"),
        other => panic!("unexpected: {:?}", other),
    }
}

#[test]
fn lookup_errors_end_resolution() {
    let r: Result<ResolveCommitsResult<u32>, String> = resolve_commits(
        hashes(&["abc", "bad", "nope"]),
        vec![Ok(Some(1)), Err("broken".to_string()), Ok(None)],
    );
    assert_eq!(r.unwrap_err(), "broken");
    let missing_first: Result<ResolveCommitsResult<u32>, String> = resolve_commits(
        hashes(&["nope", "bad"]),
        vec![Ok(None), Err("broken".to_string())],
    );
    assert!(matches!(missing_first, Ok(ResolveCommitsResult::CommitNotFound { commit }) if commit == "nope"));
}

/// Drives a resolution, looking strings up in `table`; gives the result and
/// the strings that were looked up, in order.
fn drive(
    hs: &[&str],
    table: &[(&str, Result<Option<u32>, String>)],
) -> (Result<ResolveCommitsResult<u32>, String>, Vec<String>) {
    let mut asked = vec![];
    let mut step: ResolveStep<u32, String> = Resolution::start(hashes(hs));
    loop {
        match step {
            ResolveStep::Done(r) => return (r, asked),
            ResolveStep::Continue(res) => {
                let h = res.next_hash().clone();
                let lookup = table.iter().find(|(k, _)| *k == h).unwrap().1.clone();
                asked.push(h);
                step = res.step(lookup);
            }
        }
    }
}

#[test]
fn stepwise_resolution_stops_at_the_first_failure() {
    let table = [
        ("a", Ok(Some(1))),
        ("b", Ok(None)),
        ("c", Err("broken".to_string())),
        ("d", Ok(Some(4))),
    ];
    let (r, asked) = drive(&["a", "b", "c", "d"], &table);
    assert!(matches!(r, Ok(ResolveCommitsResult::CommitNotFound { commit }) if commit == "b"));
    assert_eq!(asked, vec!["a", "b"]);
    let (r, asked) = drive(&["a", "c", "b"], &table);
    assert_eq!(r.unwrap_err(), "broken");
    assert_eq!(asked, vec!["a", "c"]);
    let (r, asked) = drive(&["d", "a"], &table);
    assert!(matches!(r, Ok(ResolveCommitsResult::Resolved { commits }) if commits == vec![4, 1]));
    assert_eq!(asked, vec!["d", "a"]);
    let (r, asked) = drive(&[], &table);
    assert!(matches!(r, Ok(ResolveCommitsResult::Resolved { commits }) if commits.is_empty()));
    assert!(asked.is_empty());
}
