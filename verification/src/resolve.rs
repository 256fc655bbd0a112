//! Resolving strings that refer to commits (full or short object ids,
//! reference names) to commits.

use vstd::prelude::*;

verus! {

/// The result of attempting to resolve commits.
#[derive(Debug)]
pub enum ResolveCommitsResult<C> {
    /// All commits were successfully resolved.
    Resolved {
        /// The resolved commits, in the order that they were passed in.
        commits: Vec<C>,
    },
    /// The first commit which couldn't be resolved.
    CommitNotFound {
        /// The identifier of the commit, as provided by the user.
        commit: String,
    },
}

/// Whether a lookup found a commit.
pub open spec fn found<C, E>(lookup: Result<Option<C>, E>) -> bool {
    lookup matches Ok(Some(_))
}

/// Whether every lookup before `k` found a commit.
pub open spec fn all_found_before<C, E>(lookups: Seq<Result<Option<C>, E>>, k: int) -> bool {
    forall|j: int| 0 <= j < k ==> found(#[trigger] lookups[j])
}

/// The commits that the lookups found, in order.
pub open spec fn found_commits<C, E>(lookups: Seq<Result<Option<C>, E>>) -> Seq<C> {
    lookups.map_values(|l: Result<Option<C>, E>| l->Ok_0->Some_0)
}

/// A resolution under way: the strings to resolve, and the commits found for
/// the first of them so far. Strings are looked up one at a time, in order.
pub struct Resolution<C> {
    hashes: Vec<String>,
    commits: Vec<C>,
}

/// What a resolution asks for next.
pub enum ResolveStep<C, E> {
    /// Look up `next_hash()` of this resolution, and hand the outcome to `step`.
    Continue(Resolution<C>),
    /// The resolution is over, with this result.
    Done(Result<ResolveCommitsResult<C>, E>),
}

impl<C> Resolution<C> {
    #[verifier::type_invariant]
    spec fn inv(self) -> bool {
        self.commits@.len() < self.hashes@.len()
    }

    /// The strings to resolve.
    pub closed spec fn hashes(self) -> Seq<String> {
        self.hashes@
    }

    /// The commits found so far, for the first strings in order.
    pub closed spec fn commits(self) -> Seq<C> {
        self.commits@
    }

    /// Begins resolving `hashes`: with no strings the result is at once an
    /// empty list of commits; otherwise the first string is to be looked up.
    pub fn start<E>(hashes: Vec<String>) -> (r: ResolveStep<C, E>)
        ensures
            hashes@.len() == 0 ==> (r matches ResolveStep::Done(Ok(ResolveCommitsResult::Resolved { commits }))
                && commits@.len() == 0),
            hashes@.len() > 0 ==> (r matches ResolveStep::Continue(res) && res.hashes() == hashes@
                && res.commits().len() == 0),
    {
        if hashes.len() == 0 {
            ResolveStep::Done(Ok(ResolveCommitsResult::Resolved { commits: Vec::new() }))
        } else {
            ResolveStep::Continue(Resolution { hashes, commits: Vec::new() })
        }
    }

    /// The string to look up next: the first one for which no commit has been
    /// found yet.
    pub fn next_hash(&self) -> (h: &String)
        ensures
            self.commits().len() < self.hashes().len(),
            *h == self.hashes()[self.commits().len() as int],
    {
        proof {
            use_type_invariant(self);
        }
        &self.hashes[self.commits.len()]
    }

    /// Takes the outcome of looking up `next_hash()`: a failed lookup ends the
    /// resolution with its error, a string that names no commit ends it with
    /// that string, and a found commit is kept; once every string has its
    /// commit, the resolution ends with all of them, in order.
    pub fn step<E>(self, lookup: Result<Option<C>, E>) -> (r: ResolveStep<C, E>)
        ensures
            self.commits().len() < self.hashes().len(),
            match lookup {
                Err(e) => r == ResolveStep::<C, E>::Done(Err(e)),
                Ok(None) => (r matches ResolveStep::Done(Ok(ResolveCommitsResult::CommitNotFound { commit }))
                    && commit == self.hashes()[self.commits().len() as int]),
                Ok(Some(c)) => if self.commits().len() + 1 == self.hashes().len() {
                    (r matches ResolveStep::Done(Ok(ResolveCommitsResult::Resolved { commits }))
                        && commits@ == self.commits().push(c))
                } else {
                    (r matches ResolveStep::Continue(next) && next.hashes() == self.hashes()
                        && next.commits() == self.commits().push(c))
                },
            },
    {
        proof {
            use_type_invariant(&self);
        }
        let Resolution { hashes, mut commits } = self;
        match lookup {
            Err(e) => ResolveStep::Done(Err(e)),
            Ok(None) => {
                let i = commits.len();
                let mut hashes = hashes;
                let commit = hashes.swap_remove(i);
                ResolveStep::Done(Ok(ResolveCommitsResult::CommitNotFound { commit }))
            },
            Ok(Some(c)) => {
                commits.push(c);
                if commits.len() == hashes.len() {
                    ResolveStep::Done(Ok(ResolveCommitsResult::Resolved { commits }))
                } else {
                    ResolveStep::Continue(Resolution { hashes, commits })
                }
            },
        }
    }
}

/// Resolves the strings `hashes`, given what looking each of them up in the
/// repository gave (`lookups[i]` for `hashes[i]`), by taking the lookups in
/// order through a `Resolution`: a failed lookup ends the resolution with its
/// error; otherwise the first string that names no commit is reported;
/// otherwise all the commits come back, in order. Lookups after the one that
/// ends the resolution are not used.
pub fn resolve_commits<C, E>(hashes: Vec<String>, lookups: Vec<Result<Option<C>, E>>) -> (r: Result<ResolveCommitsResult<C>, E>)
    requires
        hashes.len() == lookups.len(),
    ensures
        all_found_before(lookups@, lookups@.len() as int) ==> (r matches Ok(ResolveCommitsResult::Resolved { commits })
            && commits@ == found_commits(lookups@)),
        forall|k: int| 0 <= k < lookups@.len() && all_found_before(lookups@, k) && !found(#[trigger] lookups@[k])
            ==> match lookups@[k] {
                Err(e) => r == Err::<ResolveCommitsResult<C>, E>(e),
                Ok(_) => (r matches Ok(ResolveCommitsResult::CommitNotFound { commit }) && commit == hashes@[k]),
            },
{
    let ghost hs = hashes@;
    let ghost ls = lookups@;
    let n = lookups.len();
    let mut lookups = lookups;
    let mut state: ResolveStep<C, E> = Resolution::start(hashes);
    let mut i: usize = 0;
    assert(ls.take(0) =~= Seq::<Result<Option<C>, E>>::empty());
    #[verifier::loop_isolation(false)]
    loop
        invariant
            n == ls.len(),
            n == hs.len(),
            i <= n,
            lookups@ == ls.skip(i as int),
            all_found_before(ls, i as int),
            match state {
                ResolveStep::Continue(res) => res.hashes() == hs && res.commits() == found_commits(ls.take(i as int))
                    && i < n,
                ResolveStep::Done(res) => i == n && (res matches Ok(ResolveCommitsResult::Resolved { commits })
                    && commits@ == found_commits(ls.take(i as int))),
            },
        decreases n - i,
    {
        match state {
            ResolveStep::Done(res) => {
                assert(ls.take(n as int) =~= ls);
                return res;
            },
            ResolveStep::Continue(res) => {
                let lookup = lookups.remove(0);
                assert(lookups@ =~= ls.skip(i + 1));
                assert(found_commits(ls.take(i + 1)) =~= found_commits(ls.take(i as int)).push(
                    ls[i as int]->Ok_0->Some_0,
                ));
                match res.step(lookup) {
                    ResolveStep::Continue(next) => {
                        state = ResolveStep::Continue(next);
                    },
                    ResolveStep::Done(r) => {
                        proof {
                            if found(ls[i as int]) {
                                assert(i + 1 == n);
                                assert(ls.take(n as int) =~= ls);
                            }
                        }
                        return r;
                    },
                }
                i += 1;
            },
        }
    }
}

} // verus!
