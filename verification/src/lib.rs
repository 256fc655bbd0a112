//! Helpers for driving the `git` executable in tests of git-branchless: how
//! commands are laid out, the environment they run in, how their output is
//! checked and cleaned up, which steps set up a repository, and which versions
//! of Git support which features; and the resolution of strings that name
//! commits.
//!
//! Starting processes, touching the file system and reading the environment
//! are left to the caller: the functions here take what those gave and say
//! what to do next.

pub mod git;
pub mod options;
pub mod paths;
pub mod resolve;
pub mod steps;
pub mod text;
pub mod version;

pub use git::{
    Git, GitCommand, GitRunError, GitRunInfo, HelperPrograms, PathEnvError,
    BRANCHLESS_TRANSACTION_ID_ENV_VAR, DUMMY_DATE, DUMMY_EMAIL, DUMMY_NAME,
};
pub use options::{GitInitOptions, GitRunOptions};
pub use resolve::{resolve_commits, ResolveCommitsResult, ResolveStep, Resolution};
pub use steps::{GitStep, StepRun};
pub use version::{GitVersion, GitVersionParseError};
