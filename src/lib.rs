//! A mirror-and-blame cache engine: per-line authorship of a file at a commit
//! of a remote repository, computed on a local mirror of the repository and
//! kept in a cache keyed by commit and path.
//!
//! A request is a [`Resolver`], a state machine that asks its surroundings for
//! one action at a time (a cache lookup, a clone, a fetch, a blame, ...) and
//! takes the report on it as an event. The laws of the engine are proved in
//! [`laws`] over a model of those surroundings, [`world::World`].

use vstd::prelude::*;

pub mod blame;
pub mod github;
pub mod laws;
pub mod repo_id;
pub mod resolver;
pub mod session_cookie;
pub mod world;

pub use blame::{count_lines, expand_hunks, BlameHunk, BlameLine};
pub use github::{GitHubAuth, GitHubNodeId, GitHubUserId};
pub use session_cookie::{cookie, SameSite, SessionCookie};
pub use resolver::{Action, BlameOutput, Event, Phase, Resolved, Resolver};
pub use repo_id::{mirror_dir, parse_repo_id, RepoId};

verus! {

/// A failure of the blame engine.
#[derive(Debug, Clone, Copy, PartialEq, Eq, Structural)]
pub enum EngineError {
    /// The repository identity is not of the form `github-<owner>!<name>`.
    InvalidRepoId,
    /// The mirror could not be cloned.
    CloneFailed,
    /// The commit is not in the mirror, even after fetching the remotes.
    CommitNotFound,
    /// The file is not at the commit, or the blame does not cover its lines exactly.
    BlameFailed,
    /// The cache store could not be reached to look the request up.
    CacheStoreUnavailable,
}

} // verus!
