use vstd::prelude::*;

verus! {

/// GitHub's global node id of an object, a base64 text.
#[derive(Debug)]
pub struct GitHubNodeId(pub String);

/// The node id of a GitHub user.
#[derive(Debug)]
pub struct GitHubUserId(pub GitHubNodeId);

/// A signed-in GitHub user: who it is, and the access token the service holds
/// for it.
pub struct GitHubAuth {
    pub github_node_id: GitHubUserId,
    pub access_token: String,
}

} // verus!
